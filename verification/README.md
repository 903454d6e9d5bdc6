# lai

An AI agent that acts through alisp code: the model answers with text and
```` ```alisp ```` blocks, the agent runs the blocks under a security policy
and hands the results back, until the model answers without code.

## Layout

- `src/` — the verified library (Verus):
  - `text` — trimming, search, lines and decimal numerals over characters;
  - `pattern` — compiled regular expressions of the `regex` crate;
  - `security` — the policy: pre-flight checks of tool code, the reasons
    that call for a confirmation, the user's answer, audit lines, the bound
    on tool output;
  - `agent` — the conversation, its token budget, code blocks of a reply,
    skill loading into the system prompt, and the turn bound;
  - `skills` — the `.alisp` header format, JSON skills, order by name, the
    skill index;
  - `llm` — request messages, replies and the tokens of an event stream;
  - `config`, `memory`, `hotreload` — settings, the memory database code,
    which file events concern skills.
- `app/` — the program: terminal, files, HTTP backends, the alisp
  evaluator and the loop that drives the agent.
- `tests/` — tests of the library.
