//! The agent's conversation state and the decisions of its loop: the
//! system prompt built from the skills, the context kept within its token
//! budget, the code blocks taken from a reply, and the turn bound. Asking
//! the model and running the tools are left to the caller, which hands the
//! results back.
use crate::config::AgentConfig;
use crate::llm::{message_views, Message, Role};
use crate::memory::{init_text, MemoryManager};
use crate::security::{bounded_output, SecurityConfig, SecurityPolicy};
use crate::skills::{skill_index_text, skill_views, Skill, SkillView};
use crate::text::{
    chars_of, concat, find, find_chars, owned, push_decimal, slice_chars, string_of, trim,
    trim_chars, trim_str, views, decimal,
};
use vstd::prelude::*;
use vstd::string::StringSliceAdditionalSpecFns;
use vstd::utf8::{encode_utf8, is_char_boundary};

verus! {

// ---------------------------------------------------------------------------
// Tokens
// ---------------------------------------------------------------------------
/// The rough token count of a text: a quarter of its UTF-8 length.
pub open spec fn tokens(s: Seq<char>) -> nat {
    encode_utf8(s).len() / 4
}

/// Rough token estimate: about four bytes per token of English text.
pub fn estimate_tokens(text: &str) -> (r: usize)
    ensures
        r == tokens(text@),
{
    text.as_bytes().len() / 4
}

pub open spec fn total_tokens(h: Seq<(Role, Seq<char>)>) -> nat
    decreases h.len(),
{
    if h.len() == 0 {
        0
    } else {
        total_tokens(h.drop_last()) + tokens(h.last().1)
    }
}

pub proof fn lemma_total_update(h: Seq<(Role, Seq<char>)>, i: int, x: (Role, Seq<char>))
    requires
        0 <= i < h.len(),
    ensures
        total_tokens(h.update(i, x)) + tokens(h[i].1) == total_tokens(h) + tokens(x.1),
        tokens(h[i].1) <= total_tokens(h),
    decreases h.len(),
{
    if i == h.len() - 1 {
        assert(h.update(i, x).drop_last() =~= h.drop_last());
    } else {
        assert(h.update(i, x).drop_last() =~= h.drop_last().update(i, x));
        lemma_total_update(h.drop_last(), i, x);
    }
}

pub proof fn lemma_total_push(h: Seq<(Role, Seq<char>)>, x: (Role, Seq<char>))
    ensures
        total_tokens(h.push(x)) == total_tokens(h) + tokens(x.1),
{
    assert(h.push(x).drop_last() =~= h);
}

fn total_tokens_of(messages: &Vec<Message>) -> (r: u128)
    ensures
        r == total_tokens(message_views(messages@)),
        r <= messages@.len() * 0x1_0000_0000_0000_0000,
{
    let ghost h = message_views(messages@);
    let mut acc: u128 = 0;
    let mut i: usize = 0;
    while i < messages.len()
        invariant
            i <= messages@.len(),
            h == message_views(messages@),
            acc == total_tokens(h.take(i as int)),
            acc <= i * 0x1_0000_0000_0000_0000,
        decreases messages.len() - i,
    {
        proof {
            assert(h.take(i + 1).drop_last() =~= h.take(i as int));
        }
        let t = estimate_tokens(messages[i].content.as_str());
        acc = acc + t as u128;
        i = i + 1;
    }
    assert(h.take(messages@.len() as int) =~= h);
    acc
}

// ---------------------------------------------------------------------------
// Keeping the context within budget
// ---------------------------------------------------------------------------
/// What an early user message is replaced by.
pub open spec fn shortened(t: nat) -> Seq<char> {
    "[Earlier message truncated ("@ + decimal(t) + " tokens)]"@
}

/// What the second message is replaced by when the context is still over
/// budget.
pub open spec fn shortened_all(t: nat) -> Seq<char> {
    "[Earlier messages truncated ("@ + decimal(t) + " tokens)]"@
}

/// The second message's text once the shortening ends, starting from `c`,
/// with `rest` tokens in the other messages; `None` where the shortening
/// reaches a text that it keeps replacing by itself while still over budget,
/// so that it never ends.
pub open spec fn settle(c: Seq<char>, rest: int, max: nat, fuel: nat) -> Option<Seq<char>>
    decreases fuel,
{
    if rest + tokens(c) <= max {
        Some(c)
    } else if fuel == 0 || shortened(tokens(c)) == c {
        None
    } else {
        settle(shortened(tokens(c)), rest, max, (fuel - 1) as nat)
    }
}

/// The first pass: while over budget, the second message, if the user's,
/// is replaced by a short note of its size.
pub open spec fn first_pass(h: Seq<(Role, Seq<char>)>, max: nat) -> Option<
    Seq<(Role, Seq<char>)>,
> {
    if h.len() > 2 && h[1].0 == Role::User {
        match settle(h[1].1, total_tokens(h) - tokens(h[1].1), max, 4) {
            Some(c) => Some(h.update(1, (Role::User, c))),
            None => None,
        }
    } else {
        Some(h)
    }
}

/// The second pass: still over budget with more than three messages, the
/// second message is replaced by a note whatever its role.
pub open spec fn second_pass(h: Seq<(Role, Seq<char>)>, max: nat) -> Seq<(Role, Seq<char>)> {
    if total_tokens(h) > max && h.len() > 3 {
        h.update(1, (Role::User, shortened_all(tokens(h[1].1))))
    } else {
        h
    }
}

/// The truncation of `h` to `max` tokens ends.
pub open spec fn truncation_ends(h: Seq<(Role, Seq<char>)>, max: nat) -> bool {
    first_pass(h, max) is Some
}

/// The conversation after truncation to `max` tokens.
pub open spec fn truncated(h: Seq<(Role, Seq<char>)>, max: nat) -> Seq<(Role, Seq<char>)> {
    second_pass(first_pass(h, max)->0, max)
}

/// A conversation that already fits the token budget is left as it is:
/// truncation ends at once and changes nothing.
pub proof fn law_fitting_context_untouched(h: Seq<(Role, Seq<char>)>, max: nat)
    requires
        total_tokens(h) <= max,
    ensures
        truncation_ends(h, max),
        truncated(h, max) == h,
{
    if h.len() > 2 && h[1].0 == Role::User {
        lemma_total_update(h, 1, h[1]);
        assert(h.update(1, (Role::User, h[1].1)) =~= h);
    }
}

proof fn lemma_settle_form(c: Seq<char>, rest: int, max: nat, fuel: nat)
    ensures
        settle(c, rest, max, fuel) matches Some(d) ==> d == c || exists|n: nat| d == shortened(n),
    decreases fuel,
{
    if !(rest + tokens(c) <= max) && !(fuel == 0 || shortened(tokens(c)) == c) {
        let next = shortened(tokens(c));
        lemma_settle_form(next, rest, max, (fuel - 1) as nat);
        if settle(c, rest, max, fuel) is Some {
            let d = settle(c, rest, max, fuel)->0;
            if d == next {
                assert(d == shortened(tokens(c)));
            }
        }
    }
}

/// Where truncation changes the conversation, it was over the token budget,
/// and the second message becomes a note of the form
/// `[Earlier message truncated (N tokens)]` or
/// `[Earlier messages truncated (N tokens)]`.
pub proof fn law_truncation_only_over_budget(h: Seq<(Role, Seq<char>)>, max: nat)
    requires
        truncation_ends(h, max),
        truncated(h, max) != h,
    ensures
        total_tokens(h) > max,
        h.len() > 2,
        exists|n: nat|
            truncated(h, max)[1].1 == "[Earlier message truncated ("@ + decimal(n) + " tokens)]"@
                || truncated(h, max)[1].1 == "[Earlier messages truncated ("@ + decimal(n)
                + " tokens)]"@,
{
    if total_tokens(h) <= max {
        law_fitting_context_untouched(h, max);
    }
    let f = first_pass(h, max)->0;
    if total_tokens(f) > max && f.len() > 3 {
        let n = tokens(f[1].1);
        assert(truncated(h, max)[1].1 == shortened_all(n));
    } else {
        assert(truncated(h, max) == f);
        assert(h.len() > 2 && h[1].0 == Role::User);
        let rest = total_tokens(h) - tokens(h[1].1);
        lemma_settle_form(h[1].1, rest, max, 4);
        let c = settle(h[1].1, rest, max, 4)->0;
        if c == h[1].1 {
            assert(h.update(1, (Role::User, c)) =~= h);
        }
        let n = choose|n: nat| c == shortened(n);
        assert(truncated(h, max)[1].1 == shortened(n));
    }
}

/// Truncation never adds or drops a message, and changes none but the
/// second: the system prompt always stays first.
pub proof fn law_truncation_touches_only_second(h: Seq<(Role, Seq<char>)>, max: nat)
    requires
        truncation_ends(h, max),
        h.len() >= 1,
    ensures
        truncated(h, max).len() == h.len(),
        forall|i: int| 0 <= i < h.len() && i != 1 ==> #[trigger] truncated(h, max)[i] == h[i],
{
}

proof fn lemma_settle_within(c: Seq<char>, rest: int, max: nat, fuel: nat)
    requires
        settle(c, rest, max, fuel) is Some,
    ensures
        rest + tokens(settle(c, rest, max, fuel)->0) <= max,
    decreases fuel,
{
    if rest + tokens(c) > max {
        lemma_settle_within(shortened(tokens(c)), rest, max, (fuel - 1) as nat);
    }
}

/// When truncation ends on a conversation whose second message is the
/// user's, the conversation fits the token budget afterwards.
pub proof fn law_truncation_fits_budget(h: Seq<(Role, Seq<char>)>, max: nat)
    requires
        truncation_ends(h, max),
        h.len() > 2,
        h[1].0 == Role::User,
    ensures
        total_tokens(truncated(h, max)) <= max,
{
    let rest = total_tokens(h) - tokens(h[1].1);
    lemma_total_update(h, 1, h[1]);
    lemma_settle_within(h[1].1, rest, max, 4);
    let c = settle(h[1].1, rest, max, 4)->0;
    lemma_total_update(h, 1, (Role::User, c));
}

fn shortened_text(t: usize) -> (r: String)
    ensures
        r@ == shortened(t as nat),
{
    let mut text = owned("[Earlier message truncated (");
    push_decimal(&mut text, t as u64);
    text.append(" tokens)]");
    text
}

/// Whether the shortening that starts from `c` ends.
fn settles(c: &str, rest: u128, max: usize) -> (r: bool)
    ensures
        r == settle(c@, rest as int, max as nat, 4) is Some,
{
    let mut cur = owned(c);
    let mut fuel: u32 = 4;
    loop
        invariant
            fuel <= 4,
            settle(cur@, rest as int, max as nat, fuel as nat) == settle(
                c@,
                rest as int,
                max as nat,
                4,
            ),
        decreases fuel,
    {
        let t = estimate_tokens(cur.as_str());
        if (t as u128) <= (max as u128) && rest <= (max as u128) - (t as u128) {
            return true;
        }
        let next = shortened_text(t);
        if fuel == 0 || next == cur {
            return false;
        }
        cur = next;
        fuel = fuel - 1;
    }
}

/// Truncates `messages` to `max` tokens as the agent does before each run.
fn truncate_messages(messages: &mut Vec<Message>, max: usize)
    requires
        truncation_ends(message_views(old(messages)@), max as nat),
    ensures
        message_views(final(messages)@) == truncated(message_views(old(messages)@), max as nat),
{
    let ghost h0 = message_views(messages@);
    if messages.len() > 2 && messages[1].role == Role::User {
        let ghost rest: int = total_tokens(h0) - tokens(h0[1].1);
        let ghost target = settle(h0[1].1, rest, max as nat, 4);
        let ghost mut fuel: nat = 4;
        proof {
            lemma_total_update(h0, 1, h0[1]);
            assert(h0.update(1, (Role::User, h0[1].1)) =~= h0);
        }
        while total_tokens_of(messages) > max as u128
            invariant
                h0.len() > 2,
                messages@.len() == h0.len(),
                message_views(messages@) == h0.update(1, (Role::User, messages@[1].content@)),
                target is Some,
                settle(messages@[1].content@, rest, max as nat, fuel) == target,
                rest == total_tokens(h0) - tokens(h0[1].1),
            decreases fuel,
        {
            proof {
                lemma_total_update(h0, 1, (Role::User, messages@[1].content@));
            }
            let ghost pre = messages@;
            let removed = messages.remove(1);
            let t = estimate_tokens(removed.content.as_str());
            let text = shortened_text(t);
            let m = Message::new(Role::User, text);
            let ghost mv = m;
            messages.insert(1, m);
            proof {
                fuel = (fuel - 1) as nat;
                assert(messages@ =~= pre.update(1, mv));
                assert(message_views(pre.update(1, mv)) =~= message_views(pre).update(1, mv@));
                assert(message_views(messages@) =~= h0.update(1, (Role::User, messages@[1].content@)));
            }
        }
        proof {
            lemma_total_update(h0, 1, (Role::User, messages@[1].content@));
        }
    }
    let ghost h1 = message_views(messages@);
    assert(first_pass(h0, max as nat) == Some(h1));
    if total_tokens_of(messages) > max as u128 && messages.len() > 3 {
        let ghost pre = messages@;
        let removed = messages.remove(1);
        let t = estimate_tokens(removed.content.as_str());
        let mut text = owned("[Earlier messages truncated (");
        push_decimal(&mut text, t as u64);
        text.append(" tokens)]");
        let m = Message::new(Role::User, text);
        let ghost mv = m;
        messages.insert(1, m);
        assert(messages@ =~= pre.update(1, mv));
        assert(message_views(pre.update(1, mv)) =~= message_views(pre).update(1, mv@));
        assert(message_views(messages@) =~= h1.update(1, (Role::User, shortened_all(tokens(h1[1].1)))));
    }
}

// ---------------------------------------------------------------------------
// Code blocks of a reply
// ---------------------------------------------------------------------------
/// The code of the ```` ```alisp ```` blocks of `s`, trimmed, empty ones
/// left out; a block without its closing fence ends the search.
pub open spec fn alisp_blocks(s: Seq<char>) -> Seq<Seq<char>>
    decreases s.len(),
{
    match find(s, "```alisp"@) {
        None => seq![],
        Some(start) => {
            let after = start + 8;
            if 0 <= start && after <= s.len() {
                let tail = s.subrange(after, s.len() as int);
                match find(tail, "```"@) {
                    None => seq![],
                    Some(end) => {
                        if 0 <= end && end + 3 <= tail.len() {
                            let code = trim(tail.subrange(0, end));
                            let rest = tail.subrange(end + 3, tail.len() as int);
                            (if code.len() > 0 {
                                seq![code]
                            } else {
                                seq![]
                            }) + alisp_blocks(rest)
                        } else {
                            seq![]
                        }
                    },
                }
            } else {
                seq![]
            }
        },
    }
}

pub fn extract_alisp_blocks(text: &str) -> (r: Vec<String>)
    ensures
        views(r@) == alisp_blocks(text@),
{
    let open = chars_of("```alisp");
    let close = chars_of("```");
    proof {
        reveal_strlit("```alisp");
        reveal_strlit("```");
    }
    let mut blocks: Vec<String> = Vec::new();
    let mut remaining = chars_of(text);
    proof {
        crate::text::lemma_find_contains(remaining@, open@);
    }
    assert(views(blocks@) + alisp_blocks(remaining@) =~= alisp_blocks(text@));
    loop
        invariant
            open@ == "```alisp"@,
            close@ == "```"@,
            open@.len() == 8,
            close@.len() == 3,
            views(blocks@) + alisp_blocks(remaining@) == alisp_blocks(text@),
        decreases remaining@.len(),
    {
        proof {
            crate::text::lemma_find_contains(remaining@, open@);
        }
        match find_chars(&remaining, &open) {
            None => {
                assert(views(blocks@) =~= alisp_blocks(text@));
                return blocks;
            },
            Some(start) => {
                let rlen = remaining.len();
                assert(start + 8 <= rlen);
                let after = start + open.len();
                let tail = slice_chars(&remaining, after, remaining.len());
                proof {
                    crate::text::lemma_find_contains(tail@, close@);
                }
                match find_chars(&tail, &close) {
                    None => {
                        assert(views(blocks@) =~= alisp_blocks(text@));
                        return blocks;
                    },
                    Some(end) => {
                        assert(end + 3 <= tail@.len());
                        let code = trim_chars(&slice_chars(&tail, 0, end));
                        let ghost before = views(blocks@);
                        if code.len() > 0 {
                            blocks.push(string_of(&code));
                        }
                        let rest = slice_chars(&tail, end + close.len(), tail.len());
                        proof {
                            assert(views(blocks@) =~= before + (if code@.len() > 0 {
                                seq![code@]
                            } else {
                                seq![]
                            }));
                        }
                        remaining = rest;
                    },
                }
            },
        }
    }
}

// ---------------------------------------------------------------------------
// Skills in the system prompt
// ---------------------------------------------------------------------------
/// The prompts the skills add to the system prompt.
pub open spec fn skill_prompts(skills: Seq<SkillView>) -> Seq<char>
    decreases skills.len(),
{
    if skills.len() == 0 {
        seq![]
    } else {
        skill_prompts(skills.drop_last()) + (if skills.last().prompt.len() > 0 {
            "\n\n"@ + skills.last().prompt
        } else {
            seq![]
        })
    }
}

/// The names of the loaded skills once `skills` are loaded after `loaded`.
pub open spec fn with_names(loaded: Seq<Seq<char>>, skills: Seq<SkillView>) -> Seq<Seq<char>>
    decreases skills.len(),
{
    if skills.len() == 0 {
        loaded
    } else {
        let l = with_names(loaded, skills.drop_last());
        if l.contains(skills.last().name) {
            l
        } else {
            l.push(skills.last().name)
        }
    }
}

/// The positions in `skills` of the skills that are new after `loaded`.
pub open spec fn fresh_skills(loaded: Seq<Seq<char>>, skills: Seq<SkillView>) -> Seq<int>
    decreases skills.len(),
{
    if skills.len() == 0 {
        seq![]
    } else {
        let f = fresh_skills(loaded, skills.drop_last());
        if with_names(loaded, skills.drop_last()).contains(skills.last().name) {
            f
        } else {
            f.push(skills.len() - 1)
        }
    }
}

/// The prompts of the skills that are new after `loaded`.
pub open spec fn fresh_prompts(loaded: Seq<Seq<char>>, skills: Seq<SkillView>) -> Seq<char>
    decreases skills.len(),
{
    if skills.len() == 0 {
        seq![]
    } else {
        let p = fresh_prompts(loaded, skills.drop_last());
        if with_names(loaded, skills.drop_last()).contains(skills.last().name)
            || skills.last().prompt.len() == 0 {
            p
        } else {
            p + "\n\n"@ + skills.last().prompt
        }
    }
}

/// The system prompt without its skill index.
pub open spec fn without_index(sys: Seq<char>) -> Seq<char> {
    match find(sys, "\n## Available Skills"@) {
        Some(p) => if 0 <= p <= sys.len() {
            sys.subrange(0, p)
        } else {
            sys
        },
        None => sys,
    }
}

pub proof fn lemma_with_names_keeps(loaded: Seq<Seq<char>>, skills: Seq<SkillView>)
    requires
        loaded.no_duplicates(),
    ensures
        with_names(loaded, skills).no_duplicates(),
        forall|n: Seq<char>| loaded.contains(n) ==> #[trigger] with_names(loaded, skills).contains(
            n,
        ),
    decreases skills.len(),
{
    if skills.len() > 0 {
        lemma_with_names_keeps(loaded, skills.drop_last());
        let l = with_names(loaded, skills.drop_last());
        if !l.contains(skills.last().name) {
            assert forall|n: Seq<char>| l.contains(n) implies #[trigger] l.push(
                skills.last().name,
            ).contains(n) by {
                let k = choose|k: int| 0 <= k < l.len() && l[k] == n;
                assert(l.push(skills.last().name)[k] == n);
            }
        }
    }
}

fn has_name(names: &Vec<String>, name: &str) -> (r: bool)
    ensures
        r == views(names@).contains(name@),
{
    let ghost nv = views(names@);
    let target = owned(name);
    let mut i: usize = 0;
    while i < names.len()
        invariant
            i <= names@.len(),
            nv == views(names@),
            target@ == name@,
            forall|j: int| 0 <= j < i ==> nv[j] != name@,
        decreases names.len() - i,
    {
        if names[i] == target {
            assert(nv[i as int] == name@);
            return true;
        }
        i = i + 1;
    }
    false
}

// ---------------------------------------------------------------------------
// Start-up code
// ---------------------------------------------------------------------------
/// A piece of code to run as the agent starts, with what it belongs to.
#[derive(Debug)]
pub enum InitStep {
    /// The memory database's initialization.
    Memory(String),
    /// The initialization of the skill of this name.
    Skill(String, String),
}

/// What a start-up step is: the skill it belongs to, if any, and its code.
pub open spec fn init_view(st: InitStep) -> (Option<Seq<char>>, Seq<char>) {
    match st {
        InitStep::Memory(c) => (None, c@),
        InitStep::Skill(n, c) => (Some(n@), c@),
    }
}

/// The skills of `s` that have initialization code, each by its name and
/// that code, in order.
pub open spec fn skill_inits(s: Seq<SkillView>) -> Seq<(Option<Seq<char>>, Seq<char>)>
    decreases s.len(),
{
    if s.len() == 0 {
        seq![]
    } else if s.last().init_code.len() > 0 {
        skill_inits(s.drop_last()).push((Some(s.last().name), s.last().init_code))
    } else {
        skill_inits(s.drop_last())
    }
}

/// The code to run as the agent starts: the memory database's
/// initialization first, then that of each skill that has any, in order.
pub fn init_codes(memory: &MemoryManager, skills: &[Skill]) -> (r: Vec<InitStep>)
    ensures
        r@.map_values(|st: InitStep| init_view(st)) == seq![(None::<Seq<char>>, init_text(memory.db_path@))]
            + skill_inits(skill_views(skills@)),
{
    let ghost sv = skill_views(skills@);
    let ghost head = seq![(None::<Seq<char>>, init_text(memory.db_path@))];
    let mut r: Vec<InitStep> = Vec::new();
    r.push(InitStep::Memory(memory.init_code()));
    assert(r@.map_values(|st: InitStep| init_view(st)) =~= head + skill_inits(sv.take(0)));
    let mut i: usize = 0;
    while i < skills.len()
        invariant
            i <= skills@.len(),
            sv == skill_views(skills@),
            head == seq![(None::<Seq<char>>, init_text(memory.db_path@))],
            r@.map_values(|st: InitStep| init_view(st)) == head + skill_inits(sv.take(i as int)),
        decreases skills.len() - i,
    {
        proof {
            assert(sv.take(i + 1).drop_last() =~= sv.take(i as int));
            assert(sv.take(i + 1).last() == skills@[i as int]@);
        }
        let ghost before = r@.map_values(|st: InitStep| init_view(st));
        let skill = &skills[i];
        assert(skill@ == sv[i as int]);
        if !skill.init_code.as_str().is_empty() {
            r.push(InitStep::Skill(owned(skill.name.as_str()), owned(skill.init_code.as_str())));
            assert(r@.map_values(|st: InitStep| init_view(st)) =~= before.push(
                (Some(skill.name@), skill.init_code@),
            ));
        } else {
            assert(r@.map_values(|st: InitStep| init_view(st)) =~= before);
        }
        i = i + 1;
        assert(r@.map_values(|st: InitStep| init_view(st)) =~= head + skill_inits(sv.take(i as int)));
    }
    assert(sv.take(skills@.len() as int) =~= sv);
    r
}

// ---------------------------------------------------------------------------
// The agent
// ---------------------------------------------------------------------------
/// What the agent makes of a reply of the model.
#[derive(Debug)]
pub enum Reply {
    /// The run is over, with this answer.
    Finished(String),
    /// The reply holds code: run these blocks and hand back their output.
    RunTools(Vec<String>),
}

/// The text a tool run contributes: its value, or its error.
pub open spec fn tool_result_text(r: Result<String, String>) -> Seq<char> {
    match r {
        Ok(v) => v@,
        Err(e) => "error: "@ + e@,
    }
}

/// The tool message made of the outputs of a turn's code blocks, each
/// bounded and fenced.
pub open spec fn tool_block(outputs: Seq<Seq<char>>, max: nat) -> Seq<char>
    decreases outputs.len(),
{
    if outputs.len() == 0 {
        seq![]
    } else {
        tool_block(outputs.drop_last(), max) + "```\n"@ + bounded_output(outputs.last(), max)
            + "\n```\n"@
    }
}

/// Cutting `s` at `max` bytes, where it is longer, falls between characters.
pub open spec fn cut_ok(s: Seq<char>, max: nat) -> bool {
    encode_utf8(s).len() > max ==> is_char_boundary(encode_utf8(s), max as int)
}

pub struct Agent {
    messages: Vec<Message>,
    policy: SecurityPolicy,
    max_turns: u32,
    max_context_tokens: usize,
    loaded_skills: Vec<String>,
    turns: u32,
}

impl Agent {
    #[verifier::type_invariant]
    spec fn well_formed(self) -> bool {
        &&& self.messages@.len() >= 1
        &&& self.messages@[0].role == Role::System
        &&& views(self.loaded_skills@).no_duplicates()
        &&& self.turns <= self.max_turns
    }

    /// The conversation: the system prompt first.
    pub closed spec fn history(&self) -> Seq<(Role, Seq<char>)> {
        message_views(self.messages@)
    }

    /// The names of the skills loaded so far.
    pub closed spec fn loaded(&self) -> Seq<Seq<char>> {
        views(self.loaded_skills@)
    }

    pub closed spec fn max_turns(&self) -> nat {
        self.max_turns as nat
    }

    pub closed spec fn max_context_tokens(&self) -> nat {
        self.max_context_tokens as nat
    }

    /// The turns taken in the current run.
    pub closed spec fn turns(&self) -> nat {
        self.turns as nat
    }

    /// The configuration of the policy that bounds tool output.
    pub closed spec fn security(&self) -> SecurityConfig {
        self.policy.config()
    }

    /// Takes the messages out, leaving only an empty system prompt behind.
    fn take_messages(&mut self) -> (r: Vec<Message>)
        ensures
            r@ == old(self).messages@,
            final(self).loaded_skills == old(self).loaded_skills,
            final(self).policy == old(self).policy,
            final(self).max_turns == old(self).max_turns,
            final(self).max_context_tokens == old(self).max_context_tokens,
            final(self).turns == old(self).turns,
    {
        proof {
            use_type_invariant(&*self);
        }
        let mut m: Vec<Message> = Vec::new();
        m.push(Message::new(Role::System, String::new()));
        std::mem::swap(&mut m, &mut self.messages);
        m
    }

    /// Takes the loaded names out, leaving none behind.
    fn take_loaded(&mut self) -> (r: Vec<String>)
        ensures
            r@ == old(self).loaded_skills@,
            final(self).messages == old(self).messages,
            final(self).policy == old(self).policy,
            final(self).max_turns == old(self).max_turns,
            final(self).max_context_tokens == old(self).max_context_tokens,
            final(self).turns == old(self).turns,
    {
        proof {
            use_type_invariant(&*self);
        }
        let mut l: Vec<String> = Vec::new();
        std::mem::swap(&mut l, &mut self.loaded_skills);
        l
    }

    /// A new agent. Its system prompt is `system_prompt`, then the prompts
    /// of the skills, then their index. Running the skills' and the
    /// memory's initialization code is the caller's.
    pub fn new(config: AgentConfig, security: SecurityConfig, skills: &[Skill], system_prompt: &str) -> (r: Agent)
        ensures
            r.history() == seq![
                (
                    Role::System,
                    system_prompt@ + skill_prompts(skill_views(skills@)) + skill_index_text(
                        skill_views(skills@),
                    ),
                ),
            ],
            r.loaded() == with_names(seq![], skill_views(skills@)),
            r.max_turns() == config.max_turns,
            r.max_context_tokens() == config.max_context_tokens,
            r.turns() == 0,
            r.security() == security,
            r.loaded().no_duplicates(),
    {
        let ghost sv = skill_views(skills@);
        let policy = SecurityPolicy::new(security);
        let mut prompt = owned(system_prompt);
        let mut loaded: Vec<String> = Vec::new();
        let mut i: usize = 0;
        while i < skills.len()
            invariant
                i <= skills@.len(),
                sv == skill_views(skills@),
                prompt@ == system_prompt@ + skill_prompts(sv.take(i as int)),
                views(loaded@) == with_names(seq![], sv.take(i as int)),
            decreases skills.len() - i,
        {
            proof {
                assert(sv.take(i + 1).drop_last() =~= sv.take(i as int));
                assert(sv.take(i + 1).last() == skills@[i as int]@);
            }
            let skill = &skills[i];
            if !has_name(&loaded, skill.name.as_str()) {
                let ghost before = views(loaded@);
                loaded.push(owned(skill.name.as_str()));
                assert(views(loaded@) =~= before.push(skill.name@));
            }
            if !skill.prompt.as_str().is_empty() {
                prompt.append("\n\n");
                prompt.append(skill.prompt.as_str());
            }
            i = i + 1;
        }
        proof {
            assert(sv.take(skills@.len() as int) =~= sv);
            lemma_with_names_keeps(seq![], sv);
        }
        let index = Skill::skill_index(skills);
        prompt.append(index.as_str());
        let mut messages: Vec<Message> = Vec::new();
        messages.push(Message::new(Role::System, prompt));
        let r = Agent {
            messages,
            policy,
            max_turns: config.max_turns,
            max_context_tokens: config.max_context_tokens,
            loaded_skills: loaded,
            turns: 0,
        };
        assert(r.history() =~= seq![
            (Role::System, system_prompt@ + skill_prompts(sv) + skill_index_text(sv)),
        ]);
        r
    }

    /// The conversation, for the model.
    pub fn messages(&self) -> (r: &Vec<Message>)
        ensures
            message_views(r@) == self.history(),
    {
        &self.messages
    }

    /// The number of skills loaded so far.
    pub fn loaded_count(&self) -> (r: usize)
        ensures
            r == self.loaded().len(),
    {
        self.loaded_skills.len()
    }

    /// Loads the skills not loaded yet: their prompts go into the system
    /// prompt and the skill index is rebuilt from `skills`. Returns the
    /// positions of the new skills, whose initialization code the caller
    /// runs.
    pub fn refresh_skills(&mut self, skills: &[Skill]) -> (r: Vec<usize>)
        ensures
            r@.map_values(|k: usize| k as int) == fresh_skills(
                old(self).loaded(),
                skill_views(skills@),
            ),
            final(self).loaded() == with_names(old(self).loaded(), skill_views(skills@)),
            final(self).history() == (if r@.len() > 0 {
                old(self).history().update(
                    0,
                    (
                        Role::System,
                        without_index(old(self).history()[0].1) + fresh_prompts(
                            old(self).loaded(),
                            skill_views(skills@),
                        ) + skill_index_text(skill_views(skills@)),
                    ),
                )
            } else {
                old(self).history()
            }),
            final(self).max_turns() == old(self).max_turns(),
            final(self).max_context_tokens() == old(self).max_context_tokens(),
            final(self).turns() == old(self).turns(),
            final(self).security() == old(self).security(),
            final(self).history().len() >= 1,
            final(self).history()[0].0 == Role::System,
            final(self).loaded().no_duplicates(),
    {
        proof {
            use_type_invariant(&*self);
        }
        let ghost sv = skill_views(skills@);
        let ghost l0 = views(self.loaded_skills@);
        let mut loaded = self.take_loaded();
        let mut fresh: Vec<usize> = Vec::new();
        let mut text = String::new();
        let mut i: usize = 0;
        while i < skills.len()
            invariant
                i <= skills@.len(),
                sv == skill_views(skills@),
                l0.no_duplicates(),
                views(loaded@) == with_names(l0, sv.take(i as int)),
                fresh@.map_values(|k: usize| k as int) == fresh_skills(l0, sv.take(i as int)),
                text@ == fresh_prompts(l0, sv.take(i as int)),
            decreases skills.len() - i,
        {
            proof {
                assert(sv.take(i + 1).drop_last() =~= sv.take(i as int));
                assert(sv.take(i + 1).last() == skills@[i as int]@);
                lemma_with_names_keeps(l0, sv.take(i as int));
            }
            let skill = &skills[i];
            if !has_name(&loaded, skill.name.as_str()) {
                let ghost before = views(loaded@);
                let ghost fbefore = fresh@;
                loaded.push(owned(skill.name.as_str()));
                fresh.push(i);
                assert(views(loaded@) =~= before.push(skill.name@));
                assert(fresh@.map_values(|k: usize| k as int) =~= fbefore.map_values(
                    |k: usize| k as int,
                ).push(i as int));
                if !skill.prompt.as_str().is_empty() {
                    text.append("\n\n");
                    text.append(skill.prompt.as_str());
                }
            }
            i = i + 1;
        }
        proof {
            assert(sv.take(skills@.len() as int) =~= sv);
            lemma_with_names_keeps(l0, sv);
        }
        self.loaded_skills = loaded;
        if fresh.len() > 0 {
            let index = Skill::skill_index(skills);
            let sys = chars_of(self.messages[0].content.as_str());
            let marker = chars_of("\n## Available Skills");
            let kept = match find_chars(&sys, &marker) {
                Some(pos) => {
                    proof {
                        crate::text::lemma_find_from(sys@, marker@, 0);
                    }
                    slice_chars(&sys, 0, pos)
                },
                None => sys,
            };
            let mut content = string_of(&kept);
            content.append(text.as_str());
            content.append(index.as_str());
            let mut messages = self.take_messages();
            messages.set(0, Message::new(Role::System, content));
            self.messages = messages;
        }
        fresh
    }

    /// Begins a run with the user's input: the input joins the conversation,
    /// which is then truncated to the token budget.
    pub fn begin_run(&mut self, user_input: &str)
        requires
            truncation_ends(
                old(self).history().push((Role::User, user_input@)),
                old(self).max_context_tokens(),
            ),
        ensures
            final(self).history() == truncated(
                old(self).history().push((Role::User, user_input@)),
                old(self).max_context_tokens(),
            ),
            final(self).turns() == 0,
            final(self).loaded() == old(self).loaded(),
            final(self).max_turns() == old(self).max_turns(),
            final(self).max_context_tokens() == old(self).max_context_tokens(),
            final(self).security() == old(self).security(),
            final(self).history().len() >= 1,
            final(self).history()[0].0 == Role::System,
            final(self).loaded().no_duplicates(),
    {
        proof {
            use_type_invariant(&*self);
        }
        let ghost h0 = message_views(self.messages@);
        let mut messages = self.take_messages();
        messages.push(Message::new(Role::User, owned(user_input)));
        assert(message_views(messages@) =~= h0.push((Role::User, user_input@)));
        proof {
            law_truncation_touches_only_second(h0.push((Role::User, user_input@)), self.max_context_tokens as nat);
        }
        truncate_messages(&mut messages, self.max_context_tokens);
        assert(messages@[0].role == message_views(messages@)[0].0);
        self.messages = messages;
        self.turns = 0;
    }

    /// Whether `begin_run` with this input ends: the truncation does not
    /// keep replacing the second message by the same note forever.
    pub fn run_can_begin(&self, user_input: &str) -> (r: bool)
        ensures
            r == truncation_ends(
                self.history().push((Role::User, user_input@)),
                self.max_context_tokens(),
            ),
    {
        proof {
            use_type_invariant(self);
        }
        let ghost h = self.history().push((Role::User, user_input@));
        let n = self.messages.len();
        if n <= 1 {
            return true;
        }
        let total = total_tokens_of(&self.messages) + estimate_tokens(user_input) as u128;
        proof {
            lemma_total_push(self.history(), (Role::User, user_input@));
        }
        if n == 1 {
            return true;
        }
        if self.messages[1].role != Role::User {
            return true;
        }
        let second = self.messages[1].content.as_str();
        let t = estimate_tokens(second);
        proof {
            lemma_total_update(h, 1, h[1]);
        }
        settles(second, total - t as u128, self.max_context_tokens)
    }

    /// Begins a turn of the run, unless the run has taken all its turns.
    pub fn begin_turn(&mut self) -> (r: bool)
        ensures
            r == (old(self).turns() < old(self).max_turns()),
            final(self).turns() == (if r {
                old(self).turns() + 1
            } else {
                old(self).turns()
            }),
            final(self).history() == old(self).history(),
            final(self).loaded() == old(self).loaded(),
            final(self).max_turns() == old(self).max_turns(),
            final(self).max_context_tokens() == old(self).max_context_tokens(),
            final(self).security() == old(self).security(),
            final(self).history().len() >= 1,
            final(self).history()[0].0 == Role::System,
            final(self).loaded().no_duplicates(),
    {
        proof {
            use_type_invariant(&*self);
        }
        if self.turns < self.max_turns {
            self.turns = self.turns + 1;
            self.policy.start_turn();
            true
        } else {
            false
        }
    }

    /// Takes the model's reply: an empty reply ends the run with nothing;
    /// otherwise the reply joins the conversation, and its code blocks, if
    /// any, are to be run.
    pub fn take_response(&mut self, response: String) -> (r: Reply)
        ensures
            trim(response@).len() == 0 ==> final(self).history() == old(self).history() && (
            match r {
                Reply::Finished(t) => t@.len() == 0,
                Reply::RunTools(_) => false,
            }),
            trim(response@).len() != 0 ==> final(self).history() == old(self).history().push(
                (Role::Assistant, response@),
            ) && (match r {
                Reply::Finished(t) => t@ == response@ && alisp_blocks(response@).len() == 0,
                Reply::RunTools(b) => views(b@) == alisp_blocks(response@) && b@.len() > 0,
            }),
            final(self).turns() == old(self).turns(),
            final(self).loaded() == old(self).loaded(),
            final(self).max_turns() == old(self).max_turns(),
            final(self).max_context_tokens() == old(self).max_context_tokens(),
            final(self).security() == old(self).security(),
            final(self).history().len() >= 1,
            final(self).history()[0].0 == Role::System,
            final(self).loaded().no_duplicates(),
    {
        proof {
            use_type_invariant(&*self);
        }
        let t = trim_str(response.as_str());
        if t.as_str().is_empty() {
            return Reply::Finished(String::new());
        }
        let blocks = extract_alisp_blocks(response.as_str());
        let ghost before = message_views(self.messages@);
        let text = owned(response.as_str());
        let mut messages = self.take_messages();
        messages.push(Message::new(Role::Assistant, text));
        assert(message_views(messages@) =~= before.push((Role::Assistant, response@)));
        self.messages = messages;
        if blocks.len() == 0 {
            Reply::Finished(response)
        } else {
            Reply::RunTools(blocks)
        }
    }

    /// Whether the policy can bound this output: cutting it at the byte
    /// limit falls between characters.
    pub fn output_fits(&self, output: &str) -> (r: bool)
        ensures
            r == cut_ok(output@, self.security().max_output_bytes as nat),
    {
        let max = self.policy.security_config().max_output_bytes;
        output.as_bytes().len() <= max || output.is_char_boundary(max)
    }

    /// Takes the outputs of a turn's code blocks, in order: each is bounded
    /// by the policy and fenced, and together they join the conversation as
    /// the tool's message.
    pub fn take_tool_outputs(&mut self, outputs: &Vec<String>)
        requires
            forall|i: int|
                0 <= i < outputs@.len() ==> cut_ok(
                    #[trigger] outputs@[i]@,
                    old(self).security().max_output_bytes as nat,
                ),
        ensures
            final(self).history() == old(self).history().push(
                (
                    Role::Tool,
                    tool_block(views(outputs@), old(self).security().max_output_bytes as nat),
                ),
            ),
            final(self).turns() == old(self).turns(),
            final(self).loaded() == old(self).loaded(),
            final(self).max_turns() == old(self).max_turns(),
            final(self).max_context_tokens() == old(self).max_context_tokens(),
            final(self).security() == old(self).security(),
            final(self).history().len() >= 1,
            final(self).history()[0].0 == Role::System,
            final(self).loaded().no_duplicates(),
    {
        proof {
            use_type_invariant(&*self);
        }
        let ghost ov = views(outputs@);
        let ghost max = self.policy.config().max_output_bytes as nat;
        let mut text = String::new();
        let mut i: usize = 0;
        while i < outputs.len()
            invariant
                i <= outputs@.len(),
                ov == views(outputs@),
                max == self.policy.config().max_output_bytes,
                forall|j: int|
                    0 <= j < outputs@.len() ==> cut_ok(#[trigger] outputs@[j]@, max),
                text@ == tool_block(ov.take(i as int), max),
            decreases outputs.len() - i,
        {
            proof {
                assert(ov.take(i + 1).drop_last() =~= ov.take(i as int));
                assert(ov.take(i + 1).last() == outputs@[i as int]@);
                assert(cut_ok(outputs@[i as int]@, max));
            }
            let bounded = self.policy.check_output(outputs[i].as_str());
            text.append("```\n");
            text.append(bounded.as_str());
            text.append("\n```\n");
            i = i + 1;
        }
        assert(ov.take(outputs@.len() as int) =~= ov);
        let ghost before = message_views(self.messages@);
        let mut messages = self.take_messages();
        messages.push(Message::new(Role::Tool, text));
        assert(message_views(messages@) =~= before.push((Role::Tool, tool_block(ov, max))));
        self.messages = messages;
    }

    /// Drops the conversation but for the system prompt.
    pub fn clear_history(&mut self)
        ensures
            final(self).history() == old(self).history().take(1),
            final(self).turns() == old(self).turns(),
            final(self).loaded() == old(self).loaded(),
            final(self).max_turns() == old(self).max_turns(),
            final(self).max_context_tokens() == old(self).max_context_tokens(),
            final(self).security() == old(self).security(),
            final(self).history().len() >= 1,
            final(self).history()[0].0 == Role::System,
            final(self).loaded().no_duplicates(),
    {
        proof {
            use_type_invariant(&*self);
        }
        let ghost before = message_views(self.messages@);
        let mut messages = self.take_messages();
        messages.truncate(1);
        assert(message_views(messages@) =~= before.take(1));
        self.messages = messages;
    }
}

/// The text a tool run contributes to the tool message.
pub fn tool_output(result: &Result<String, String>) -> (r: String)
    ensures
        r@ == tool_result_text(*result),
{
    match result {
        Ok(v) => owned(v.as_str()),
        Err(e) => concat("error: ", e.as_str()),
    }
}

/// The error of a run that used all its turns.
pub fn turns_exhausted() -> (r: String)
    ensures
        r@ == "max turns exceeded"@,
{
    owned("max turns exceeded")
}

// ---------------------------------------------------------------------------
// When truncation never ends
// ---------------------------------------------------------------------------
/// The second message's text after `k` rounds of shortening from `c`.
pub open spec fn shortened_after(c: Seq<char>, k: nat) -> Seq<char>
    decreases k,
{
    if k == 0 {
        c
    } else {
        shortened(tokens(shortened_after(c, (k - 1) as nat)))
    }
}

pub open spec fn pow10(k: nat) -> nat
    decreases k,
{
    if k == 0 {
        1
    } else {
        10 * pow10((k - 1) as nat)
    }
}

proof fn lemma_decimal_len(n: nat, k: nat)
    requires
        1 <= k,
        n < pow10(k),
    ensures
        1 <= decimal(n).len() <= k,
    decreases k,
{
    if n >= 10 {
        if k == 1 {
            reveal_with_fuel(pow10, 2);
            assert(pow10(1) == 10);
        } else {
            let p = pow10((k - 1) as nat);
            assert(n / 10 < p) by (nonlinear_arith)
                requires
                    n < 10 * p,
            ;
            lemma_decimal_len(n / 10, (k - 1) as nat);
        }
    }
}

proof fn lemma_decimal_ascii(n: nat)
    ensures
        vstd::utf8::is_ascii_chars(decimal(n)),
    decreases n,
{
    if n >= 10 {
        lemma_decimal_ascii(n / 10);
        assert forall|i: int| 0 <= i < decimal(n).len() implies '\0' <= #[trigger] decimal(n)[i]
            <= '\u{7f}' by {
            if i < decimal(n / 10).len() {
                assert(decimal(n)[i] == decimal(n / 10)[i]);
            }
        }
    }
}

proof fn lemma_shortened_tokens(t: nat)
    ensures
        tokens(shortened(t)) == (37 + decimal(t).len()) / 4,
{
    reveal_strlit("[Earlier message truncated (");
    reveal_strlit(" tokens)]");
    lemma_decimal_ascii(t);
    let a = "[Earlier message truncated ("@;
    let b = " tokens)]"@;
    assert(vstd::utf8::is_ascii_chars(a));
    assert(vstd::utf8::is_ascii_chars(b));
    assert(vstd::utf8::is_ascii_chars(shortened(t))) by {
        assert forall|i: int| 0 <= i < shortened(t).len() implies '\0' <= #[trigger] shortened(t)[i]
            <= '\u{7f}' by {
            if i < a.len() {
                assert(shortened(t)[i] == a[i]);
            } else if i < a.len() + decimal(t).len() {
                assert(shortened(t)[i] == decimal(t)[i - a.len()]);
            } else {
                assert(shortened(t)[i] == b[i - a.len() - decimal(t).len()]);
            }
        }
    }
    vstd::utf8::is_ascii_chars_encode_utf8(shortened(t));
}

proof fn lemma_shortened_after_shift(c: Seq<char>, k: nat)
    ensures
        shortened_after(shortened(tokens(c)), k) == shortened_after(c, k + 1),
    decreases k,
{
    assert(shortened_after(c, 0) == c);
    assert(shortened_after(c, 1) == shortened(tokens(shortened_after(c, 0))));
    if k > 0 {
        lemma_shortened_after_shift(c, (k - 1) as nat);
        assert(shortened_after(c, k + 1) == shortened(tokens(shortened_after(c, k))));
    }
}

proof fn lemma_shortened_after_fixed(c: Seq<char>, k: nat)
    requires
        shortened(tokens(c)) == c,
    ensures
        shortened_after(c, k) == c,
    decreases k,
{
    if k > 0 {
        lemma_shortened_after_fixed(c, (k - 1) as nat);
    }
}

/// From any text a string can hold, three rounds of shortening reach the
/// note of nine tokens, which shortens to itself.
proof fn lemma_shortening_reaches_fixed_note(c: Seq<char>)
    requires
        encode_utf8(c).len() <= usize::MAX,
    ensures
        shortened_after(c, 3) == shortened(9),
        shortened(tokens(shortened(9))) == shortened(9),
{
    reveal_with_fuel(pow10, 20);
    assert(pow10(19) == 10000000000000000000nat);
    let t0 = tokens(c);
    lemma_decimal_len(t0, 19);
    lemma_shortened_tokens(t0);
    let t1 = tokens(shortened(t0));
    assert(9 <= t1 <= 14);
    assert(pow10(2) == 100);
    lemma_decimal_len(t1, 2);
    lemma_shortened_tokens(t1);
    let t2 = tokens(shortened(t1));
    assert(t2 == 9);
    assert(decimal(9).len() == 1);
    lemma_shortened_tokens(9);
    assert(shortened_after(c, 0) == c);
    assert(shortened_after(c, 1) == shortened(t0));
    assert(shortened_after(c, 2) == shortened(t1));
    assert(shortened_after(c, 3) == shortened(t2));
}

proof fn lemma_settle_none(c: Seq<char>, rest: int, max: nat, fuel: nat)
    requires
        settle(c, rest, max, fuel) is None,
        shortened(tokens(shortened_after(c, fuel))) == shortened_after(c, fuel),
    ensures
        forall|k: nat| rest + tokens(#[trigger] shortened_after(c, k)) > max,
    decreases fuel,
{
    if shortened(tokens(c)) == c {
        assert forall|k: nat| rest + tokens(#[trigger] shortened_after(c, k)) > max by {
            lemma_shortened_after_fixed(c, k);
        }
    } else if fuel == 0 {
    } else {
        let next = shortened(tokens(c));
        lemma_shortened_after_shift(c, (fuel - 1) as nat);
        lemma_settle_none(next, rest, max, (fuel - 1) as nat);
        assert forall|k: nat| rest + tokens(#[trigger] shortened_after(c, k)) > max by {
            if k > 0 {
                lemma_shortened_after_shift(c, (k - 1) as nat);
                assert(rest + tokens(shortened_after(next, (k - 1) as nat)) > max);
            }
        }
    }
}

/// Where truncation gives up (`settle` is `None`), the loop it models never
/// ends: every round of shortening leaves the context over budget, so the
/// same note would replace itself forever. Inputs on which the truncation
/// ends are exactly those `truncation_ends` admits.
pub proof fn law_truncation_stalls_for_good(c: Seq<char>, rest: int, max: nat)
    requires
        encode_utf8(c).len() <= usize::MAX,
        settle(c, rest, max, 4) is None,
    ensures
        forall|k: nat| rest + tokens(#[trigger] shortened_after(c, k)) > max,
{
    lemma_shortening_reaches_fixed_note(c);
    lemma_shortened_after_fixed(shortened(9), 1);
    lemma_shortened_after_shift(c, 3);
    assert(shortened_after(c, 4) == shortened(9)) by {
        assert(shortened_after(c, 4) == shortened(tokens(shortened_after(c, 3))));
    }
    lemma_settle_none(c, rest, max, 4);
}

// ---------------------------------------------------------------------------
// Laws of skill loading
// ---------------------------------------------------------------------------
/// After loading `skills`, every one of their names is loaded.
pub proof fn lemma_with_names_covers(loaded: Seq<Seq<char>>, skills: Seq<SkillView>)
    requires
        loaded.no_duplicates(),
    ensures
        forall|i: int| 0 <= i < skills.len() ==> with_names(loaded, skills).contains(
            #[trigger] skills[i].name,
        ),
    decreases skills.len(),
{
    if skills.len() > 0 {
        let init = skills.drop_last();
        lemma_with_names_covers(loaded, init);
        lemma_with_names_keeps(loaded, init);
        let l = with_names(loaded, init);
        assert forall|i: int| 0 <= i < skills.len() implies with_names(loaded, skills).contains(
            #[trigger] skills[i].name,
        ) by {
            if i < skills.len() - 1 {
                assert(init[i] == skills[i]);
                assert(l.contains(skills[i].name));
                if !l.contains(skills.last().name) {
                    let k = choose|k: int| 0 <= k < l.len() && l[k] == skills[i].name;
                    assert(l.push(skills.last().name)[k] == skills[i].name);
                }
            } else {
                if !l.contains(skills.last().name) {
                    assert(l.push(skills.last().name)[l.len() as int] == skills.last().name);
                }
            }
        }
    }
}

/// Skills whose names are all loaded change nothing.
pub proof fn lemma_loaded_skills_stay(loaded: Seq<Seq<char>>, skills: Seq<SkillView>)
    requires
        forall|i: int| 0 <= i < skills.len() ==> loaded.contains(#[trigger] skills[i].name),
    ensures
        with_names(loaded, skills) == loaded,
        fresh_skills(loaded, skills).len() == 0,
        fresh_prompts(loaded, skills).len() == 0,
    decreases skills.len(),
{
    if skills.len() > 0 {
        let init = skills.drop_last();
        assert forall|i: int| 0 <= i < init.len() implies loaded.contains(#[trigger] init[i].name) by {
            assert(init[i] == skills[i]);
        }
        lemma_loaded_skills_stay(loaded, init);
        assert(loaded.contains(skills[skills.len() - 1].name));
    }
}

/// Loading the same skills again loads nothing new and leaves the names,
/// and with them the system prompt, as they were.
pub proof fn law_refresh_is_idempotent(loaded: Seq<Seq<char>>, skills: Seq<SkillView>)
    requires
        loaded.no_duplicates(),
    ensures
        with_names(with_names(loaded, skills), skills) == with_names(loaded, skills),
        fresh_skills(with_names(loaded, skills), skills).len() == 0,
        fresh_prompts(with_names(loaded, skills), skills).len() == 0,
{
    lemma_with_names_covers(loaded, skills);
    lemma_loaded_skills_stay(with_names(loaded, skills), skills);
}

// ---------------------------------------------------------------------------
// Laws of code blocks
// ---------------------------------------------------------------------------
/// Trimming a trimmed text changes nothing.
pub proof fn lemma_trim_idempotent(s: Seq<char>)
    ensures
        trim(trim(s)) == trim(s),
{
    crate::text::lemma_trim_bounds(s);
    crate::text::lemma_skip_ws_bounds(s, 0);
    crate::text::lemma_back_ws_bounds(s, crate::text::trim_lo(s), s.len() as int);
    let t = trim(s);
    let lo = crate::text::trim_lo(s);
    let hi = crate::text::trim_hi(s);
    if t.len() > 0 {
        assert(t[0] == s[lo]);
        assert(t[t.len() - 1] == s[hi - 1]);
        assert(crate::text::skip_ws(t, 0) == 0);
        assert(crate::text::back_ws(t, 0, t.len() as int) == t.len());
        assert(t.subrange(0, t.len() as int) =~= t);
    } else {
        assert(crate::text::skip_ws(t, 0) == 0);
        assert(crate::text::back_ws(t, 0, 0) == 0);
        assert(t.subrange(0, 0) =~= t);
    }
}

/// Every code block taken from a reply is non-empty and has no whitespace
/// around it.
pub proof fn law_blocks_are_trimmed(s: Seq<char>)
    ensures
        forall|i: int|
            0 <= i < alisp_blocks(s).len() ==> (#[trigger] alisp_blocks(s)[i]).len() > 0 && trim(
                alisp_blocks(s)[i],
            ) == alisp_blocks(s)[i],
    decreases s.len(),
{
    match find(s, "```alisp"@) {
        None => {},
        Some(start) => {
            let after = start + 8;
            if 0 <= start && after <= s.len() {
                let tail = s.subrange(after, s.len() as int);
                match find(tail, "```"@) {
                    None => {},
                    Some(end) => {
                        if 0 <= end && end + 3 <= tail.len() {
                            let code = trim(tail.subrange(0, end));
                            let rest = tail.subrange(end + 3, tail.len() as int);
                            law_blocks_are_trimmed(rest);
                            lemma_trim_idempotent(tail.subrange(0, end));
                            let head: Seq<Seq<char>> = if code.len() > 0 {
                                seq![code]
                            } else {
                                seq![]
                            };
                            assert(alisp_blocks(s) == head + alisp_blocks(rest));
                            assert forall|i: int| 0 <= i < alisp_blocks(s).len() implies (
                            #[trigger] alisp_blocks(s)[i]).len() > 0 && trim(alisp_blocks(s)[i])
                                == alisp_blocks(s)[i] by {
                                if i < head.len() {
                                    assert(alisp_blocks(s)[i] == code);
                                } else {
                                    assert(alisp_blocks(s)[i] == alisp_blocks(rest)[i - head.len()]);
                                }
                            }
                        }
                    },
                }
            }
        },
    }
}

} // verus!
