//! The conversation model and what the chat backends compute from it: the
//! request messages, the reply they take, and the tokens of a streamed
//! reply.
use crate::text::{
    chars_of, concat, owned, slice_chars, starts_with, starts_with_str, string_of, trim,
    trim_chars, views,
};
use vstd::prelude::*;

verus! {

#[derive(Debug, Clone, Copy, PartialEq, Eq, Structural)]
pub enum Role {
    System,
    User,
    Assistant,
    Tool,
}

/// The name a role is shown by.
pub open spec fn role_label(r: Role) -> Seq<char> {
    match r {
        Role::System => "system"@,
        Role::User => "user"@,
        Role::Assistant => "assistant"@,
        Role::Tool => "tool"@,
    }
}

impl Role {
    /// The name the role is shown by (its `Display` text).
    pub fn label(&self) -> (r: &'static str)
        ensures
            r@ == role_label(*self),
    {
        match self {
            Role::System => "system",
            Role::User => "user",
            Role::Assistant => "assistant",
            Role::Tool => "tool",
        }
    }
}

#[derive(Debug, Clone)]
pub struct Message {
    pub role: Role,
    pub content: String,
}

impl View for Message {
    type V = (Role, Seq<char>);

    open spec fn view(&self) -> (Role, Seq<char>) {
        (self.role, self.content@)
    }
}

pub open spec fn message_views(v: Seq<Message>) -> Seq<(Role, Seq<char>)> {
    v.map_values(|m: Message| m@)
}

impl Message {
    pub fn new(role: Role, content: String) -> (r: Message)
        ensures
            r@ == (role, content@),
    {
        Message { role, content }
    }
}

/// A message as the chat-completions API takes it.
#[derive(Debug)]
pub struct ChatMessage {
    pub role: String,
    pub content: String,
}

impl View for ChatMessage {
    type V = (Seq<char>, Seq<char>);

    open spec fn view(&self) -> (Seq<char>, Seq<char>) {
        (self.role@, self.content@)
    }
}

/// The API role of a message: tool results go back as the user's.
pub open spec fn api_role(r: Role) -> Seq<char> {
    match r {
        Role::System => "system"@,
        Role::User => "user"@,
        Role::Assistant => "assistant"@,
        Role::Tool => "user"@,
    }
}

/// The API form of a message: a tool result is marked as one.
pub open spec fn api_message(m: (Role, Seq<char>)) -> (Seq<char>, Seq<char>) {
    (api_role(m.0), if m.0 == Role::Tool {
        "[Tool Result]\n"@ + m.1
    } else {
        m.1
    })
}

pub open spec fn api_messages(h: Seq<(Role, Seq<char>)>) -> Seq<(Seq<char>, Seq<char>)> {
    h.map_values(|m: (Role, Seq<char>)| api_message(m))
}

/// The messages of a request to a chat-completions backend.
pub fn map_messages(messages: &[Message]) -> (r: Vec<ChatMessage>)
    ensures
        r@.map_values(|c: ChatMessage| c@) == api_messages(message_views(messages@)),
{
    let ghost hv = message_views(messages@);
    let mut r: Vec<ChatMessage> = Vec::new();
    let mut i: usize = 0;
    while i < messages.len()
        invariant
            i <= messages@.len(),
            hv == message_views(messages@),
            r@.map_values(|c: ChatMessage| c@) == api_messages(hv.take(i as int)),
        decreases messages.len() - i,
    {
        let m = &messages[i];
        let role = match m.role {
            Role::System => owned("system"),
            Role::User => owned("user"),
            Role::Assistant => owned("assistant"),
            Role::Tool => owned("user"),
        };
        let content = if m.role == Role::Tool {
            concat("[Tool Result]\n", m.content.as_str())
        } else {
            owned(m.content.as_str())
        };
        let ghost old_r = r@;
        r.push(ChatMessage { role, content });
        i = i + 1;
        proof {
            assert(hv.take(i as int) =~= hv.take(i - 1).push(hv[i - 1]));
            assert(r@.map_values(|c: ChatMessage| c@) =~= old_r.map_values(|c: ChatMessage| c@).push(
                api_message(hv[i - 1]),
            ));
            assert(api_messages(hv.take(i as int)) =~= api_messages(hv.take(i - 1)).push(
                api_message(hv[i - 1]),
            ));
        }
    }
    assert(hv.take(messages@.len() as int) =~= hv);
    r
}

/// `s` without its trailing slashes (`trim_end_matches('/')`).
pub open spec fn strip_slashes(s: Seq<char>) -> Seq<char>
    decreases s.len(),
{
    if s.len() > 0 && s.last() == '/' {
        strip_slashes(s.drop_last())
    } else {
        s
    }
}

/// The base address of a backend, without trailing slashes.
pub fn trim_url(url: &str) -> (r: String)
    ensures
        r@ == strip_slashes(url@),
{
    let v = chars_of(url);
    let mut n = v.len();
    assert(v@.subrange(0, n as int) =~= v@);
    while n > 0 && v[n - 1] == '/'
        invariant
            n <= v@.len(),
            strip_slashes(v@.subrange(0, n as int)) == strip_slashes(url@),
        decreases n,
    {
        assert(v@.subrange(0, n as int).drop_last() =~= v@.subrange(0, n - 1));
        n = n - 1;
    }
    string_of(&slice_chars(&v, 0, n))
}

/// The chat-completions endpoint under a base address.
pub fn completion_url(base: &str) -> (r: String)
    ensures
        r@ == base@ + "/chat/completions"@,
{
    concat(base, "/chat/completions")
}

/// The value of the `Authorization` header for an API key.
pub fn bearer(api_key: &str) -> (r: String)
    ensures
        r@ == "Bearer "@ + api_key@,
{
    concat("Bearer ", api_key)
}

// ---------------------------------------------------------------------------
// Replies
// ---------------------------------------------------------------------------
/// The message of one choice of a chat-completions reply.
#[derive(Debug)]
pub struct ReplyMessage {
    pub content: Option<String>,
    pub reasoning: Option<String>,
}

pub open spec fn opt_view(o: Option<String>) -> Option<Seq<char>> {
    match o {
        Some(s) => Some(s@),
        None => None,
    }
}

/// The text of a reply: the first choice's content, or, where reasoning is
/// taken, its reasoning when it has no content.
pub open spec fn reply_text(choices: Seq<ReplyMessage>, take_reasoning: bool) -> Option<Seq<char>> {
    if choices.len() == 0 {
        None
    } else if choices[0].content is Some {
        opt_view(choices[0].content)
    } else if take_reasoning {
        opt_view(choices[0].reasoning)
    } else {
        None
    }
}

/// The text of a chat-completions reply, or `empty response`.
pub fn reply_content(choices: Vec<ReplyMessage>, take_reasoning: bool) -> (r: Result<String, String>)
    ensures
        match r {
            Ok(t) => reply_text(choices@, take_reasoning) == Some(t@),
            Err(e) => reply_text(choices@, take_reasoning) is None && e@ == "empty response"@,
        },
{
    let mut choices = choices;
    if choices.len() == 0 {
        return Err(owned("empty response"));
    }
    let first = choices.remove(0);
    match first.content {
        Some(t) => Ok(t),
        None => {
            if take_reasoning {
                match first.reasoning {
                    Some(t) => Ok(t),
                    None => Err(owned("empty response")),
                }
            } else {
                Err(owned("empty response"))
            }
        },
    }
}

// ---------------------------------------------------------------------------
// Server-sent events
// ---------------------------------------------------------------------------
/// What one line of an event stream holds.
#[derive(Debug)]
pub enum SseLine {
    /// Nothing to take: blank, or not a data line.
    Skip,
    /// The end of the stream.
    Done,
    /// The data of a data line.
    Data(String),
}

pub enum SseLineView {
    Skip,
    Done,
    Data(Seq<char>),
}

/// What a line of an event stream holds, once trimmed.
pub open spec fn sse_kind(line: Seq<char>) -> SseLineView {
    let t = trim(line);
    if t.len() == 0 || !starts_with(t, "data: "@) {
        SseLineView::Skip
    } else if t.subrange("data: "@.len() as int, t.len() as int) == "[DONE]"@ {
        SseLineView::Done
    } else {
        SseLineView::Data(t.subrange("data: "@.len() as int, t.len() as int))
    }
}

pub open spec fn sse_view(l: SseLine) -> SseLineView {
    match l {
        SseLine::Skip => SseLineView::Skip,
        SseLine::Done => SseLineView::Done,
        SseLine::Data(d) => SseLineView::Data(d@),
    }
}

pub fn sse_line(line: &str) -> (r: SseLine)
    ensures
        sse_view(r) == sse_kind(line@),
{
    let v = chars_of(line);
    let t = trim_chars(&v);
    if t.len() == 0 || !starts_with_str(&t, "data: ") {
        return SseLine::Skip;
    }
    let p = chars_of("data: ");
    let data = string_of(&slice_chars(&t, p.len(), t.len()));
    let done = owned("[DONE]");
    if data == done {
        SseLine::Done
    } else {
        SseLine::Data(data)
    }
}

/// A JSON value, as far as the stream's chunks are read.
#[derive(Debug)]
pub enum Json {
    Null,
    Bool(bool),
    /// A number, by its text.
    Number(String),
    Str(String),
    Array(Vec<Json>),
    /// An object's members, in order, each key once.
    Object(Vec<(String, Json)>),
}

/// The member `key` of the members `fields`.
pub open spec fn member(fields: Seq<(String, Json)>, key: Seq<char>) -> Option<Json>
    decreases fields.len(),
{
    if fields.len() == 0 {
        None
    } else if fields[0].0@ == key {
        Some(fields[0].1)
    } else {
        member(fields.drop_first(), key)
    }
}

/// `v[key]` where `v` is an object (`Value::get` with a string key).
pub open spec fn json_get(v: Json, key: Seq<char>) -> Option<Json> {
    match v {
        Json::Object(fields) => member(fields@, key),
        _ => None,
    }
}

pub open spec fn json_str(v: Option<Json>) -> Option<Seq<char>> {
    match v {
        Some(Json::Str(s)) => Some(s@),
        _ => None,
    }
}

/// The token a stream chunk carries: in its first choice's delta, the text
/// content, or else the text reasoning.
pub open spec fn chunk_token(chunk: Json) -> Option<Seq<char>> {
    match json_get(chunk, "choices"@) {
        Some(Json::Array(items)) => if items@.len() > 0 {
            match json_get(items@[0], "delta"@) {
                Some(delta) => if json_str(json_get(delta, "content"@)) is Some {
                    json_str(json_get(delta, "content"@))
                } else {
                    json_str(json_get(delta, "reasoning"@))
                },
                None => None,
            }
        } else {
            None
        },
        _ => None,
    }
}

fn json_member<'a>(v: &'a Json, key: &str) -> (r: Option<&'a Json>)
    ensures
        match r {
            Some(x) => json_get(*v, key@) == Some(*x),
            None => json_get(*v, key@) is None,
        },
{
    match v {
        Json::Object(fields) => {
            let ghost fs = fields@;
            let mut i: usize = 0;
            let k = owned(key);
            assert(fs.skip(0) =~= fs);
            while i < fields.len()
                invariant
                    fs == fields@,
                    json_get(*v, key@) == member(fs, key@),
                    k@ == key@,
                    i <= fs.len(),
                    member(fs.skip(i as int), key@) == member(fs, key@),
                decreases fields.len() - i,
            {
                assert(fs.skip(i as int)[0] == fs[i as int]);
                let entry = &fields[i];
                assert(*entry == fs[i as int]);
                let same = entry.0 == k;
                if same {
                    assert(fs[i as int].0@ == key@);
                    assert(member(fs.skip(i as int), key@) == Some(fs[i as int].1));
                    return Some(&fields[i].1);
                }
                assert(fs.skip(i as int).drop_first() =~= fs.skip(i + 1));
                i = i + 1;
            }
            assert(fs.skip(i as int).len() == 0);
            None
        },
        _ => None,
    }
}

fn json_text(v: Option<&Json>) -> (r: Option<String>)
    ensures
        match r {
            Some(s) => json_str(
                match v {
                    Some(x) => Some(*x),
                    None => None,
                },
            ) == Some(s@),
            None => json_str(
                match v {
                    Some(x) => Some(*x),
                    None => None,
                },
            ) is None,
        },
{
    match v {
        Some(Json::Str(s)) => Some(owned(s.as_str())),
        _ => None,
    }
}

/// The token a stream chunk carries, if any.
pub fn delta_token(chunk: &Json) -> (r: Option<String>)
    ensures
        match r {
            Some(t) => chunk_token(*chunk) == Some(t@),
            None => chunk_token(*chunk) is None,
        },
{
    match json_member(chunk, "choices") {
        Some(Json::Array(items)) => {
            if items.len() == 0 {
                return None;
            }
            match json_member(&items[0], "delta") {
                Some(delta) => {
                    let content = json_text(json_member(delta, "content"));
                    match content {
                        Some(t) => Some(t),
                        None => json_text(json_member(delta, "reasoning")),
                    }
                },
                None => None,
            }
        },
        _ => None,
    }
}

// ---------------------------------------------------------------------------
// Reading a streamed reply
// ---------------------------------------------------------------------------
/// `serde_json::Value`, a parsed JSON document, held opaque.
#[verifier::external_type_specification]
#[verifier::external_body]
pub struct ExJsonValue(serde_json::Value);

/// The JSON document that `serde_json::from_str` reads from `text`, where
/// `text` is one.
pub uninterp spec fn json_of_text(text: Seq<char>) -> Option<Json>;

/// The library's form of a `serde_json::Value`: each variant becomes the
/// variant of the same name, numbers kept by their text.
#[verifier::external_body]
fn json_of(value: serde_json::Value) -> Json {
    match value {
        serde_json::Value::Null => Json::Null,
        serde_json::Value::Bool(b) => Json::Bool(b),
        serde_json::Value::Number(n) => Json::Number(n.to_string()),
        serde_json::Value::String(t) => Json::Str(t),
        serde_json::Value::Array(items) => Json::Array(items.into_iter().map(json_of).collect()),
        serde_json::Value::Object(m) => Json::Object(m.into_iter().map(|(k, v)| (k, json_of(v))).collect()),
    }
}

/// `serde_json::from_str` into a `serde_json::Value`. Claims that the
/// document read is `json_of_text` of the text, and nothing where the text
/// is no JSON; how JSON is read is left to the crate.
#[verifier::external_body]
pub(crate) fn parse_json(text: &str) -> (r: Option<Json>)
    ensures
        r == json_of_text(text@),
{
    match serde_json::from_str::<serde_json::Value>(text) {
        Ok(v) => Some(json_of(v)),
        Err(_) => None,
    }
}

/// The token that a line of an event stream carries: that of the chunk in a
/// data line that holds JSON.
pub open spec fn line_token(line: Seq<char>) -> Option<Seq<char>> {
    match sse_kind(line) {
        SseLineView::Data(d) => match json_of_text(d) {
            Some(c) => chunk_token(c),
            None => None,
        },
        _ => None,
    }
}

/// What a line adds to the streamed text.
pub open spec fn line_text(line: Seq<char>) -> Seq<char> {
    match line_token(line) {
        Some(t) => t,
        None => seq![],
    }
}

/// The text of a stream made of `lines`: the tokens of its lines, in order,
/// up to the first `[DONE]`.
pub open spec fn streamed(lines: Seq<Seq<char>>) -> Seq<char>
    decreases lines.len(),
{
    if lines.len() == 0 || sse_kind(lines[0]) is Done {
        seq![]
    } else {
        line_text(lines[0]) + streamed(lines.drop_first())
    }
}

/// What reading one line of a stream gives.
#[derive(Debug)]
pub enum StreamStep {
    /// The stream has ended.
    Stop,
    /// A token, to show and to add to the text.
    Emit(String),
    /// Nothing to take from this line.
    Continue,
}

/// Reads one line of an event stream into the text `acc` gathered so far.
pub fn stream_step(acc: &mut String, line: &str) -> (r: StreamStep)
    ensures
        sse_kind(line@) is Done ==> r is Stop && final(acc)@ == old(acc)@,
        !(sse_kind(line@) is Done) ==> match line_token(line@) {
            Some(t) => r matches StreamStep::Emit(e) && e@ == t && final(acc)@ == old(acc)@ + t,
            None => r is Continue && final(acc)@ == old(acc)@,
        },
{
    match sse_line(line) {
        SseLine::Skip => StreamStep::Continue,
        SseLine::Done => StreamStep::Stop,
        SseLine::Data(data) => match parse_json(data.as_str()) {
            Some(chunk) => match delta_token(&chunk) {
                Some(t) => {
                    acc.append(t.as_str());
                    StreamStep::Emit(t)
                },
                None => StreamStep::Continue,
            },
            None => StreamStep::Continue,
        },
    }
}

/// Reading a stream line by line builds its text: after lines with no
/// `[DONE]`, the next line adds its token, or, where it is `[DONE]`,
/// nothing, and no line after it counts.
pub proof fn law_stream_steps(lines: Seq<Seq<char>>, line: Seq<char>, rest: Seq<Seq<char>>)
    requires
        forall|i: int| 0 <= i < lines.len() ==> !(sse_kind(lines[i]) is Done),
    ensures
        !(sse_kind(line) is Done) ==> streamed(lines.push(line)) == streamed(lines) + line_text(
            line,
        ),
        sse_kind(line) is Done ==> streamed(lines + seq![line] + rest) == streamed(lines),
    decreases lines.len(),
{
    if lines.len() == 0 {
        assert(lines.push(line) =~= seq![line]);
        assert(lines + seq![line] + rest =~= seq![line] + rest);
        assert(seq![line].drop_first() =~= Seq::<Seq<char>>::empty());
        if !(sse_kind(line) is Done) {
            assert(streamed(seq![line]) == line_text(line) + streamed(seq![line].drop_first()));
            assert(streamed(Seq::<Seq<char>>::empty()) == Seq::<char>::empty());
            assert(line_text(line) + Seq::<char>::empty() =~= line_text(line));
            assert(streamed(lines) == Seq::<char>::empty());
            assert(streamed(lines) + line_text(line) =~= line_text(line));
        }
    } else {
        let tail = lines.drop_first();
        assert forall|i: int| 0 <= i < tail.len() implies !(sse_kind(tail[i]) is Done) by {
            assert(tail[i] == lines[i + 1]);
        }
        law_stream_steps(tail, line, rest);
        assert(lines.push(line)[0] == lines[0]);
        assert(lines.push(line).drop_first() =~= tail.push(line));
        assert((lines + seq![line] + rest)[0] == lines[0]);
        assert((lines + seq![line] + rest).drop_first() =~= tail + seq![line] + rest);
        assert(!(sse_kind(lines[0]) is Done));
        if !(sse_kind(line) is Done) {
            assert(streamed(lines.push(line)) == line_text(lines[0]) + streamed(tail.push(line)));
            assert(streamed(lines) == line_text(lines[0]) + streamed(tail));
            assert(streamed(lines.push(line)) =~= streamed(lines) + line_text(line));
        }
    }
}

} // verus!
