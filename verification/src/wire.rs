//! The wire protocol of the agent: one JSON record per line.
//!
//! A line that is a JSON object with a known `type` becomes the event of
//! that type. Every other line that is not blank becomes a plain-text event
//! that carries the line as it is, so that output which does not follow the
//! protocol still reaches the user. Blank lines are dropped.

use crate::json::{
    parsed_json, read_json, text_member, without_member, Json, JsonView,
};
use crate::text::{is_blank, is_blank_str, str_eq, string_of, to_chars};
use vstd::prelude::*;

verus! {

/// The kinds of wire events.
#[derive(Clone, Copy, Debug, PartialEq, Eq, Structural)]
pub enum WireKind {
    TurnBegin,
    TextPart,
    ThinkPart,
    ToolCall,
    ToolResult,
    StepBegin,
    /// The end of a step or of a turn.
    StepEnd,
    Error,
    /// A line that is no record of the protocol.
    PlainText,
}

/// One decoded line.
#[derive(Debug)]
pub struct WireEvent {
    pub kind: WireKind,
    /// The user's input of a turn begin, the content of a text part, the
    /// message of an error, the line of a plain text.
    pub text: Option<String>,
    /// The fields of the record other than its type; `null` for plain text.
    pub payload: Json,
}

/// The mathematical value of a [`WireEvent`].
pub struct WireEventView {
    pub kind: WireKind,
    pub text: Option<Seq<char>>,
    pub payload: JsonView,
}

/// The text of an optional string.
pub open spec fn opt_text(o: Option<String>) -> Option<Seq<char>> {
    match o {
        Some(s) => Some(s@),
        None => None,
    }
}

impl View for WireEvent {
    type V = WireEventView;

    open spec fn view(&self) -> WireEventView {
        WireEventView { kind: self.kind, text: opt_text(self.text), payload: self.payload@ }
    }
}

/// The kind that a type name stands for. Each kind is known by its name in
/// camel case and in snake case; the end of a turn counts as the end of a
/// step.
pub open spec fn kind_of(name: Seq<char>) -> Option<WireKind> {
    if name == "TurnBegin"@ || name == "turn_begin"@ {
        Some(WireKind::TurnBegin)
    } else if name == "TextPart"@ || name == "text_part"@ {
        Some(WireKind::TextPart)
    } else if name == "ThinkPart"@ || name == "think_part"@ {
        Some(WireKind::ThinkPart)
    } else if name == "ToolCall"@ || name == "tool_call"@ {
        Some(WireKind::ToolCall)
    } else if name == "ToolResult"@ || name == "tool_result"@ {
        Some(WireKind::ToolResult)
    } else if name == "StepBegin"@ || name == "step_begin"@ {
        Some(WireKind::StepBegin)
    } else if name == "StepEnd"@ || name == "step_end"@ || name == "TurnEnd"@ || name
        == "turn_end"@ {
        Some(WireKind::StepEnd)
    } else if name == "Error"@ || name == "error"@ {
        Some(WireKind::Error)
    } else {
        None
    }
}

/// The kind of a document: that of its `type`, where it is an object whose
/// `type` is a string that names a kind.
pub open spec fn recognized_kind(doc: JsonView) -> Option<WireKind> {
    match text_member(doc, "type"@) {
        Some(name) => kind_of(name),
        None => None,
    }
}

/// The text that an event of this kind carries.
pub open spec fn extracted_text(kind: WireKind, doc: JsonView) -> Option<Seq<char>> {
    match kind {
        WireKind::TurnBegin => text_member(doc, "user_input"@),
        WireKind::TextPart => text_member(doc, "content"@),
        WireKind::Error => match text_member(doc, "message"@) {
            Some(m) => Some(m),
            None => Some("Unknown error"@),
        },
        _ => None,
    }
}

/// The event of a record of the given kind.
pub open spec fn structured(kind: WireKind, doc: JsonView) -> WireEventView {
    WireEventView {
        kind,
        text: extracted_text(kind, doc),
        payload: without_member(doc, "type"@),
    }
}

/// The event of a line that is no record: it carries the line.
pub open spec fn plain_text(line: Seq<char>) -> WireEventView {
    WireEventView { kind: WireKind::PlainText, text: Some(line), payload: JsonView::Null }
}

/// The event of a line, given what parsing it as JSON gave.
pub open spec fn decode_spec(line: Seq<char>, parsed: Option<JsonView>) -> Option<WireEventView> {
    if is_blank(line) {
        None
    } else {
        Some(
            match parsed {
                Some(doc) => match recognized_kind(doc) {
                    Some(kind) => structured(kind, doc),
                    None => plain_text(line),
                },
                None => plain_text(line),
            },
        )
    }
}

/// The view of an optional event.
pub open spec fn opt_event(o: Option<WireEvent>) -> Option<WireEventView> {
    match o {
        Some(e) => Some(e@),
        None => None,
    }
}

/// The view of an optional document.
pub open spec fn opt_doc(o: Option<Json>) -> Option<JsonView> {
    match o {
        Some(d) => Some(d@),
        None => None,
    }
}

/// Decoding never fails on a record: every line that is not blank and
/// parses as an object with a known type gives the event of that type,
/// whatever else the record holds or lacks. The event depends on the line
/// alone, so decoding a line again gives the same event.
pub proof fn records_always_decode(line: Seq<char>, doc: JsonView, kind: WireKind)
    requires
        !is_blank(line),
        recognized_kind(doc) == Some(kind),
    ensures
        decode_spec(line, Some(doc)) == Some(structured(kind, doc)),
        decode_spec(line, Some(doc))->0.kind == kind,
        kind != WireKind::PlainText,
{
}

/// A line that is not blank and is no JSON, or no record with a known type,
/// gives a plain-text event that carries the line unchanged.
pub proof fn other_lines_fall_back(line: Seq<char>, parsed: Option<JsonView>)
    requires
        !is_blank(line),
        parsed matches Some(doc) ==> recognized_kind(doc) is None,
    ensures
        decode_spec(line, parsed) == Some(plain_text(line)),
        decode_spec(line, parsed)->0.text == Some(line),
{
}

/// The kind that a type name stands for.
pub fn wire_kind(name: &str) -> (r: Option<WireKind>)
    ensures
        r == kind_of(name@),
{
    if str_eq(name, "TurnBegin") || str_eq(name, "turn_begin") {
        Some(WireKind::TurnBegin)
    } else if str_eq(name, "TextPart") || str_eq(name, "text_part") {
        Some(WireKind::TextPart)
    } else if str_eq(name, "ThinkPart") || str_eq(name, "think_part") {
        Some(WireKind::ThinkPart)
    } else if str_eq(name, "ToolCall") || str_eq(name, "tool_call") {
        Some(WireKind::ToolCall)
    } else if str_eq(name, "ToolResult") || str_eq(name, "tool_result") {
        Some(WireKind::ToolResult)
    } else if str_eq(name, "StepBegin") || str_eq(name, "step_begin") {
        Some(WireKind::StepBegin)
    } else if str_eq(name, "StepEnd") || str_eq(name, "step_end") || str_eq(name, "TurnEnd")
        || str_eq(name, "turn_end") {
        Some(WireKind::StepEnd)
    } else if str_eq(name, "Error") || str_eq(name, "error") {
        Some(WireKind::Error)
    } else {
        None
    }
}

fn owned(o: Option<&str>) -> (r: Option<String>)
    ensures
        match (o, r) {
            (Some(a), Some(b)) => a@ == b@,
            (None, None) => true,
            _ => false,
        },
{
    match o {
        Some(s) => Some(string_of(&to_chars(s))),
        None => None,
    }
}

fn plain(line: &str) -> (r: WireEvent)
    ensures
        r@ == plain_text(line@),
{
    WireEvent {
        kind: WireKind::PlainText,
        text: Some(string_of(&to_chars(line))),
        payload: Json::Null,
    }
}

/// The event of a line, given what parsing it as JSON gave (`None` where it
/// is no JSON).
pub fn decode_parsed(line: &str, parsed: Option<Json>) -> (r: Option<WireEvent>)
    ensures
        opt_event(r) == decode_spec(line@, opt_doc(parsed)),
{
    if is_blank_str(line) {
        return None;
    }
    match parsed {
        None => Some(plain(line)),
        Some(doc) => {
            let kind = match doc.text_at("type") {
                Some(name) => wire_kind(name),
                None => None,
            };
            match kind {
                None => Some(plain(line)),
                Some(k) => {
                    let text = match k {
                        WireKind::TurnBegin => owned(doc.text_at("user_input")),
                        WireKind::TextPart => owned(doc.text_at("content")),
                        WireKind::Error => match doc.text_at("message") {
                            Some(m) => Some(string_of(&to_chars(m))),
                            None => Some(string_of(&to_chars("Unknown error"))),
                        },
                        _ => None,
                    };
                    let payload = doc.remove_member("type");
                    Some(WireEvent { kind: k, text, payload })
                },
            }
        },
    }
}

/// Decodes one line of the agent's output. A blank line gives `None`; every
/// other line gives an event.
pub fn decode_wire_line(line: &str) -> (r: Option<WireEvent>)
    ensures
        opt_event(r) == decode_spec(line@, parsed_json(line@)),
        r is None <==> is_blank(line@),
{
    if is_blank_str(line) {
        return None;
    }
    let parsed = read_json(line);
    decode_parsed(line, parsed)
}

// ---------------------------------------------------------------------------
// Events for the front end
// ---------------------------------------------------------------------------

/// An event as the front end receives it: its name, the session it belongs
/// to, and what it carries.
#[derive(Debug)]
pub struct CliStreamEvent {
    /// `chunk`, `tool_call`, `tool_result`, `step_begin`, `step_end`,
    /// `error`, `done` or `cancelled`.
    pub event: String,
    pub session_id: String,
    /// The text of a chunk.
    pub content: Option<String>,
    /// The message of an error.
    pub message: Option<String>,
    /// The fields of a tool call or a tool result.
    pub data: Option<Json>,
}

/// The mathematical value of a [`CliStreamEvent`].
pub struct CliStreamEventView {
    pub event: Seq<char>,
    pub session_id: Seq<char>,
    pub content: Option<Seq<char>>,
    pub message: Option<Seq<char>>,
    pub data: Option<JsonView>,
}

impl View for CliStreamEvent {
    type V = CliStreamEventView;

    open spec fn view(&self) -> CliStreamEventView {
        CliStreamEventView {
            event: self.event@,
            session_id: self.session_id@,
            content: opt_text(self.content),
            message: opt_text(self.message),
            data: opt_doc(self.data),
        }
    }
}

/// The view of an optional stream event.
pub open spec fn opt_stream_event(o: Option<CliStreamEvent>) -> Option<CliStreamEventView> {
    match o {
        Some(e) => Some(e@),
        None => None,
    }
}

/// An event that carries nothing but its name and session.
pub open spec fn bare_event(name: Seq<char>, session_id: Seq<char>) -> CliStreamEventView {
    CliStreamEventView { event: name, session_id, content: None, message: None, data: None }
}

/// The event that tells the front end that the stream ended.
pub open spec fn done_event_spec(session_id: Seq<char>) -> CliStreamEventView {
    bare_event("done"@, session_id)
}

/// The event that tells the front end that the stream was cancelled.
pub open spec fn cancelled_event_spec(session_id: Seq<char>) -> CliStreamEventView {
    bare_event("cancelled"@, session_id)
}

/// What the front end is sent for a wire event, if anything. The begin of a
/// turn, thinking, and a text part without content are not passed on.
pub open spec fn outward_spec(session_id: Seq<char>, e: WireEventView) -> Option<CliStreamEventView> {
    match e.kind {
        WireKind::TurnBegin => None,
        WireKind::ThinkPart => None,
        WireKind::TextPart => match e.text {
            Some(content) => Some(
                CliStreamEventView { content: Some(content), ..bare_event("chunk"@, session_id) },
            ),
            None => None,
        },
        WireKind::PlainText => Some(
            CliStreamEventView { content: e.text, ..bare_event("chunk"@, session_id) },
        ),
        WireKind::ToolCall => Some(
            CliStreamEventView { data: Some(e.payload), ..bare_event("tool_call"@, session_id) },
        ),
        WireKind::ToolResult => Some(
            CliStreamEventView { data: Some(e.payload), ..bare_event("tool_result"@, session_id) },
        ),
        WireKind::StepBegin => Some(bare_event("step_begin"@, session_id)),
        WireKind::StepEnd => Some(bare_event("step_end"@, session_id)),
        WireKind::Error => Some(
            CliStreamEventView { message: e.text, ..bare_event("error"@, session_id) },
        ),
    }
}

/// What the front end is sent for a line, given what parsing it gave.
pub open spec fn process_spec(
    session_id: Seq<char>,
    line: Seq<char>,
    parsed: Option<JsonView>,
) -> Option<CliStreamEventView> {
    match decode_spec(line, parsed) {
        Some(e) => outward_spec(session_id, e),
        None => None,
    }
}

fn bare(name: &str, session_id: &str) -> (r: CliStreamEvent)
    ensures
        r@ == bare_event(name@, session_id@),
{
    CliStreamEvent {
        event: string_of(&to_chars(name)),
        session_id: string_of(&to_chars(session_id)),
        content: None,
        message: None,
        data: None,
    }
}

/// The event that tells the front end that the stream ended.
pub fn done_event(session_id: &str) -> (r: CliStreamEvent)
    ensures
        r@ == done_event_spec(session_id@),
{
    bare("done", session_id)
}

/// The event that tells the front end that the stream was cancelled.
pub fn cancelled_event(session_id: &str) -> (r: CliStreamEvent)
    ensures
        r@ == cancelled_event_spec(session_id@),
{
    bare("cancelled", session_id)
}

/// What the front end is sent for a wire event, if anything.
pub fn outward_event(session_id: &str, event: WireEvent) -> (r: Option<CliStreamEvent>)
    ensures
        opt_stream_event(r) == outward_spec(session_id@, event@),
{
    let WireEvent { kind, text, payload } = event;
    match kind {
        WireKind::TurnBegin => None,
        WireKind::ThinkPart => None,
        WireKind::TextPart => match text {
            Some(content) => {
                let mut e = bare("chunk", session_id);
                e.content = Some(content);
                Some(e)
            },
            None => None,
        },
        WireKind::PlainText => {
            let mut e = bare("chunk", session_id);
            e.content = text;
            Some(e)
        },
        WireKind::ToolCall => {
            let mut e = bare("tool_call", session_id);
            e.data = Some(payload);
            Some(e)
        },
        WireKind::ToolResult => {
            let mut e = bare("tool_result", session_id);
            e.data = Some(payload);
            Some(e)
        },
        WireKind::StepBegin => Some(bare("step_begin", session_id)),
        WireKind::StepEnd => Some(bare("step_end", session_id)),
        WireKind::Error => {
            let mut e = bare("error", session_id);
            e.message = text;
            Some(e)
        },
    }
}

/// What the front end is sent for one line of the agent's output, if
/// anything.
pub fn process_wire_line(session_id: &str, line: &str) -> (r: Option<CliStreamEvent>)
    ensures
        opt_stream_event(r) == process_spec(session_id@, line@, parsed_json(line@)),
{
    match decode_wire_line(line) {
        Some(event) => outward_event(session_id, event),
        None => None,
    }
}

// ---------------------------------------------------------------------------
// Events of tasks and of the login
// ---------------------------------------------------------------------------

/// An event of a task, as the front end receives it.
#[derive(Debug)]
pub struct CoworkStreamEvent {
    /// `step`, `done` or `error`.
    pub event: String,
    pub data: Json,
}

/// An event of the device login, as the front end receives it.
#[derive(Debug)]
pub struct OAuthEvent {
    /// `waiting`, `success` or `error`.
    pub event: String,
    pub data: Json,
}

/// An object with the given members, each a text.
pub open spec fn text_object(members: Seq<(Seq<char>, Seq<char>)>) -> JsonView {
    JsonView::Object(members.map_values(|m: (Seq<char>, Seq<char>)| (m.0, JsonView::Text(m.1))))
}

fn object_of(members: Vec<(String, String)>) -> (r: Json)
    ensures
        r@ == text_object(members@.map_values(|m: (String, String)| (m.0@, m.1@))),
{
    let mut v = members;
    let ghost all = v@.map_values(|m: (String, String)| (m.0@, m.1@));
    let mut out: Vec<(String, Json)> = Vec::new();
    assert(Json::members_view(out@) =~= text_object(all.skip(all.len() as int))->Object_0);
    while v.len() > 0
        invariant
            v@.map_values(|m: (String, String)| (m.0@, m.1@)) == all.take(v@.len() as int),
            v@.len() <= all.len(),
            Json::members_view(out@) == text_object(all.skip(v@.len() as int))->Object_0,
        decreases v.len(),
    {
        let ghost before = v@;
        let ghost kept = Json::members_view(out@);
        let n = v.len();
        let (key, value) = v.remove(n - 1);
        proof {
            assert(before.map_values(|m: (String, String)| (m.0@, m.1@))[n - 1] == (key@, value@));
            assert(all[n - 1] == (key@, value@));
            assert(v@.map_values(|m: (String, String)| (m.0@, m.1@)) =~= all.take(n - 1));
        }
        let ghost kv = (key@, JsonView::Text(value@));
        out.insert(0, (key, Json::Text(value)));
        assert(Json::members_view(out@) =~= seq![kv] + kept);
        assert(text_object(all.skip(n - 1))->Object_0 =~= seq![kv] + text_object(
            all.skip(n as int),
        )->Object_0);
    }
    assert(all.skip(0) =~= all);
    Json::Object(out)
}

fn member_text(key: &str, value: &str) -> (r: (String, String))
    ensures
        r.0@ == key@,
        r.1@ == value@,
{
    (string_of(&to_chars(key)), string_of(&to_chars(value)))
}

fn named(event: &str) -> (r: String)
    ensures
        r@ == event@,
{
    string_of(&to_chars(event))
}

/// The event that opens a task: it shows the prompt as the first step.
pub fn cowork_step_event(prompt: &str) -> (r: CoworkStreamEvent)
    ensures
        r.event@ == "step"@,
        r.data@ == text_object(seq![("title"@, "Starting task"@), ("description"@, prompt@)]),
{
    let mut members: Vec<(String, String)> = Vec::new();
    members.push(member_text("title", "Starting task"));
    members.push(member_text("description", prompt));
    assert(members@.map_values(|m: (String, String)| (m.0@, m.1@)) =~= seq![
        ("title"@, "Starting task"@),
        ("description"@, prompt@),
    ]);
    CoworkStreamEvent { event: named("step"), data: object_of(members) }
}

/// The event that closes a task: `done` where it went well, else `error`
/// with the message.
pub fn cowork_closing_event(result: &Result<(), String>) -> (r: CoworkStreamEvent)
    ensures
        match *result {
            Ok(_) => r.event@ == "done"@ && r.data@ == text_object(Seq::empty()),
            Err(e) => r.event@ == "error"@ && r.data@ == text_object(seq![("message"@, e@)]),
        },
{
    let mut members: Vec<(String, String)> = Vec::new();
    match result {
        Ok(_) => {
            assert(members@.map_values(|m: (String, String)| (m.0@, m.1@)) =~= Seq::empty());
            CoworkStreamEvent { event: named("done"), data: object_of(members) }
        },
        Err(e) => {
            members.push(member_text("message", e.as_str()));
            assert(members@.map_values(|m: (String, String)| (m.0@, m.1@)) =~= seq![
                ("message"@, e@),
            ]);
            CoworkStreamEvent { event: named("error"), data: object_of(members) }
        },
    }
}

/// The event that tells the front end that the login waits for the user.
pub fn oauth_waiting_event() -> (r: OAuthEvent)
    ensures
        r.event@ == "waiting"@,
        r.data@ == text_object(seq![("message"@, "Waiting for authorization..."@)]),
{
    let mut members: Vec<(String, String)> = Vec::new();
    members.push(member_text("message", "Waiting for authorization..."));
    assert(members@.map_values(|m: (String, String)| (m.0@, m.1@)) =~= seq![
        ("message"@, "Waiting for authorization..."@),
    ]);
    OAuthEvent { event: named("waiting"), data: object_of(members) }
}

/// The event that closes a login: `success` where the token was stored,
/// else `error` with the message.
pub fn oauth_closing_event(result: &Result<(), String>) -> (r: OAuthEvent)
    ensures
        match *result {
            Ok(_) => r.event@ == "success"@ && r.data@ == text_object(Seq::empty()),
            Err(e) => r.event@ == "error"@ && r.data@ == text_object(seq![("message"@, e@)]),
        },
{
    let mut members: Vec<(String, String)> = Vec::new();
    match result {
        Ok(_) => {
            assert(members@.map_values(|m: (String, String)| (m.0@, m.1@)) =~= Seq::empty());
            OAuthEvent { event: named("success"), data: object_of(members) }
        },
        Err(e) => {
            members.push(member_text("message", e.as_str()));
            assert(members@.map_values(|m: (String, String)| (m.0@, m.1@)) =~= seq![
                ("message"@, e@),
            ]);
            OAuthEvent { event: named("error"), data: object_of(members) }
        },
    }
}

} // verus!
