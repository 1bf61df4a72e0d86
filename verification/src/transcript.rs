//! Rebuilding a conversation from the agent's event log.
//!
//! The events of a log are folded, in order, into messages: a turn begins
//! with the user's message; the text parts that follow are gathered and
//! become one assistant message when the step or the turn ends, or when the
//! log ends. The result depends on the log and the time stamp alone, so
//! running it again over the same log gives the same messages.

use crate::json::parsed_json;
use crate::session::{message_views, Message, MessageView, SessionManager};
use crate::text::{
    is_blank, lines_of, push_str, split_lines, string_of, string_texts, texts, to_chars,
};
use crate::wire::{decode_spec, decode_wire_line, WireEvent, WireEventView, WireKind};
use vstd::prelude::*;

verus! {

/// The state of the fold: the messages so far, whether a turn has begun,
/// and the assistant text gathered since the last message.
pub struct Transcript {
    pub messages: Seq<MessageView>,
    pub accumulating: bool,
    pub buffer: Seq<char>,
}

/// A message without tool calls.
pub open spec fn plain_message(role: Seq<char>, content: Seq<char>, now: i64) -> MessageView {
    MessageView { role, content, timestamp: now, tool_calls: None }
}

/// The state before any event.
pub open spec fn idle() -> Transcript {
    Transcript { messages: Seq::empty(), accumulating: false, buffer: Seq::empty() }
}

/// The state with the gathered assistant text, if any, made a message.
pub open spec fn flushed(t: Transcript, now: i64) -> Transcript {
    if t.accumulating && t.buffer.len() > 0 {
        Transcript {
            messages: t.messages.push(plain_message("assistant"@, t.buffer, now)),
            accumulating: t.accumulating,
            buffer: Seq::empty(),
        }
    } else {
        t
    }
}

/// The state after one more event.
pub open spec fn transcript_step(t: Transcript, e: WireEventView, now: i64) -> Transcript {
    match e.kind {
        WireKind::TurnBegin => {
            let f = flushed(t, now);
            Transcript {
                messages: f.messages.push(
                    plain_message(
                        "user"@,
                        match e.text {
                            Some(input) => input,
                            None => Seq::empty(),
                        },
                        now,
                    ),
                ),
                accumulating: true,
                buffer: Seq::empty(),
            }
        },
        WireKind::TextPart => match e.text {
            Some(content) => if t.accumulating {
                Transcript { buffer: t.buffer + content, ..t }
            } else {
                t
            },
            None => t,
        },
        WireKind::StepEnd => flushed(t, now),
        _ => t,
    }
}

/// The state after all events, in order.
pub open spec fn transcript_fold(events: Seq<WireEventView>, now: i64) -> Transcript
    decreases events.len(),
{
    if events.len() == 0 {
        idle()
    } else {
        transcript_step(transcript_fold(events.drop_last(), now), events.last(), now)
    }
}

/// The messages of an event log.
pub open spec fn reconstruct_spec(events: Seq<WireEventView>, now: i64) -> Seq<MessageView> {
    flushed(transcript_fold(events, now), now).messages
}

/// The views of a sequence of events.
pub open spec fn event_views(events: Seq<WireEvent>) -> Seq<WireEventView> {
    events.map_values(|e: WireEvent| e@)
}

/// The events of the lines of a log; blank lines give none.
pub open spec fn decode_lines(lines: Seq<Seq<char>>) -> Seq<WireEventView>
    decreases lines.len(),
{
    if lines.len() == 0 {
        Seq::empty()
    } else {
        let front = decode_lines(lines.drop_last());
        match decode_spec(lines.last(), parsed_json(lines.last())) {
            Some(e) => front.push(e),
            None => front,
        }
    }
}

fn new_message(role: &str, content: String, now: i64) -> (r: Message)
    ensures
        r@ == plain_message(role@, content@, now),
{
    Message { role: string_of(&to_chars(role)), content, timestamp: now, tool_calls: None }
}

/// Folds an event log into messages, all stamped `now`. Tool calls and tool
/// results are seen and passed over.
pub fn reconstruct(events: &Vec<WireEvent>, now: i64) -> (r: Vec<Message>)
    ensures
        message_views(r@) == reconstruct_spec(event_views(events@), now),
{
    let ghost all = event_views(events@);
    let mut messages: Vec<Message> = Vec::new();
    let mut accumulating = false;
    let mut buffer: Vec<char> = Vec::new();
    let mut i: usize = 0;
    proof {
        assert(all.take(0) =~= Seq::<WireEventView>::empty());
        assert(message_views(messages@) =~= Seq::<MessageView>::empty());
    }
    while i < events.len()
        invariant
            i <= events.len(),
            all == event_views(events@),
            transcript_fold(all.take(i as int), now) == (Transcript {
                messages: message_views(messages@),
                accumulating,
                buffer: buffer@,
            }),
        decreases events.len() - i,
    {
        let ghost before = transcript_fold(all.take(i as int), now);
        let e = &events[i];
        proof {
            let upto = all.take(i + 1);
            assert(upto.drop_last() =~= all.take(i as int));
            assert(upto.last() == events@[i as int]@);
        }
        match e.kind {
            WireKind::TurnBegin => {
                if accumulating && buffer.len() > 0 {
                    let ghost old_messages = messages@;
                    let m = new_message("assistant", string_of(&buffer), now);
                    messages.push(m);
                    assert(message_views(messages@) =~= message_views(old_messages).push(m@));
                }
                let input = match &e.text {
                    Some(t) => t.clone(),
                    None => String::new(),
                };
                let ghost old_messages = messages@;
                let m = new_message("user", input, now);
                messages.push(m);
                assert(message_views(messages@) =~= message_views(old_messages).push(m@));
                accumulating = true;
                buffer = Vec::new();
            },
            WireKind::TextPart => {
                match &e.text {
                    Some(content) => {
                        if accumulating {
                            push_str(&mut buffer, content.as_str());
                        }
                    },
                    None => {},
                }
            },
            WireKind::StepEnd => {
                if accumulating && buffer.len() > 0 {
                    let ghost old_messages = messages@;
                    let m = new_message("assistant", string_of(&buffer), now);
                    messages.push(m);
                    assert(message_views(messages@) =~= message_views(old_messages).push(m@));
                    buffer = Vec::new();
                }
            },
            _ => {},
        }
        i += 1;
    }
    assert(all.take(events.len() as int) =~= all);
    if accumulating && buffer.len() > 0 {
        let ghost old_messages = messages@;
        let m = new_message("assistant", string_of(&buffer), now);
        messages.push(m);
        assert(message_views(messages@) =~= message_views(old_messages).push(m@));
    }
    messages
}

/// The events of an event log, one line each; blank lines give none.
pub fn decode_log(content: &str) -> (r: Vec<WireEvent>)
    ensures
        event_views(r@) == decode_lines(split_lines(content@)),
{
    let v = to_chars(content);
    let lines = lines_of(&v);
    let ghost all = texts(lines@);
    let mut events: Vec<WireEvent> = Vec::new();
    let mut i: usize = 0;
    proof {
        assert(all.take(0) =~= Seq::<Seq<char>>::empty());
        assert(event_views(events@) =~= Seq::<WireEventView>::empty());
    }
    while i < lines.len()
        invariant
            i <= lines.len(),
            all == texts(lines@),
            event_views(events@) == decode_lines(all.take(i as int)),
        decreases lines.len() - i,
    {
        let line = string_of(&lines[i]);
        proof {
            let upto = all.take(i + 1);
            assert(upto.drop_last() =~= all.take(i as int));
            assert(upto.last() == lines@[i as int]@);
        }
        match decode_wire_line(line.as_str()) {
            Some(e) => {
                let ghost old_events = events@;
                let ghost ev = e@;
                events.push(e);
                assert(event_views(events@) =~= event_views(old_events).push(ev));
            },
            None => {},
        }
        i += 1;
    }
    assert(all.take(lines.len() as int) =~= all);
    events
}

impl SessionManager {
    /// The messages of a conversation that the agent logged, rebuilt from
    /// the content of its event log and stamped `now`.
    pub fn load_messages_at(content: &str, now: i64) -> (r: Vec<Message>)
        ensures
            message_views(r@) == reconstruct_spec(decode_lines(split_lines(content@)), now),
    {
        let events = decode_log(content);
        reconstruct(&events, now)
    }

    /// [`SessionManager::load_messages_at`] with the time that the clock
    /// shows.
    pub fn load_messages(content: &str) -> (r: Vec<Message>)
        ensures
            exists|now: i64|
                message_views(r@) == #[trigger] reconstruct_spec(
                    decode_lines(split_lines(content@)),
                    now,
                ),
    {
        let now = crate::clock::utc_now().0;
        SessionManager::load_messages_at(content, now)
    }
}

/// The lines that are not blank, in order.
pub open spec fn filled_lines(lines: Seq<Seq<char>>) -> Seq<Seq<char>>
    decreases lines.len(),
{
    if lines.len() == 0 {
        Seq::empty()
    } else if is_blank(lines.last()) {
        filled_lines(lines.drop_last())
    } else {
        filled_lines(lines.drop_last()).push(lines.last())
    }
}

/// The records of a message log: its lines, without the blank ones. Each
/// holds one message.
pub fn message_log_lines(content: &str) -> (r: Vec<String>)
    ensures
        string_texts(r@) == filled_lines(split_lines(content@)),
{
    let v = to_chars(content);
    let lines = lines_of(&v);
    let ghost all = texts(lines@);
    let mut out: Vec<String> = Vec::new();
    let mut i: usize = 0;
    proof {
        assert(all.take(0) =~= Seq::<Seq<char>>::empty());
        assert(string_texts(out@) =~= Seq::<Seq<char>>::empty());
    }
    while i < lines.len()
        invariant
            i <= lines.len(),
            all == texts(lines@),
            string_texts(out@) == filled_lines(all.take(i as int)),
        decreases lines.len() - i,
    {
        let line = string_of(&lines[i]);
        proof {
            let upto = all.take(i + 1);
            assert(upto.drop_last() =~= all.take(i as int));
            assert(upto.last() == lines@[i as int]@);
        }
        if !crate::text::is_blank_str(line.as_str()) {
            let ghost before = out@;
            let ghost lv = line@;
            out.push(line);
            assert(string_texts(out@) =~= string_texts(before).push(lv));
        }
        i += 1;
    }
    assert(all.take(lines.len() as int) =~= all);
    out
}

} // verus!
