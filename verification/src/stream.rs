//! One turn of the agent as a stream of events.
//!
//! A stream is spawned, streams lines until its output ends, and can be
//! cancelled at any moment. The caller owns the process and the channel to
//! the front end; it feeds what happens into [`stream_step`] and carries out
//! the action that comes back.

use crate::json::parsed_json;
use crate::text::{byte_len, concat3, string_of, string_texts, to_chars};
use crate::wire::{
    cancelled_event, cancelled_event_spec, done_event, done_event_spec, process_spec,
    process_wire_line, CliStreamEvent, CliStreamEventView,
};
use vstd::prelude::*;

verus! {

/// Where a stream stands.
#[derive(Clone, Copy, Debug, PartialEq, Eq, Structural)]
pub enum StreamState {
    /// The process is being started.
    Spawned,
    /// The process runs and its lines are passed on.
    Streaming,
    /// The output ended.
    Completed,
    /// The stream was cancelled.
    Cancelled,
    /// The process could not be started.
    Failed,
}

/// What happened to a stream.
#[derive(Debug)]
pub enum StreamInput {
    /// The process was started.
    Started,
    /// The process could not be started.
    SpawnFailed { error: String },
    /// The process wrote a line.
    Line { text: String },
    /// The process closed its output.
    EndOfOutput,
    /// Cancellation was asked for.
    Cancel,
}

/// What the caller has to do next.
#[derive(Debug)]
pub enum StreamAction {
    /// Nothing.
    Nothing,
    /// Send the event to the front end.
    Emit { event: CliStreamEvent },
    /// Send the event, then wait for the process to exit.
    Finish { event: CliStreamEvent },
    /// Kill the process at once, send the event, and read no more lines.
    Kill { event: CliStreamEvent },
    /// Give up with this error.
    Fail { error: String },
}

/// The mathematical value of a [`StreamAction`].
pub enum StreamActionView {
    Nothing,
    Emit { event: CliStreamEventView },
    Finish { event: CliStreamEventView },
    Kill { event: CliStreamEventView },
    Fail { error: Seq<char> },
}

impl View for StreamAction {
    type V = StreamActionView;

    open spec fn view(&self) -> StreamActionView {
        match self {
            StreamAction::Nothing => StreamActionView::Nothing,
            StreamAction::Emit { event } => StreamActionView::Emit { event: event@ },
            StreamAction::Finish { event } => StreamActionView::Finish { event: event@ },
            StreamAction::Kill { event } => StreamActionView::Kill { event: event@ },
            StreamAction::Fail { error } => StreamActionView::Fail { error: error@ },
        }
    }
}

/// Whether a stream has ended.
pub open spec fn is_terminal(state: StreamState) -> bool {
    state == StreamState::Completed || state == StreamState::Cancelled || state
        == StreamState::Failed
}

/// A stream that is spawned starts streaming or fails. While it streams,
/// each line is decoded and passed on, the end of output completes it, and
/// cancellation ends it at once. A stream that has ended stays as it is and
/// asks for nothing.
pub open spec fn step_spec(state: StreamState, session_id: Seq<char>, input: StreamInput) -> (
    StreamState,
    StreamActionView,
) {
    match state {
        StreamState::Spawned => match input {
            StreamInput::Started => (StreamState::Streaming, StreamActionView::Nothing),
            StreamInput::SpawnFailed { error } => (
                StreamState::Failed,
                StreamActionView::Fail {
                    error: "Failed to spawn CLI: "@ + error@ + ". Make sure kimi is installed."@,
                },
            ),
            StreamInput::Cancel => (
                StreamState::Cancelled,
                StreamActionView::Kill { event: cancelled_event_spec(session_id) },
            ),
            _ => (StreamState::Spawned, StreamActionView::Nothing),
        },
        StreamState::Streaming => match input {
            StreamInput::Line { text } => (
                StreamState::Streaming,
                match process_spec(session_id, text@, parsed_json(text@)) {
                    Some(event) => StreamActionView::Emit { event },
                    None => StreamActionView::Nothing,
                },
            ),
            StreamInput::EndOfOutput => (
                StreamState::Completed,
                StreamActionView::Finish { event: done_event_spec(session_id) },
            ),
            StreamInput::Cancel => (
                StreamState::Cancelled,
                StreamActionView::Kill { event: cancelled_event_spec(session_id) },
            ),
            _ => (StreamState::Streaming, StreamActionView::Nothing),
        },
        _ => (state, StreamActionView::Nothing),
    }
}

/// The events that an action sends to the front end.
pub open spec fn events_of(action: StreamActionView) -> Seq<CliStreamEventView> {
    match action {
        StreamActionView::Emit { event } => seq![event],
        StreamActionView::Finish { event } => seq![event],
        StreamActionView::Kill { event } => seq![event],
        _ => Seq::empty(),
    }
}

/// Where a stream ends up, and what it sends to the front end, when the
/// inputs happen to it in order.
pub open spec fn run(state: StreamState, session_id: Seq<char>, inputs: Seq<StreamInput>) -> (
    StreamState,
    Seq<CliStreamEventView>,
)
    decreases inputs.len(),
{
    if inputs.len() == 0 {
        (state, Seq::empty())
    } else {
        let before = run(state, session_id, inputs.drop_last());
        let step = step_spec(before.0, session_id, inputs.last());
        (step.0, before.1 + events_of(step.1))
    }
}

/// A stream that has ended sends nothing more, whatever happens.
pub proof fn ended_streams_are_silent(
    state: StreamState,
    session_id: Seq<char>,
    inputs: Seq<StreamInput>,
)
    requires
        is_terminal(state),
    ensures
        run(state, session_id, inputs) == (state, Seq::<CliStreamEventView>::empty()),
    decreases inputs.len(),
{
    if inputs.len() > 0 {
        ended_streams_are_silent(state, session_id, inputs.drop_last());
        assert(Seq::<CliStreamEventView>::empty() + Seq::<CliStreamEventView>::empty()
            =~= Seq::<CliStreamEventView>::empty());
    }
}

/// Cancelling a stream that is in flight sends exactly one more event,
/// `cancelled`, and nothing after it: whatever had been sent before the
/// cancellation stays, and no line or end of output that comes later is
/// passed on.
pub proof fn cancel_ends_the_stream(
    start: StreamState,
    session_id: Seq<char>,
    before: Seq<StreamInput>,
    after: Seq<StreamInput>,
)
    requires
        !is_terminal(run(start, session_id, before).0),
    ensures
        run(start, session_id, before.push(StreamInput::Cancel) + after) == (
            StreamState::Cancelled,
            run(start, session_id, before).1.push(cancelled_event_spec(session_id)),
        ),
    decreases after.len(),
{
    let upto = before.push(StreamInput::Cancel);
    let sent = run(start, session_id, before).1;
    if after.len() == 0 {
        assert(upto + after =~= upto);
        assert(upto.drop_last() =~= before);
        assert(upto.last() == StreamInput::Cancel);
        assert(sent + seq![cancelled_event_spec(session_id)] =~= sent.push(
            cancelled_event_spec(session_id),
        ));
    } else {
        cancel_ends_the_stream(start, session_id, before, after.drop_last());
        assert((upto + after).drop_last() =~= upto + after.drop_last());
        assert((upto + after).last() == after.last());
        assert(sent.push(cancelled_event_spec(session_id)) + Seq::<CliStreamEventView>::empty()
            =~= sent.push(cancelled_event_spec(session_id)));
    }
}

/// Decides what a stream does about what happened to it.
pub fn stream_step(state: StreamState, session_id: &str, input: StreamInput) -> (r: (
    StreamState,
    StreamAction,
))
    ensures
        (r.0, r.1@) == step_spec(state, session_id@, input),
{
    match state {
        StreamState::Spawned => match input {
            StreamInput::Started => (StreamState::Streaming, StreamAction::Nothing),
            StreamInput::SpawnFailed { error } => (
                StreamState::Failed,
                StreamAction::Fail {
                    error: concat3(
                        "Failed to spawn CLI: ",
                        error.as_str(),
                        ". Make sure kimi is installed.",
                    ),
                },
            ),
            StreamInput::Cancel => (
                StreamState::Cancelled,
                StreamAction::Kill { event: cancelled_event(session_id) },
            ),
            _ => (StreamState::Spawned, StreamAction::Nothing),
        },
        StreamState::Streaming => match input {
            StreamInput::Line { text } => (
                StreamState::Streaming,
                match process_wire_line(session_id, text.as_str()) {
                    Some(event) => StreamAction::Emit { event },
                    None => StreamAction::Nothing,
                },
            ),
            StreamInput::EndOfOutput => (
                StreamState::Completed,
                StreamAction::Finish { event: done_event(session_id) },
            ),
            StreamInput::Cancel => (
                StreamState::Cancelled,
                StreamAction::Kill { event: cancelled_event(session_id) },
            ),
            _ => (StreamState::Streaming, StreamAction::Nothing),
        },
        _ => (state, StreamAction::Nothing),
    }
}

// ---------------------------------------------------------------------------
// The command line of the agent
// ---------------------------------------------------------------------------

/// Least number of bytes that a session id must exceed to be resumed.
pub const MIN_SESSION_ID_BYTES: usize = 8;

/// The arguments that the agent is started with: the prompt and the working
/// directory, the model and the thinking flag where they are set, and the
/// session to resume where its id is long enough to be one.
pub open spec fn cli_arguments_spec(
    message: Seq<char>,
    work_dir: Seq<char>,
    model: Option<Seq<char>>,
    thinking: bool,
    session_id: Seq<char>,
) -> Seq<Seq<char>> {
    seq!["--wire"@, "--prompt"@, message, "--work-dir"@, work_dir] + (match model {
        Some(m) => seq!["--model"@, m],
        None => Seq::empty(),
    }) + (if thinking {
        seq!["--thinking"@]
    } else {
        Seq::empty()
    }) + (if byte_len(session_id) > MIN_SESSION_ID_BYTES {
        seq!["--session"@, session_id]
    } else {
        Seq::empty()
    })
}

fn text(s: &str) -> (r: String)
    ensures
        r@ == s@,
{
    string_of(&to_chars(s))
}

/// The arguments that the agent is started with.
pub fn cli_arguments(
    message: &str,
    work_dir: &str,
    model: Option<&str>,
    thinking: bool,
    session_id: &str,
) -> (r: Vec<String>)
    ensures
        string_texts(r@) == cli_arguments_spec(
            message@,
            work_dir@,
            match model {
                Some(m) => Some(m@),
                None => None,
            },
            thinking,
            session_id@,
        ),
{
    let mut args: Vec<String> = Vec::new();
    args.push(text("--wire"));
    args.push(text("--prompt"));
    args.push(text(message));
    args.push(text("--work-dir"));
    args.push(text(work_dir));
    assert(string_texts(args@) =~= seq!["--wire"@, "--prompt"@, message@, "--work-dir"@, work_dir@]);
    let ghost a0 = string_texts(args@);
    match model {
        Some(m) => {
            args.push(text("--model"));
            args.push(text(m));
            assert(string_texts(args@) =~= a0 + seq!["--model"@, m@]);
        },
        None => {
            assert(string_texts(args@) =~= a0 + Seq::<Seq<char>>::empty());
        },
    }
    let ghost a1 = string_texts(args@);
    if thinking {
        args.push(text("--thinking"));
        assert(string_texts(args@) =~= a1 + seq!["--thinking"@]);
    } else {
        assert(string_texts(args@) =~= a1 + Seq::<Seq<char>>::empty());
    }
    let ghost a2 = string_texts(args@);
    if session_id.len() > MIN_SESSION_ID_BYTES {
        args.push(text("--session"));
        args.push(text(session_id));
        assert(string_texts(args@) =~= a2 + seq!["--session"@, session_id@]);
    } else {
        assert(string_texts(args@) =~= a2 + Seq::<Seq<char>>::empty());
    }
    args
}

// ---------------------------------------------------------------------------
// Finding the agent
// ---------------------------------------------------------------------------

/// The words of a command line as a POSIX shell would split it, or `None`
/// where its quotes do not close.
pub uninterp spec fn words_of_command(command: Seq<char>) -> Option<Seq<Seq<char>>>;

/// `shell_words::split` splits a command line into words by the rules of a
/// POSIX shell and fails on a quote that does not close. What it returns
/// depends on the text alone.
#[verifier::external_body]
pub(crate) fn split_command(command: &str) -> (r: Option<Vec<String>>)
    ensures
        match r {
            Some(words) => words_of_command(command@) == Some(string_texts(words@)),
            None => words_of_command(command@) is None,
        },
{
    shell_words::split(command).ok()
}

/// What the caller found out about where the agent may be.
#[derive(Debug)]
pub struct CliProbe {
    /// Whether the configured path exists.
    pub configured_exists: bool,
    /// The command that the environment names, if it names one.
    pub env_command: Option<String>,
    /// The agent's executable as found on the search path, if it is there.
    pub on_path: Option<String>,
    /// The interpreter as found on the search path, if it is there.
    pub interpreter: Option<String>,
}

/// The executable to run. A configured path that is not empty decides
/// alone: it is taken if it exists and is an error if not. Otherwise the
/// first of these is taken: the first word of the command that the
/// environment names; the agent on the search path; the interpreter on the
/// search path. Where there is none, that is an error.
pub open spec fn find_cli_spec(
    cli_path: Option<Seq<char>>,
    probe: CliProbe,
    env_words: Option<Seq<Seq<char>>>,
) -> Result<Seq<char>, Seq<char>> {
    if cli_path is Some && cli_path->0.len() > 0 {
        if probe.configured_exists {
            Ok(cli_path->0)
        } else {
            Err("Configured CLI path not found: "@ + cli_path->0)
        }
    } else if probe.env_command is Some && env_words is Some && env_words->0.len() > 0 {
        Ok(env_words->0[0])
    } else if probe.on_path is Some {
        Ok(probe.on_path->0@)
    } else if probe.interpreter is Some {
        Ok(probe.interpreter->0@)
    } else {
        Err("Kimi CLI not found. Please install kimi-cli or configure API mode."@)
    }
}

/// The view of a resolution result.
pub open spec fn found_text(r: Result<String, String>) -> Result<Seq<char>, Seq<char>> {
    match r {
        Ok(s) => Ok(s@),
        Err(e) => Err(e@),
    }
}

/// The words of an optional list.
pub open spec fn opt_words(o: Option<Vec<String>>) -> Option<Seq<Seq<char>>> {
    match o {
        Some(w) => Some(string_texts(w@)),
        None => None,
    }
}

/// The executable to run, given the words of the command that the
/// environment names (`None` where it does not split).
pub fn find_cli_with(cli_path: Option<&str>, probe: &CliProbe, env_words: &Option<Vec<String>>) -> (r:
    Result<String, String>)
    ensures
        found_text(r) == find_cli_spec(
            match cli_path {
                Some(p) => Some(p@),
                None => None,
            },
            *probe,
            opt_words(*env_words),
        ),
{
    match cli_path {
        Some(p) => {
            if p.unicode_len() > 0 {
                if probe.configured_exists {
                    return Ok(text(p));
                }
                return Err(crate::text::concat2("Configured CLI path not found: ", p));
            }
        },
        None => {},
    }
    if probe.env_command.is_some() {
        match env_words {
            Some(words) => {
                if words.len() > 0 {
                    assert(string_texts(words@)[0] == words@[0]@);
                    return Ok(words[0].clone());
                }
            },
            None => {},
        }
    }
    match &probe.on_path {
        Some(p) => {
            return Ok(p.clone());
        },
        None => {},
    }
    match &probe.interpreter {
        Some(p) => {
            return Ok(p.clone());
        },
        None => {},
    }
    Err(text("Kimi CLI not found. Please install kimi-cli or configure API mode."))
}

/// The executable to run.
pub fn find_cli(cli_path: Option<&str>, probe: &CliProbe) -> (r: Result<String, String>)
    ensures
        found_text(r) == find_cli_spec(
            match cli_path {
                Some(p) => Some(p@),
                None => None,
            },
            *probe,
            match probe.env_command {
                Some(c) => words_of_command(c@),
                None => None,
            },
        ),
{
    let env_words = match &probe.env_command {
        Some(c) => split_command(c.as_str()),
        None => None,
    };
    find_cli_with(cli_path, probe, &env_words)
}

/// What the agent says of its version: its trimmed output where it exited
/// well, an error with what it wrote to standard error otherwise.
pub fn cli_version(success: bool, stdout: &str, stderr: &str) -> (r: Result<String, String>)
    ensures
        found_text(r) == (if success {
            Ok::<Seq<char>, Seq<char>>(crate::text::trim(stdout@))
        } else {
            Err::<Seq<char>, Seq<char>>("CLI error: "@ + stderr@)
        }),
{
    if success {
        let v = to_chars(stdout);
        Ok(string_of(&crate::text::trim_chars(&v)))
    } else {
        Err(crate::text::concat2("CLI error: ", stderr))
    }
}

} // verus!
