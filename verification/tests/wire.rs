use agent_bridge::json::{read_json, Json};
use agent_bridge::stream::{
    cli_arguments, cli_version, find_cli, stream_step, CliProbe, StreamAction, StreamInput,
    StreamState,
};
use agent_bridge::session::SessionManager;
use agent_bridge::transcript::{decode_log, message_log_lines, reconstruct};
use agent_bridge::wire::{
    decode_parsed, decode_wire_line, outward_event, process_wire_line, wire_kind, WireKind,
};

#[test]
fn text_part_is_decoded() {
    let e = decode_wire_line(r#"{"type":"TextPart","content":"hi","n":1}"#).unwrap();
    assert_eq!(e.kind, WireKind::TextPart);
    assert_eq!(e.text.as_deref(), Some("hi"));
    assert!(e.payload.get("type").is_none());
    assert_eq!(e.payload.text_at("content"), Some("hi"));
    assert!(matches!(e.payload.get("n"), Some(Json::Int(1))));
}

#[test]
fn both_spellings_name_the_same_kind() {
    for (a, b, kind) in [
        ("TurnBegin", "turn_begin", WireKind::TurnBegin),
        ("TextPart", "text_part", WireKind::TextPart),
        ("ThinkPart", "think_part", WireKind::ThinkPart),
        ("ToolCall", "tool_call", WireKind::ToolCall),
        ("ToolResult", "tool_result", WireKind::ToolResult),
        ("StepBegin", "step_begin", WireKind::StepBegin),
        ("StepEnd", "step_end", WireKind::StepEnd),
        ("TurnEnd", "turn_end", WireKind::StepEnd),
        ("Error", "error", WireKind::Error),
    ] {
        assert_eq!(wire_kind(a), Some(kind));
        assert_eq!(wire_kind(b), Some(kind));
        let line = format!("{{\"type\":\"{b}\"}}");
        assert_eq!(decode_wire_line(&line).unwrap().kind, kind);
    }
    assert_eq!(wire_kind("textpart"), None);
    assert_eq!(wire_kind(""), None);
}

#[test]
fn missing_fields_do_not_fail() {
    let e = decode_wire_line(r#"{"type":"text_part"}"#).unwrap();
    assert_eq!((e.kind, e.text), (WireKind::TextPart, None));
    let e = decode_wire_line(r#"{"type":"error"}"#).unwrap();
    assert_eq!(e.text.as_deref(), Some("Unknown error"));
    let e = decode_wire_line(r#"{"type":"error","message":"boom"}"#).unwrap();
    assert_eq!(e.text.as_deref(), Some("boom"));
    let e = decode_wire_line(r#"{"type":"turn_begin","user_input":7}"#).unwrap();
    assert_eq!((e.kind, e.text), (WireKind::TurnBegin, None));
}

#[test]
fn decoding_again_gives_the_same_event() {
    let line = r#"{"type":"tool_call","name":"Shell","args":{"command":"ls"}}"#;
    let a = decode_wire_line(line).unwrap();
    let b = decode_wire_line(line).unwrap();
    assert_eq!(a.kind, b.kind);
    assert_eq!(a.text, b.text);
    assert_eq!(a.payload.text_at("name"), b.payload.text_at("name"));
    assert_eq!(a.payload.text_at("name"), Some("Shell"));
}

#[test]
fn other_lines_become_plain_text() {
    for line in ["not json", "{\"type\":\"mystery\"}", "{\"content\":\"x\"}", "[1,2]", "42", "{\"type\":3}", "{broken"] {
        let e = decode_wire_line(line).unwrap();
        assert_eq!(e.kind, WireKind::PlainText);
        assert_eq!(e.text.as_deref(), Some(line));
        assert!(e.payload.is_null());
        let again = decode_wire_line(e.text.as_deref().unwrap()).unwrap();
        assert_eq!(again.text.as_deref(), Some(line));
    }
}

#[test]
fn blank_lines_are_dropped() {
    assert!(decode_wire_line("").is_none());
    assert!(decode_wire_line("   \t ").is_none());
    assert!(decode_parsed(" ", read_json("{}")).is_none());
    assert!(process_wire_line("s", "  ").is_none());
}

#[test]
fn json_documents_are_read() {
    let doc = read_json(r#"{"a":{"b":[1,-2,18446744073709551615,1.5,"x",null,true]}}"#).unwrap();
    let items = doc.get("a").unwrap().get("b").unwrap().as_array().unwrap();
    assert!(matches!(items[0], Json::Int(1)));
    assert!(matches!(items[1], Json::Int(-2)));
    assert!(matches!(items[2], Json::UInt(18446744073709551615)));
    assert!(matches!(&items[3], Json::Real(t) if t == "1.5"));
    assert_eq!(items[4].as_str(), Some("x"));
    assert!(items[5].is_null());
    assert!(matches!(items[6], Json::Bool(true)));
    assert!(read_json("{").is_none());
    assert!(doc.get("missing").is_none());
    assert!(doc.as_str().is_none());
    assert_eq!(doc.as_object().unwrap().len(), 1);
}

#[test]
fn events_for_the_front_end() {
    let e = process_wire_line("s1", r#"{"type":"text_part","content":"hi"}"#).unwrap();
    assert_eq!((e.event.as_str(), e.session_id.as_str(), e.content.as_deref()), ("chunk", "s1", Some("hi")));
    assert!(process_wire_line("s1", r#"{"type":"text_part"}"#).is_none());
    assert!(process_wire_line("s1", r#"{"type":"turn_begin","user_input":"q"}"#).is_none());
    assert!(process_wire_line("s1", r#"{"type":"think_part","content":"hm"}"#).is_none());
    let e = process_wire_line("s1", r#"{"type":"tool_call","id":"c1"}"#).unwrap();
    assert_eq!(e.event, "tool_call");
    assert_eq!(e.data.as_ref().unwrap().text_at("id"), Some("c1"));
    assert!(e.data.as_ref().unwrap().get("type").is_none());
    let e = process_wire_line("s1", r#"{"type":"ToolResult","ok":true}"#).unwrap();
    assert_eq!(e.event, "tool_result");
    assert_eq!(process_wire_line("s1", r#"{"type":"step_begin"}"#).unwrap().event, "step_begin");
    assert_eq!(process_wire_line("s1", r#"{"type":"turn_end"}"#).unwrap().event, "step_end");
    let e = process_wire_line("s1", r#"{"type":"error","message":"bad"}"#).unwrap();
    assert_eq!((e.event.as_str(), e.message.as_deref()), ("error", Some("bad")));
    let e = process_wire_line("s1", "plain words").unwrap();
    assert_eq!((e.event.as_str(), e.content.as_deref()), ("chunk", Some("plain words")));
    let e = outward_event("s2", decode_wire_line("x").unwrap()).unwrap();
    assert_eq!(e.session_id, "s2");
}

fn emitted(action: &StreamAction) -> Option<String> {
    match action {
        StreamAction::Emit { event } | StreamAction::Finish { event } | StreamAction::Kill { event } => {
            Some(event.event.clone())
        }
        _ => None,
    }
}

#[test]
fn stream_runs_to_completion() {
    let (state, action) = stream_step(StreamState::Spawned, "s", StreamInput::Started);
    assert_eq!(state, StreamState::Streaming);
    assert!(matches!(action, StreamAction::Nothing));
    let (state, action) = stream_step(state, "s", StreamInput::Line { text: "hello".into() });
    assert_eq!(state, StreamState::Streaming);
    assert_eq!(emitted(&action).as_deref(), Some("chunk"));
    let (state, action) = stream_step(state, "s", StreamInput::Line { text: "".into() });
    assert!(matches!(action, StreamAction::Nothing));
    let (state, action) = stream_step(state, "s", StreamInput::EndOfOutput);
    assert_eq!(state, StreamState::Completed);
    assert!(matches!(&action, StreamAction::Finish { event } if event.event == "done" && event.session_id == "s"));
    let (state, action) = stream_step(state, "s", StreamInput::Cancel);
    assert_eq!(state, StreamState::Completed);
    assert!(matches!(action, StreamAction::Nothing));
}

#[test]
fn cancelled_stream_sends_one_event_and_no_more() {
    let inputs = vec![
        StreamInput::Started,
        StreamInput::Line { text: "a".into() },
        StreamInput::Cancel,
        StreamInput::Line { text: "b".into() },
        StreamInput::EndOfOutput,
        StreamInput::Cancel,
    ];
    let mut state = StreamState::Spawned;
    let mut names = Vec::new();
    for input in inputs {
        let (next, action) = stream_step(state, "s", input);
        if let StreamAction::Kill { .. } = action {
            assert_eq!(next, StreamState::Cancelled);
        }
        if let Some(name) = emitted(&action) {
            names.push(name);
        }
        state = next;
    }
    assert_eq!(state, StreamState::Cancelled);
    assert_eq!(names, vec!["chunk".to_string(), "cancelled".to_string()]);
}

#[test]
fn stream_that_cannot_start_fails() {
    let (state, action) = stream_step(StreamState::Spawned, "s", StreamInput::SpawnFailed { error: "ENOENT".into() });
    assert_eq!(state, StreamState::Failed);
    assert!(matches!(&action, StreamAction::Fail { error } if error == "Failed to spawn CLI: ENOENT. Make sure kimi is installed."));
    let (state, action) = stream_step(state, "s", StreamInput::Line { text: "x".into() });
    assert_eq!(state, StreamState::Failed);
    assert!(matches!(action, StreamAction::Nothing));
}

#[test]
fn agent_command_line() {
    let args = cli_arguments("do it", "/w", Some("k2"), true, "0123456789");
    assert_eq!(args, vec!["--wire", "--prompt", "do it", "--work-dir", "/w", "--model", "k2", "--thinking", "--session", "0123456789"]);
    let args = cli_arguments("do it", "/w", None, false, "12345678");
    assert_eq!(args, vec!["--wire", "--prompt", "do it", "--work-dir", "/w"]);
    let args = cli_arguments("p", "/w", None, false, "");
    assert_eq!(args.len(), 5);
    let args = cli_arguments("p", "/w", None, false, "123456789");
    assert_eq!(args[5..], ["--session".to_string(), "123456789".to_string()]);
}

fn probe(exists: bool, env: Option<&str>, on_path: Option<&str>, interpreter: Option<&str>) -> CliProbe {
    CliProbe {
        configured_exists: exists,
        env_command: env.map(String::from),
        on_path: on_path.map(String::from),
        interpreter: interpreter.map(String::from),
    }
}

#[test]
fn agent_is_found_in_order_of_precedence() {
    let all = probe(true, Some("'/opt/my kimi/bin' --flag"), Some("/usr/bin/kimi"), Some("/usr/bin/python3"));
    assert_eq!(find_cli(Some("/custom/kimi"), &all), Ok("/custom/kimi".to_string()));
    assert_eq!(find_cli(Some(""), &all), Ok("/opt/my kimi/bin".to_string()));
    assert_eq!(find_cli(None, &all), Ok("/opt/my kimi/bin".to_string()));
    let missing = probe(false, Some("x"), Some("/usr/bin/kimi"), None);
    assert_eq!(find_cli(Some("/custom/kimi"), &missing), Err("Configured CLI path not found: /custom/kimi".to_string()));
    let unbalanced = probe(false, Some("'oops"), Some("/usr/bin/kimi"), None);
    assert_eq!(find_cli(None, &unbalanced), Ok("/usr/bin/kimi".to_string()));
    let blank_env = probe(false, Some("   "), None, Some("/usr/bin/python3"));
    assert_eq!(find_cli(None, &blank_env), Ok("/usr/bin/python3".to_string()));
    let nothing = probe(false, None, None, None);
    assert_eq!(find_cli(None, &nothing), Err("Kimi CLI not found. Please install kimi-cli or configure API mode.".to_string()));
}

#[test]
fn agent_version() {
    assert_eq!(cli_version(true, " 1.2.3\n", "warn"), Ok("1.2.3".to_string()));
    assert_eq!(cli_version(false, "1.2.3", "broken"), Err("CLI error: broken".to_string()));
}

#[test]
fn transcript_is_rebuilt() {
    let log = concat_lines(&[
        r#"{"type":"text_part","content":"ignored before any turn"}"#,
        r#"{"type":"turn_begin","user_input":"first question"}"#,
        r#"{"type":"text_part","content":"Hel"}"#,
        r#"{"type":"tool_call","name":"Shell"}"#,
        r#"{"type":"text_part","content":"lo"}"#,
        r#"{"type":"step_end"}"#,
        r#"{"type":"step_end"}"#,
        "",
        "not json",
        r#"{"type":"text_part","content":"more"}"#,
        r#"{"type":"TurnBegin"}"#,
        r#"{"type":"text_part","content":"tail"}"#,
    ]);
    let messages = SessionManager::load_messages_at(&log, 77);
    let seen: Vec<(String, String)> = messages.iter().map(|m| (m.role.clone(), m.content.clone())).collect();
    assert_eq!(
        seen,
        vec![
            ("user".to_string(), "first question".to_string()),
            ("assistant".to_string(), "Hello".to_string()),
            ("assistant".to_string(), "more".to_string()),
            ("user".to_string(), String::new()),
            ("assistant".to_string(), "tail".to_string()),
        ]
    );
    assert!(messages.iter().all(|m| m.timestamp == 77 && m.tool_calls.is_none()));
}

fn concat_lines(lines: &[&str]) -> String {
    let mut s = String::new();
    for l in lines {
        s.push_str(l);
        s.push_str("\r\n");
    }
    s
}

#[test]
fn transcript_of_the_same_log_is_the_same() {
    let log = "{\"type\":\"turn_begin\",\"user_input\":\"q\"}\n{\"type\":\"text_part\",\"content\":\"a\"}\n";
    let events = decode_log(log);
    assert_eq!(events.len(), 2);
    let a = reconstruct(&events, 5);
    let b = reconstruct(&events, 5);
    assert_eq!(a.len(), 2);
    for (x, y) in a.iter().zip(b.iter()) {
        assert_eq!((&x.role, &x.content, x.timestamp), (&y.role, &y.content, y.timestamp));
    }
    assert!(SessionManager::load_messages_at("", 1).is_empty());
    let stamped = SessionManager::load_messages(log);
    assert_eq!(stamped.len(), 2);
    assert!(stamped[0].timestamp > 1_600_000_000);
    assert_eq!(stamped[0].timestamp, stamped[1].timestamp);
}

#[test]
fn message_log_is_framed_by_lines() {
    assert_eq!(message_log_lines("{\"a\":1}\n\n  \r\n{\"b\":2}"), vec!["{\"a\":1}", "{\"b\":2}"]);
    assert!(message_log_lines("\n\n").is_empty());
}
