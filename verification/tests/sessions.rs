use agent_bridge::listing::{
    dedup_sessions, extract_session_title, gui_session_included, load_sessions, session_info,
    session_list, sort_sessions, work_dir_kaos, SessionInfo, TranscriptEntry, WorkDirKey,
};
use agent_bridge::json::read_json;
use agent_bridge::registry::{ApprovalGate, StreamRegistry};
use agent_bridge::session::{session_messages, Message, Session, SessionManager};
use agent_bridge::storage::{get_session_dir, work_dir_hash};
use std::hash::{Hash, Hasher};

fn message(role: &str, content: &str) -> Message {
    Message { role: role.into(), content: content.into(), timestamp: 1, tool_calls: None }
}

#[test]
fn get_or_create_twice_gives_the_same_session() {
    let mut manager = SessionManager::new();
    let (first, created) = manager.get_or_create_session_at("abc", "First title", "/work", 100);
    assert!(created);
    assert_eq!((first.id.as_str(), first.title.as_str(), first.work_dir.as_str()), ("abc", "First title", "/work"));
    assert_eq!((first.created_at, first.updated_at), (100, 100));
    assert!(first.messages.is_empty());
    let (second, created) = manager.get_or_create_session_at("abc", "Other title", "/elsewhere", 200);
    assert!(!created);
    assert_eq!((second.title.as_str(), second.work_dir.as_str()), ("First title", "/work"));
    assert_eq!((second.created_at, second.updated_at), (100, 100));
    assert_eq!(manager.len(), 1);
}

#[test]
fn messages_are_appended_and_stamp_the_session() {
    let mut manager = SessionManager::new();
    manager.get_or_create_session_at("s", "t", "/w", 10);
    let updated = manager.add_message_at("s", message("user", "hi"), 20).unwrap();
    assert_eq!(updated.updated_at, 20);
    assert_eq!(updated.messages.len(), 1);
    manager.add_message_at("s", message("assistant", "hello"), 30).unwrap();
    let held = manager.get("s").unwrap();
    assert_eq!(held.messages.iter().map(|m| m.content.as_str()).collect::<Vec<_>>(), vec!["hi", "hello"]);
    assert_eq!((held.created_at, held.updated_at), (10, 30));
    assert!(manager.add_message_at("unknown", message("user", "x"), 40).is_none());
    assert_eq!(manager.len(), 1);
    let touched = manager.touch_at("s", 50).unwrap();
    assert_eq!((touched.updated_at, touched.messages.len()), (50, 2));
    assert!(manager.touch_at("unknown", 60).is_none());
}

fn session(id: &str, title: &str, updated_at: i64) -> Session {
    Session {
        id: id.into(),
        title: title.into(),
        work_dir: "/w".into(),
        messages: vec![message("user", title)],
        created_at: 1,
        updated_at,
    }
}

#[test]
fn loaded_sessions_replace_cached_ones() {
    let mut manager = SessionManager::new();
    manager.get_or_create_session_at("a", "old", "/w", 1);
    manager.load_all_sessions(&vec![session("b", "bee", 5), session("a", "new", 6), session("b", "bee again", 7)]);
    assert_eq!(manager.len(), 2);
    assert_eq!(manager.get("a").unwrap().title, "new");
    assert_eq!(manager.get("b").unwrap().title, "bee again");
    assert!(manager.delete_session("a"));
    assert!(!manager.delete_session("a"));
    assert!(manager.get("a").is_none());
    assert_eq!(manager.len(), 1);
}

#[test]
fn file_names_of_a_session() {
    assert_eq!(SessionManager::session_file_name("abc"), "abc.json");
    assert_eq!(SessionManager::messages_file_name("abc"), "abc_messages.jsonl");
}

#[test]
fn messages_come_from_the_first_source() {
    let a = vec![message("user", "cached")];
    let b = vec![message("user", "stored")];
    let c = vec![message("user", "transcript")];
    assert_eq!(session_messages(Some(a.clone()), Some(b.clone()), Some(c.clone()))[0].content, "cached");
    assert_eq!(session_messages(None, Some(b.clone()), Some(c.clone()))[0].content, "stored");
    assert_eq!(session_messages(None, None, Some(c))[0].content, "transcript");
    assert!(session_messages(None, None, None).is_empty());
    assert!(session_messages(Some(Vec::new()), Some(b), None).is_empty());
}

fn info(id: &str, secs: i64, nanos: u32, title: &str) -> SessionInfo {
    SessionInfo { id: id.into(), title: title.into(), updated_secs: secs, updated_nanos: nanos, work_dir: "/w".into() }
}

fn ids(list: &[SessionInfo]) -> Vec<(String, String)> {
    list.iter().map(|i| (i.id.clone(), i.title.clone())).collect()
}

fn pair(a: &str, b: &str) -> (String, String) {
    (a.to_string(), b.to_string())
}

#[test]
fn listing_shows_both_sessions_newest_first_without_duplicates() {
    let cli = vec![info("one", 100, 500, "cli one"), info("two", 300, 0, "cli two")];
    let gui = vec![info("two", 200, 0, "gui two"), info("three", 100, 900, "gui three"), info("one", 100, 500, "gui one")];
    let listed = session_list(cli, gui);
    assert_eq!(
        ids(&listed),
        vec![pair("two", "cli two"), pair("three", "gui three"), pair("one", "cli one")]
    );
}

#[test]
fn listing_of_two_sessions_for_one_directory() {
    let mut manager = SessionManager::new();
    manager.get_or_create_session_at("first", "First", "/work", 100);
    manager.get_or_create_session_at("second", "Second", "/work", 200);
    let gui: Vec<SessionInfo> = ["first", "second"].iter().map(|id| session_info(manager.get(id).unwrap())).collect();
    let cli = vec![info("second", 150, 0, "from the agent")];
    let listed = session_list(cli, gui);
    assert_eq!(ids(&listed), vec![pair("second", "Second"), pair("first", "First")]);
    assert_eq!(listed[0].updated_secs, 200);
}

#[test]
fn sorting_is_stable_and_dedup_keeps_the_first() {
    let sorted = sort_sessions(vec![info("a", 1, 0, "1"), info("b", 2, 0, "2"), info("c", 1, 0, "3"), info("d", 2, 0, "4")]);
    assert_eq!(ids(&sorted), vec![pair("b", "2"), pair("d", "4"), pair("a", "1"), pair("c", "3")]);
    let unique = dedup_sessions(&vec![info("a", 3, 0, "1"), info("b", 2, 0, "2"), info("a", 1, 0, "3")]);
    assert_eq!(ids(&unique), vec![pair("a", "1"), pair("b", "2")]);
    assert!(session_list(Vec::new(), Vec::new()).is_empty());
}

#[test]
fn title_comes_from_the_first_turn() {
    let log = "{\"type\":\"metadata\"}\n\n{\"type\":\"turn_begin\"}\n{\"type\":\"turn_begin\",\"user_input\":\"Please refactor the parser so that it reports every error with its line\"}\n";
    assert_eq!(extract_session_title(log).as_deref(), Some("Please refactor the parser so that it reports e..."));
    assert_eq!(extract_session_title("{\"type\":\"turn_begin\",\"user_input\":\"short\"}").as_deref(), Some("short"));
    assert_eq!(extract_session_title("nothing here\n"), None);
    let late = "x\n".repeat(50) + "{\"type\":\"turn_begin\",\"user_input\":\"late\"}\n";
    assert_eq!(extract_session_title(&late), None);
    let in_time = "x\n".repeat(49) + "{\"type\":\"turn_begin\",\"user_input\":\"in time\"}\n";
    assert_eq!(extract_session_title(&in_time).as_deref(), Some("in time"));
}

fn entry(name: &str, is_dir: bool, has_context: bool, secs: i64, wire: Option<&str>) -> TranscriptEntry {
    TranscriptEntry {
        name: name.into(),
        is_dir,
        has_context,
        modified_secs: secs,
        modified_nanos: 0,
        wire: wire.map(String::from),
    }
}

#[test]
fn transcripts_are_listed_newest_first() {
    let entries = vec![
        entry("0123456789abcdef", true, true, 10, None),
        entry("file.txt", false, true, 99, None),
        entry("no-context", true, false, 98, None),
        entry("xy", true, true, 30, Some("garbage")),
        entry("titled", true, true, 20, Some("{\"type\":\"turn_begin\",\"user_input\":\"Fix it\"}")),
    ];
    let listed = load_sessions(&entries, "/w");
    assert_eq!(
        ids(&listed),
        vec![pair("xy", "Session xy"), pair("titled", "Fix it"), pair("0123456789abcdef", "Session 01234567")]
    );
    assert!(listed.iter().all(|i| i.work_dir == "/w"));
}

#[test]
fn metadata_names_the_environment() {
    let doc = read_json(r#"{"work_dirs":[{"path":"/a"},{"path":"/b","kaos":"ssh"},{"path":"/b","kaos":"late"},{"kaos":"nameless"}]}"#).unwrap();
    assert_eq!(work_dir_kaos(&doc, "/a").as_deref(), Some("local"));
    assert_eq!(work_dir_kaos(&doc, "/b").as_deref(), Some("ssh"));
    assert_eq!(work_dir_kaos(&doc, "/c"), None);
    assert_eq!(work_dir_kaos(&doc, "").as_deref(), Some("nameless"));
    assert_eq!(work_dir_kaos(&read_json("{}").unwrap(), "/a"), None);
    assert_eq!(work_dir_kaos(&read_json(r#"{"work_dirs":3}"#).unwrap(), "/a"), None);
}

#[test]
fn session_directory_is_named_by_the_hash() {
    let mut hasher = std::collections::hash_map::DefaultHasher::new();
    "/home/me/project".hash(&mut hasher);
    let expected = hasher.finish();
    assert_eq!(work_dir_hash("/home/me/project"), expected);
    assert_eq!(get_session_dir("/home/me/project", "local"), format!("{:016x}", expected));
    assert_eq!(get_session_dir("/home/me/project", "ssh"), format!("ssh_{:016x}", expected));
    assert_eq!(get_session_dir("", "local").len(), 16);
    let parts = SessionManager::get_session_dir("/home/me/project", "sid");
    assert_eq!(parts, vec!["sessions".to_string(), format!("{:016x}", expected), "sid".to_string()]);
    assert_ne!(work_dir_hash("/a"), work_dir_hash("/b"));
}

fn key(raw: &str, components: &[&str]) -> WorkDirKey {
    WorkDirKey { raw: raw.into(), components: components.iter().map(|c| c.to_string()).collect() }
}

#[test]
fn cached_sessions_are_filtered_by_directory() {
    let session = key("/work/../work", &["work"]);
    assert!(gui_session_included(None, &session));
    assert!(gui_session_included(Some(&key("/work", &["work"])), &session));
    assert!(gui_session_included(Some(&key("/work/../work", &["gone"])), &session));
    assert!(!gui_session_included(Some(&key("/other", &["other"])), &session));
    assert!(!gui_session_included(Some(&key("/work/sub", &["work", "sub"])), &session));
}

#[test]
fn stream_registry_hands_out_numbers() {
    let mut registry = StreamRegistry::new();
    assert_eq!(registry.register(), 1);
    assert_eq!(registry.register(), 2);
    assert_eq!(registry.register(), 3);
    assert!(registry.remove(2));
    assert!(!registry.remove(2));
    assert_eq!(registry.cancel_all(), vec![1, 3]);
    assert!(registry.cancel_all().is_empty());
    assert_eq!(registry.register(), 4);
}

#[test]
fn approval_is_resolved_once() {
    let mut gate = ApprovalGate::new();
    assert!(gate.register("r1"));
    assert!(!gate.register("r1"));
    assert!(gate.register("r2"));
    assert!(gate.is_pending("r1"));
    assert_eq!(gate.respond("r1", true), Ok(true));
    assert_eq!(gate.respond("r1", true), Err("Approval request not found".to_string()));
    assert!(!gate.is_pending("r1"));
    assert_eq!(gate.respond("never", false), Err("Approval request not found".to_string()));
    assert_eq!(gate.respond("r2", false), Ok(false));
    assert!(!gate.is_pending("r2"));
}

#[test]
fn sessions_are_stamped_by_the_clock() {
    let mut manager = SessionManager::new();
    let (first, created) = manager.get_or_create_session("c", "Title", "/w");
    assert!(created);
    assert_eq!(first.created_at, first.updated_at);
    assert!(first.created_at > 1_600_000_000);
    let (second, created) = manager.get_or_create_session("c", "Other", "/x");
    assert!(!created);
    assert_eq!((second.title.as_str(), second.created_at), ("Title", first.created_at));
    let updated = manager.add_message("c", message("user", "hi")).unwrap();
    assert!(updated.updated_at >= first.updated_at);
    assert_eq!(updated.messages.len(), 1);
    assert!(manager.touch("c").unwrap().updated_at >= updated.updated_at);
    assert!(manager.touch("missing").is_none());
}
