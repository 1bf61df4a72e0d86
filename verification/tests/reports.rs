use agent_bridge::files::{
    children_plan, depth_allowed, get_git_status, is_ignored, is_text_before, list_dir_tree,
    list_files, path_matches, tree_name, ChildrenPlan, DirEntry, FoundPath,
};
use agent_bridge::history::{
    cowork_history_delete, cowork_history_upsert, sort_history, CoworkHistoryEntry,
};
use agent_bridge::json::read_json;
use agent_bridge::chat::GuiSettings;
use agent_bridge::settings::{normalize_gui_settings_paths, normalize_legacy_storage_path};
use agent_bridge::skills::{parse_skill_frontmatter, skill_name, skills_list, SkillInfo};
use agent_bridge::usage::{
    find_five_hour_limit, format_duration, limit_label, normalize_rfc3339, reset_hint,
    reset_hint_at, to_i64,
    usage_limits, usage_row_from_maps, usage_summary, UsageRow,
};

#[test]
fn durations() {
    assert_eq!(format_duration(0), "0m");
    assert_eq!(format_duration(-5), "0m");
    assert_eq!(format_duration(59), "0m");
    assert_eq!(format_duration(60), "1m");
    assert_eq!(format_duration(3_600), "1h");
    assert_eq!(format_duration(3_660), "1h 1m");
    assert_eq!(format_duration(86_400), "1d");
    assert_eq!(format_duration(90_061), "1d 1h 1m");
    assert_eq!(format_duration(86_460), "1d 1m");
    assert_eq!(format_duration(i64::MAX), "106751991167300d 15h 30m");
}

#[test]
fn fractions_of_a_second_are_cut() {
    assert_eq!(normalize_rfc3339("2024-05-01T10:00:00.123456789Z"), "2024-05-01T10:00:00.123456Z");
    assert_eq!(normalize_rfc3339("2024-05-01T10:00:00.12Z"), "2024-05-01T10:00:00.12Z");
    assert_eq!(normalize_rfc3339("2024-05-01T10:00:00Z"), "2024-05-01T10:00:00Z");
    assert_eq!(normalize_rfc3339("2024-05-01T10:00:00.123456789+02:00"), "2024-05-01T10:00:00.123456789+02:00");
    assert_eq!(normalize_rfc3339("1.5ZZ"), "1.5Z");
    assert_eq!(normalize_rfc3339(""), "");
}

#[test]
fn numbers_are_read_leniently() {
    let doc = read_json(r#"{"a":5,"b":" -12 ","c":18446744073709551615,"d":1.5,"e":"1.5","f":true,"g":"+7"}"#).unwrap();
    assert_eq!(to_i64(doc.get("a").unwrap()), Some(5));
    assert_eq!(to_i64(doc.get("b").unwrap()), Some(-12));
    assert_eq!(to_i64(doc.get("c").unwrap()), Some(-1));
    assert_eq!(to_i64(doc.get("d").unwrap()), None);
    assert_eq!(to_i64(doc.get("e").unwrap()), None);
    assert_eq!(to_i64(doc.get("f").unwrap()), None);
    assert_eq!(to_i64(doc.get("g").unwrap()), Some(7));
}

#[test]
fn reset_hints() {
    let now = (1_714_557_600, 0); // 2024-05-01T10:00:00Z
    let doc = read_json(r#"{"reset_at":"2024-05-01T12:30:00.1234567Z"}"#).unwrap();
    assert_eq!(reset_hint_at(&doc, now).as_deref(), Some("resets in 2h 30m"));
    let doc = read_json(r#"{"resetAt":"2024-05-01T10:00:00Z"}"#).unwrap();
    assert_eq!(reset_hint_at(&doc, now).as_deref(), Some("reset"));
    let doc = read_json(r#"{"reset_at":"garbage","resetTime":"2024-05-02T10:00:00+00:00","ttl":5}"#).unwrap();
    assert_eq!(reset_hint_at(&doc, now).as_deref(), Some("resets in 1d"));
    let doc = read_json(r#"{"reset_at":"garbage","reset_in":0,"ttl":"7200"}"#).unwrap();
    assert_eq!(reset_hint_at(&doc, now).as_deref(), Some("resets in 2h"));
    let doc = read_json(r#"{"window":-1}"#).unwrap();
    assert_eq!(reset_hint_at(&doc, now), None);
    assert_eq!(reset_hint(&doc), None);
    let doc = read_json(r#"{"reset_at":"2001-01-01T00:00:00Z"}"#).unwrap();
    assert_eq!(reset_hint(&doc).as_deref(), Some("reset"));
    let doc = read_json(r#"{"reset_at":"9000-01-01T00:00:00Z"}"#).unwrap();
    assert!(reset_hint(&doc).unwrap().starts_with("resets in "));
    let doc = read_json(r#"{"reset_at":"2024-05-01T10:00:00.900Z"}"#).unwrap();
    assert_eq!(reset_hint_at(&doc, (1_714_557_599, 0)).as_deref(), Some("resets in 0m"));
    assert_eq!(reset_hint_at(&doc, (1_714_557_600, 0)).as_deref(), Some("reset"));
}

#[test]
fn usage_report() {
    let now = (0, 0);
    let doc = read_json(r#"{"usage":{"limit":"100","remaining":30,"reset_in":120},"limits":[
        {"name":" Weekly ","detail":{"limit":10,"used":4}},
        "skipped",
        {"detail":{"used":1}},
        {"window":{"duration":300,"timeUnit":"TIME_UNIT_MINUTE"},"limit":50,"remaining":10,"ttl":60},
        {"duration":90,"timeUnit":"MINUTE","limit":1},
        {"detail":{"limit":2,"duration":3,"timeUnit":"HOUR"}},
        {"window":{"duration":2,"timeUnit":"DAY"},"limit":3},
        {"window":{"duration":45},"limit":4},
        {"limit":5,"title":"  ","scope":"team"},
        {"limit":6}
    ]}"#).unwrap();
    let summary = usage_summary(&doc, now).unwrap();
    assert_eq!((summary.used, summary.limit, summary.reset.as_deref()), (70, 100, Some("resets in 2m")));
    let rows = usage_limits(&doc, now);
    let seen: Vec<(String, i64, i64, Option<String>)> = rows.iter().map(|r| (r.label.clone(), r.used, r.limit, r.reset.clone())).collect();
    assert_eq!(
        seen,
        vec![
            ("Weekly".to_string(), 4, 10, None),
            ("5h limit".to_string(), 40, 50, Some("resets in 1m".to_string())),
            ("90m limit".to_string(), 0, 1, None),
            ("3h limit".to_string(), 0, 2, None),
            ("2d limit".to_string(), 0, 3, None),
            ("45s limit".to_string(), 0, 4, None),
            ("team".to_string(), 0, 5, None),
            ("Limit #10".to_string(), 0, 6, None),
        ]
    );
    let five = find_five_hour_limit(&rows).unwrap();
    assert_eq!((five.label.as_str(), five.used), ("5h limit", 40));
    assert!(usage_summary(&read_json(r#"{"usage":{"used":1}}"#).unwrap(), now).is_none());
    assert!(usage_summary(&read_json(r#"{"usage":[]}"#).unwrap(), now).is_none());
    assert!(usage_limits(&read_json(r#"{"limits":{}}"#).unwrap(), now).is_empty());
    let empty = read_json("{}").unwrap();
    assert_eq!(limit_label(&empty, &empty, &empty, 0), "Limit #1");
    assert!(usage_row_from_maps("x".into(), &empty, &empty, &empty, now).is_none());
}

#[test]
fn five_hour_limit_is_found_by_its_label() {
    let row = |label: &str| UsageRow { label: label.into(), used: 1, limit: 2, reset: None };
    assert_eq!(find_five_hour_limit(&vec![row("Weekly"), row("Rate 5 Hours"), row("5H")]).unwrap().label, "Rate 5 Hours");
    assert_eq!(find_five_hour_limit(&vec![row("15H window")]).unwrap().label, "15H window");
    assert!(find_five_hour_limit(&vec![row("Weekly"), row("5 m")]).is_none());
    assert!(find_five_hour_limit(&Vec::new()).is_none());
}

fn entry(id: &str, updated_at: i64, prompt: &str) -> CoworkHistoryEntry {
    CoworkHistoryEntry {
        id: id.into(),
        prompt: prompt.into(),
        status: "done".into(),
        folder: None,
        created_at: 0,
        updated_at,
        steps: Vec::new(),
    }
}

fn seen(entries: &[CoworkHistoryEntry]) -> Vec<(String, String)> {
    entries.iter().map(|e| (e.id.clone(), e.prompt.clone())).collect()
}

fn pair(a: &str, b: &str) -> (String, String) {
    (a.to_string(), b.to_string())
}

#[test]
fn history_is_kept_newest_first() {
    let history = vec![entry("a", 3, "a1"), entry("b", 2, "b1"), entry("c", 1, "c1")];
    let history = cowork_history_upsert(history, entry("b", 5, "b2")).unwrap();
    assert_eq!(seen(&history), vec![pair("b", "b2"), pair("a", "a1"), pair("c", "c1")]);
    let history = cowork_history_upsert(history, entry("d", 3, "d1")).unwrap();
    assert_eq!(seen(&history), vec![pair("b", "b2"), pair("a", "a1"), pair("d", "d1"), pair("c", "c1")]);
    assert_eq!(cowork_history_upsert(Vec::new(), entry("  ", 1, "x")).map(|v| v.len()), Err("History entry id cannot be empty".to_string()));
    let sorted = sort_history(vec![entry("x", 1, ""), entry("y", 9, ""), entry("z", 1, "")]);
    assert_eq!(seen(&sorted).iter().map(|p| p.0.clone()).collect::<Vec<_>>(), vec!["y", "x", "z"]);
}

#[test]
fn history_drops_repeats_and_is_cut() {
    let history = vec![entry("a", 3, "first"), entry("a", 3, "second"), entry("b", 3, "b"), entry("a", 3, "third")];
    let history = cowork_history_upsert(history, entry("z", 0, "z")).unwrap();
    assert_eq!(seen(&history), vec![pair("a", "first"), pair("b", "b"), pair("a", "third"), pair("z", "z")]);
    let many: Vec<CoworkHistoryEntry> = (0..500).map(|i| entry(&format!("e{i}"), i, "")).collect();
    let history = cowork_history_upsert(many, entry("new", 1000, "")).unwrap();
    assert_eq!(history.len(), 500);
    assert_eq!(history[0].id, "new");
    assert_eq!(history[499].id, "e1");
}

#[test]
fn history_entries_are_deleted_by_id() {
    let history = vec![entry("a", 3, ""), entry("b", 2, ""), entry("a", 1, "")];
    let left = cowork_history_delete(history, " a ").unwrap();
    assert_eq!(seen(&left), vec![pair("b", "")]);
    let left = cowork_history_delete(left, "missing").unwrap();
    assert_eq!(left.len(), 1);
    assert_eq!(cowork_history_delete(left, " \t").map(|v| v.len()), Err("History entry id cannot be empty".to_string()));
}

#[test]
fn old_storage_paths_are_renamed() {
    assert_eq!(normalize_legacy_storage_path("/home/me/.kimi/config.toml"), "/home/me/.kimicodegui/config.toml");
    assert_eq!(normalize_legacy_storage_path("/home/me/.kimi"), "/home/me/.kimicodegui");
    assert_eq!(normalize_legacy_storage_path("/home/me/.kimi/.kimi/.kimi"), "/home/me/.kimicodegui/.kimicodegui");
    assert_eq!(normalize_legacy_storage_path("/a/.kimi/.kimi"), "/a/.kimicodegui/.kimicodegui");
    assert_eq!(normalize_legacy_storage_path("C:\\Users\\me\\.kimi\\skills"), "C:\\Users\\me\\.kimicodegui\\skills");
    assert_eq!(normalize_legacy_storage_path("C:\\Users\\me\\.kimi"), "C:\\Users\\me\\.kimicodegui");
    assert_eq!(normalize_legacy_storage_path("/home/me/.kimicodegui/x"), "/home/me/.kimicodegui/x");
    assert_eq!(normalize_legacy_storage_path("/home/me/.kimirc"), "/home/me/.kimirc");
    assert_eq!(normalize_legacy_storage_path(""), "");
}

fn renamed_by_std(path: &str) -> String {
    let unix = path.replace("/.kimi/", "/.kimicodegui/");
    let unix = if unix.ends_with("/.kimi") {
        format!("{}/.kimicodegui", unix.trim_end_matches("/.kimi"))
    } else {
        unix
    };
    let windows = unix.replace("\\.kimi\\", "\\.kimicodegui\\");
    if windows.ends_with("\\.kimi") {
        format!("{}\\.kimicodegui", windows.trim_end_matches("\\.kimi"))
    } else {
        windows
    }
}

#[test]
fn old_storage_paths_are_renamed_as_the_standard_functions_do() {
    for path in [
        "/home/me/.kimi/.kimi/.kimi",
        "/.kimi/.kimi/.kimi/.kimi/",
        "/.kimi",
        "/.kimi/.kimi",
        "\\.kimi\\.kimi\\.kimi",
        "a\\.kimi\\b/.kimi/c\\.kimi",
        "/.kimi//.kimi/.kimi",
        ".kimi",
        "/.kimi\\.kimi",
    ] {
        assert_eq!(normalize_legacy_storage_path(path), renamed_by_std(path), "{path}");
    }
}

#[test]
fn settings_are_normalized() {
    let mut settings = GuiSettings::default();
    settings.config_file = Some("/h/.kimi/config.toml".into());
    settings.skills_dir = Some("/h/.kimi".into());
    settings.mcp_config_files = vec!["/h/.kimi/mcp.json".into(), "/other".into()];
    settings.recent_work_dirs = vec![
        "/a".into(), " ".into(), "/h/.kimi".into(), "/a".into(), "/h/.kimicodegui".into(), "/b".into(), "/c".into(), "/d".into(), "/e".into(),
    ];
    settings.model = Some("m".into());
    settings.pinned_sessions = vec!["p".into()];
    let out = normalize_gui_settings_paths(settings);
    assert_eq!(out.config_file.as_deref(), Some("/h/.kimicodegui/config.toml"));
    assert_eq!(out.skills_dir.as_deref(), Some("/h/.kimicodegui"));
    assert_eq!(out.mcp_config_files, vec!["/h/.kimicodegui/mcp.json", "/other"]);
    assert_eq!(out.recent_work_dirs, vec!["/a", "/h/.kimicodegui", "/b", "/c", "/d"]);
    assert_eq!(out.model.as_deref(), Some("m"));
    assert_eq!(out.pinned_sessions, vec!["p"]);
}

#[test]
fn skill_head_is_read() {
    let (name, description) = parse_skill_frontmatter("---\nname: \"Deploy\"\ndescription: 'Ships: it'\nname:\nother: x\n---\nname: late\n");
    assert_eq!((name.as_deref(), description.as_deref()), (Some("Deploy"), Some("Ships: it")));
    let (name, description) = parse_skill_frontmatter("  ---  \r\n  name :  a  \r\nname: b\r\n");
    assert_eq!((name.as_deref(), description), (Some("b"), None));
    assert_eq!(parse_skill_frontmatter("name: x\n---\n"), (None, None));
    assert_eq!(parse_skill_frontmatter(""), (None, None));
    let (name, _) = parse_skill_frontmatter("---\nname: \"'q'\"\n");
    assert_eq!(name.as_deref(), Some("q"));
    assert_eq!(skill_name(Some("n".into()), Some("dir")), "n");
    assert_eq!(skill_name(None, Some("dir")), "dir");
    assert_eq!(skill_name(None, None), "skill");
}

#[test]
fn skills_are_listed_once_per_name() {
    let skill = |name: &str, root: &str| SkillInfo { name: name.into(), description: None, path: format!("{root}/{name}/SKILL.md"), root: root.into() };
    let listed = skills_list(vec![skill("Deploy", "/g"), skill("test", "/g"), skill("deploy", "/w"), skill("TEST", "/w"), skill("lint", "/w")]);
    let seen: Vec<(String, String)> = listed.iter().map(|s| (s.name.clone(), s.root.clone())).collect();
    assert_eq!(seen, vec![pair("Deploy", "/g"), pair("test", "/g"), pair("lint", "/w")]);
}

#[test]
fn entries_are_ignored_by_name() {
    for name in [".git", ".hidden", "node_modules", "target", "venv", "__pycache__", "dist", "build"] {
        assert!(is_ignored(name, false), "{name}");
        assert!(is_ignored(name, true), "{name}");
    }
    for name in ["src", "Cargo.toml", "venv2", "Target", ""] {
        assert!(!is_ignored(name, false), "{name}");
        assert!(!is_ignored(name, true), "{name}");
    }
    for name in ["Cargo.lock", "package-lock.json", "yarn.lock", "pnpm-lock.yaml"] {
        assert!(!is_ignored(name, false), "{name}");
        assert!(is_ignored(name, true), "{name}");
    }
    assert!(path_matches("src/Main.rs", ""));
    assert!(path_matches("src/Main.rs", "main"));
    assert!(!path_matches("src/Main.rs", "Main"));
    assert!(!path_matches("src/lib.rs", "main"));
}

#[test]
fn names_are_ordered_as_texts() {
    let mut names: Vec<String> = ["b", "a", "ab", "", "B", "é", "z", "a/b", "a.b", "aa", "😀", "\u{e000}"].iter().map(|s| s.to_string()).collect();
    for a in &names {
        for b in &names {
            assert_eq!(is_text_before(a, b), a < b, "{a:?} {b:?}");
        }
    }
    let sorted: Vec<String> = list_files(names.iter().map(|n| FoundPath { relative: n.clone() }).collect()).into_iter().map(|p| p.relative).collect();
    names.sort();
    assert_eq!(sorted, names);
}

#[test]
fn tree_shows_directories_first() {
    let e = |name: &str, is_dir: bool| DirEntry { name: name.into(), path: format!("/r/{name}"), is_dir, children: if is_dir { Some(Vec::new()) } else { None } };
    let sorted = list_dir_tree(vec![e("b.txt", false), e("src", true), e("a.txt", false), e("docs", true), e("Zed", false)]);
    let names: Vec<&str> = sorted.iter().map(|d| d.name.as_str()).collect();
    assert_eq!(names, vec!["docs", "src", "Zed", "a.txt", "b.txt"]);
    assert_eq!(children_plan(false, 0), ChildrenPlan::Absent);
    assert_eq!(children_plan(true, 0), ChildrenPlan::Load);
    assert_eq!(children_plan(true, 1), ChildrenPlan::Load);
    assert_eq!(children_plan(true, 2), ChildrenPlan::Defer);
    assert!(depth_allowed(10));
    assert!(!depth_allowed(11));
    assert_eq!(tree_name(Some("proj")), "proj");
    assert_eq!(tree_name(None), "root");
}

#[test]
fn version_control_status_is_read() {
    let entries = get_git_status("M  staged.rs\n M changed.rs\nA  new.rs\nD  gone.rs\n D lost.rs\n?? fresh.rs\nR  old -> new\nMM both.rs\n\nxy\n?? sp ace.rs\r\n");
    let seen: Vec<(String, String)> = entries.iter().map(|e| (e.path.clone(), e.status.clone())).collect();
    assert_eq!(
        seen,
        vec![
            pair("staged.rs", "staged"),
            pair("changed.rs", "modified"),
            pair("new.rs", "added"),
            pair("gone.rs", "deleted"),
            pair("lost.rs", "deleted"),
            pair("fresh.rs", "untracked"),
            pair("old -> new", "modified"),
            pair("both.rs", "modified"),
            pair("sp ace.rs", "untracked"),
        ]
    );
    assert!(get_git_status("").is_empty());
}

#[test]
fn whole_numbers_are_parsed_as_the_standard_function_does() {
    for text in [
        "0", "+7", "-0", "-12", "00012", "9223372036854775807", "9223372036854775808",
        "-9223372036854775808", "-9223372036854775809", "", "+", "-", "+-1", "1a", "a1", " 1", "1 ",
        "٣", "1_000", "99999999999999999999999999999999999999999999", "-99999999999999999999999999",
        "18446744073709551616",
    ] {
        assert_eq!(agent_bridge::text::parse_i64(text), text.parse::<i64>().ok(), "{text:?}");
    }
}
