use agent_bridge::reader::{read_file, read_lines, ReadAttempt};
use agent_bridge::sandbox::{resolve_path, CanonicalPath, Located, PathProbe};
use agent_bridge::tools::{
    apply_edits, edit_write_failed, fetch_url, format_search_results, run_shell, search_web,
    shell_command, shell_precheck, shell_result, str_replace_file, write_file, EditAttempt,
    EditPlan, FetchAttempt, ReplaceEdit, SearchAttempt, SearchResult, ShellOutcome, WriteAttempt,
};

fn lines(items: &[&str]) -> Vec<String> {
    items.iter().map(|s| s.to_string()).collect()
}

fn canonical(text: &str) -> CanonicalPath {
    CanonicalPath {
        text: text.to_string(),
        components: text.split('/').filter(|c| !c.is_empty()).map(|c| c.to_string()).collect(),
    }
}

fn found(text: &str) -> Located {
    Located::Found { path: canonical(text) }
}

#[test]
fn read_three_line_file_from_line_two() {
    let out = read_lines(&lines(&["one", "two", "three"]), 2, 5);
    assert!(out.ok);
    assert_eq!(out.output, "     2\ttwo\n     3\tthree\n");
    assert_eq!(out.summary, "2 lines read from file starting at line 2.");
}

#[test]
fn read_offset_zero_counts_as_one() {
    let out = read_lines(&lines(&["a", "b"]), 0, 0);
    assert_eq!(out.output, "     1\ta\n");
    assert_eq!(out.summary, "1 lines read from file starting at line 1.");
}

#[test]
fn read_past_the_end_reads_nothing() {
    let out = read_lines(&lines(&["a", "b"]), 5, 3);
    assert!(out.ok);
    assert_eq!(out.output, "");
    assert_eq!(out.summary, "No lines read from file.");
}

#[test]
fn read_stops_at_the_line_limit() {
    let many: Vec<String> = (0..1500).map(|i| format!("l{i}")).collect();
    let out = read_lines(&many, 1, 5000);
    assert_eq!(out.output.lines().count(), 1000);
    assert_eq!(out.summary, "1000 lines read from file starting at line 1. Max lines reached.");
    assert!(out.output.ends_with("  1000\tl999\n"));
}

#[test]
fn read_stops_at_the_byte_limit() {
    let many: Vec<String> = (0..100).map(|_| "x".repeat(1999)).collect();
    let out = read_lines(&many, 1, 1000);
    assert_eq!(out.output.lines().count(), 51);
    assert_eq!(out.summary, "51 lines read from file starting at line 1. Max bytes reached.");
}

#[test]
fn read_reports_cut_lines() {
    let long = "y".repeat(2500);
    let out = read_lines(&lines(&["a", &long, "b", &long]), 1, 10);
    assert_eq!(out.summary, "4 lines read from file starting at line 1. Lines [2, 4] were truncated.");
    let second = out.output.lines().nth(1).unwrap().to_string();
    assert_eq!(second, format!("     2\t{}...", "y".repeat(1997)));
}

#[test]
fn read_wide_line_numbers_are_not_padded() {
    let many: Vec<String> = (0..1_000_001).map(|_| String::new()).collect();
    let out = read_lines(&many, 1_000_000, 1);
    assert_eq!(out.output, "1000000\t\n");
}

#[test]
fn read_file_refuses_large_files() {
    let attempt = ReadAttempt::Opened { bytes: 100_001, lines: lines(&["a"]) };
    let out = read_file(&attempt, 1, 10);
    assert!(!out.ok);
    assert_eq!(out.summary, "File too large (max 100KB)");
    let attempt = ReadAttempt::Opened { bytes: 100_000, lines: lines(&["a"]) };
    assert!(read_file(&attempt, 1, 10).ok);
}

#[test]
fn read_file_reports_each_failure() {
    let out = read_file(&ReadAttempt::ResolveFailed { error: "Path is outside working directory".into() }, 1, 1);
    assert_eq!((out.ok, out.summary.as_str()), (false, "Path is outside working directory"));
    let out = read_file(&ReadAttempt::NotAFile, 1, 1);
    assert_eq!(out.summary, "Path is not a file");
    let out = read_file(&ReadAttempt::MetadataFailed { error: "denied".into() }, 1, 1);
    assert_eq!(out.summary, "Failed to read file metadata: denied");
    let out = read_file(&ReadAttempt::OpenFailed { bytes: 10, error: "busy".into() }, 1, 1);
    assert_eq!(out.summary, "Failed to read file: busy");
}

#[test]
fn shell_exit_one_is_a_failure_without_timeout() {
    let outcome = ShellOutcome::Finished {
        stdout: String::new(),
        stderr: String::new(),
        success: false,
        code: Some(1),
    };
    let out = run_shell("exit 1", 5, &outcome);
    assert!(!out.ok);
    assert_eq!(out.summary, "Command failed with exit code Some(1).");
    assert!(!out.summary.contains("timed out"));
    assert_eq!(out.output, "");
}

#[test]
fn shell_success_joins_both_streams() {
    let outcome = ShellOutcome::Finished {
        stdout: "out".into(),
        stderr: "err\n".into(),
        success: true,
        code: Some(0),
    };
    let out = shell_result(&outcome, 5);
    assert!(out.ok);
    assert_eq!(out.summary, "Command executed successfully.");
    assert_eq!(out.output, "out\nerr\n");
}

#[test]
fn shell_streams_are_not_separated_twice() {
    let outcome = ShellOutcome::Finished {
        stdout: "out\n".into(),
        stderr: "err".into(),
        success: true,
        code: Some(0),
    };
    assert_eq!(shell_result(&outcome, 5).output, "out\nerr");
}

#[test]
fn shell_killed_by_signal_has_no_code() {
    let outcome = ShellOutcome::Finished {
        stdout: String::new(),
        stderr: String::new(),
        success: false,
        code: None,
    };
    assert_eq!(shell_result(&outcome, 5).summary, "Command failed with exit code None.");
    let outcome = ShellOutcome::Finished {
        stdout: String::new(),
        stderr: String::new(),
        success: false,
        code: Some(-1),
    };
    assert_eq!(shell_result(&outcome, 5).summary, "Command failed with exit code Some(-1).");
}

#[test]
fn shell_timeout_and_spawn_failure() {
    let out = shell_result(&ShellOutcome::TimedOut, 30);
    assert_eq!((out.ok, out.summary.as_str()), (false, "Command timed out after 30 seconds."));
    let out = shell_result(&ShellOutcome::SpawnFailed { error: "no such file".into() }, 30);
    assert_eq!(out.summary, "Failed to execute command: no such file");
}

#[test]
fn shell_blank_command_is_refused() {
    assert!(shell_precheck("echo hi").is_none());
    let refusal = shell_precheck("  \t\n").unwrap();
    assert_eq!(refusal.summary, "Command cannot be empty");
    let out = run_shell("   ", 5, &ShellOutcome::TimedOut);
    assert_eq!(out.summary, "Command cannot be empty");
}

#[test]
fn shell_long_output_is_truncated_and_said_so() {
    let outcome = ShellOutcome::Finished {
        stdout: "z".repeat(3000),
        stderr: String::new(),
        success: true,
        code: Some(0),
    };
    let out = shell_result(&outcome, 5);
    assert_eq!(out.output, format!("{}[...truncated]", "z".repeat(1986)));
    assert_eq!(out.summary, "Command executed successfully. Output is truncated to fit in the message.");
}

#[test]
fn shell_command_uses_the_login_shell() {
    let (program, args) = shell_command(Some("/bin/zsh".into()), "ls", false);
    assert_eq!(program, "/bin/zsh");
    assert_eq!(args, vec!["-lc".to_string(), "ls".to_string()]);
    let (program, _) = shell_command(None, "ls", false);
    assert_eq!(program, "/bin/bash");
    let (program, args) = shell_command(None, "dir", true);
    assert_eq!(program, "cmd");
    assert_eq!(args, vec!["/C".to_string(), "dir".to_string()]);
}

#[test]
fn write_modes() {
    assert_eq!(write_file("append", &WriteAttempt::Written).summary, "File successfully appended to.");
    assert_eq!(write_file("overwrite", &WriteAttempt::Written).summary, "File successfully overwritten.");
    assert_eq!(write_file("anything", &WriteAttempt::Written).summary, "File successfully overwritten.");
    assert!(write_file("append", &WriteAttempt::Written).ok);
    let out = write_file("append", &WriteAttempt::WriteFailed { error: "full".into() });
    assert_eq!((out.ok, out.summary.as_str()), (false, "Failed to append to file: full"));
    let out = write_file("overwrite", &WriteAttempt::WriteFailed { error: "full".into() });
    assert_eq!(out.summary, "Failed to write file: full");
    assert_eq!(write_file("append", &WriteAttempt::ParentMissing).summary, "Parent directory does not exist");
    assert_eq!(write_file("append", &WriteAttempt::NoParent).summary, "Invalid file path");
    let out = write_file("append", &WriteAttempt::ResolveFailed { error: "Path cannot be empty".into() });
    assert_eq!(out.summary, "Path cannot be empty");
}

fn edit(old: &str, new: &str, replace_all: bool) -> ReplaceEdit {
    ReplaceEdit { old: old.into(), new: new.into(), replace_all }
}

#[test]
fn edit_without_match_is_rejected() {
    let attempt = EditAttempt::Loaded { content: "hello world".into() };
    match str_replace_file(&attempt, &vec![edit("absent", "x", false)]) {
        EditPlan::Reject { report } => {
            assert!(!report.ok);
            assert_eq!(report.summary, "No replacements were made. The old string was not found.");
        }
        EditPlan::Rewrite { .. } => panic!("nothing may be written"),
    }
    let (text, count) = apply_edits("hello world", &vec![edit("absent", "x", true)]);
    assert_eq!(text, "hello world");
    assert_eq!(count, 0);
}

#[test]
fn edit_first_and_all() {
    let (text, count) = apply_edits("a-a-a", &vec![edit("a", "b", false)]);
    assert_eq!((text.as_str(), count), ("b-a-a", 1));
    let (text, count) = apply_edits("a-a-a", &vec![edit("a", "b", true)]);
    assert_eq!((text.as_str(), count), ("b-b-b", 3));
    let (text, count) = apply_edits("aaaa", &vec![edit("aa", "b", true)]);
    assert_eq!((text.as_str(), count), ("bb", 2));
    let (text, count) = apply_edits("aaa", &vec![edit("aa", "b", true)]);
    assert_eq!((text.as_str(), count), ("ba", 1));
}

#[test]
fn edit_matches_std_on_empty_patterns() {
    let (text, count) = apply_edits("abc", &vec![edit("", "-", true)]);
    assert_eq!(text, "abc".replace("", "-"));
    assert_eq!(count as usize, "abc".matches("").count());
    let (text, count) = apply_edits("abc", &vec![edit("", "-", false)]);
    assert_eq!(text, "abc".replacen("", "-", 1));
    assert_eq!(count, 1);
    let (text, _) = apply_edits("", &vec![edit("", "x", true)]);
    assert_eq!(text, "x");
}

#[test]
fn edit_matches_std_on_text_with_wide_characters() {
    let source = "naïve café — naïve";
    let (text, count) = apply_edits(source, &vec![edit("naïve", "wise", true), edit("é", "e", false)]);
    assert_eq!(text, source.replace("naïve", "wise").replacen("é", "e", 1));
    assert_eq!(count, 3);
}

#[test]
fn edits_apply_in_order() {
    let edits = vec![edit("cat", "dog", false), edit("dog", "cow", true)];
    let attempt = EditAttempt::Loaded { content: "cat dog".into() };
    match str_replace_file(&attempt, &edits) {
        EditPlan::Rewrite { content, report } => {
            assert_eq!(content, "cow cow");
            assert!(report.ok);
            assert_eq!(report.summary, "File successfully edited. Applied 2 edit(s) with 3 replacement(s).");
        }
        EditPlan::Reject { .. } => panic!("the edits match"),
    }
}

#[test]
fn edit_that_restores_the_text_is_rejected() {
    let edits = vec![edit("a", "b", true), edit("b", "a", true)];
    let attempt = EditAttempt::Loaded { content: "aaa".into() };
    assert!(matches!(str_replace_file(&attempt, &edits), EditPlan::Reject { .. }));
}

#[test]
fn edit_failures_before_and_after() {
    let none: Vec<ReplaceEdit> = Vec::new();
    match str_replace_file(&EditAttempt::NotAFile, &none) {
        EditPlan::Reject { report } => assert_eq!(report.summary, "Path is not a file"),
        _ => panic!(),
    }
    match str_replace_file(&EditAttempt::ReadFailed { error: "denied".into() }, &none) {
        EditPlan::Reject { report } => assert_eq!(report.summary, "Failed to read file: denied"),
        _ => panic!(),
    }
    match str_replace_file(&EditAttempt::ResolveFailed { error: "Invalid path".into() }, &none) {
        EditPlan::Reject { report } => assert_eq!(report.summary, "Invalid path"),
        _ => panic!(),
    }
    let out = edit_write_failed("read-only");
    assert_eq!((out.ok, out.summary.as_str()), (false, "Failed to write file: read-only"));
}

fn hit(title: &str, content: &str) -> SearchResult {
    SearchResult {
        title: title.into(),
        url: format!("https://example.org/{title}"),
        snippet: format!("about {title}"),
        content: content.into(),
        date: "2024-01-01".into(),
    }
}

#[test]
fn search_results_are_formatted() {
    let text = format_search_results(&vec![hit("a", ""), hit("b", "body")]);
    assert_eq!(
        text,
        "Title: a\nDate: 2024-01-01\nURL: https://example.org/a\nSummary: about a\n\n---\n\nTitle: b\nDate: 2024-01-01\nURL: https://example.org/b\nSummary: about b\n\nbody\n\n"
    );
    assert_eq!(format_search_results(&Vec::new()), "");
}

#[test]
fn search_outcomes() {
    let out = search_web(&SearchAttempt::Results { results: vec![hit("a", "")] });
    assert!(out.ok);
    assert_eq!(out.summary, "Search completed.");
    assert!(out.output.starts_with("Title: a\n"));
    assert_eq!(search_web(&SearchAttempt::NotConfigured).summary, "Search service is not configured.");
    assert_eq!(search_web(&SearchAttempt::ConfigFailed { error: "no config".into() }).summary, "no config");
    assert_eq!(search_web(&SearchAttempt::RequestFailed { error: "dns".into() }).summary, "Failed to search: dns");
    assert_eq!(
        search_web(&SearchAttempt::BadStatus { status: "500 Internal Server Error".into() }).summary,
        "Search request failed with status 500 Internal Server Error"
    );
    assert_eq!(
        search_web(&SearchAttempt::ParseFailed { error: "eof".into() }).summary,
        "Failed to parse search response: eof"
    );
    assert!(!search_web(&SearchAttempt::NotConfigured).ok);
}

#[test]
fn fetch_outcomes() {
    let out = fetch_url(&FetchAttempt::Service { body: "# page".into() });
    assert_eq!((out.ok, out.summary.as_str(), out.output.as_str()), (true, "Fetched content via service.", "# page"));
    let out = fetch_url(&FetchAttempt::Direct { content_type: "Text/Plain; charset=utf-8".into(), body: "hi".into() });
    assert_eq!(out.summary, "Fetched plain text content.");
    let out = fetch_url(&FetchAttempt::Direct { content_type: "text/markdown".into(), body: "hi".into() });
    assert_eq!(out.summary, "Fetched plain text content.");
    let out = fetch_url(&FetchAttempt::Direct { content_type: "text/html".into(), body: "<p>".into() });
    assert_eq!(out.summary, "Fetched response body.");
    let out = fetch_url(&FetchAttempt::Direct { content_type: String::new(), body: "x".repeat(60_000) });
    assert_eq!(out.summary, "Fetched response body. Output is truncated to fit in the message.");
    assert!(out.output.chars().count() <= 50_000);
    assert_eq!(fetch_url(&FetchAttempt::DirectFailed { error: "dns".into() }).summary, "Failed to fetch URL: dns");
    assert_eq!(fetch_url(&FetchAttempt::DirectBadStatus { status: "404 Not Found".into() }).summary, "Fetch failed with status 404 Not Found");
    assert_eq!(fetch_url(&FetchAttempt::DirectBodyFailed { error: "reset".into() }).summary, "Failed to read response body: reset");
}

#[test]
fn path_inside_the_working_directory_is_accepted() {
    let probe = PathProbe {
        target: "/work/a.txt".into(),
        target_location: found("/work/a.txt"),
        root_location: found("/work"),
        parent_location: Some(found("/work")),
    };
    assert_eq!(resolve_path("a.txt", true, &probe), Ok("/work/a.txt".to_string()));
    assert_eq!(resolve_path("a.txt", false, &probe), Ok("/work/a.txt".to_string()));
}

#[test]
fn path_that_escapes_is_rejected() {
    let probe = PathProbe {
        target: "/work/../etc/passwd".into(),
        target_location: found("/etc/passwd"),
        root_location: found("/work"),
        parent_location: Some(found("/etc")),
    };
    assert_eq!(resolve_path("../etc/passwd", true, &probe), Err("Path is outside working directory".to_string()));
    assert_eq!(resolve_path("../etc/passwd", false, &probe), Err("Path is outside working directory".to_string()));
    assert_eq!(resolve_path("/etc/passwd", true, &probe), Err("Path is outside working directory".to_string()));
}

#[test]
fn path_with_a_sibling_prefix_is_rejected() {
    let probe = PathProbe {
        target: "/workshop/a".into(),
        target_location: found("/workshop/a"),
        root_location: found("/work"),
        parent_location: Some(found("/workshop")),
    };
    assert!(resolve_path("/workshop/a", true, &probe).is_err());
    assert!(resolve_path("/workshop/a", false, &probe).is_err());
}

#[test]
fn new_file_is_held_against_its_parent() {
    let probe = PathProbe {
        target: "/work/sub/new.txt".into(),
        target_location: Located::Failed { error: "No such file or directory".into() },
        root_location: found("/work"),
        parent_location: Some(found("/work/sub")),
    };
    assert_eq!(resolve_path("sub/new.txt", false, &probe), Ok("/work/sub/new.txt".to_string()));
    assert_eq!(
        resolve_path("sub/new.txt", true, &probe),
        Err("Failed to resolve path: No such file or directory".to_string())
    );
}

#[test]
fn path_errors() {
    let probe = PathProbe {
        target: "/work/a".into(),
        target_location: found("/work/a"),
        root_location: Located::Failed { error: "gone".into() },
        parent_location: None,
    };
    assert_eq!(resolve_path("  ", true, &probe), Err("Path cannot be empty".to_string()));
    assert_eq!(resolve_path("a", true, &probe), Err("Failed to resolve work dir: gone".to_string()));
    assert_eq!(resolve_path("a", false, &probe), Err("Failed to resolve work dir: gone".to_string()));
    let probe = PathProbe {
        target: "/".into(),
        target_location: found("/"),
        root_location: found("/work"),
        parent_location: None,
    };
    assert_eq!(resolve_path("/", false, &probe), Err("Invalid path".to_string()));
    let probe = PathProbe {
        target: "/work/x/y".into(),
        target_location: Located::Failed { error: "missing".into() },
        root_location: found("/work"),
        parent_location: Some(Located::Failed { error: "missing".into() }),
    };
    assert_eq!(resolve_path("x/y", false, &probe), Err("Failed to resolve path: missing".to_string()));
}

#[test]
fn read_counts_bytes_not_characters() {
    let many: Vec<String> = (0..100).map(|_| "é".repeat(1999)).collect();
    let out = read_lines(&many, 1, 1000);
    assert_eq!(out.output.lines().count(), 26);
    assert_eq!(out.summary, "26 lines read from file starting at line 1. Max bytes reached.");
    let out = read_lines(&lines(&[&"ü".repeat(2001)]), 1, 1);
    assert_eq!(out.output, format!("     1\t{}...\n", "ü".repeat(1997)));
    assert_eq!(out.summary, "1 lines read from file starting at line 1. Lines [1] were truncated.");
}

#[test]
fn read_respects_the_quota() {
    let out = read_lines(&lines(&["a", "b", "c", "d"]), 2, 2);
    assert_eq!(out.output, "     2\tb\n     3\tc\n");
    assert_eq!(out.summary, "2 lines read from file starting at line 2.");
    let out = read_lines(&lines(&["a", "b", "c", "d"]), usize::MAX, usize::MAX);
    assert_eq!(out.summary, "No lines read from file.");
}
