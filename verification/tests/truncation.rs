use agent_bridge::truncate::{append_truncation, truncate_line, truncate_output, truncate_output_line, truncate_with_ellipsis};

#[test]
fn short_line_is_kept() {
    let (text, cut) = truncate_line("hello");
    assert_eq!(text, "hello");
    assert!(!cut);
}

#[test]
fn long_line_is_cut_with_ellipsis() {
    let line = "a".repeat(2001);
    let (text, cut) = truncate_line(&line);
    assert!(cut);
    assert_eq!(text.chars().count(), 2000);
    assert_eq!(text, format!("{}...", "a".repeat(1997)));
}

#[test]
fn output_line_keeps_its_terminator() {
    let line = "b".repeat(2500);
    let (text, cut) = truncate_output_line(&line, 2000, "\r\n");
    assert!(cut);
    assert_eq!(text, format!("{}[...truncated]\r\n", "b".repeat(1986)));
}

#[test]
fn output_is_cut_at_the_budget() {
    let text = "x".repeat(1000) + "\n";
    let all = text.repeat(60);
    let (out, cut) = truncate_output(&all);
    assert!(cut);
    assert_eq!(out.chars().count(), 50_000);
    assert_eq!(out, all.chars().take(50_000).collect::<String>());
}

#[test]
fn summary_gets_the_truncation_sentence() {
    assert_eq!(append_truncation("Done.".to_string(), true), "Done. Output is truncated to fit in the message.");
    assert_eq!(append_truncation("Done".to_string(), true), "Done. Output is truncated to fit in the message.");
    assert_eq!(append_truncation(String::new(), true), "Output is truncated to fit in the message.");
    assert_eq!(append_truncation("Done.".to_string(), false), "Done.");
}

#[test]
fn ellipsis_respects_small_limits() {
    assert_eq!(truncate_with_ellipsis("abcdef", 10), "abcdef");
    assert_eq!(truncate_with_ellipsis("abcdef", 5), "ab...");
    assert_eq!(truncate_with_ellipsis("abcdef", 3), "abc");
    assert_eq!(truncate_with_ellipsis("abcdef", 0), "");
}

#[test]
fn truncating_twice_changes_nothing() {
    let mut text = String::new();
    for i in 0..40 {
        text.push_str(&"q".repeat(1500 + i * 30));
        text.push_str(if i % 2 == 0 { "\n" } else { "\r\n" });
    }
    let (once, cut) = truncate_output(&text);
    assert!(cut);
    let (twice, cut_again) = truncate_output(&once);
    assert_eq!(once, twice);
    assert!(!cut_again);
    assert!(once.chars().count() <= 50_000);
}

#[test]
fn truncation_keeps_short_output() {
    let (out, cut) = truncate_output("a\r\nb\nc");
    assert_eq!(out, "a\r\nb\nc");
    assert!(!cut);
    let (out, cut) = truncate_output("");
    assert_eq!(out, "");
    assert!(!cut);
}

#[test]
fn truncation_marks_each_long_line() {
    let text = format!("{}\n{}\r\nend", "a".repeat(2001), "b".repeat(2000));
    let (out, cut) = truncate_output(&text);
    assert!(cut);
    assert_eq!(out, format!("{}[...truncated]\n{}\r\nend", "a".repeat(1986), "b".repeat(2000)));
}

#[test]
fn truncation_reports_lines_left_out() {
    let text = format!("{}\n{}\nrest", "c".repeat(999), "d".repeat(48_999));
    let (out, cut) = truncate_output(&text);
    assert_eq!(out.chars().count(), 1000 + 2001 + 4);
    assert!(cut);
    let exact = "e".repeat(1999) + "\n";
    let (out, cut) = truncate_output(&(exact.repeat(25) + "more"));
    assert_eq!(out, exact.repeat(25));
    assert!(cut);
    let (out, cut) = truncate_output(&exact.repeat(25));
    assert_eq!(out, exact.repeat(25));
    assert!(!cut);
}

#[test]
fn truncation_is_not_stable_behind_a_cut_carriage_return() {
    let mut text = String::new();
    for _ in 0..24 {
        text.push_str(&"x".repeat(1998));
        text.push('\n');
    }
    text.push_str(&"y".repeat(22));
    text.push('\n');
    text.push_str(&"a".repeat(2000));
    text.push_str("\r\nmore");
    let (once, _) = truncate_output(&text);
    assert_eq!(once.chars().count(), 50_000);
    assert!(once.ends_with("a\r"));
    let (twice, cut) = truncate_output(&once);
    assert!(cut);
    assert_eq!(twice.chars().count(), 49_999);
}

#[test]
fn truncation_counts_characters_not_bytes() {
    let line = "é".repeat(2000);
    let (out, cut) = truncate_output(&line);
    assert_eq!(out, line);
    assert!(!cut);
    let line = "é".repeat(2001);
    let (out, cut) = truncate_output_line(&line, 2000, "");
    assert_eq!(out, format!("{}[...truncated]", "é".repeat(1986)));
    assert!(cut);
    let (out, cut) = truncate_output_line("abcdef", 3, "\n");
    assert_eq!(out, "[...truncated]\n");
    assert!(cut);
    let (out, cut) = truncate_output_line("abc", 3, "\n");
    assert_eq!(out, "abc\n");
    assert!(!cut);
}

#[test]
fn truncation_treats_a_lone_carriage_return_as_text() {
    let text = format!("{}\r{}\n", "a".repeat(1500), "b".repeat(1500));
    let (out, cut) = truncate_output(&text);
    assert!(cut);
    assert_eq!(out, format!("{}\r{}[...truncated]\n", "a".repeat(1500), "b".repeat(485)));
}
