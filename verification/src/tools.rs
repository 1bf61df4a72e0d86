//! What the tools report: the result of a shell command, a file write, a
//! string-replace edit, a web search and a web fetch.
//!
//! The caller performs the operation and hands over what came of it; the
//! functions here decide what the agent is told. All bodies that go back to
//! the agent pass through the output truncation.

use crate::text::{
    contains, count_matches, decimal, is_blank, is_blank_str, lowercase, push_all, push_decimal,
    push_signed_decimal, push_str, replace_all, replace_all_chars, replace_first,
    replace_first_chars, signed_decimal, starts_with, starts_with_str, str_eq, string_of, to_chars,
};
use crate::truncate::{
    append_truncation, append_truncation_spec, truncate_output, truncate_output_spec,
};
use vstd::prelude::*;

verus! {

/// What a tool hands back to the agent.
#[derive(Clone, Debug)]
pub struct ToolOutput {
    /// Whether the operation succeeded.
    pub ok: bool,
    /// One line for the reader: what happened, and whether output was cut.
    pub summary: String,
    /// The body, never longer than the output budget.
    pub output: String,
}

/// The mathematical value of a [`ToolOutput`].
pub struct ToolOutputView {
    pub ok: bool,
    pub summary: Seq<char>,
    pub output: Seq<char>,
}

impl View for ToolOutput {
    type V = ToolOutputView;

    open spec fn view(&self) -> ToolOutputView {
        ToolOutputView { ok: self.ok, summary: self.summary@, output: self.output@ }
    }
}

/// A failed operation with the given summary and no body.
pub open spec fn failure(summary: Seq<char>) -> ToolOutputView {
    ToolOutputView { ok: false, summary, output: Seq::empty() }
}

/// A successful operation with the given summary and no body.
pub open spec fn success(summary: Seq<char>) -> ToolOutputView {
    ToolOutputView { ok: true, summary, output: Seq::empty() }
}

/// A body that went through truncation, with the summary saying so if it was
/// cut.
pub open spec fn truncated_report(ok: bool, summary: Seq<char>, body: Seq<char>) -> ToolOutputView {
    let cut = truncate_output_spec(body);
    ToolOutputView { ok, summary: append_truncation_spec(summary, cut.1), output: cut.0 }
}

/// A failure with the given summary.
pub fn fail(summary: String) -> (r: ToolOutput)
    ensures
        r@ == failure(summary@),
{
    ToolOutput { ok: false, summary, output: String::new() }
}

/// A failure whose summary is `prefix` followed by `detail`.
pub fn fail_with(prefix: &str, detail: &str) -> (r: ToolOutput)
    ensures
        r@ == failure(prefix@ + detail@),
{
    let mut v = to_chars(prefix);
    push_str(&mut v, detail);
    fail(string_of(&v))
}

/// A failure with the given summary.
pub fn fail_str(summary: &str) -> (r: ToolOutput)
    ensures
        r@ == failure(summary@),
{
    fail(string_of(&to_chars(summary)))
}

/// A success with the given summary and no body.
pub fn succeed(summary: &str) -> (r: ToolOutput)
    ensures
        r@ == success(summary@),
{
    let v = to_chars(summary);
    ToolOutput { ok: true, summary: string_of(&v), output: String::new() }
}

/// Truncates `body` and reports it under `summary`.
pub fn report_truncated(ok: bool, summary: String, body: &str) -> (r: ToolOutput)
    ensures
        r@ == truncated_report(ok, summary@, body@),
        r.output@.len() <= crate::truncate::MAX_OUTPUT_CHARS,
{
    let (output, cut) = truncate_output(body);
    ToolOutput { ok, summary: append_truncation(summary, cut), output }
}

// ---------------------------------------------------------------------------
// Shell
// ---------------------------------------------------------------------------

/// What came of running a command.
#[derive(Debug)]
pub enum ShellOutcome {
    /// The process ran to its end.
    Finished { stdout: String, stderr: String, success: bool, code: Option<i32> },
    /// The process could not be started.
    SpawnFailed { error: String },
    /// The time limit passed and the process was killed.
    TimedOut,
}

/// Standard output followed by standard error, with a line break between
/// them where standard output does not end in one.
pub open spec fn combine_streams(stdout: Seq<char>, stderr: Seq<char>) -> Seq<char> {
    if stderr.len() == 0 {
        stdout
    } else if stdout.len() > 0 && stdout.last() != '\n' {
        stdout + seq!['\n'] + stderr
    } else {
        stdout + stderr
    }
}

/// How an exit code is shown: `Some(1)`, `Some(-2)`, or `None` for a process
/// that ended without one.
pub open spec fn exit_code_text(code: Option<i32>) -> Seq<char> {
    match code {
        Some(c) => "Some("@ + signed_decimal(c as int) + ")"@,
        None => "None"@,
    }
}

/// What [`shell_result`] reports.
pub open spec fn shell_result_spec(outcome: ShellOutcome, timeout_secs: u64) -> ToolOutputView {
    match outcome {
        ShellOutcome::Finished { stdout, stderr, success, code } => {
            let summary = if success {
                "Command executed successfully."@
            } else {
                "Command failed with exit code "@ + exit_code_text(code) + "."@
            };
            truncated_report(success, summary, combine_streams(stdout@, stderr@))
        },
        ShellOutcome::SpawnFailed { error } => failure("Failed to execute command: "@ + error@),
        ShellOutcome::TimedOut => failure(
            "Command timed out after "@ + decimal(timeout_secs as nat) + " seconds."@,
        ),
    }
}

/// What [`run_shell`] reports.
pub open spec fn run_shell_spec(
    command: Seq<char>,
    timeout_secs: u64,
    outcome: ShellOutcome,
) -> ToolOutputView {
    if is_blank(command) {
        failure("Command cannot be empty"@)
    } else {
        shell_result_spec(outcome, timeout_secs)
    }
}

/// Refuses a command that is empty or all whitespace, before anything is
/// run: `Some` holds the refusal, `None` lets the command through.
pub fn shell_precheck(command: &str) -> (r: Option<ToolOutput>)
    ensures
        r is Some <==> is_blank(command@),
        r matches Some(out) ==> out@ == failure("Command cannot be empty"@),
{
    if is_blank_str(command) {
        Some(fail_str("Command cannot be empty"))
    } else {
        None
    }
}

/// The program and arguments that run `command`: the user's shell (or
/// `/bin/bash` where none is configured) with `-lc`, or `cmd /C` on Windows.
pub fn shell_command(shell: Option<String>, command: &str, windows: bool) -> (r: (String, Vec<String>))
    ensures
        r.1@.len() == 2,
        r.1@[1]@ == command@,
        windows ==> r.0@ == "cmd"@ && r.1@[0]@ == "/C"@,
        !windows ==> r.1@[0]@ == "-lc"@ && r.0@ == (match shell {
            Some(s) => s@,
            None => "/bin/bash"@,
        }),
{
    let cmd = string_of(&to_chars(command));
    let mut args: Vec<String> = Vec::new();
    if windows {
        args.push(string_of(&to_chars("/C")));
        args.push(cmd);
        (string_of(&to_chars("cmd")), args)
    } else {
        args.push(string_of(&to_chars("-lc")));
        args.push(cmd);
        let program = match shell {
            Some(s) => s,
            None => string_of(&to_chars("/bin/bash")),
        };
        (program, args)
    }
}

/// Reports how a command ended. Output of a finished command is standard
/// output followed by standard error, truncated, whatever the exit status.
pub fn shell_result(outcome: &ShellOutcome, timeout_secs: u64) -> (r: ToolOutput)
    ensures
        r@ == shell_result_spec(*outcome, timeout_secs),
        r.output@.len() <= crate::truncate::MAX_OUTPUT_CHARS,
{
    match outcome {
        ShellOutcome::Finished { stdout, stderr, success, code } => {
            let mut combined = to_chars(stdout.as_str());
            let err = to_chars(stderr.as_str());
            if err.len() > 0 {
                let n = combined.len();
                if n > 0 && combined[n - 1] != '\n' {
                    combined.push('\n');
                    assert(combined@ == stdout@ + seq!['\n']);
                }
                push_all(&mut combined, &err);
            }
            let body = string_of(&combined);
            let summary = if *success {
                string_of(&to_chars("Command executed successfully."))
            } else {
                let mut s = to_chars("Command failed with exit code ");
                match code {
                    Some(c) => {
                        let ghost before = s@;
                        push_str(&mut s, "Some(");
                        push_signed_decimal(&mut s, *c as i64);
                        push_str(&mut s, ")");
                        assert(s@ == before + ("Some("@ + signed_decimal(*c as int) + ")"@));
                    },
                    None => {
                        push_str(&mut s, "None");
                    },
                }
                push_str(&mut s, ".");
                string_of(&s)
            };
            report_truncated(*success, summary, body.as_str())
        },
        ShellOutcome::SpawnFailed { error } => fail_with(
            "Failed to execute command: ",
            error.as_str(),
        ),
        ShellOutcome::TimedOut => {
            let mut s = to_chars("Command timed out after ");
            push_decimal(&mut s, timeout_secs as u128);
            push_str(&mut s, " seconds.");
            fail(string_of(&s))
        },
    }
}

/// Reports on a shell command: a blank command is refused whatever
/// `outcome` holds; any other is reported as [`shell_result`] does.
pub fn run_shell(command: &str, timeout_secs: u64, outcome: &ShellOutcome) -> (r: ToolOutput)
    ensures
        r@ == run_shell_spec(command@, timeout_secs, *outcome),
        r.output@.len() <= crate::truncate::MAX_OUTPUT_CHARS,
{
    match shell_precheck(command) {
        Some(refusal) => refusal,
        None => shell_result(outcome, timeout_secs),
    }
}

// ---------------------------------------------------------------------------
// Write
// ---------------------------------------------------------------------------

/// What came of an attempt to write a file, in the order in which the steps
/// are taken.
#[derive(Debug)]
pub enum WriteAttempt {
    /// The path did not resolve inside the working directory.
    ResolveFailed { error: String },
    /// The resolved path has no parent.
    NoParent,
    /// The parent directory does not exist.
    ParentMissing,
    /// The file system refused the write.
    WriteFailed { error: String },
    /// The content was written.
    Written,
}

/// Whether `mode` asks to append; every other mode overwrites.
pub open spec fn is_append(mode: Seq<char>) -> bool {
    mode == "append"@
}

/// What [`write_file`] reports.
pub open spec fn write_file_spec(mode: Seq<char>, attempt: WriteAttempt) -> ToolOutputView {
    match attempt {
        WriteAttempt::ResolveFailed { error } => failure(error@),
        WriteAttempt::NoParent => failure("Invalid file path"@),
        WriteAttempt::ParentMissing => failure("Parent directory does not exist"@),
        WriteAttempt::WriteFailed { error } => if is_append(mode) {
            failure("Failed to append to file: "@ + error@)
        } else {
            failure("Failed to write file: "@ + error@)
        },
        WriteAttempt::Written => if is_append(mode) {
            success("File successfully appended to."@)
        } else {
            success("File successfully overwritten."@)
        },
    }
}

/// Whether `mode` asks to append.
pub fn write_appends(mode: &str) -> (r: bool)
    ensures
        r == is_append(mode@),
{
    str_eq(mode, "append")
}

/// Reports on a file write.
pub fn write_file(mode: &str, attempt: &WriteAttempt) -> (r: ToolOutput)
    ensures
        r@ == write_file_spec(mode@, *attempt),
{
    match attempt {
        WriteAttempt::ResolveFailed { error } => fail(error.clone()),
        WriteAttempt::NoParent => fail_str("Invalid file path"),
        WriteAttempt::ParentMissing => fail_str("Parent directory does not exist"),
        WriteAttempt::WriteFailed { error } => {
            if write_appends(mode) {
                fail_with("Failed to append to file: ", error.as_str())
            } else {
                fail_with("Failed to write file: ", error.as_str())
            }
        },
        WriteAttempt::Written => {
            if write_appends(mode) {
                succeed("File successfully appended to.")
            } else {
                succeed("File successfully overwritten.")
            }
        },
    }
}

// ---------------------------------------------------------------------------
// String-replace edit
// ---------------------------------------------------------------------------

/// One replacement: `old` becomes `new`, at its first occurrence or at all
/// of them.
#[derive(Debug)]
pub struct ReplaceEdit {
    pub old: String,
    pub new: String,
    pub replace_all: bool,
}

/// The text after one edit.
pub open spec fn apply_edit(text: Seq<char>, edit: ReplaceEdit) -> Seq<char> {
    if edit.replace_all {
        replace_all(text, edit.old@, edit.new@)
    } else {
        replace_first(text, edit.old@, edit.new@)
    }
}

/// Number of replacements that one edit makes in `text`.
pub open spec fn edit_count(text: Seq<char>, edit: ReplaceEdit) -> nat {
    if edit.replace_all {
        count_matches(text, edit.old@)
    } else if contains(text, edit.old@) {
        1
    } else {
        0
    }
}

/// The text after all edits, applied in order, each to the result of the
/// one before.
pub open spec fn apply_edits_spec(text: Seq<char>, edits: Seq<ReplaceEdit>) -> Seq<char>
    decreases edits.len(),
{
    if edits.len() == 0 {
        text
    } else {
        apply_edit(apply_edits_spec(text, edits.drop_last()), edits.last())
    }
}

/// Number of replacements that the edits make, in all.
pub open spec fn total_replacements(text: Seq<char>, edits: Seq<ReplaceEdit>) -> nat
    decreases edits.len(),
{
    if edits.len() == 0 {
        0
    } else {
        total_replacements(text, edits.drop_last()) + edit_count(
            apply_edits_spec(text, edits.drop_last()),
            edits.last(),
        )
    }
}

/// Edits whose `old` text occurs nowhere leave the text as it is.
pub proof fn edits_without_match_change_nothing(text: Seq<char>, edits: Seq<ReplaceEdit>)
    requires
        forall|i: int| 0 <= i < edits.len() ==> !contains(text, #[trigger] edits[i].old@),
    ensures
        apply_edits_spec(text, edits) == text,
        total_replacements(text, edits) == 0,
    decreases edits.len(),
{
    if edits.len() > 0 {
        let front = edits.drop_last();
        assert forall|i: int| 0 <= i < front.len() implies !contains(
            text,
            #[trigger] front[i].old@,
        ) by {
            assert(front[i] == edits[i]);
        }
        edits_without_match_change_nothing(text, front);
        let e = edits.last();
        assert(e == edits[edits.len() - 1]);
        crate::text::lemma_replace_all_absent(text, e.old@, e.new@);
    }
}

/// Applies the edits in order to a copy of `content` and counts the
/// replacements made.
pub fn apply_edits(content: &str, edits: &Vec<ReplaceEdit>) -> (r: (String, u128))
    ensures
        r.0@ == apply_edits_spec(content@, edits@),
        r.1 == total_replacements(content@, edits@),
{
    let mut text = to_chars(content);
    let mut total: u128 = 0;
    let mut i: usize = 0;
    assert(edits@.take(0) =~= Seq::<ReplaceEdit>::empty());
    while i < edits.len()
        invariant
            i <= edits.len(),
            text@ == apply_edits_spec(content@, edits@.take(i as int)),
            total == total_replacements(content@, edits@.take(i as int)),
            total <= i * 0x1_0000_0000_0000_0000,
        decreases edits.len() - i,
    {
        let edit = &edits[i];
        let old = to_chars(edit.old.as_str());
        let new = to_chars(edit.new.as_str());
        proof {
            let upto = edits@.take(i + 1);
            assert(upto.drop_last() =~= edits@.take(i as int));
            assert(upto.last() == edits@[i as int]);
            crate::text::lemma_count_matches_bound(text@, old@);
        }
        if edit.replace_all {
            let (next, count) = replace_all_chars(&text, &old, &new);
            assert(count <= text@.len() + 1);
            assert(text.len() <= 0xffff_ffff_ffff_ffff);
            text = next;
            total = total + count;
        } else {
            let (next, found) = replace_first_chars(&text, &old, &new);
            text = next;
            if found {
                total = total + 1;
            }
        }
        i += 1;
    }
    assert(edits@.take(edits.len() as int) =~= edits@);
    (string_of(&text), total)
}

/// What came of loading the file that is to be edited.
#[derive(Debug)]
pub enum EditAttempt {
    /// The path did not resolve inside the working directory.
    ResolveFailed { error: String },
    /// The path names something that is not a file.
    NotAFile,
    /// The file could not be read.
    ReadFailed { error: String },
    /// The file's content.
    Loaded { content: String },
}

/// What to do about an edit request.
#[derive(Debug)]
pub enum EditPlan {
    /// Nothing is written; the agent is told why.
    Reject { report: ToolOutput },
    /// The file is rewritten once with `content`; `report` is what the agent
    /// is told once that has succeeded.
    Rewrite { content: String, report: ToolOutput },
}

/// The summary of a successful edit.
pub open spec fn edit_summary(edits: nat, replacements: nat) -> Seq<char> {
    "File successfully edited. Applied "@ + decimal(edits) + " edit(s) with "@ + decimal(
        replacements,
    ) + " replacement(s)."@
}

/// Decides an edit request. The edits are applied in order to a copy of the
/// content; where that leaves the content as it was, nothing is to be
/// written and the request fails.
pub fn str_replace_file(attempt: &EditAttempt, edits: &Vec<ReplaceEdit>) -> (plan: EditPlan)
    ensures
        match *attempt {
            EditAttempt::ResolveFailed { error } => plan matches EditPlan::Reject { report }
                && report@ == failure(error@),
            EditAttempt::NotAFile => plan matches EditPlan::Reject { report } && report@
                == failure("Path is not a file"@),
            EditAttempt::ReadFailed { error } => plan matches EditPlan::Reject { report }
                && report@ == failure("Failed to read file: "@ + error@),
            EditAttempt::Loaded { content } => {
                let updated = apply_edits_spec(content@, edits@);
                if updated == content@ {
                    plan matches EditPlan::Reject { report } && report@ == failure(
                        "No replacements were made. The old string was not found."@,
                    )
                } else {
                    plan matches EditPlan::Rewrite { content: written, report } && written@
                        == updated && report@ == success(
                        edit_summary(edits@.len(), total_replacements(content@, edits@)),
                    )
                }
            },
        },
{
    match attempt {
        EditAttempt::ResolveFailed { error } => EditPlan::Reject {
            report: fail(error.clone()),
        },
        EditAttempt::NotAFile => EditPlan::Reject { report: fail_str("Path is not a file") },
        EditAttempt::ReadFailed { error } => EditPlan::Reject {
            report: fail_with("Failed to read file: ", error.as_str()),
        },
        EditAttempt::Loaded { content } => {
            let (updated, total) = apply_edits(content.as_str(), edits);
            if str_eq(updated.as_str(), content.as_str()) {
                EditPlan::Reject {
                    report: fail_str("No replacements were made. The old string was not found."),
                }
            } else {
                let mut s = to_chars("File successfully edited. Applied ");
                push_decimal(&mut s, edits.len() as u128);
                push_str(&mut s, " edit(s) with ");
                push_decimal(&mut s, total);
                push_str(&mut s, " replacement(s).");
                let summary = string_of(&s);
                EditPlan::Rewrite {
                    content: updated,
                    report: ToolOutput { ok: true, summary, output: String::new() },
                }
            }
        },
    }
}

/// What the agent is told when the rewritten file could not be written.
pub fn edit_write_failed(error: &str) -> (r: ToolOutput)
    ensures
        r@ == failure("Failed to write file: "@ + error@),
{
    fail_with("Failed to write file: ", error)
}

// ---------------------------------------------------------------------------
// Web search and fetch
// ---------------------------------------------------------------------------

/// One hit of a web search.
#[derive(Debug)]
pub struct SearchResult {
    pub title: String,
    pub url: String,
    pub snippet: String,
    pub content: String,
    pub date: String,
}

/// What came of a web search, in the order in which the steps are taken.
#[derive(Debug)]
pub enum SearchAttempt {
    /// The configuration could not be loaded.
    ConfigFailed { error: String },
    /// The configuration names no search service.
    NotConfigured,
    /// The request could not be sent.
    RequestFailed { error: String },
    /// The service answered with a status that is not a success.
    BadStatus { status: String },
    /// The answer could not be read as a list of results.
    ParseFailed { error: String },
    /// The results.
    Results { results: Vec<SearchResult> },
}

/// One search result as text.
pub open spec fn format_result(r: SearchResult) -> Seq<char> {
    "Title: "@ + r.title@ + "\nDate: "@ + r.date@ + "\nURL: "@ + r.url@ + "\nSummary: "@
        + r.snippet@ + "\n\n"@ + (if r.content@.len() > 0 {
        r.content@ + "\n\n"@
    } else {
        Seq::empty()
    })
}

/// The search results as text, in order, with a rule between neighbours.
pub open spec fn format_results(results: Seq<SearchResult>) -> Seq<char>
    decreases results.len(),
{
    if results.len() == 0 {
        Seq::empty()
    } else {
        format_results(results.drop_last()) + (if results.len() > 1 {
            "---\n\n"@
        } else {
            Seq::empty()
        }) + format_result(results.last())
    }
}

/// What [`search_web`] reports.
pub open spec fn search_web_spec(attempt: SearchAttempt) -> ToolOutputView {
    match attempt {
        SearchAttempt::ConfigFailed { error } => failure(error@),
        SearchAttempt::NotConfigured => failure("Search service is not configured."@),
        SearchAttempt::RequestFailed { error } => failure("Failed to search: "@ + error@),
        SearchAttempt::BadStatus { status } => failure(
            "Search request failed with status "@ + status@,
        ),
        SearchAttempt::ParseFailed { error } => failure(
            "Failed to parse search response: "@ + error@,
        ),
        SearchAttempt::Results { results } => truncated_report(
            true,
            "Search completed."@,
            format_results(results@),
        ),
    }
}

/// The search results as text.
pub fn format_search_results(results: &Vec<SearchResult>) -> (r: String)
    ensures
        r@ == format_results(results@),
{
    let mut out: Vec<char> = Vec::new();
    let mut i: usize = 0;
    assert(results@.take(0) =~= Seq::<SearchResult>::empty());
    while i < results.len()
        invariant
            i <= results.len(),
            out@ == format_results(results@.take(i as int)),
        decreases results.len() - i,
    {
        let ghost before = out@;
        let r = &results[i];
        if i > 0 {
            push_str(&mut out, "---\n\n");
        }
        let ghost ruled = out@;
        push_str(&mut out, "Title: ");
        push_str(&mut out, r.title.as_str());
        push_str(&mut out, "\nDate: ");
        push_str(&mut out, r.date.as_str());
        push_str(&mut out, "\nURL: ");
        push_str(&mut out, r.url.as_str());
        push_str(&mut out, "\nSummary: ");
        push_str(&mut out, r.snippet.as_str());
        push_str(&mut out, "\n\n");
        if r.content.as_str().unicode_len() > 0 {
            push_str(&mut out, r.content.as_str());
            push_str(&mut out, "\n\n");
        }
        proof {
            let upto = results@.take(i + 1);
            assert(upto.drop_last() =~= results@.take(i as int));
            assert(upto.last() == results@[i as int]);
            assert(out@ =~= ruled + format_result(*r));
            if i == 0 {
                assert(ruled =~= before + Seq::<char>::empty());
            }
        }
        i += 1;
    }
    assert(results@.take(results.len() as int) =~= results@);
    string_of(&out)
}

/// Reports on a web search. Results are formatted and truncated.
pub fn search_web(attempt: &SearchAttempt) -> (r: ToolOutput)
    ensures
        r@ == search_web_spec(*attempt),
        r.output@.len() <= crate::truncate::MAX_OUTPUT_CHARS,
{
    match attempt {
        SearchAttempt::ConfigFailed { error } => fail(error.clone()),
        SearchAttempt::NotConfigured => fail_str("Search service is not configured."),
        SearchAttempt::RequestFailed { error } => fail_with("Failed to search: ", error.as_str()),
        SearchAttempt::BadStatus { status } => fail_with(
            "Search request failed with status ",
            status.as_str(),
        ),
        SearchAttempt::ParseFailed { error } => fail_with(
            "Failed to parse search response: ",
            error.as_str(),
        ),
        SearchAttempt::Results { results } => {
            let body = format_search_results(results);
            report_truncated(true, string_of(&to_chars("Search completed.")), body.as_str())
        },
    }
}

/// What came of fetching a URL. The fetch service is tried first where one
/// is configured; whatever goes wrong with it, the URL is then fetched
/// directly.
#[derive(Debug)]
pub enum FetchAttempt {
    /// The fetch service returned this body.
    Service { body: String },
    /// The direct request could not be sent.
    DirectFailed { error: String },
    /// The direct request was answered with a status that is not a success.
    DirectBadStatus { status: String },
    /// The body of the direct answer could not be read.
    DirectBodyFailed { error: String },
    /// The direct answer, with the content type that its headers declare (empty
    /// where they declare none).
    Direct { content_type: String, body: String },
}

/// Whether a content type, whatever its case, declares plain text or
/// Markdown.
pub open spec fn is_plain_text(content_type: Seq<char>) -> bool {
    starts_with(lowercase(content_type), "text/plain"@) || starts_with(
        lowercase(content_type),
        "text/markdown"@,
    )
}

/// What [`fetch_url`] reports.
pub open spec fn fetch_url_spec(attempt: FetchAttempt) -> ToolOutputView {
    match attempt {
        FetchAttempt::Service { body } => truncated_report(
            true,
            "Fetched content via service."@,
            body@,
        ),
        FetchAttempt::DirectFailed { error } => failure("Failed to fetch URL: "@ + error@),
        FetchAttempt::DirectBadStatus { status } => failure(
            "Fetch failed with status "@ + status@,
        ),
        FetchAttempt::DirectBodyFailed { error } => failure(
            "Failed to read response body: "@ + error@,
        ),
        FetchAttempt::Direct { content_type, body } => truncated_report(
            true,
            if is_plain_text(content_type@) {
                "Fetched plain text content."@
            } else {
                "Fetched response body."@
            },
            body@,
        ),
    }
}

/// Reports on a web fetch. Every body is truncated.
pub fn fetch_url(attempt: &FetchAttempt) -> (r: ToolOutput)
    ensures
        r@ == fetch_url_spec(*attempt),
        r.output@.len() <= crate::truncate::MAX_OUTPUT_CHARS,
{
    match attempt {
        FetchAttempt::Service { body } => report_truncated(
            true,
            string_of(&to_chars("Fetched content via service.")),
            body.as_str(),
        ),
        FetchAttempt::DirectFailed { error } => fail_with("Failed to fetch URL: ", error.as_str()),
        FetchAttempt::DirectBadStatus { status } => fail_with(
            "Fetch failed with status ",
            status.as_str(),
        ),
        FetchAttempt::DirectBodyFailed { error } => fail_with(
            "Failed to read response body: ",
            error.as_str(),
        ),
        FetchAttempt::Direct { content_type, body } => {
            let lower = content_type.as_str().to_lowercase();
            let l = to_chars(lower.as_str());
            let summary = if starts_with_str(&l, "text/plain") || starts_with_str(
                &l,
                "text/markdown",
            ) {
                string_of(&to_chars("Fetched plain text content."))
            } else {
                string_of(&to_chars("Fetched response body."))
            };
            report_truncated(true, summary, body.as_str())
        },
    }
}

} // verus!
