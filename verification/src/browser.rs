//! The browser automation tool: how it is called, and what the agent is
//! told about reaching the internet.

use crate::text::{push_all, push_str, replace_all, replace_all_chars, string_of, to_chars};
use vstd::prelude::*;

verus! {

/// Whether the browser tool can be used, and how.
#[derive(Debug)]
pub struct AgentBrowserStatus {
    pub available: bool,
    pub command: Option<String>,
    pub detail: String,
}

/// What the caller found out about the browser tool.
#[derive(Debug)]
pub struct BrowserProbe {
    /// The bundled binary, if there is one.
    pub bundled_binary: Option<String>,
    /// The bundled runtime, if there is one.
    pub bundled_home: Option<String>,
    /// Whether `agent-browser` is on the search path.
    pub in_path: bool,
    /// Whether `npx` is on the search path.
    pub npx: bool,
}

/// A path quoted for the shell: in single quotes, with each single quote
/// inside written as `'\''`; on Windows in double quotes, with each double
/// quote doubled.
pub open spec fn shell_escape_spec(path: Seq<char>, windows: bool) -> Seq<char> {
    if windows {
        seq!['"'] + replace_all(path, seq!['"'], seq!['"', '"']) + seq!['"']
    } else {
        seq!['\''] + replace_all(path, seq!['\''], seq!['\'', '\\', '\'', '\'']) + seq!['\'']
    }
}

/// The command that runs the bundled binary with its runtime.
pub open spec fn bundled_command_spec(binary: Seq<char>, home: Seq<char>, windows: bool) -> Seq<
    char,
> {
    if windows {
        "set \"AGENT_BROWSER_HOME="@ + replace_all(home, seq!['"'], seq!['"', '"']) + "\" && "@
            + shell_escape_spec(binary, true)
    } else {
        "AGENT_BROWSER_HOME="@ + shell_escape_spec(home, false) + " "@ + shell_escape_spec(
            binary,
            false,
        )
    }
}

fn push_escaped(out: &mut Vec<char>, path: &str, windows: bool)
    ensures
        final(out)@ == old(out)@ + shell_escape_spec(path@, windows),
{
    let p = to_chars(path);
    let mut old_pat: Vec<char> = Vec::new();
    let mut new_pat: Vec<char> = Vec::new();
    if windows {
        old_pat.push('"');
        new_pat.push('"');
        new_pat.push('"');
        assert(old_pat@ =~= seq!['"']);
        assert(new_pat@ =~= seq!['"', '"']);
        let (body, _) = replace_all_chars(&p, &old_pat, &new_pat);
        out.push('"');
        push_all(out, &body);
        out.push('"');
        assert(out@ =~= old(out)@ + shell_escape_spec(path@, windows));
    } else {
        old_pat.push('\'');
        new_pat.push('\'');
        new_pat.push('\\');
        new_pat.push('\'');
        new_pat.push('\'');
        assert(old_pat@ =~= seq!['\'']);
        assert(new_pat@ =~= seq!['\'', '\\', '\'', '\'']);
        let (body, _) = replace_all_chars(&p, &old_pat, &new_pat);
        out.push('\'');
        push_all(out, &body);
        out.push('\'');
        assert(out@ =~= old(out)@ + shell_escape_spec(path@, windows));
    }
}

/// Quotes a path for the shell.
pub fn shell_escape_path(path: &str, windows: bool) -> (r: String)
    ensures
        r@ == shell_escape_spec(path@, windows),
{
    let mut out: Vec<char> = Vec::new();
    push_escaped(&mut out, path, windows);
    assert(Seq::<char>::empty() + shell_escape_spec(path@, windows) =~= shell_escape_spec(
        path@,
        windows,
    ));
    string_of(&out)
}

/// The command that runs the bundled binary with its runtime.
pub fn shell_command_with_agent_browser_home(binary: &str, home: &str, windows: bool) -> (r:
    String)
    ensures
        r@ == bundled_command_spec(binary@, home@, windows),
{
    if windows {
        let h = to_chars(home);
        let mut old_pat: Vec<char> = Vec::new();
        let mut new_pat: Vec<char> = Vec::new();
        old_pat.push('"');
        new_pat.push('"');
        new_pat.push('"');
        assert(old_pat@ =~= seq!['"']);
        assert(new_pat@ =~= seq!['"', '"']);
        let (body, _) = replace_all_chars(&h, &old_pat, &new_pat);
        let mut out = to_chars("set \"AGENT_BROWSER_HOME=");
        push_all(&mut out, &body);
        push_str(&mut out, "\" && ");
        push_escaped(&mut out, binary, true);
        string_of(&out)
    } else {
        let mut out = to_chars("AGENT_BROWSER_HOME=");
        push_escaped(&mut out, home, false);
        push_str(&mut out, " ");
        push_escaped(&mut out, binary, false);
        string_of(&out)
    }
}

/// The text of an optional string.
pub open spec fn opt_text(o: Option<String>) -> Option<Seq<char>> {
    match o {
        Some(s) => Some(s@),
        None => None,
    }
}

/// The mathematical value of an [`AgentBrowserStatus`].
pub struct BrowserStatusView {
    pub available: bool,
    pub command: Option<Seq<char>>,
    pub detail: Seq<char>,
}

impl View for AgentBrowserStatus {
    type V = BrowserStatusView;

    open spec fn view(&self) -> BrowserStatusView {
        BrowserStatusView {
            available: self.available,
            command: opt_text(self.command),
            detail: self.detail@,
        }
    }
}

/// How the browser tool is reached. The bundled binary is taken where its
/// runtime is there too; else the tool on the search path; else `npx`.
/// Where none of these is there, the detail says so, and names the bundled
/// binary where only its runtime is missing.
pub open spec fn browser_status_spec(probe: BrowserProbe, windows: bool) -> BrowserStatusView {
    if probe.bundled_binary is Some && probe.bundled_home is Some {
        BrowserStatusView {
            available: true,
            command: Some(
                bundled_command_spec(
                    probe.bundled_binary->0@,
                    probe.bundled_home->0@,
                    windows,
                ),
            ),
            detail: "Bundled agent-browser found at "@ + probe.bundled_binary->0@
                + " with runtime "@ + probe.bundled_home->0@,
        }
    } else if probe.in_path {
        BrowserStatusView {
            available: true,
            command: Some("agent-browser"@),
            detail: "agent-browser is available in PATH."@,
        }
    } else if probe.npx {
        BrowserStatusView {
            available: true,
            command: Some("npx --yes agent-browser"@),
            detail: "agent-browser not found in PATH; npx fallback is available."@,
        }
    } else {
        BrowserStatusView {
            available: false,
            command: None,
            detail: match probe.bundled_binary {
                Some(b) => "Bundled agent-browser binary found at "@ + b@
                    + ", but runtime is missing."@,
                None => "Neither bundled agent-browser runtime, agent-browser in PATH, nor npx fallback is available."@,
            },
        }
    }
}

fn text(s: &str) -> (r: String)
    ensures
        r@ == s@,
{
    string_of(&to_chars(s))
}

/// How the browser tool is reached.
pub fn agent_browser_status(probe: &BrowserProbe, windows: bool) -> (r: AgentBrowserStatus)
    ensures
        r@ == browser_status_spec(*probe, windows),
{
    match (&probe.bundled_binary, &probe.bundled_home) {
        (Some(binary), Some(home)) => {
            let mut d = to_chars("Bundled agent-browser found at ");
            push_str(&mut d, binary.as_str());
            push_str(&mut d, " with runtime ");
            push_str(&mut d, home.as_str());
            return AgentBrowserStatus {
                available: true,
                command: Some(
                    shell_command_with_agent_browser_home(binary.as_str(), home.as_str(), windows),
                ),
                detail: string_of(&d),
            };
        },
        _ => {},
    }
    if probe.in_path {
        return AgentBrowserStatus {
            available: true,
            command: Some(text("agent-browser")),
            detail: text("agent-browser is available in PATH."),
        };
    }
    if probe.npx {
        return AgentBrowserStatus {
            available: true,
            command: Some(text("npx --yes agent-browser")),
            detail: text("agent-browser not found in PATH; npx fallback is available."),
        };
    }
    let detail = match &probe.bundled_binary {
        Some(b) => {
            let mut d = to_chars("Bundled agent-browser binary found at ");
            push_str(&mut d, b.as_str());
            push_str(&mut d, ", but runtime is missing.");
            string_of(&d)
        },
        None => text(
            "Neither bundled agent-browser runtime, agent-browser in PATH, nor npx fallback is available.",
        ),
    };
    AgentBrowserStatus { available: false, command: None, detail }
}

/// What the agent is told about reaching the internet.
pub open spec fn browser_policy_spec(status: BrowserStatusView) -> Seq<char> {
    if status.available {
        "Internet access policy:\n- For any request that needs internet/web pages, you MUST use the Shell tool with agent-browser.\n- Command prefix: "@
            + (match status.command {
            Some(c) => c,
            None => "agent-browser"@,
        })
            + "\n- Default flow: open <url> -> snapshot -i -> interact using @eN refs -> re-snapshot after navigation.\n- Do NOT use SearchWeb or FetchURL."@
    } else {
        "Internet access policy:\n- For any request that needs internet/web pages, use Shell tool with agent-browser only.\n- agent-browser is currently unavailable in this environment ("@
            + status.detail
            + ").\n- Report this limitation clearly and stop before attempting web access.\n- Do NOT use SearchWeb or FetchURL."@
    }
}

/// What the agent is told about reaching the internet.
pub fn agent_browser_policy(status: &AgentBrowserStatus) -> (r: String)
    ensures
        r@ == browser_policy_spec(status@),
{
    if status.available {
        let mut out = to_chars(
            "Internet access policy:\n- For any request that needs internet/web pages, you MUST use the Shell tool with agent-browser.\n- Command prefix: ",
        );
        match &status.command {
            Some(c) => push_str(&mut out, c.as_str()),
            None => push_str(&mut out, "agent-browser"),
        }
        push_str(
            &mut out,
            "\n- Default flow: open <url> -> snapshot -i -> interact using @eN refs -> re-snapshot after navigation.\n- Do NOT use SearchWeb or FetchURL.",
        );
        string_of(&out)
    } else {
        let mut out = to_chars(
            "Internet access policy:\n- For any request that needs internet/web pages, use Shell tool with agent-browser only.\n- agent-browser is currently unavailable in this environment (",
        );
        push_str(&mut out, status.detail.as_str());
        push_str(
            &mut out,
            ").\n- Report this limitation clearly and stop before attempting web access.\n- Do NOT use SearchWeb or FetchURL.",
        );
        string_of(&out)
    }
}

} // verus!
