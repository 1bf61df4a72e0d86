//! What a chat turn starts from: the settings that apply, the title of a
//! new session, and the system prompt.

use crate::text::{is_blank, is_blank_str, push_str, string_of, to_chars};
use crate::truncate::{truncate_with_ellipsis, truncate_with_ellipsis_spec};
use vstd::prelude::*;

verus! {

/// The settings that the front end keeps.
#[derive(Debug)]
pub struct GuiSettings {
    pub work_dir: Option<String>,
    pub recent_work_dirs: Vec<String>,
    pub config_file: Option<String>,
    pub mcp_config_files: Vec<String>,
    pub skills_dir: Option<String>,
    pub model: Option<String>,
    pub thinking: Option<bool>,
    pub yolo: Option<bool>,
    pub pinned_sessions: Vec<String>,
    pub pinned_cowork_tasks: Vec<String>,
}

impl Default for GuiSettings {
    fn default() -> (r: Self)
        ensures
            r.work_dir is None,
            r.recent_work_dirs@.len() == 0,
            r.config_file is None,
            r.mcp_config_files@.len() == 0,
            r.skills_dir is None,
            r.model is None,
            r.thinking is None,
            r.yolo is None,
            r.pinned_sessions@.len() == 0,
            r.pinned_cowork_tasks@.len() == 0,
    {
        GuiSettings {
            work_dir: None,
            recent_work_dirs: Vec::new(),
            config_file: None,
            mcp_config_files: Vec::new(),
            skills_dir: None,
            model: None,
            thinking: None,
            yolo: None,
            pinned_sessions: Vec::new(),
            pinned_cowork_tasks: Vec::new(),
        }
    }
}

/// The model that is used where the settings name none.
pub open spec fn default_model() -> Seq<char> {
    "kimi-k2.5"@
}

/// Most characters of the title of a session.
pub const TITLE_CHARS: usize = 50;

/// What a chat turn runs with.
#[derive(Debug)]
pub struct ChatPlan {
    pub model: String,
    pub work_dir: String,
    pub config_path: String,
    pub auto_approve: bool,
    /// The title of the session, should it be new.
    pub title: String,
}

/// The model of the settings unless it is missing or empty.
pub open spec fn plan_model(settings: GuiSettings) -> Seq<char> {
    match settings.model {
        Some(m) => if m@.len() > 0 {
            m@
        } else {
            default_model()
        },
        None => default_model(),
    }
}

/// The working directory of the settings unless it is missing or blank, in
/// which case it is the current directory.
pub open spec fn plan_work_dir(settings: GuiSettings) -> Seq<char> {
    match settings.work_dir {
        Some(w) => if is_blank(w@) {
            "."@
        } else {
            w@
        },
        None => "."@,
    }
}

/// The configuration file of the settings unless it is missing or empty, in
/// which case it is the default one.
pub open spec fn plan_config_path(settings: GuiSettings, default_config: Seq<char>) -> Seq<char> {
    match settings.config_file {
        Some(c) => if c@.len() > 0 {
            c@
        } else {
            default_config
        },
        None => default_config,
    }
}

/// What a chat turn runs with: the settings, with defaults where they are
/// silent. Tools need approval unless the settings waive it.
pub fn chat_plan(settings: &GuiSettings, message: &str, default_config: &str) -> (r: ChatPlan)
    ensures
        r.model@ == plan_model(*settings),
        r.work_dir@ == plan_work_dir(*settings),
        r.config_path@ == plan_config_path(*settings, default_config@),
        r.auto_approve == (settings.yolo == Some(true)),
        r.title@ == truncate_with_ellipsis_spec(message@, TITLE_CHARS as int),
{
    let model = match &settings.model {
        Some(m) => if m.as_str().unicode_len() > 0 {
            m.clone()
        } else {
            string_of(&to_chars("kimi-k2.5"))
        },
        None => string_of(&to_chars("kimi-k2.5")),
    };
    let work_dir = match &settings.work_dir {
        Some(w) => if is_blank_str(w.as_str()) {
            string_of(&to_chars("."))
        } else {
            w.clone()
        },
        None => string_of(&to_chars(".")),
    };
    let config_path = match &settings.config_file {
        Some(c) => if c.as_str().unicode_len() > 0 {
            c.clone()
        } else {
            string_of(&to_chars(default_config))
        },
        None => string_of(&to_chars(default_config)),
    };
    let auto_approve = match settings.yolo {
        Some(y) => y,
        None => false,
    };
    ChatPlan {
        model,
        work_dir,
        config_path,
        auto_approve,
        title: truncate_with_ellipsis(message, TITLE_CHARS),
    }
}

/// The system prompt of a task: the caller's prompt, unless it is blank,
/// and then the internet policy.
pub open spec fn combined_prompt_spec(system_prompt: Seq<char>, policy: Seq<char>) -> Seq<char> {
    if is_blank(system_prompt) {
        policy
    } else {
        system_prompt + "\n\n"@ + policy
    }
}

/// The system prompt of a task.
pub fn combined_prompt(system_prompt: &str, policy: &str) -> (r: String)
    ensures
        r@ == combined_prompt_spec(system_prompt@, policy@),
{
    if is_blank_str(system_prompt) {
        string_of(&to_chars(policy))
    } else {
        let mut out = to_chars(system_prompt);
        push_str(&mut out, "\n\n");
        push_str(&mut out, policy);
        string_of(&out)
    }
}

/// The name that a platform is shown under.
pub open spec fn platform_label_spec(os: Seq<char>) -> Seq<char> {
    if os == "macos"@ {
        "macOS"@
    } else if os == "windows"@ {
        "Windows"@
    } else if os == "linux"@ {
        "Linux"@
    } else {
        os
    }
}

/// The name that a platform is shown under.
pub fn platform_label(os: &str) -> (r: String)
    ensures
        r@ == platform_label_spec(os@),
{
    if crate::text::str_eq(os, "macos") {
        string_of(&to_chars("macOS"))
    } else if crate::text::str_eq(os, "windows") {
        string_of(&to_chars("Windows"))
    } else if crate::text::str_eq(os, "linux") {
        string_of(&to_chars("Linux"))
    } else {
        string_of(&to_chars(os))
    }
}

} // verus!
