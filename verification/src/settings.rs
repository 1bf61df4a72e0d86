//! Paths in the stored settings that still point into the storage
//! directory of earlier versions.

use crate::chat::GuiSettings;
use crate::text::{
    ends_with, ends_with_str, is_blank, is_blank_str, push_str, replace_all, replace_all_chars,
    same_chars, string_of, string_texts, to_chars, trim_end_matches, trim_end_matches_chars,
};
use vstd::prelude::*;

verus! {

/// Most working directories that are remembered.
pub const RECENT_LIMIT: usize = 5;

/// `s` with the repetitions of `suffix` that end it replaced by one
/// `replacement`; `s` itself where it does not end in `suffix`.
pub open spec fn with_end_renamed(s: Seq<char>, suffix: Seq<char>, replacement: Seq<char>) -> Seq<
    char,
> {
    if ends_with(s, suffix) {
        trim_end_matches(s, suffix) + replacement
    } else {
        s
    }
}

/// A path with the old storage directory, as a component in the middle or
/// at the end, renamed to the new one; first with slashes, then with
/// backslashes.
pub open spec fn normalize_path_spec(path: Seq<char>) -> Seq<char> {
    let unix = with_end_renamed(
        replace_all(path, "/.kimi/"@, "/.kimicodegui/"@),
        "/.kimi"@,
        "/.kimicodegui"@,
    );
    with_end_renamed(
        replace_all(unix, "\\.kimi\\"@, "\\.kimicodegui\\"@),
        "\\.kimi"@,
        "\\.kimicodegui"@,
    )
}

fn rename_end(v: Vec<char>, suffix: &str, replacement: &str) -> (r: Vec<char>)
    ensures
        r@ == with_end_renamed(v@, suffix@, replacement@),
{
    if ends_with_str(&v, suffix) {
        let mut out = trim_end_matches_chars(&v, &to_chars(suffix));
        push_str(&mut out, replacement);
        out
    } else {
        v
    }
}

/// Renames the old storage directory in a path.
pub fn normalize_legacy_storage_path(path: &str) -> (r: String)
    ensures
        r@ == normalize_path_spec(path@),
{
    let v = to_chars(path);
    let (a, _) = replace_all_chars(&v, &to_chars("/.kimi/"), &to_chars("/.kimicodegui/"));
    let unix = rename_end(a, "/.kimi", "/.kimicodegui");
    let (b, _) = replace_all_chars(&unix, &to_chars("\\.kimi\\"), &to_chars("\\.kimicodegui\\"));
    let windows = rename_end(b, "\\.kimi", "\\.kimicodegui");
    string_of(&windows)
}

/// A path that may be missing, renamed.
pub open spec fn normalized_opt(o: Option<String>) -> Option<Seq<char>> {
    match o {
        Some(p) => Some(normalize_path_spec(p@)),
        None => None,
    }
}

/// The text of an optional string.
pub open spec fn opt_text(o: Option<String>) -> Option<Seq<char>> {
    match o {
        Some(s) => Some(s@),
        None => None,
    }
}

/// The paths renamed, each in its place.
pub open spec fn normalized_all(paths: Seq<Seq<char>>) -> Seq<Seq<char>> {
    paths.map_values(|p: Seq<char>| normalize_path_spec(p))
}

/// Whether `x` is one of `s`.
pub open spec fn among(s: Seq<Seq<char>>, x: Seq<char>) -> bool {
    exists|k: int| 0 <= k < s.len() && #[trigger] s[k] == x
}

/// The working directories that are remembered of the first `n`: each
/// renamed, without the blank ones and those that came before, and no more
/// than [`RECENT_LIMIT`].
pub open spec fn recent_spec(dirs: Seq<Seq<char>>, n: int) -> Seq<Seq<char>>
    decreases n,
{
    if n <= 0 || n > dirs.len() {
        Seq::empty()
    } else {
        let front = recent_spec(dirs, n - 1);
        let x = normalize_path_spec(dirs[n - 1]);
        if front.len() >= RECENT_LIMIT || is_blank(x) || among(front, x) {
            front
        } else {
            front.push(x)
        }
    }
}

fn normalize_opt(o: Option<String>) -> (r: Option<String>)
    ensures
        opt_text(r) == normalized_opt(o),
{
    match o {
        Some(p) => Some(normalize_legacy_storage_path(p.as_str())),
        None => None,
    }
}

fn normalize_each(paths: &Vec<String>) -> (r: Vec<String>)
    ensures
        string_texts(r@) == normalized_all(string_texts(paths@)),
{
    let mut out: Vec<String> = Vec::new();
    let mut i: usize = 0;
    while i < paths.len()
        invariant
            i <= paths.len(),
            out@.len() == i,
            forall|k: int| 0 <= k < i ==> (#[trigger] out@[k])@ == normalize_path_spec(paths@[k]@),
        decreases paths.len() - i,
    {
        out.push(normalize_legacy_storage_path(paths[i].as_str()));
        i += 1;
    }
    assert(string_texts(out@) =~= normalized_all(string_texts(paths@)));
    out
}

fn recent_dirs(dirs: &Vec<String>) -> (r: Vec<String>)
    ensures
        string_texts(r@) == recent_spec(string_texts(dirs@), dirs@.len() as int),
        r@.len() <= RECENT_LIMIT,
{
    let ghost all = string_texts(dirs@);
    let mut out: Vec<String> = Vec::new();
    let mut i: usize = 0;
    assert(string_texts(out@) =~= Seq::<Seq<char>>::empty());
    while i < dirs.len()
        invariant
            i <= dirs.len(),
            all == string_texts(dirs@),
            string_texts(out@) == recent_spec(all, i as int),
            out@.len() <= RECENT_LIMIT,
        decreases dirs.len() - i,
    {
        let ghost front = string_texts(out@);
        assert(all[i as int] == dirs@[i as int]@);
        let x = normalize_legacy_storage_path(dirs[i].as_str());
        let mut keep = out.len() < RECENT_LIMIT && !is_blank_str(x.as_str());
        if keep {
            let xv = to_chars(x.as_str());
            let mut k: usize = 0;
            while k < out.len() && keep
                invariant
                    k <= out.len(),
                    front == string_texts(out@),
                    xv@ == x@,
                    keep ==> forall|j: int| 0 <= j < k ==> #[trigger] front[j] != x@,
                    !keep ==> among(front, x@),
                decreases out.len() - k + (if keep { 1int } else { 0int }),
            {
                assert(front[k as int] == out@[k as int]@);
                if same_chars(&to_chars(out[k].as_str()), &xv) {
                    keep = false;
                } else {
                    k += 1;
                }
            }
        }
        if keep {
            let ghost xt = x@;
            out.push(x);
            assert(string_texts(out@) =~= front.push(xt));
        }
        i += 1;
    }
    out
}

/// Renames the old storage directory in every path of the settings. The
/// working directories that are remembered are, besides, freed of blank
/// and repeated ones and cut to [`RECENT_LIMIT`]. Everything else stays.
pub fn normalize_gui_settings_paths(settings: GuiSettings) -> (r: GuiSettings)
    ensures
        opt_text(r.config_file) == normalized_opt(settings.config_file),
        opt_text(r.skills_dir) == normalized_opt(settings.skills_dir),
        string_texts(r.mcp_config_files@) == normalized_all(
            string_texts(settings.mcp_config_files@),
        ),
        string_texts(r.recent_work_dirs@) == recent_spec(
            string_texts(settings.recent_work_dirs@),
            settings.recent_work_dirs@.len() as int,
        ),
        r.work_dir == settings.work_dir,
        r.model == settings.model,
        r.thinking == settings.thinking,
        r.yolo == settings.yolo,
        r.pinned_sessions == settings.pinned_sessions,
        r.pinned_cowork_tasks == settings.pinned_cowork_tasks,
{
    let GuiSettings {
        work_dir,
        recent_work_dirs,
        config_file,
        mcp_config_files,
        skills_dir,
        model,
        thinking,
        yolo,
        pinned_sessions,
        pinned_cowork_tasks,
    } = settings;
    GuiSettings {
        work_dir,
        recent_work_dirs: recent_dirs(&recent_work_dirs),
        config_file: normalize_opt(config_file),
        mcp_config_files: normalize_each(&mcp_config_files),
        skills_dir: normalize_opt(skills_dir),
        model,
        thinking,
        yolo,
        pinned_sessions,
        pinned_cowork_tasks,
    }
}

} // verus!
