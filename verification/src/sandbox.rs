//! Containment of tool paths in the working directory.
//!
//! A path handed to a tool is joined to the working directory and made
//! canonical by the caller, who knows the file system. Whether the result
//! may be used is decided here, from the canonical paths alone: it must lie
//! inside the canonical working directory.

use crate::text::{concat2, is_blank, is_blank_str, string_of, string_texts, to_chars};
use vstd::prelude::*;

verus! {

/// A canonical path: its text, and its components from the root down.
#[derive(Debug)]
pub struct CanonicalPath {
    pub text: String,
    pub components: Vec<String>,
}

/// What came of making a path canonical.
#[derive(Debug)]
pub enum Located {
    /// The path exists; this is its canonical form.
    Found { path: CanonicalPath },
    /// The path does not resolve; this is the system's message.
    Failed { error: String },
}

/// What the caller found out about a path, before anything is read or
/// written.
#[derive(Debug)]
pub struct PathProbe {
    /// The path that was asked for, joined to the working directory where it
    /// is relative.
    pub target: String,
    /// The canonical form of `target`.
    pub target_location: Located,
    /// The canonical form of the working directory.
    pub root_location: Located,
    /// The canonical form of the parent of `target`, or `None` where it has
    /// no parent.
    pub parent_location: Option<Located>,
}

/// `inner` lies in `root`: the components of `root` are the first
/// components of `inner`.
pub open spec fn is_within(root: Seq<Seq<char>>, inner: Seq<Seq<char>>) -> bool {
    root.len() <= inner.len() && inner.take(root.len() as int) == root
}

/// The components of a canonical path.
pub open spec fn components_of(p: CanonicalPath) -> Seq<Seq<char>> {
    string_texts(p.components@)
}

/// What the path must be held against: the target itself where it must
/// exist, its parent where it may be created.
pub open spec fn checked_location(must_exist: bool, probe: PathProbe) -> Option<Located> {
    if must_exist {
        Some(probe.target_location)
    } else {
        probe.parent_location
    }
}

/// What [`resolve_path`] returns.
pub open spec fn resolve_path_spec(path: Seq<char>, must_exist: bool, probe: PathProbe) -> Result<
    Seq<char>,
    Seq<char>,
> {
    if is_blank(path) {
        Err("Path cannot be empty"@)
    } else if must_exist {
        match probe.target_location {
            Located::Failed { error } => Err("Failed to resolve path: "@ + error@),
            Located::Found { path: target } => match probe.root_location {
                Located::Failed { error } => Err("Failed to resolve work dir: "@ + error@),
                Located::Found { path: root } => if is_within(
                    components_of(root),
                    components_of(target),
                ) {
                    Ok(target.text@)
                } else {
                    Err("Path is outside working directory"@)
                },
            },
        }
    } else {
        match probe.root_location {
            Located::Failed { error } => Err("Failed to resolve work dir: "@ + error@),
            Located::Found { path: root } => match probe.parent_location {
                None => Err("Invalid path"@),
                Some(Located::Failed { error }) => Err("Failed to resolve path: "@ + error@),
                Some(Located::Found { path: parent }) => if is_within(
                    components_of(root),
                    components_of(parent),
                ) {
                    Ok(probe.target@)
                } else {
                    Err("Path is outside working directory"@)
                },
            },
        }
    }
}

/// The view of a resolution result.
pub open spec fn result_text(r: Result<String, String>) -> Result<Seq<char>, Seq<char>> {
    match r {
        Ok(s) => Ok(s@),
        Err(e) => Err(e@),
    }
}

/// No path is accepted unless the working directory resolves and holds the
/// canonical form of what was checked: the target where it must exist, its
/// parent where it may be created. A path that leaves the working directory,
/// through `..` or through a link, is therefore always refused.
pub proof fn paths_outside_are_rejected(path: Seq<char>, must_exist: bool, probe: PathProbe)
    ensures
        resolve_path_spec(path, must_exist, probe) is Ok ==> (probe.root_location matches Located::Found {
            path: root,
        } && checked_location(must_exist, probe) matches Some(Located::Found { path: checked })
            && is_within(components_of(root), components_of(checked))),
{
}

/// Whether the components `root` are the first components of `inner`.
pub fn within(root: &Vec<String>, inner: &Vec<String>) -> (r: bool)
    ensures
        r == is_within(string_texts(root@), string_texts(inner@)),
{
    let ghost a = string_texts(root@);
    let ghost b = string_texts(inner@);
    if root.len() > inner.len() {
        return false;
    }
    let mut i: usize = 0;
    while i < root.len()
        invariant
            i <= root.len() <= inner.len(),
            a == string_texts(root@),
            b == string_texts(inner@),
            forall|k: int| 0 <= k < i ==> a[k] == b[k],
        decreases root.len() - i,
    {
        assert(a[i as int] == root@[i as int]@);
        assert(b[i as int] == inner@[i as int]@);
        if root[i] != inner[i] {
            assert(b.take(root.len() as int)[i as int] == b[i as int]);
            return false;
        }
        i += 1;
    }
    assert(b.take(root.len() as int) =~= a);
    true
}

/// Decides whether a tool may use a path. A blank path is refused. A path
/// that must exist is accepted in its canonical form, if that lies in the
/// canonical working directory; a path that may be created is accepted as
/// it was joined, if the canonical form of its parent lies there. Every
/// other outcome is an error that says what went wrong.
pub fn resolve_path(path: &str, must_exist: bool, probe: &PathProbe) -> (r: Result<String, String>)
    ensures
        result_text(r) == resolve_path_spec(path@, must_exist, *probe),
{
    if is_blank_str(path) {
        return Err(string_of(&to_chars("Path cannot be empty")));
    }
    if must_exist {
        match &probe.target_location {
            Located::Failed { error } => Err(concat2("Failed to resolve path: ", error.as_str())),
            Located::Found { path: target } => match &probe.root_location {
                Located::Failed { error } => Err(
                    concat2("Failed to resolve work dir: ", error.as_str()),
                ),
                Located::Found { path: root } => {
                    if within(&root.components, &target.components) {
                        Ok(target.text.clone())
                    } else {
                        Err(string_of(&to_chars("Path is outside working directory")))
                    }
                },
            },
        }
    } else {
        match &probe.root_location {
            Located::Failed { error } => Err(
                concat2("Failed to resolve work dir: ", error.as_str()),
            ),
            Located::Found { path: root } => match &probe.parent_location {
                None => Err(string_of(&to_chars("Invalid path"))),
                Some(Located::Failed { error }) => Err(
                    concat2("Failed to resolve path: ", error.as_str()),
                ),
                Some(Located::Found { path: parent }) => {
                    if within(&root.components, &parent.components) {
                        Ok(probe.target.clone())
                    } else {
                        Err(string_of(&to_chars("Path is outside working directory")))
                    }
                },
            },
        }
    }
}

} // verus!
