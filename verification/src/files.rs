//! The file views of the front end: which entries are shown, in which
//! order, and what the version control says of them.

use crate::order::{consistent, in_order, sort_stable, sorted, sorted_is_in_order, Ranked};
use crate::text::{
    contains, copy_range, find_chars, lines_of, lowercase, split_lines, str_eq, string_of, texts,
    to_chars,
};
use vstd::prelude::*;

verus! {

/// Most files that a file search lists.
pub const FILE_LIMIT: usize = 50;

/// Levels of a directory tree whose children are loaded at once.
pub const EAGER_DEPTH: usize = 2;

/// Deepest level of a directory tree that is read at all.
pub const MAX_DEPTH: usize = 10;

/// Whether a name is one of those that the file search leaves out.
pub open spec fn is_listed_ignore(name: Seq<char>) -> bool {
    name == ".git"@ || name == ".svn"@ || name == ".hg"@ || name == ".DS_Store"@ || name
        == "node_modules"@ || name == "target"@ || name == "dist"@ || name == "build"@ || name
        == ".venv"@ || name == "venv"@ || name == "__pycache__"@ || name == ".pytest_cache"@
        || name == ".idea"@ || name == ".vscode"@ || name == ".next"@ || name == ".nuxt"@
}

/// Whether a name is one of the lock files that the directory tree leaves
/// out besides.
pub open spec fn is_lock_file(name: Seq<char>) -> bool {
    name == "Cargo.lock"@ || name == "package-lock.json"@ || name == "yarn.lock"@ || name
        == "pnpm-lock.yaml"@
}

/// An entry is left out when its name begins with a dot or is one of the
/// names of tools and build outputs; the directory tree also leaves out
/// lock files.
pub open spec fn is_ignored_spec(name: Seq<char>, tree: bool) -> bool {
    (name.len() > 0 && name[0] == '.') || is_listed_ignore(name) || (tree && is_lock_file(name))
}

/// Whether an entry with this name is left out.
pub fn is_ignored(name: &str, tree: bool) -> (r: bool)
    ensures
        r == is_ignored_spec(name@, tree),
{
    let v = to_chars(name);
    if v.len() > 0 && v[0] == '.' {
        return true;
    }
    if str_eq(name, ".git") || str_eq(name, ".svn") || str_eq(name, ".hg") || str_eq(
        name,
        ".DS_Store",
    ) || str_eq(name, "node_modules") || str_eq(name, "target") || str_eq(name, "dist") || str_eq(
        name,
        "build",
    ) || str_eq(name, ".venv") || str_eq(name, "venv") || str_eq(name, "__pycache__") || str_eq(
        name,
        ".pytest_cache",
    ) || str_eq(name, ".idea") || str_eq(name, ".vscode") || str_eq(name, ".next") || str_eq(
        name,
        ".nuxt",
    ) {
        return true;
    }
    tree && (str_eq(name, "Cargo.lock") || str_eq(name, "package-lock.json") || str_eq(
        name,
        "yarn.lock",
    ) || str_eq(name, "pnpm-lock.yaml"))
}

/// Whether a path is found by a query in lower case: every path by the
/// empty query, else those that hold the query, whatever their case.
pub fn path_matches(relative: &str, query_lower: &str) -> (r: bool)
    ensures
        r == (query_lower@.len() == 0 || contains(lowercase(relative@), query_lower@)),
{
    let q = to_chars(query_lower);
    if q.len() == 0 {
        return true;
    }
    let lower = relative.to_lowercase();
    find_chars(&to_chars(lower.as_str()), &q, 0).is_some()
}

// ---------------------------------------------------------------------------
// Order of names
// ---------------------------------------------------------------------------

/// `a` stands before `b` in the order of texts: at the first place where
/// they differ `a` has the lesser character, or `a` ends there and `b` does
/// not.
pub open spec fn text_before(a: Seq<char>, b: Seq<char>) -> bool
    decreases a.len(),
{
    if b.len() == 0 {
        false
    } else if a.len() == 0 {
        true
    } else if a[0] != b[0] {
        (a[0] as u32) < (b[0] as u32)
    } else {
        text_before(a.skip(1), b.skip(1))
    }
}

/// No two texts stand before each other.
pub proof fn text_order_is_asymmetric(a: Seq<char>, b: Seq<char>)
    requires
        text_before(a, b),
    ensures
        !text_before(b, a),
    decreases a.len(),
{
    if a.len() > 0 && b.len() > 0 && a[0] == b[0] {
        text_order_is_asymmetric(a.skip(1), b.skip(1));
    }
}

/// A text that stands before a second, which stands before a third, stands
/// before the third.
pub proof fn text_order_is_transitive(a: Seq<char>, b: Seq<char>, c: Seq<char>)
    requires
        text_before(a, b),
        text_before(b, c),
    ensures
        text_before(a, c),
    decreases a.len(),
{
    if a.len() > 0 && b.len() > 0 && c.len() > 0 && a[0] == b[0] && b[0] == c[0] {
        text_order_is_transitive(a.skip(1), b.skip(1), c.skip(1));
    }
}

proof fn lemma_text_before_skip(a: Seq<char>, b: Seq<char>, n: int)
    requires
        0 <= n <= a.len(),
        n <= b.len(),
        forall|i: int| 0 <= i < n ==> a[i] == b[i],
    ensures
        text_before(a, b) == text_before(a.skip(n), b.skip(n)),
    decreases n,
{
    if n > 0 {
        lemma_text_before_skip(a.skip(1), b.skip(1), n - 1);
        assert(a.skip(1).skip(n - 1) =~= a.skip(n));
        assert(b.skip(1).skip(n - 1) =~= b.skip(n));
        assert(a[0] == b[0]);
    } else {
        assert(a.skip(0) =~= a);
        assert(b.skip(0) =~= b);
    }
}

/// Whether `a` stands before `b` in the order of texts.
pub fn is_text_before(a: &str, b: &str) -> (r: bool)
    ensures
        r == text_before(a@, b@),
{
    let x = to_chars(a);
    let y = to_chars(b);
    let mut i: usize = 0;
    while i < x.len() && i < y.len()
        invariant
            i <= x.len(),
            i <= y.len(),
            x@ == a@,
            y@ == b@,
            forall|k: int| 0 <= k < i ==> x@[k] == y@[k],
        decreases x.len() - i,
    {
        if x[i] != y[i] {
            proof {
                lemma_text_before_skip(x@, y@, i as int);
                assert(x@.skip(i as int)[0] == x@[i as int]);
                assert(y@.skip(i as int)[0] == y@[i as int]);
            }
            let cx: u32 = #[verifier::truncate] (x[i] as u32);
            let cy: u32 = #[verifier::truncate] (y[i] as u32);
            return cx < cy;
        }
        i += 1;
    }
    proof {
        lemma_text_before_skip(x@, y@, i as int);
    }
    i < y.len()
}

/// A path of the file search.
#[derive(Debug)]
pub struct FoundPath {
    pub relative: String,
}

impl Ranked for FoundPath {
    open spec fn ranks_before(&self, other: &Self) -> bool {
        text_before(self.relative@, other.relative@)
    }

    fn before(&self, other: &Self) -> (r: bool) {
        is_text_before(self.relative.as_str(), other.relative.as_str())
    }
}

/// The paths that a file search found, in the order of texts.
pub fn list_files(found: Vec<FoundPath>) -> (r: Vec<FoundPath>)
    ensures
        r@ == sorted(found@),
        in_order(r@),
{
    proof {
        assert forall|a: FoundPath, b: FoundPath| #![trigger a.ranks_before(&b)] a.ranks_before(&b)
            implies !b.ranks_before(&a) by {
            text_order_is_asymmetric(a.relative@, b.relative@);
        }
        assert forall|a: FoundPath, b: FoundPath, c: FoundPath|
            #![trigger a.ranks_before(&b), b.ranks_before(&c)]
            a.ranks_before(&b) && b.ranks_before(&c) implies a.ranks_before(&c) by {
            text_order_is_transitive(a.relative@, b.relative@, c.relative@);
        }
        assert(consistent(found@));
        sorted_is_in_order(found@);
    }
    sort_stable(found)
}

// ---------------------------------------------------------------------------
// The directory tree
// ---------------------------------------------------------------------------

/// An entry of the directory tree.
#[derive(Debug)]
pub struct DirEntry {
    pub name: String,
    pub path: String,
    pub is_dir: bool,
    /// The entries of a directory; empty where they are not loaded yet.
    pub children: Option<Vec<DirEntry>>,
}

impl Ranked for DirEntry {
    /// Directories stand before files, and among their kind the entries
    /// stand in the order of their names.
    open spec fn ranks_before(&self, other: &Self) -> bool {
        (self.is_dir && !other.is_dir) || (self.is_dir == other.is_dir && text_before(
            self.name@,
            other.name@,
        ))
    }

    fn before(&self, other: &Self) -> (r: bool) {
        (self.is_dir && !other.is_dir) || (self.is_dir == other.is_dir && is_text_before(
            self.name.as_str(),
            other.name.as_str(),
        ))
    }
}

/// What is done about the children of an entry.
#[derive(Clone, Copy, Debug, PartialEq, Eq, Structural)]
pub enum ChildrenPlan {
    /// The entry is a file and has none.
    Absent,
    /// The entry is a directory whose children are read now.
    Load,
    /// The entry is a directory whose children are read when asked for.
    Defer,
}

/// What is done about the children of an entry at this depth: those of the
/// first levels are read at once.
pub fn children_plan(is_dir: bool, depth: usize) -> (r: ChildrenPlan)
    ensures
        r == (if !is_dir {
            ChildrenPlan::Absent
        } else if depth < EAGER_DEPTH {
            ChildrenPlan::Load
        } else {
            ChildrenPlan::Defer
        }),
{
    if !is_dir {
        ChildrenPlan::Absent
    } else if depth < EAGER_DEPTH {
        ChildrenPlan::Load
    } else {
        ChildrenPlan::Defer
    }
}

/// Whether a directory at this depth is read at all.
pub fn depth_allowed(depth: usize) -> (r: bool)
    ensures
        r == (depth <= MAX_DEPTH),
{
    depth <= MAX_DEPTH
}

/// The entries of a directory in the order in which they are shown.
pub fn list_dir_tree(entries: Vec<DirEntry>) -> (r: Vec<DirEntry>)
    ensures
        r@ == sorted(entries@),
        in_order(r@),
{
    proof {
        assert forall|a: DirEntry, b: DirEntry| #![trigger a.ranks_before(&b)] a.ranks_before(&b)
            implies !b.ranks_before(&a) by {
            if a.is_dir == b.is_dir {
                text_order_is_asymmetric(a.name@, b.name@);
            }
        }
        assert forall|a: DirEntry, b: DirEntry, c: DirEntry|
            #![trigger a.ranks_before(&b), b.ranks_before(&c)]
            a.ranks_before(&b) && b.ranks_before(&c) implies a.ranks_before(&c) by {
            if a.is_dir == b.is_dir && b.is_dir == c.is_dir {
                text_order_is_transitive(a.name@, b.name@, c.name@);
            }
        }
        assert(consistent(entries@));
        sorted_is_in_order(entries@);
    }
    sort_stable(entries)
}

// ---------------------------------------------------------------------------
// Version control
// ---------------------------------------------------------------------------

/// What the version control says of a path.
#[derive(Debug)]
pub struct GitStatusEntry {
    pub path: String,
    /// `modified`, `added`, `deleted`, `untracked` or `staged`.
    pub status: String,
}

/// The mathematical value of a [`GitStatusEntry`].
pub struct GitStatusView {
    pub path: Seq<char>,
    pub status: Seq<char>,
}

impl View for GitStatusEntry {
    type V = GitStatusView;

    open spec fn view(&self) -> GitStatusView {
        GitStatusView { path: self.path@, status: self.status@ }
    }
}

/// The views of a sequence of entries.
pub open spec fn status_views(entries: Seq<GitStatusEntry>) -> Seq<GitStatusView> {
    entries.map_values(|e: GitStatusEntry| e@)
}

/// The status that a two-letter code stands for.
pub open spec fn status_of(code: Seq<char>) -> Seq<char> {
    if code == seq!['M', ' '] {
        "staged"@
    } else if code == seq![' ', 'M'] {
        "modified"@
    } else if code == seq!['A', ' '] {
        "added"@
    } else if code == seq!['D', ' '] || code == seq![' ', 'D'] {
        "deleted"@
    } else if code == seq!['?', '?'] {
        "untracked"@
    } else {
        "modified"@
    }
}

/// What the lines of a short status say: each line of three characters or
/// more gives its code and, behind one more character, its path.
pub open spec fn git_status_spec(lines: Seq<Seq<char>>) -> Seq<GitStatusView>
    decreases lines.len(),
{
    if lines.len() == 0 {
        Seq::empty()
    } else {
        let front = git_status_spec(lines.drop_last());
        let line = lines.last();
        if line.len() < 3 {
            front
        } else {
            front.push(GitStatusView { path: line.skip(3), status: status_of(line.take(2)) })
        }
    }
}

fn status_text(a: char, b: char) -> (r: String)
    ensures
        r@ == status_of(seq![a, b]),
{
    proof {
        let code = seq![a, b];
        assert(code[0] == a && code[1] == b);
        assert(seq!['M', ' '][0] == 'M' && seq!['M', ' '][1] == ' ');
        assert(seq![' ', 'M'][0] == ' ' && seq![' ', 'M'][1] == 'M');
        assert(seq!['A', ' '][0] == 'A' && seq!['A', ' '][1] == ' ');
        assert(seq!['D', ' '][0] == 'D' && seq!['D', ' '][1] == ' ');
        assert(seq![' ', 'D'][0] == ' ' && seq![' ', 'D'][1] == 'D');
        assert(seq!['?', '?'][0] == '?' && seq!['?', '?'][1] == '?');
        if a == 'M' && b == ' ' {
            assert(code =~= seq!['M', ' ']);
        }
        if a == ' ' && b == 'M' {
            assert(code =~= seq![' ', 'M']);
        }
        if a == 'A' && b == ' ' {
            assert(code =~= seq!['A', ' ']);
        }
        if a == 'D' && b == ' ' {
            assert(code =~= seq!['D', ' ']);
        }
        if a == ' ' && b == 'D' {
            assert(code =~= seq![' ', 'D']);
        }
        if a == '?' && b == '?' {
            assert(code =~= seq!['?', '?']);
        }
    }
    if a == 'M' && b == ' ' {
        string_of(&to_chars("staged"))
    } else if a == ' ' && b == 'M' {
        string_of(&to_chars("modified"))
    } else if a == 'A' && b == ' ' {
        string_of(&to_chars("added"))
    } else if (a == 'D' && b == ' ') || (a == ' ' && b == 'D') {
        string_of(&to_chars("deleted"))
    } else if a == '?' && b == '?' {
        string_of(&to_chars("untracked"))
    } else {
        string_of(&to_chars("modified"))
    }
}

/// Reads the short status of the version control.
pub fn get_git_status(output: &str) -> (r: Vec<GitStatusEntry>)
    ensures
        status_views(r@) == git_status_spec(split_lines(output@)),
{
    let v = to_chars(output);
    let lines = lines_of(&v);
    let ghost all = texts(lines@);
    let mut out: Vec<GitStatusEntry> = Vec::new();
    let mut i: usize = 0;
    proof {
        assert(all.take(0) =~= Seq::<Seq<char>>::empty());
        assert(status_views(out@) =~= Seq::<GitStatusView>::empty());
    }
    while i < lines.len()
        invariant
            i <= lines.len(),
            all == texts(lines@),
            status_views(out@) == git_status_spec(all.take(i as int)),
        decreases lines.len() - i,
    {
        let line = &lines[i];
        proof {
            let upto = all.take(i + 1);
            assert(upto.drop_last() =~= all.take(i as int));
            assert(upto.last() == lines@[i as int]@);
        }
        if line.len() >= 3 {
            let ghost before = out@;
            let path = string_of(&copy_range(line, 3, line.len()));
            let status = status_text(line[0], line[1]);
            let entry = GitStatusEntry { path, status };
            let ghost ev = entry@;
            out.push(entry);
            proof {
                assert(line@.subrange(3, line@.len() as int) == line@.skip(3));
                assert(line@.take(2) =~= seq![line@[0], line@[1]]);
                assert(status_views(out@) =~= status_views(before).push(ev));
            }
        }
        i += 1;
    }
    assert(all.take(lines.len() as int) =~= all);
    out
}

/// The name of the root of a tree: the last component of its path, or
/// `root` where it has none.
pub fn tree_name(file_name: Option<&str>) -> (r: String)
    ensures
        r@ == (match file_name {
            Some(n) => n@,
            None => "root"@,
        }),
{
    match file_name {
        Some(n) => string_of(&to_chars(n)),
        None => string_of(&to_chars("root")),
    }
}

} // verus!
