//! Skills: what the head of a skill file says, and which skills are listed.

use crate::text::{
    lines_of, lowercase, same_chars, split_lines, split_once, split_once_chars, str_eq, string_of,
    texts, to_chars, trim, trim_chars, trim_matches, trim_matches_chars,
};
use vstd::prelude::*;

verus! {

/// A skill as it is listed.
#[derive(Debug)]
pub struct SkillInfo {
    pub name: String,
    pub description: Option<String>,
    pub path: String,
    pub root: String,
}

/// The key and the value of a line of the form `key: value`, both trimmed,
/// the value also freed of the double and then the single quotes around it.
pub open spec fn field_of(line: Seq<char>) -> Option<(Seq<char>, Seq<char>)> {
    match split_once(trim(line), ':') {
        Some((key, value)) => Some(
            (trim(key), trim_matches(trim_matches(trim(value), '"'), '\'')),
        ),
        None => None,
    }
}

/// The name and the description that the lines from `from` on give, up to
/// the line that closes the head; `found` is what the lines before gave. A
/// later value replaces an earlier one; an empty value counts as none.
pub open spec fn head_fields(
    lines: Seq<Seq<char>>,
    from: int,
    found: (Option<Seq<char>>, Option<Seq<char>>),
) -> (Option<Seq<char>>, Option<Seq<char>>)
    decreases lines.len() - from,
{
    if from < 0 || from >= lines.len() || trim(lines[from]) == "---"@ {
        found
    } else {
        head_fields(
            lines,
            from + 1,
            match field_of(lines[from]) {
                Some((key, value)) => if value.len() > 0 && key == "name"@ {
                    (Some(value), found.1)
                } else if value.len() > 0 && key == "description"@ {
                    (found.0, Some(value))
                } else {
                    found
                },
                None => found,
            },
        )
    }
}

/// The name and the description of a skill file. The head of the file is
/// what stands between its first line, which must be `---`, and the next
/// such line.
pub open spec fn frontmatter_spec(contents: Seq<char>) -> (Option<Seq<char>>, Option<Seq<char>>) {
    let lines = split_lines(contents);
    if lines.len() > 0 && trim(lines[0]) == "---"@ {
        head_fields(lines, 1, (None, None))
    } else {
        (None, None)
    }
}

/// The text of an optional string.
pub open spec fn opt_text(o: Option<String>) -> Option<Seq<char>> {
    match o {
        Some(s) => Some(s@),
        None => None,
    }
}

/// The text of an optional character vector.
pub open spec fn opt_chars(o: Option<Vec<char>>) -> Option<Seq<char>> {
    match o {
        Some(s) => Some(s@),
        None => None,
    }
}

fn is_rule(line: &Vec<char>) -> (r: bool)
    ensures
        r == (trim(line@) == "---"@),
{
    let t = trim_chars(line);
    same_chars(&t, &to_chars("---"))
}

/// Reads the name and the description from the head of a skill file.
pub fn parse_skill_frontmatter(contents: &str) -> (r: (Option<String>, Option<String>))
    ensures
        (opt_text(r.0), opt_text(r.1)) == frontmatter_spec(contents@),
{
    let v = to_chars(contents);
    let lines = lines_of(&v);
    let ghost all = texts(lines@);
    if lines.len() == 0 {
        return (None, None);
    }
    assert(all[0] == lines@[0]@);
    if !is_rule(&lines[0]) {
        return (None, None);
    }
    let mut name: Option<Vec<char>> = None;
    let mut description: Option<Vec<char>> = None;
    let mut i: usize = 1;
    while i < lines.len()
        invariant
            1 <= i <= lines.len(),
            all == texts(lines@),
            frontmatter_spec(contents@) == head_fields(
                all,
                i as int,
                (opt_chars(name), opt_chars(description)),
            ),
        ensures
            frontmatter_spec(contents@) == (opt_chars(name), opt_chars(description)),
        decreases lines.len() - i,
    {
        assert(all[i as int] == lines@[i as int]@);
        if is_rule(&lines[i]) {
            break;
        }
        let trimmed = trim_chars(&lines[i]);
        match split_once_chars(&trimmed, ':') {
            Some((key, value)) => {
                let k = trim_chars(&key);
                let inner = trim_matches_chars(&trim_chars(&value), '"');
                let val = trim_matches_chars(&inner, '\'');
                if val.len() > 0 && same_chars(&k, &to_chars("name")) {
                    name = Some(val);
                } else if val.len() > 0 && same_chars(&k, &to_chars("description")) {
                    description = Some(val);
                }
            },
            None => {},
        }
        i += 1;
    }
    (
        match name {
            Some(n) => Some(string_of(&n)),
            None => None,
        },
        match description {
            Some(d) => Some(string_of(&d)),
            None => None,
        },
    )
}

/// The name under which a skill is listed: the name from its file, else the
/// name of its directory, else `skill`.
pub fn skill_name(from_file: Option<String>, directory: Option<&str>) -> (r: String)
    ensures
        r@ == (match from_file {
            Some(n) => n@,
            None => match directory {
                Some(d) => d@,
                None => "skill"@,
            },
        }),
{
    match from_file {
        Some(n) => n,
        None => match directory {
            Some(d) => string_of(&to_chars(d)),
            None => string_of(&to_chars("skill")),
        },
    }
}

/// Whether a skill with this name, whatever its case, is among `s`.
pub open spec fn has_name(s: Seq<SkillInfo>, name: Seq<char>) -> bool {
    exists|k: int| 0 <= k < s.len() && lowercase((#[trigger] s[k]).name@) == lowercase(name)
}

/// The skills without those whose name, whatever its case, occurred before.
pub open spec fn first_of_each_name(s: Seq<SkillInfo>) -> Seq<SkillInfo>
    decreases s.len(),
{
    if s.len() == 0 {
        Seq::empty()
    } else {
        let front = first_of_each_name(s.drop_last());
        if has_name(front, s.last().name@) {
            front
        } else {
            front.push(s.last())
        }
    }
}

/// The skills that are listed: of those that share a name, whatever its
/// case, the first.
pub fn skills_list(skills: Vec<SkillInfo>) -> (r: Vec<SkillInfo>)
    ensures
        r@ == first_of_each_name(skills@),
{
    let mut v = skills;
    let ghost all = v@;
    let mut out: Vec<SkillInfo> = Vec::new();
    let mut keys: Vec<String> = Vec::new();
    let total = v.len();
    let mut i: usize = 0;
    assert(all.take(0) =~= Seq::<SkillInfo>::empty());
    while v.len() > 0
        invariant
            all.len() == total,
            i + v@.len() == all.len(),
            v@ == all.skip(i as int),
            out@ == first_of_each_name(all.take(i as int)),
            keys@.len() == out@.len(),
            forall|k: int| 0 <= k < keys@.len() ==> (#[trigger] keys@[k])@ == lowercase(out@[k].name@),
        decreases v.len(),
    {
        let ghost front = out@;
        let ghost rest = v@;
        let x = v.remove(0);
        proof {
            assert(x == all[i as int]);
            let upto = all.take(i + 1);
            assert(upto.drop_last() =~= all.take(i as int));
            assert(upto.last() == x);
            assert(v@ =~= all.skip(i + 1));
        }
        let key = x.name.as_str().to_lowercase();
        let mut seen = false;
        let mut k: usize = 0;
        while k < keys.len() && !seen
            invariant
                k <= keys.len(),
                front == out@,
                keys@.len() == out@.len(),
                key@ == lowercase(x.name@),
                forall|j: int| 0 <= j < keys@.len() ==> (#[trigger] keys@[j])@ == lowercase(out@[j].name@),
                !seen ==> forall|j: int| 0 <= j < k ==> lowercase((#[trigger] front[j]).name@) != key@,
                seen ==> has_name(front, x.name@),
            decreases keys.len() - k + (if seen { 0int } else { 1int }),
        {
            if str_eq(keys[k].as_str(), key.as_str()) {
                assert(lowercase(front[k as int].name@) == lowercase(x.name@));
                seen = true;
            } else {
                assert(lowercase(front[k as int].name@) != key@);
                k += 1;
            }
        }
        if !seen {
            keys.push(key);
            out.push(x);
        }
        i += 1;
    }
    assert(all.take(all.len() as int) =~= all);
    out
}

} // verus!
