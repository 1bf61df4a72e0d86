//! The history of tasks: at most [`HISTORY_LIMIT`] entries, newest first,
//! each id once.

use crate::order::{
    among, consistent, in_order, sort_stable, sorted, sorted_is_in_order, Ranked,
};
use crate::text::{is_blank, is_blank_str, str_eq, string_of, to_chars, trim, trim_chars};
use vstd::prelude::*;

verus! {

/// Most entries that the history keeps.
pub const HISTORY_LIMIT: usize = 500;

/// One step of a task.
#[derive(Debug)]
pub struct CoworkHistoryStep {
    pub title: String,
    pub description: String,
    pub log: String,
    pub status: String,
}

/// One task of the history.
#[derive(Debug)]
pub struct CoworkHistoryEntry {
    pub id: String,
    pub prompt: String,
    pub status: String,
    pub folder: Option<String>,
    pub created_at: i64,
    pub updated_at: i64,
    pub steps: Vec<CoworkHistoryStep>,
}

impl Ranked for CoworkHistoryEntry {
    /// An entry stands in front of those that were updated before it.
    open spec fn ranks_before(&self, other: &Self) -> bool {
        self.updated_at > other.updated_at
    }

    fn before(&self, other: &Self) -> (r: bool) {
        self.updated_at > other.updated_at
    }
}

/// The least index at or after `from` of an entry with this id, or `-1`.
pub open spec fn entry_position(entries: Seq<CoworkHistoryEntry>, id: Seq<char>, from: int) -> int
    decreases entries.len() - from,
{
    if from < 0 || from >= entries.len() {
        -1
    } else if entries[from].id@ == id {
        from
    } else {
        entry_position(entries, id, from + 1)
    }
}

/// The entries with `entry` in the place of the first that has its id, or
/// at the end where there is none.
pub open spec fn with_entry(
    entries: Seq<CoworkHistoryEntry>,
    entry: CoworkHistoryEntry,
) -> Seq<CoworkHistoryEntry> {
    let at = entry_position(entries, entry.id@, 0);
    if at >= 0 {
        entries.update(at, entry)
    } else {
        entries.push(entry)
    }
}

/// The entries without those that follow an entry with their id.
pub open spec fn without_repeats(s: Seq<CoworkHistoryEntry>) -> Seq<CoworkHistoryEntry>
    decreases s.len(),
{
    if s.len() == 0 {
        Seq::empty()
    } else if s.len() >= 2 && s[s.len() - 2].id@ == s.last().id@ {
        without_repeats(s.drop_last())
    } else {
        without_repeats(s.drop_last()).push(s.last())
    }
}

/// The entries without those that have this id.
pub open spec fn without_id(s: Seq<CoworkHistoryEntry>, id: Seq<char>) -> Seq<CoworkHistoryEntry>
    decreases s.len(),
{
    if s.len() == 0 {
        Seq::empty()
    } else if s.last().id@ == id {
        without_id(s.drop_last(), id)
    } else {
        without_id(s.drop_last(), id).push(s.last())
    }
}

/// The first `n` entries, or all where there are fewer.
pub open spec fn at_most(s: Seq<CoworkHistoryEntry>, n: int) -> Seq<CoworkHistoryEntry> {
    if s.len() > n {
        s.take(n)
    } else {
        s
    }
}

/// The history after an entry was put into it.
pub open spec fn upsert_spec(
    entries: Seq<CoworkHistoryEntry>,
    entry: CoworkHistoryEntry,
) -> Seq<CoworkHistoryEntry> {
    at_most(without_repeats(sorted(with_entry(entries, entry))), HISTORY_LIMIT as int)
}

/// Dropping repeats keeps the order, and adds nothing.
pub proof fn lemma_without_repeats(s: Seq<CoworkHistoryEntry>)
    ensures
        forall|x: CoworkHistoryEntry| #[trigger] among(without_repeats(s), x) ==> among(s, x),
        in_order(s) ==> in_order(without_repeats(s)),
        without_repeats(s).len() <= s.len(),
    decreases s.len(),
{
    if s.len() > 0 {
        let front_in = s.drop_last();
        lemma_without_repeats(front_in);
        let front = without_repeats(front_in);
        let out = without_repeats(s);
        assert forall|x: CoworkHistoryEntry| #[trigger] among(out, x) implies among(s, x) by {
            let k = choose|k: int| 0 <= k < out.len() && out[k] == x;
            if k < front.len() {
                assert(front[k] == x);
                assert(among(front, x));
                let m = choose|m: int| 0 <= m < front_in.len() && front_in[m] == x;
                assert(s[m] == x);
            } else {
                assert(s[s.len() - 1] == x);
            }
        }
        if in_order(s) {
            assert forall|i: int, j: int|
                #![trigger front_in[i], front_in[j]]
                0 <= i < j < front_in.len() implies !front_in[j].ranks_before(&front_in[i]) by {
                assert(front_in[i] == s[i]);
                assert(front_in[j] == s[j]);
            }
            assert forall|i: int, j: int| #![trigger out[i], out[j]] 0 <= i < j < out.len() implies !out[j].ranks_before(
                &out[i],
            ) by {
                assert(out[i] == front[i]);
                if j < front.len() {
                    assert(out[j] == front[j]);
                } else {
                    assert(among(front, front[i]));
                    let m = choose|m: int| 0 <= m < front_in.len() && front_in[m] == front[i];
                    assert(s[m] == front[i]);
                    assert(out[j] == s[s.len() - 1]);
                }
            }
        }
    }
}

pub proof fn lemma_entry_position_unique(
    entries: Seq<CoworkHistoryEntry>,
    id: Seq<char>,
    from: int,
    at: int,
)
    requires
        0 <= from <= at <= entries.len(),
        at < entries.len() ==> entries[at].id@ == id,
        forall|i: int| from <= i < at ==> (#[trigger] entries[i]).id@ != id,
    ensures
        entry_position(entries, id, from) == (if at < entries.len() {
            at
        } else {
            -1
        }),
    decreases at - from,
{
    if from < at {
        lemma_entry_position_unique(entries, id, from + 1, at);
    }
}

fn find_entry(v: &Vec<CoworkHistoryEntry>, id: &str) -> (found: Option<usize>)
    ensures
        match found {
            Some(at) => entry_position(v@, id@, 0) == at && at < v@.len(),
            None => entry_position(v@, id@, 0) == -1,
        },
{
    let mut i: usize = 0;
    while i < v.len()
        invariant
            i <= v.len(),
            forall|k: int| 0 <= k < i ==> (#[trigger] v@[k]).id@ != id@,
        decreases v.len() - i,
    {
        if str_eq(v[i].id.as_str(), id) {
            proof {
                lemma_entry_position_unique(v@, id@, 0, i as int);
            }
            return Some(i);
        }
        i += 1;
    }
    proof {
        lemma_entry_position_unique(v@, id@, 0, v@.len() as int);
    }
    None
}

/// Sorts a history that was loaded: newest first.
pub fn sort_history(entries: Vec<CoworkHistoryEntry>) -> (r: Vec<CoworkHistoryEntry>)
    ensures
        r@ == sorted(entries@),
        in_order(r@),
{
    proof {
        assert(consistent(entries@));
        sorted_is_in_order(entries@);
    }
    sort_stable(entries)
}

fn drop_repeats(entries: Vec<CoworkHistoryEntry>) -> (r: Vec<CoworkHistoryEntry>)
    ensures
        r@ == without_repeats(entries@),
{
    let mut v = entries;
    let ghost all = v@;
    let mut out: Vec<CoworkHistoryEntry> = Vec::new();
    assert(without_repeats(v@) + out@ =~= without_repeats(all));
    while v.len() > 0
        invariant
            without_repeats(all) == without_repeats(v@) + out@,
        decreases v.len(),
    {
        let ghost before = v@;
        let ghost kept = out@;
        let n = v.len();
        let x = v.remove(n - 1);
        assert(v@ =~= before.drop_last());
        assert(x == before.last());
        let repeat = n >= 2 && str_eq(v[n - 2].id.as_str(), x.id.as_str());
        if !repeat {
            out.insert(0, x);
            assert(without_repeats(v@).push(x) + kept =~= without_repeats(v@) + out@);
        }
    }
    assert(without_repeats(v@) + out@ =~= out@);
    out
}

/// Puts an entry into the history: in the place of the entry with its id,
/// or as a new one. The history is then sorted newest first, freed of
/// repeated ids that follow each other, and cut to [`HISTORY_LIMIT`]
/// entries. An entry whose id is blank is refused.
pub fn cowork_history_upsert(entries: Vec<CoworkHistoryEntry>, entry: CoworkHistoryEntry) -> (r:
    Result<Vec<CoworkHistoryEntry>, String>)
    ensures
        match r {
            Ok(v) => !is_blank(entry.id@) && v@ == upsert_spec(entries@, entry)
                && v@.len() <= HISTORY_LIMIT && in_order(v@),
            Err(e) => is_blank(entry.id@) && e@ == "History entry id cannot be empty"@,
        },
{
    if is_blank_str(entry.id.as_str()) {
        return Err(string_of(&to_chars("History entry id cannot be empty")));
    }
    let mut v = entries;
    let found = find_entry(&v, entry.id.as_str());
    match found {
        Some(at) => {
            v.set(at, entry);
        },
        None => {
            v.push(entry);
        },
    }
    proof {
        assert(consistent(v@));
        sorted_is_in_order(v@);
        lemma_without_repeats(sorted(v@));
    }
    let sorted_entries = sort_stable(v);
    let mut kept = drop_repeats(sorted_entries);
    assert(in_order(kept@));
    if kept.len() > HISTORY_LIMIT {
        kept.truncate(HISTORY_LIMIT);
        assert(kept@ =~= without_repeats(sorted(with_entry(entries@, entry))).take(
            HISTORY_LIMIT as int,
        ));
    }
    Ok(kept)
}

/// Takes the entries with this id, trimmed, out of the history. A blank id
/// is refused.
pub fn cowork_history_delete(entries: Vec<CoworkHistoryEntry>, entry_id: &str) -> (r: Result<
    Vec<CoworkHistoryEntry>,
    String,
>)
    ensures
        match r {
            Ok(v) => !is_blank(entry_id@) && v@ == without_id(entries@, trim(entry_id@)),
            Err(e) => is_blank(entry_id@) && e@ == "History entry id cannot be empty"@,
        },
{
    if is_blank_str(entry_id) {
        return Err(string_of(&to_chars("History entry id cannot be empty")));
    }
    let id = string_of(&trim_chars(&to_chars(entry_id)));
    let mut v = entries;
    let ghost all = v@;
    let mut out: Vec<CoworkHistoryEntry> = Vec::new();
    assert(without_id(v@, id@) + out@ =~= without_id(all, id@));
    while v.len() > 0
        invariant
            without_id(all, id@) == without_id(v@, id@) + out@,
        decreases v.len(),
    {
        let ghost before = v@;
        let ghost kept = out@;
        let n = v.len();
        let x = v.remove(n - 1);
        assert(v@ =~= before.drop_last());
        assert(x == before.last());
        if !str_eq(x.id.as_str(), id.as_str()) {
            out.insert(0, x);
            assert(without_id(v@, id@).push(x) + kept =~= without_id(v@, id@) + out@);
        }
    }
    assert(without_id(v@, id@) + out@ =~= out@);
    Ok(out)
}

} // verus!
