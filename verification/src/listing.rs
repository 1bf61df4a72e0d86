//! The session listing: what the agent's own transcripts and the cached
//! sessions show together.
//!
//! Both sources are turned into one kind of summary. The listing is their
//! union, newest first, with each id once.

use crate::json::{member, parsed_json, text_member, Json, JsonView};
use crate::session::Session;
use crate::text::{lines_of, split_lines, str_eq, string_of, string_texts, texts, to_chars};
use crate::truncate::{truncate_with_ellipsis, truncate_with_ellipsis_spec};
use crate::wire::{decode_spec, decode_wire_line, WireKind};
use vstd::prelude::*;

verus! {

/// What the listing shows of a session. The time of the last update is kept
/// as whole seconds since the epoch and the nanoseconds beyond them.
#[derive(Debug)]
pub struct SessionInfo {
    pub id: String,
    pub title: String,
    pub updated_secs: i64,
    pub updated_nanos: u32,
    pub work_dir: String,
}

/// The mathematical value of a [`SessionInfo`].
pub struct InfoView {
    pub id: Seq<char>,
    pub title: Seq<char>,
    pub updated_secs: i64,
    pub updated_nanos: u32,
    pub work_dir: Seq<char>,
}

impl View for SessionInfo {
    type V = InfoView;

    open spec fn view(&self) -> InfoView {
        InfoView {
            id: self.id@,
            title: self.title@,
            updated_secs: self.updated_secs,
            updated_nanos: self.updated_nanos,
            work_dir: self.work_dir@,
        }
    }
}

impl Clone for SessionInfo {
    fn clone(&self) -> (r: Self)
        ensures
            r@ == self@,
    {
        SessionInfo {
            id: self.id.clone(),
            title: self.title.clone(),
            updated_secs: self.updated_secs,
            updated_nanos: self.updated_nanos,
            work_dir: self.work_dir.clone(),
        }
    }
}

/// The values of a sequence of summaries.
pub open spec fn info_views(infos: Seq<SessionInfo>) -> Seq<InfoView> {
    infos.map_values(|i: SessionInfo| i@)
}

// ---------------------------------------------------------------------------
// Order
// ---------------------------------------------------------------------------

/// `a` was updated later than `b`.
pub open spec fn newer(a: InfoView, b: InfoView) -> bool {
    a.updated_secs > b.updated_secs || (a.updated_secs == b.updated_secs && a.updated_nanos
        > b.updated_nanos)
}

/// No summary stands behind one that is older than it.
pub open spec fn newest_first(s: Seq<InfoView>) -> bool {
    forall|i: int, j: int| 0 <= i < j < s.len() ==> !newer(#[trigger] s[j], #[trigger] s[i])
}

/// The least index at or after `from` of a summary that is older than `x`,
/// or the length.
pub open spec fn insert_point(s: Seq<InfoView>, x: InfoView, from: int) -> int
    decreases s.len() - from,
{
    if from < 0 || from >= s.len() {
        s.len() as int
    } else if newer(x, s[from]) {
        from
    } else {
        insert_point(s, x, from + 1)
    }
}

/// The summaries newest first; those updated at the same time stay in the
/// order in which they came.
pub open spec fn sort_newest_first(s: Seq<InfoView>) -> Seq<InfoView>
    decreases s.len(),
{
    if s.len() == 0 {
        Seq::empty()
    } else {
        let front = sort_newest_first(s.drop_last());
        front.insert(insert_point(front, s.last(), 0), s.last())
    }
}

/// Whether a summary with this id is among `s`.
pub open spec fn has_id(s: Seq<InfoView>, id: Seq<char>) -> bool {
    exists|k: int| 0 <= k < s.len() && (#[trigger] s[k]).id == id
}

/// The summaries without those whose id occurred before.
pub open spec fn first_of_each_id(s: Seq<InfoView>) -> Seq<InfoView>
    decreases s.len(),
{
    if s.len() == 0 {
        Seq::empty()
    } else {
        let front = first_of_each_id(s.drop_last());
        if has_id(front, s.last().id) {
            front
        } else {
            front.push(s.last())
        }
    }
}

/// Whether `x` is one of `s`.
pub open spec fn among(s: Seq<InfoView>, x: InfoView) -> bool {
    exists|k: int| 0 <= k < s.len() && #[trigger] s[k] == x
}

/// No two summaries share an id.
pub open spec fn ids_distinct(s: Seq<InfoView>) -> bool {
    forall|i: int, j: int| 0 <= i < j < s.len() ==> (#[trigger] s[i]).id != (#[trigger] s[j]).id
}

/// The listing of the summaries of both sources.
pub open spec fn listing_spec(cli: Seq<InfoView>, gui: Seq<InfoView>) -> Seq<InfoView> {
    first_of_each_id(sort_newest_first(cli + gui))
}

pub proof fn lemma_insert_point(s: Seq<InfoView>, x: InfoView, from: int)
    requires
        0 <= from <= s.len(),
    ensures
        from <= insert_point(s, x, from) <= s.len(),
        insert_point(s, x, from) < s.len() ==> newer(x, s[insert_point(s, x, from)]),
        forall|i: int| from <= i < insert_point(s, x, from) ==> !newer(x, #[trigger] s[i]),
    decreases s.len() - from,
{
    if from < s.len() && !newer(x, s[from]) {
        lemma_insert_point(s, x, from + 1);
    }
}

pub proof fn lemma_insert_point_unique(s: Seq<InfoView>, x: InfoView, from: int, at: int)
    requires
        0 <= from <= at <= s.len(),
        at < s.len() ==> newer(x, s[at]),
        forall|i: int| from <= i < at ==> !newer(x, #[trigger] s[i]),
    ensures
        insert_point(s, x, from) == at,
    decreases at - from,
{
    if from < at {
        lemma_insert_point_unique(s, x, from + 1, at);
    }
}

/// Sorting gives the same summaries, newest first.
pub proof fn lemma_sort_newest_first(s: Seq<InfoView>)
    ensures
        newest_first(sort_newest_first(s)),
        sort_newest_first(s).len() == s.len(),
        forall|x: InfoView|
            #![trigger among(sort_newest_first(s), x)]
            #![trigger among(s, x)]
            among(sort_newest_first(s), x) <==> among(s, x),
    decreases s.len(),
{
    if s.len() > 0 {
        let front_in = s.drop_last();
        lemma_sort_newest_first(front_in);
        let front = sort_newest_first(front_in);
        let x = s.last();
        lemma_insert_point(front, x, 0);
        let p = insert_point(front, x, 0);
        let out = front.insert(p, x);
        assert forall|i: int, j: int| 0 <= i < j < out.len() implies !newer(
            #[trigger] out[j],
            #[trigger] out[i],
        ) by {
            if j == p {
                assert(out[i] == front[i]);
            } else if i == p {
                assert(out[j] == front[j - 1]);
                if j - 1 > p {
                    assert(!newer(front[j - 1], front[p]));
                }
            } else {
                let i0 = if i < p { i } else { i - 1 };
                let j0 = if j < p { j } else { j - 1 };
                assert(out[i] == front[i0]);
                assert(out[j] == front[j0]);
            }
        }
        assert forall|y: InfoView| among(out, y) <==> among(s, y) by {
            if among(out, y) {
                let k = choose|k: int| 0 <= k < out.len() && out[k] == y;
                if k == p {
                    assert(s[s.len() - 1] == y);
                } else {
                    let k0 = if k < p { k } else { k - 1 };
                    assert(front[k0] == y);
                    assert(among(front, y));
                    let m = choose|m: int| 0 <= m < front_in.len() && front_in[m] == y;
                    assert(s[m] == y);
                }
            }
            if among(s, y) {
                let m = choose|m: int| 0 <= m < s.len() && s[m] == y;
                if m == s.len() - 1 {
                    assert(out[p] == y);
                } else {
                    assert(front_in[m] == y);
                    assert(among(front_in, y));
                    let k0 = choose|k0: int| 0 <= k0 < front.len() && front[k0] == y;
                    let k = if k0 < p { k0 } else { k0 + 1 };
                    assert(out[k] == y);
                }
            }
        }
    }
}

/// Keeping the first of each id leaves each id once, drops no id, adds
/// nothing, and keeps the order.
pub proof fn lemma_first_of_each_id(s: Seq<InfoView>)
    ensures
        ids_distinct(first_of_each_id(s)),
        forall|k: int| 0 <= k < s.len() ==> has_id(first_of_each_id(s), (#[trigger] s[k]).id),
        forall|x: InfoView| #[trigger] among(first_of_each_id(s), x) ==> among(s, x),
        newest_first(s) ==> newest_first(first_of_each_id(s)),
    decreases s.len(),
{
    if s.len() > 0 {
        let front_in = s.drop_last();
        lemma_first_of_each_id(front_in);
        let front = first_of_each_id(front_in);
        let x = s.last();
        let out = first_of_each_id(s);
        assert forall|y: InfoView| among(out, y) implies among(s, y) by {
            let k = choose|k: int| 0 <= k < out.len() && out[k] == y;
            if k < front.len() {
                assert(front[k] == y);
                assert(among(front, y));
                let m = choose|m: int| 0 <= m < front_in.len() && front_in[m] == y;
                assert(s[m] == y);
            } else {
                assert(s[s.len() - 1] == y);
            }
        }
        assert forall|k: int| 0 <= k < s.len() implies has_id(out, (#[trigger] s[k]).id) by {
            if k < s.len() - 1 {
                assert(front_in[k] == s[k]);
                assert(has_id(front, front_in[k].id));
                let m = choose|m: int| 0 <= m < front.len() && (#[trigger] front[m]).id == s[k].id;
                assert(out[m] == front[m]);
            } else if has_id(front, x.id) {
            } else {
                assert(out[out.len() - 1].id == x.id);
            }
        }
        if !has_id(front, x.id) {
            assert forall|i: int, j: int| 0 <= i < j < out.len() implies (#[trigger] out[i]).id != (
            #[trigger] out[j]).id by {
                assert(out[i] == front[i]);
                if j < front.len() {
                    assert(out[j] == front[j]);
                }
            }
            if newest_first(s) {
                assert forall|i: int, j: int| 0 <= i < j < s.len() - 1 implies !newer(
                    #[trigger] front_in[j],
                    #[trigger] front_in[i],
                ) by {
                    assert(front_in[i] == s[i]);
                    assert(front_in[j] == s[j]);
                }
                assert forall|i: int, j: int| 0 <= i < j < out.len() implies !newer(
                    #[trigger] out[j],
                    #[trigger] out[i],
                ) by {
                    assert(out[i] == front[i]);
                    if j < front.len() {
                        assert(out[j] == front[j]);
                    } else {
                        assert(among(front, front[i]));
                        let m = choose|m: int| 0 <= m < front_in.len() && front_in[m] == front[i];
                        assert(s[m] == front[i]);
                        assert(!newer(s[s.len() - 1], s[m]));
                    }
                }
            }
        } else if newest_first(s) {
            assert forall|i: int, j: int| 0 <= i < j < s.len() - 1 implies !newer(
                #[trigger] front_in[j],
                #[trigger] front_in[i],
            ) by {
                assert(front_in[i] == s[i]);
                assert(front_in[j] == s[j]);
            }
        }
    }
}

/// The listing is newest first, shows no id twice, shows every id that
/// either source has, and shows nothing that neither source has.
pub proof fn listing_is_sound(cli: Seq<InfoView>, gui: Seq<InfoView>)
    ensures
        newest_first(listing_spec(cli, gui)),
        ids_distinct(listing_spec(cli, gui)),
        forall|k: int| 0 <= k < cli.len() ==> has_id(listing_spec(cli, gui), (#[trigger] cli[k]).id),
        forall|k: int| 0 <= k < gui.len() ==> has_id(listing_spec(cli, gui), (#[trigger] gui[k]).id),
        forall|x: InfoView|
            #[trigger] among(listing_spec(cli, gui), x) ==> among(cli, x) || among(gui, x),
{
    let all = cli + gui;
    let sorted = sort_newest_first(all);
    lemma_sort_newest_first(all);
    lemma_first_of_each_id(sorted);
    let out = listing_spec(cli, gui);
    assert forall|y: InfoView| among(all, y) implies has_id(out, y.id) by {
        assert(among(sorted, y));
        let m = choose|m: int| 0 <= m < sorted.len() && sorted[m] == y;
        assert(has_id(out, sorted[m].id));
    }
    assert forall|k: int| 0 <= k < cli.len() implies has_id(out, (#[trigger] cli[k]).id) by {
        assert(all[k] == cli[k]);
        assert(among(all, cli[k]));
    }
    assert forall|k: int| 0 <= k < gui.len() implies has_id(out, (#[trigger] gui[k]).id) by {
        assert(all[cli.len() + k] == gui[k]);
        assert(among(all, gui[k]));
    }
    assert forall|x: InfoView| among(out, x) implies among(cli, x) || among(gui, x) by {
        assert(among(sorted, x));
        assert(among(all, x));
        let m = choose|m: int| 0 <= m < all.len() && all[m] == x;
        if m < cli.len() {
            assert(cli[m] == x);
        } else {
            assert(gui[m - cli.len()] == x);
        }
    }
}

/// Whether `a` was updated later than `b`.
pub fn is_newer(a: &SessionInfo, b: &SessionInfo) -> (r: bool)
    ensures
        r == newer(a@, b@),
{
    a.updated_secs > b.updated_secs || (a.updated_secs == b.updated_secs && a.updated_nanos
        > b.updated_nanos)
}

/// Sorts the summaries newest first; those updated at the same time stay in
/// the order in which they came.
pub fn sort_sessions(infos: Vec<SessionInfo>) -> (r: Vec<SessionInfo>)
    ensures
        info_views(r@) == sort_newest_first(info_views(infos@)),
        newest_first(info_views(r@)),
{
    let ghost all = info_views(infos@);
    let mut out: Vec<SessionInfo> = Vec::new();
    let mut k: usize = 0;
    proof {
        assert(all.take(0) =~= Seq::<InfoView>::empty());
        assert(info_views(out@) =~= Seq::<InfoView>::empty());
    }
    while k < infos.len()
        invariant
            k <= infos.len(),
            all == info_views(infos@),
            info_views(out@) == sort_newest_first(all.take(k as int)),
        decreases infos.len() - k,
    {
        let x = infos[k].clone();
        let ghost sorted = info_views(out@);
        proof {
            let upto = all.take(k + 1);
            assert(upto.drop_last() =~= all.take(k as int));
            assert(upto.last() == infos@[k as int]@);
        }
        let mut p: usize = 0;
        while p < out.len() && !is_newer(&x, &out[p])
            invariant
                p <= out.len(),
                sorted == info_views(out@),
                forall|i: int| 0 <= i < p ==> !newer(x@, #[trigger] sorted[i]),
            decreases out.len() - p,
        {
            assert(sorted[p as int] == out@[p as int]@);
            p += 1;
        }
        proof {
            if p < out.len() {
                assert(sorted[p as int] == out@[p as int]@);
            }
            lemma_insert_point_unique(sorted, x@, 0, p as int);
        }
        let ghost xv = x@;
        out.insert(p, x);
        assert(info_views(out@) =~= sorted.insert(p as int, xv));
        k += 1;
    }
    proof {
        assert(all.take(infos.len() as int) =~= all);
        lemma_sort_newest_first(all);
    }
    out
}

/// Drops every summary whose id occurred before.
pub fn dedup_sessions(infos: &Vec<SessionInfo>) -> (r: Vec<SessionInfo>)
    ensures
        info_views(r@) == first_of_each_id(info_views(infos@)),
        ids_distinct(info_views(r@)),
{
    let ghost all = info_views(infos@);
    let mut out: Vec<SessionInfo> = Vec::new();
    let mut k: usize = 0;
    proof {
        assert(all.take(0) =~= Seq::<InfoView>::empty());
        assert(info_views(out@) =~= Seq::<InfoView>::empty());
    }
    while k < infos.len()
        invariant
            k <= infos.len(),
            all == info_views(infos@),
            info_views(out@) == first_of_each_id(all.take(k as int)),
        decreases infos.len() - k,
    {
        let ghost front = info_views(out@);
        proof {
            let upto = all.take(k + 1);
            assert(upto.drop_last() =~= all.take(k as int));
            assert(upto.last() == infos@[k as int]@);
        }
        let mut seen = false;
        let mut m: usize = 0;
        while m < out.len() && !seen
            invariant
                m <= out.len(),
                front == info_views(out@),
                k < infos.len(),
                !seen ==> forall|i: int| 0 <= i < m ==> (#[trigger] front[i]).id != infos@[k as int].id@,
                seen ==> has_id(front, infos@[k as int].id@),
            decreases out.len() - m + (if seen { 0int } else { 1int }),
        {
            assert(front[m as int] == out@[m as int]@);
            if str_eq(out[m].id.as_str(), infos[k].id.as_str()) {
                seen = true;
            } else {
                m += 1;
            }
        }
        if !seen {
            let x = infos[k].clone();
            let ghost xv = x@;
            out.push(x);
            assert(info_views(out@) =~= front.push(xv));
        }
        k += 1;
    }
    proof {
        assert(all.take(infos.len() as int) =~= all);
        lemma_first_of_each_id(all);
    }
    out
}

/// The session listing: the summaries of both sources together, newest
/// first, with each id once. Of two summaries with one id the newer is
/// shown, and of two that are equally new the one that came first, with the
/// agent's transcripts before the cached sessions.
pub fn session_list(cli: Vec<SessionInfo>, gui: Vec<SessionInfo>) -> (r: Vec<SessionInfo>)
    ensures
        info_views(r@) == listing_spec(info_views(cli@), info_views(gui@)),
        newest_first(info_views(r@)),
        ids_distinct(info_views(r@)),
{
    let mut all = cli;
    let mut rest = gui;
    let ghost a = info_views(all@);
    let ghost b = info_views(rest@);
    all.append(&mut rest);
    assert(info_views(all@) =~= a + b);
    let sorted = sort_sessions(all);
    let out = dedup_sessions(&sorted);
    proof {
        listing_is_sound(a, b);
    }
    out
}

// ---------------------------------------------------------------------------
// The agent's transcripts
// ---------------------------------------------------------------------------

/// Number of lines of a transcript that are searched for a title.
pub const TITLE_SCAN_LINES: usize = 50;

/// Most characters of a title.
pub const TITLE_CHARS: usize = 50;

/// The input of the first turn that begins, with an input, among the lines
/// from `from` up to the scan limit.
pub open spec fn first_turn_input(lines: Seq<Seq<char>>, from: int) -> Option<Seq<char>>
    decreases lines.len() - from,
{
    if from < 0 || from >= lines.len() || from >= TITLE_SCAN_LINES {
        None
    } else {
        match decode_spec(lines[from], parsed_json(lines[from])) {
            Some(e) => if e.kind == WireKind::TurnBegin && e.text is Some {
                e.text
            } else {
                first_turn_input(lines, from + 1)
            },
            None => first_turn_input(lines, from + 1),
        }
    }
}

/// The title that a transcript gives: the input of its first turn, cut to
/// the title length.
pub open spec fn session_title_spec(content: Seq<char>) -> Option<Seq<char>> {
    match first_turn_input(split_lines(content), 0) {
        Some(input) => Some(truncate_with_ellipsis_spec(input, TITLE_CHARS as int)),
        None => None,
    }
}

/// The title of a session without a transcript title: `Session` and the
/// first eight characters of its id.
pub open spec fn fallback_title(id: Seq<char>) -> Seq<char> {
    "Session "@ + id.take(if id.len() < 8 {
        id.len() as int
    } else {
        8
    })
}

/// The title that a transcript gives, if it gives one.
pub fn extract_session_title(content: &str) -> (r: Option<String>)
    ensures
        match r {
            Some(t) => session_title_spec(content@) == Some(t@),
            None => session_title_spec(content@) is None,
        },
{
    let v = to_chars(content);
    let lines = lines_of(&v);
    let ghost all = texts(lines@);
    let mut i: usize = 0;
    while i < lines.len() && i < TITLE_SCAN_LINES
        invariant
            i <= lines.len(),
            all == texts(lines@),
            all == split_lines(content@),
            first_turn_input(all, 0) == first_turn_input(all, i as int),
        decreases lines.len() - i,
    {
        let line = string_of(&lines[i]);
        assert(all[i as int] == lines@[i as int]@);
        match decode_wire_line(line.as_str()) {
            Some(e) => {
                if e.kind == WireKind::TurnBegin {
                    match e.text {
                        Some(input) => {
                            return Some(truncate_with_ellipsis(input.as_str(), TITLE_CHARS));
                        },
                        None => {},
                    }
                }
            },
            None => {},
        }
        i += 1;
    }
    None
}

/// One directory below the transcripts of a working directory, as the
/// caller found it.
#[derive(Debug)]
pub struct TranscriptEntry {
    /// The name of the entry, which is the id of the session.
    pub name: String,
    /// Whether the entry is a directory.
    pub is_dir: bool,
    /// Whether the directory holds a context log.
    pub has_context: bool,
    /// When the context log was last modified (zero where that is unknown).
    pub modified_secs: i64,
    pub modified_nanos: u32,
    /// The content of the event log, where there is one that can be read.
    pub wire: Option<String>,
}

/// Whether an entry is a session: a directory with a context log.
pub open spec fn is_session(e: TranscriptEntry) -> bool {
    e.is_dir && e.has_context
}

/// The summary of an entry that is a session.
pub open spec fn entry_info(e: TranscriptEntry, work_dir: Seq<char>) -> InfoView {
    InfoView {
        id: e.name@,
        title: match e.wire {
            Some(w) => match session_title_spec(w@) {
                Some(t) => t,
                None => fallback_title(e.name@),
            },
            None => fallback_title(e.name@),
        },
        updated_secs: e.modified_secs,
        updated_nanos: e.modified_nanos,
        work_dir,
    }
}

/// The summaries of the entries that are sessions, in order.
pub open spec fn entry_infos(entries: Seq<TranscriptEntry>, work_dir: Seq<char>) -> Seq<InfoView>
    decreases entries.len(),
{
    if entries.len() == 0 {
        Seq::empty()
    } else {
        let front = entry_infos(entries.drop_last(), work_dir);
        if is_session(entries.last()) {
            front.push(entry_info(entries.last(), work_dir))
        } else {
            front
        }
    }
}

/// The sessions that the agent logged for a working directory, newest
/// first. Each gets the title that its event log gives, or one made of its
/// id.
pub fn load_sessions(entries: &Vec<TranscriptEntry>, work_dir: &str) -> (r: Vec<SessionInfo>)
    ensures
        info_views(r@) == sort_newest_first(entry_infos(entries@, work_dir@)),
        newest_first(info_views(r@)),
{
    let mut found: Vec<SessionInfo> = Vec::new();
    let mut i: usize = 0;
    proof {
        assert(entries@.take(0) =~= Seq::<TranscriptEntry>::empty());
        assert(info_views(found@) =~= Seq::<InfoView>::empty());
    }
    while i < entries.len()
        invariant
            i <= entries.len(),
            info_views(found@) == entry_infos(entries@.take(i as int), work_dir@),
        decreases entries.len() - i,
    {
        let e = &entries[i];
        proof {
            let upto = entries@.take(i + 1);
            assert(upto.drop_last() =~= entries@.take(i as int));
            assert(upto.last() == entries@[i as int]);
        }
        if e.is_dir && e.has_context {
            let from_log = match &e.wire {
                Some(w) => extract_session_title(w.as_str()),
                None => None,
            };
            let title = match from_log {
                Some(t) => t,
                None => {
                    let id = to_chars(e.name.as_str());
                    let n: usize = if id.len() < 8 {
                        id.len()
                    } else {
                        8
                    };
                    let mut t = to_chars("Session ");
                    crate::text::push_range(&mut t, &id, 0, n);
                    assert(id@.subrange(0, n as int) == e.name@.take(n as int));
                    string_of(&t)
                },
            };
            let info = SessionInfo {
                id: e.name.clone(),
                title,
                updated_secs: e.modified_secs,
                updated_nanos: e.modified_nanos,
                work_dir: string_of(&to_chars(work_dir)),
            };
            let ghost before = found@;
            let ghost iv = info@;
            found.push(info);
            assert(info_views(found@) =~= info_views(before).push(iv));
        }
        i += 1;
    }
    assert(entries@.take(entries.len() as int) =~= entries@);
    sort_sessions(found)
}

/// The execution environment that the agent's metadata records for a
/// working directory: that of the first entry of `work_dirs` whose `path`
/// is the directory, `local` where the entry names none; `None` where no
/// entry has this path.
pub open spec fn recorded_kaos(entries: Seq<JsonView>, work_dir: Seq<char>, from: int) -> Option<
    Seq<char>,
>
    decreases entries.len() - from,
{
    if from < 0 || from >= entries.len() {
        None
    } else {
        let path = match text_member(entries[from], "path"@) {
            Some(p) => p,
            None => Seq::empty(),
        };
        if path == work_dir {
            match text_member(entries[from], "kaos"@) {
                Some(k) => Some(k),
                None => Some("local"@),
            }
        } else {
            recorded_kaos(entries, work_dir, from + 1)
        }
    }
}

/// What [`work_dir_kaos`] returns.
pub open spec fn work_dir_kaos_spec(metadata: JsonView, work_dir: Seq<char>) -> Option<Seq<char>> {
    match member(metadata, "work_dirs"@) {
        Some(JsonView::Array(entries)) => recorded_kaos(entries, work_dir, 0),
        _ => None,
    }
}

/// The execution environment that the agent's metadata records for a
/// working directory; `None` where the metadata does not know the
/// directory.
pub fn work_dir_kaos(metadata: &Json, work_dir: &str) -> (r: Option<String>)
    ensures
        match r {
            Some(k) => work_dir_kaos_spec(metadata@, work_dir@) == Some(k@),
            None => work_dir_kaos_spec(metadata@, work_dir@) is None,
        },
{
    let list = match metadata.get("work_dirs") {
        Some(l) => l,
        None => {
            return None;
        },
    };
    let entries = match list.as_array() {
        Some(e) => e,
        None => {
            return None;
        },
    };
    let ghost ev = Json::items_view(entries@);
    let mut i: usize = 0;
    while i < entries.len()
        invariant
            i <= entries.len(),
            ev == Json::items_view(entries@),
            work_dir_kaos_spec(metadata@, work_dir@) == recorded_kaos(ev, work_dir@, i as int),
        decreases entries.len() - i,
    {
        let entry = &entries[i];
        assert(ev[i as int] == entries@[i as int]@);
        let matches = match entry.text_at("path") {
            Some(p) => str_eq(p, work_dir),
            None => work_dir.unicode_len() == 0,
        };
        proof {
            if work_dir@.len() == 0 {
                assert(work_dir@ =~= Seq::<char>::empty());
            }
        }
        if matches {
            return match entry.text_at("kaos") {
                Some(k) => Some(string_of(&to_chars(k))),
                None => Some(string_of(&to_chars("local"))),
            };
        }
        i += 1;
    }
    None
}

// ---------------------------------------------------------------------------
// The cached sessions
// ---------------------------------------------------------------------------

/// A working directory as it is compared: the path as it was recorded, and
/// the components of its canonical form (of the path itself where it has
/// none).
#[derive(Debug)]
pub struct WorkDirKey {
    pub raw: String,
    pub components: Vec<String>,
}

/// Two working directories are the same when their canonical forms are, or
/// when they were recorded with the same text.
pub open spec fn same_work_dir(a: WorkDirKey, b: WorkDirKey) -> bool {
    string_texts(a.components@) == string_texts(b.components@) || a.raw@ == b.raw@
}

/// Whether a cached session is listed: every session where no working
/// directory is asked for, else those of that directory.
pub fn gui_session_included(filter: Option<&WorkDirKey>, session: &WorkDirKey) -> (r: bool)
    ensures
        r == (match filter {
            Some(f) => same_work_dir(*session, *f),
            None => true,
        }),
{
    match filter {
        None => true,
        Some(f) => {
            let same_path = session.components.len() == f.components.len()
                && crate::sandbox::within(&session.components, &f.components);
            proof {
                let a = string_texts(session.components@);
                let b = string_texts(f.components@);
                if a.len() == b.len() {
                    assert(b.take(a.len() as int) =~= b);
                }
            }
            same_path || str_eq(session.raw.as_str(), f.raw.as_str())
        },
    }
}

/// What the listing shows of a cached session.
pub fn session_info(session: &Session) -> (r: SessionInfo)
    ensures
        r@ == (InfoView {
            id: session@.id,
            title: session@.title,
            updated_secs: session@.updated_at,
            updated_nanos: 0,
            work_dir: session@.work_dir,
        }),
{
    SessionInfo {
        id: session.id.clone(),
        title: session.title.clone(),
        updated_secs: session.updated_at,
        updated_nanos: 0,
        work_dir: session.work_dir.clone(),
    }
}

} // verus!
