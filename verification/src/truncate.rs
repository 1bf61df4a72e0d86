//! Deterministic truncation of tool output.
//!
//! Output is accumulated line by line. A line whose body is longer than the
//! line limit is cut and marked, its line terminator kept; accumulation stops
//! once the global character budget is used up, the last line being cut
//! exactly at the boundary.

use crate::text::{
    break_len, copy_range, first_line_len, from_chars, index_of_char, lemma_first_line_len,
    lemma_first_line_len_unique, lemma_index_of, lemma_skip_first_line, push_all, push_range,
    push_str, string_of, to_chars,
};
use vstd::prelude::*;

verus! {

/// Most lines a file read returns.
pub const MAX_LINES: usize = 1000;

/// Longest line body, in characters, that a file read returns uncut.
pub const MAX_LINE_LENGTH: usize = 2000;

/// Largest file, in bytes, that a file read accepts; also the byte budget of
/// the lines it returns.
pub const MAX_BYTES: usize = 100_000;

/// Most characters of combined tool output.
pub const MAX_OUTPUT_CHARS: usize = 50_000;

/// Longest line body, in characters, of tool output.
pub const MAX_OUTPUT_LINE_LENGTH: usize = 2000;

/// The marker that ends a cut line of tool output.
pub open spec fn output_marker() -> Seq<char> {
    "[...truncated]"@
}

/// The marker that ends a cut line of a file read.
pub open spec fn line_marker() -> Seq<char> {
    "..."@
}

/// The sentence that tells the reader that output was truncated.
pub open spec fn truncation_note() -> Seq<char> {
    "Output is truncated to fit in the message."@
}

/// A line body cut to `max_len` characters, marker included, followed by its
/// line terminator; the flag says whether it was cut. A body within the limit
/// is kept whole. Where the marker alone is longer than the limit, the marker
/// stands alone.
pub open spec fn shorten(
    body: Seq<char>,
    max_len: int,
    marker: Seq<char>,
    line_break: Seq<char>,
) -> (Seq<char>, bool) {
    if body.len() <= max_len {
        (body + line_break, false)
    } else {
        let limit = if max_len >= marker.len() {
            max_len
        } else {
            marker.len() as int
        };
        (body.take(limit - marker.len()) + marker + line_break, true)
    }
}

/// What [`truncate_line`] returns.
pub open spec fn truncate_line_spec(line: Seq<char>) -> (Seq<char>, bool) {
    shorten(line, MAX_LINE_LENGTH as int, line_marker(), Seq::empty())
}

/// What [`truncate_output_line`] returns.
pub open spec fn truncate_output_line_spec(
    line: Seq<char>,
    max_len: int,
    line_break: Seq<char>,
) -> (Seq<char>, bool) {
    shorten(line, max_len, output_marker(), line_break)
}

/// One line of output, terminator included, with its body cut to the output
/// line limit.
pub open spec fn shorten_piece(piece: Seq<char>) -> (Seq<char>, bool) {
    let b = break_len(piece);
    shorten(
        piece.take(piece.len() - b),
        MAX_OUTPUT_LINE_LENGTH as int,
        output_marker(),
        piece.skip(piece.len() - b),
    )
}

/// Output truncated to `budget` characters: the lines of `s` in order, each
/// shortened, until the budget is used up.
pub open spec fn truncate_within(s: Seq<char>, budget: int) -> (Seq<char>, bool)
    decreases s.len(),
{
    if s.len() == 0 {
        (Seq::empty(), false)
    } else if budget <= 0 {
        (Seq::empty(), true)
    } else {
        let n = first_line_len(s);
        let (piece, cut) = shorten_piece(s.take(n));
        if piece.len() > budget {
            (piece.take(budget), true)
        } else {
            proof {
                lemma_index_of(s, '\n', 0);
            }
            let (rest, rest_cut) = truncate_within(s.skip(n), budget - piece.len());
            (piece + rest, cut || rest_cut)
        }
    }
}

/// What [`truncate_output`] returns.
pub open spec fn truncate_output_spec(s: Seq<char>) -> (Seq<char>, bool) {
    truncate_within(s, MAX_OUTPUT_CHARS as int)
}

/// What [`append_truncation`] returns.
pub open spec fn append_truncation_spec(summary: Seq<char>, truncated: bool) -> Seq<char> {
    if !truncated {
        summary
    } else if summary.len() == 0 {
        truncation_note()
    } else if summary.last() == '.' {
        summary + seq![' '] + truncation_note()
    } else {
        summary + seq!['.', ' '] + truncation_note()
    }
}

/// What [`truncate_with_ellipsis`] returns.
pub open spec fn truncate_with_ellipsis_spec(input: Seq<char>, max_chars: int) -> Seq<char> {
    if input.len() <= max_chars {
        input
    } else if max_chars <= 3 {
        input.take(max_chars)
    } else {
        input.take(max_chars - 3) + seq!['.', '.', '.']
    }
}

// ---------------------------------------------------------------------------
// Facts
// ---------------------------------------------------------------------------

/// Truncated output never exceeds its budget.
pub proof fn lemma_truncate_within_len(s: Seq<char>, budget: int)
    requires
        0 <= budget,
    ensures
        truncate_within(s, budget).0.len() <= budget,
    decreases s.len(),
{
    if s.len() > 0 && budget > 0 {
        let n = first_line_len(s);
        let (piece, cut) = shorten_piece(s.take(n));
        if piece.len() <= budget {
            lemma_index_of(s, '\n', 0);
            lemma_truncate_within_len(s.skip(n), budget - piece.len());
        }
    }
}

/// Every line of `o` has a body of at most [`MAX_OUTPUT_LINE_LENGTH`]
/// characters.
pub open spec fn lines_within(o: Seq<char>) -> bool
    decreases o.len(),
{
    if o.len() == 0 {
        true
    } else {
        let n = first_line_len(o);
        let piece = o.take(n);
        proof {
            lemma_index_of(o, '\n', 0);
        }
        piece.len() - break_len(piece) <= MAX_OUTPUT_LINE_LENGTH && lines_within(o.skip(n))
    }
}

/// Number of characters behind the last `\n` of `o` (all of them where it
/// holds none).
pub open spec fn last_line_len(o: Seq<char>) -> int
    decreases o.len(),
{
    if o.len() == 0 || o.last() == '\n' {
        0
    } else {
        1 + last_line_len(o.drop_last())
    }
}

proof fn lemma_marker()
    ensures
        output_marker().len() == 14,
        forall|i: int| 0 <= i < 14 ==> #[trigger] output_marker()[i] != '\n',
        output_marker()[13] != '\r',
{
    reveal_strlit("[...truncated]");
}

proof fn lemma_last_line_len_plain(o: Seq<char>)
    requires
        forall|i: int| 0 <= i < o.len() ==> #[trigger] o[i] != '\n',
    ensures
        last_line_len(o) == o.len(),
    decreases o.len(),
{
    if o.len() > 0 {
        let t = o.drop_last();
        assert forall|i: int| 0 <= i < t.len() implies #[trigger] t[i] != '\n' by {
            assert(t[i] == o[i]);
        }
        lemma_last_line_len_plain(t);
    }
}

proof fn lemma_last_line_len_concat(a: Seq<char>, r: Seq<char>)
    requires
        a.len() > 0,
        a.last() == '\n',
    ensures
        last_line_len(a + r) == last_line_len(r),
    decreases r.len(),
{
    if r.len() == 0 {
        assert(a + r == a);
    } else {
        assert((a + r).last() == r.last());
        if r.last() != '\n' {
            assert((a + r).drop_last() == a + r.drop_last());
            lemma_last_line_len_concat(a, r.drop_last());
        }
    }
}

/// What a shortened line of output looks like: it is the piece's terminator
/// behind a body of at most the line limit, and holds no `\n` before its last
/// character.
proof fn lemma_shorten_piece_shape(piece: Seq<char>)
    requires
        piece.len() >= 1,
        forall|i: int| 0 <= i < piece.len() - 1 ==> #[trigger] piece[i] != '\n',
    ensures
        ({
            let out = shorten_piece(piece).0;
            &&& out.len() >= 1
            &&& out.len() - break_len(piece) <= MAX_OUTPUT_LINE_LENGTH
            &&& break_len(out) == break_len(piece)
            &&& forall|i: int| 0 <= i < out.len() - 1 ==> #[trigger] out[i] != '\n'
            &&& (out.last() == '\n') == (piece.last() == '\n')
        }),
{
    lemma_marker();
    let b = break_len(piece);
    let body = piece.take(piece.len() - b);
    let brk = piece.skip(piece.len() - b);
    let out = shorten_piece(piece).0;
    let m = output_marker();
    assert forall|i: int| 0 <= i < body.len() implies #[trigger] body[i] != '\n' by {
        assert(body[i] == piece[i]);
    }
    if body.len() <= MAX_OUTPUT_LINE_LENGTH {
        assert(out == body + brk);
        assert(out =~= piece);
    } else {
        let keep = body.take(MAX_OUTPUT_LINE_LENGTH - 14);
        assert(out == keep + m + brk);
        assert(out.len() == MAX_OUTPUT_LINE_LENGTH + b);
        assert forall|i: int| 0 <= i < out.len() - 1 implies #[trigger] out[i] != '\n' by {
            if i < keep.len() {
                assert(out[i] == body[i]);
            } else if i < keep.len() + 14 {
                assert(out[i] == m[i - keep.len()]);
            } else {
                assert(out[i] == brk[i - keep.len() - 14]);
                assert(brk[i - keep.len() - 14] == piece[piece.len() - b + (i - keep.len() - 14)]);
            }
        }
        if b == 0 {
            assert(out.last() == m[13]);
        } else {
            assert(out.last() == brk[b - 1]);
            assert(brk[b - 1] == piece.last());
            if b == 2 {
                assert(out[out.len() - 2] == brk[0]);
                assert(brk[0] == piece[piece.len() - 2]);
            } else {
                assert(out[out.len() - 2] == m[13]);
            }
        }
    }
}

/// Output whose lines are all within the line limit, and which fits the
/// budget, passes through truncation unchanged.
pub proof fn lemma_truncate_within_stable(o: Seq<char>, budget: int)
    requires
        lines_within(o),
        o.len() <= budget,
    ensures
        truncate_within(o, budget) == (o, false),
    decreases o.len(),
{
    if o.len() > 0 {
        lemma_first_line_len(o);
        let n = first_line_len(o);
        let piece = o.take(n);
        let b = break_len(piece);
        assert(piece.take(piece.len() - b) + piece.skip(piece.len() - b) =~= piece);
        assert(shorten_piece(piece) == (piece, false));
        lemma_truncate_within_stable(o.skip(n), budget - n);
        assert(piece + o.skip(n) =~= o);
    }
}

/// Truncated output has all its lines within the line limit, unless the
/// budget cut left an unterminated last line that is longer.
proof fn lemma_truncate_within_lines(s: Seq<char>, budget: int)
    requires
        0 <= budget,
        last_line_len(truncate_within(s, budget).0) <= MAX_OUTPUT_LINE_LENGTH,
    ensures
        lines_within(truncate_within(s, budget).0),
    decreases s.len(),
{
    if s.len() > 0 && budget > 0 {
        lemma_first_line_len(s);
        let n = first_line_len(s);
        let piece = s.take(n);
        assert forall|i: int| 0 <= i < piece.len() - 1 implies #[trigger] piece[i] != '\n' by {
            assert(piece[i] == s[i]);
        }
        lemma_shorten_piece_shape(piece);
        let out = shorten_piece(piece).0;
        let o = truncate_within(s, budget).0;
        if out.len() > budget {
            assert(o == out.take(budget));
            assert forall|i: int| 0 <= i < o.len() implies #[trigger] o[i] != '\n' by {
                assert(o[i] == out[i]);
            }
            lemma_last_line_len_plain(o);
            lemma_first_line_len_unique(o, o.len() as int);
            assert(o.take(o.len() as int) =~= o);
            assert(break_len(o) == 0);
            assert(o.skip(o.len() as int).len() == 0);
            assert(lines_within(o.skip(o.len() as int)));
            assert(lines_within(o));
        } else {
            let rest = truncate_within(s.skip(n), budget - out.len()).0;
            assert(o == out + rest);
            if piece.last() == '\n' {
                lemma_last_line_len_concat(out, rest);
                lemma_truncate_within_lines(s.skip(n), budget - out.len());
                assert forall|i: int| 0 <= i < out.len() - 1 implies #[trigger] o[i] != '\n' by {
                    assert(o[i] == out[i]);
                }
                assert(o[out.len() - 1] == out.last());
                lemma_first_line_len_unique(o, out.len() as int);
                assert(o.take(out.len() as int) =~= out);
                assert(o.skip(out.len() as int) =~= rest);
                assert(lines_within(rest));
                assert(lines_within(o));
            } else {
                assert(n == s.len());
                assert(s.skip(n).len() == 0);
                assert(rest.len() == 0);
                assert(o =~= out);
                assert forall|i: int| 0 <= i < o.len() - 1 implies #[trigger] o[i] != '\n' by {}
                lemma_first_line_len_unique(o, o.len() as int);
                assert(o.take(o.len() as int) =~= o);
                assert(o.skip(o.len() as int).len() == 0);
                assert(lines_within(o.skip(o.len() as int)));
                assert(lines_within(o));
            }
        }
    } else {
        assert(truncate_within(s, budget).0.len() == 0);
    }
}

/// Truncation is idempotent: output that was truncated once passes through
/// a second truncation unchanged, with nothing reported as cut. The one kind
/// of output left aside is that whose budget cut fell right behind the `\r`
/// of a full-length line, which leaves an unterminated last line one
/// character over the line limit.
pub proof fn truncate_output_idempotent(text: Seq<char>)
    requires
        last_line_len(truncate_output_spec(text).0) <= MAX_OUTPUT_LINE_LENGTH,
    ensures
        truncate_output_spec(truncate_output_spec(text).0) == (
            truncate_output_spec(text).0,
            false,
        ),
{
    lemma_truncate_within_lines(text, MAX_OUTPUT_CHARS as int);
    lemma_truncate_within_len(text, MAX_OUTPUT_CHARS as int);
    lemma_truncate_within_stable(truncate_output_spec(text).0, MAX_OUTPUT_CHARS as int);
}

/// Truncated output never holds more than [`MAX_OUTPUT_CHARS`] characters.
pub proof fn truncate_output_bounded(text: Seq<char>)
    ensures
        truncate_output_spec(text).0.len() <= MAX_OUTPUT_CHARS,
{
    lemma_truncate_within_len(text, MAX_OUTPUT_CHARS as int);
}

/// Shortening a line is idempotent wherever the marker fits in the limit:
/// a shortened body is within the limit and is kept whole.
pub proof fn shorten_idempotent(body: Seq<char>, max_len: int, marker: Seq<char>)
    requires
        marker.len() <= max_len,
    ensures
        shorten(shorten(body, max_len, marker, Seq::empty()).0, max_len, marker, Seq::empty()) == (
            shorten(body, max_len, marker, Seq::empty()).0,
            false,
        ),
{
    let once = shorten(body, max_len, marker, Seq::empty()).0;
    assert(once + Seq::<char>::empty() =~= once);
}

// ---------------------------------------------------------------------------
// Executable functions
// ---------------------------------------------------------------------------

/// Appends to `dst` the body `v[from..to]`, shortened to `max_len` with
/// `marker`, and then `v[to..end]` as its terminator.
fn push_shortened(
    dst: &mut Vec<char>,
    v: &Vec<char>,
    from: usize,
    to: usize,
    end: usize,
    max_len: usize,
    marker: &str,
) -> (cut: bool)
    requires
        from <= to <= end <= v.len(),
    ensures
        final(dst)@ == old(dst)@ + shorten(
            v@.subrange(from as int, to as int),
            max_len as int,
            marker@,
            v@.subrange(to as int, end as int),
        ).0,
        cut == shorten(
            v@.subrange(from as int, to as int),
            max_len as int,
            marker@,
            v@.subrange(to as int, end as int),
        ).1,
{
    let ghost body = v@.subrange(from as int, to as int);
    let ghost brk = v@.subrange(to as int, end as int);
    if to - from <= max_len {
        push_range(dst, v, from, end);
        assert(v@.subrange(from as int, end as int) == body + brk);
        false
    } else {
        let m = to_chars(marker);
        let limit: usize = if max_len >= m.len() {
            max_len
        } else {
            m.len()
        };
        let keep: usize = limit - m.len();
        push_range(dst, v, from, from + keep);
        push_all(dst, &m);
        push_range(dst, v, to, end);
        assert(v@.subrange(from as int, from + keep) == body.take(keep as int));
        assert(old(dst)@ + body.take(keep as int) + m@ + brk == old(dst)@ + (body.take(
            keep as int,
        ) + m@ + brk));
        true
    }
}

/// Cuts one line of a file read to [`MAX_LINE_LENGTH`] characters, the
/// marker `...` included; a line within the limit is returned whole. The flag
/// says whether the line was cut.
pub fn truncate_line(line: &str) -> (r: (String, bool))
    ensures
        (r.0@, r.1) == truncate_line_spec(line@),
{
    let v = to_chars(line);
    let mut out: Vec<char> = Vec::new();
    let cut = push_shortened(&mut out, &v, 0, v.len(), v.len(), MAX_LINE_LENGTH, "...");
    proof {
        assert(v@.subrange(0, v.len() as int) == line@);
        assert(v@.subrange(v.len() as int, v.len() as int) == Seq::<char>::empty());
        assert(Seq::<char>::empty() + truncate_line_spec(line@).0 == truncate_line_spec(line@).0);
    }
    (string_of(&out), cut)
}

/// Cuts one line body of tool output to `max_len` characters, the marker
/// `[...truncated]` included, and puts `line_break` behind it; a body within
/// the limit is returned whole with its terminator. The flag says whether the
/// body was cut.
pub fn truncate_output_line(line: &str, max_len: usize, line_break: &str) -> (r: (String, bool))
    ensures
        (r.0@, r.1) == truncate_output_line_spec(line@, max_len as int, line_break@),
{
    let mut v = to_chars(line);
    let n = v.len();
    push_str(&mut v, line_break);
    let mut out: Vec<char> = Vec::new();
    let cut = push_shortened(&mut out, &v, 0, n, v.len(), max_len, "[...truncated]");
    proof {
        assert(v@.subrange(0, n as int) == line@);
        assert(v@.subrange(n as int, v.len() as int) == line_break@);
        let spec_out = truncate_output_line_spec(line@, max_len as int, line_break@).0;
        assert(Seq::<char>::empty() + spec_out == spec_out);
    }
    (string_of(&out), cut)
}

/// Truncates combined tool output: every line body is cut to
/// [`MAX_OUTPUT_LINE_LENGTH`] characters, and the whole to
/// [`MAX_OUTPUT_CHARS`]. The flag says whether anything was cut or left out.
#[verifier::rlimit(40)]
pub fn truncate_output(text: &str) -> (r: (String, bool))
    ensures
        (r.0@, r.1) == truncate_output_spec(text@),
        r.0@.len() <= MAX_OUTPUT_CHARS,
{
    let v = to_chars(text);
    let mut out: Vec<char> = Vec::new();
    let mut truncated = false;
    let mut pos: usize = 0;
    let ghost goal = truncate_output_spec(text@);
    proof {
        assert(v@.skip(0) == v@);
        let w = truncate_within(v@, MAX_OUTPUT_CHARS as int);
        assert(Seq::<char>::empty() + w.0 == w.0);
    }
    while pos < v.len()
        invariant
            pos <= v.len(),
            v@ == text@,
            out@.len() <= MAX_OUTPUT_CHARS,
            goal == truncate_output_spec(text@),
            goal.0 == out@ + truncate_within(v@.skip(pos as int), MAX_OUTPUT_CHARS - out@.len()).0,
            goal.1 == (truncated || truncate_within(
                v@.skip(pos as int),
                MAX_OUTPUT_CHARS - out@.len(),
            ).1),
        ensures
            goal.0 == out@,
            goal.1 == truncated,
            out@.len() <= MAX_OUTPUT_CHARS,
        decreases v.len() - pos,
    {
        let ghost rest = v@.skip(pos as int);
        let ghost budget = MAX_OUTPUT_CHARS - out@.len();
        if out.len() >= MAX_OUTPUT_CHARS {
            truncated = true;
            assert(out@ + Seq::<char>::empty() == out@);
            break;
        }
        let remaining: usize = MAX_OUTPUT_CHARS - out.len();
        let nl = index_of_char(&v, '\n', pos);
        let end: usize = if nl < v.len() {
            nl + 1
        } else {
            v.len()
        };
        proof {
            lemma_skip_first_line(v@, pos as int, nl as int);
            lemma_index_of(v@, '\n', pos as int);
        }
        let ghost piece = rest.take(end - pos);
        assert(piece == v@.subrange(pos as int, end as int));
        let brk: usize = if end - pos >= 2 && v[end - 2] == '\r' && v[end - 1] == '\n' {
            2
        } else if end - pos >= 1 && v[end - 1] == '\n' {
            1
        } else {
            0
        };
        assert(brk == break_len(piece));
        let mut line: Vec<char> = Vec::new();
        let cut = push_shortened(
            &mut line,
            &v,
            pos,
            end - brk,
            end,
            MAX_OUTPUT_LINE_LENGTH,
            "[...truncated]",
        );
        proof {
            assert(piece.take(piece.len() - brk) == v@.subrange(pos as int, end - brk));
            assert(piece.skip(piece.len() - brk) == v@.subrange(end - brk, end as int));
            assert(Seq::<char>::empty() + shorten_piece(piece).0 == shorten_piece(piece).0);
            assert(line@ == shorten_piece(piece).0);
            assert(cut == shorten_piece(piece).1);
            assert(rest.skip(end - pos) == v@.skip(end as int));
        }
        if line.len() > remaining {
            push_range(&mut out, &line, 0, remaining);
            truncated = true;
            assert(line@.subrange(0, remaining as int) == line@.take(remaining as int));
            break;
        }
        let ghost before = out@;
        push_all(&mut out, &line);
        if cut {
            truncated = true;
        }
        pos = end;
        proof {
            let tail = truncate_within(v@.skip(end as int), budget - line@.len());
            assert(before + (line@ + tail.0) == before + line@ + tail.0);
        }
    }
    proof {
        if pos >= v.len() {
            assert(v@.skip(pos as int).len() == 0);
            assert(out@ + Seq::<char>::empty() == out@);
        }
    }
    (string_of(&out), truncated)
}

/// Adds to a summary the sentence that output was truncated, when it was.
/// The sentence joins a summary that already ends in a full stop with one
/// space, and any other summary with a full stop and a space.
pub fn append_truncation(summary: String, truncated: bool) -> (r: String)
    ensures
        r@ == append_truncation_spec(summary@, truncated),
{
    if !truncated {
        return summary;
    }
    let mut v = to_chars(summary.as_str());
    let n = v.len();
    if n == 0 {
    } else if v[n - 1] == '.' {
        v.push(' ');
    } else {
        v.push('.');
        v.push(' ');
        assert(v@ == summary@ + seq!['.', ' ']);
    }
    push_str(&mut v, "Output is truncated to fit in the message.");
    proof {
        assert(Seq::<char>::empty() + truncation_note() == truncation_note());
        assert(summary@.push(' ') == summary@ + seq![' ']);
    }
    string_of(&v)
}

/// Shortens `input` to at most `max_chars` characters. A text that is cut
/// ends in `...` where the limit leaves room for it (more than three
/// characters); otherwise it is the plain prefix.
pub fn truncate_with_ellipsis(input: &str, max_chars: usize) -> (r: String)
    ensures
        r@ == truncate_with_ellipsis_spec(input@, max_chars as int),
        r@.len() <= max_chars || r@ == input@,
{
    let v = to_chars(input);
    if v.len() <= max_chars {
        return string_of(&v);
    }
    if max_chars <= 3 {
        let r = from_chars(&v, 0, max_chars);
        assert(v@.subrange(0, max_chars as int) == input@.take(max_chars as int));
        return r;
    }
    let mut out = copy_range(&v, 0, max_chars - 3);
    out.push('.');
    out.push('.');
    out.push('.');
    proof {
        assert(v@.subrange(0, max_chars - 3) == input@.take(max_chars - 3));
        assert(out@ == input@.take(max_chars - 3) + seq!['.', '.', '.']);
    }
    string_of(&out)
}

} // verus!
