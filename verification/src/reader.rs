//! Reading a window of lines from a text file.
//!
//! The caller opens the file and hands over its lines; what is shown of them,
//! and what the summary says, is decided here.

use crate::text::{byte_len, decimal, push_decimal, push_str, string_of, string_texts};
use crate::tools::{fail, fail_str, fail_with, failure, ToolOutput, ToolOutputView};
use crate::truncate::{truncate_line, truncate_line_spec, MAX_BYTES, MAX_LINES};
use vstd::prelude::*;
use vstd::string::StringSliceAdditionalSpecFns;

verus! {

/// What came of opening a file for reading, in the order in which the steps
/// are taken.
#[derive(Debug)]
pub enum ReadAttempt {
    /// The path did not resolve inside the working directory.
    ResolveFailed { error: String },
    /// The path names something that is not a file.
    NotAFile,
    /// The file's size could not be found out.
    MetadataFailed { error: String },
    /// The file has `bytes` bytes and could not be opened.
    OpenFailed { bytes: u64, error: String },
    /// The file has `bytes` bytes and these lines, without their terminators.
    Opened { bytes: u64, lines: Vec<String> },
}

/// The number of the first line to show: the offset, or 1 where it is 0.
pub open spec fn first_line_number(line_offset: int) -> int {
    if line_offset < 1 {
        1
    } else {
        line_offset
    }
}

/// How many lines may be shown: what was asked for, at least 1 and at most
/// [`MAX_LINES`].
pub open spec fn line_quota(n_lines: int) -> int {
    if n_lines < 1 {
        1
    } else if n_lines > MAX_LINES {
        MAX_LINES as int
    } else {
        n_lines
    }
}

/// A line as it is shown: cut to the line limit.
pub open spec fn shown(line: Seq<char>) -> Seq<char> {
    truncate_line_spec(line).0
}

/// Bytes of the `count` lines shown from index `first` on.
pub open spec fn bytes_shown(lines: Seq<Seq<char>>, first: int, count: int) -> int
    decreases count,
{
    if count <= 0 {
        0
    } else {
        bytes_shown(lines, first, count - 1) + byte_len(shown(lines[first + count - 1]))
    }
}

/// Number of lines shown from index `first` on, given that `count` of them
/// are shown already: lines are taken until the file ends, the quota is
/// full, or the lines shown hold [`MAX_BYTES`] bytes or more.
pub open spec fn lines_read(lines: Seq<Seq<char>>, first: int, quota: int, count: int) -> int
    decreases lines.len() - first - count,
{
    if first < 0 || count < 0 || first + count >= lines.len() {
        count
    } else if count + 1 >= quota || bytes_shown(lines, first, count + 1) >= MAX_BYTES {
        count + 1
    } else {
        lines_read(lines, first, quota, count + 1)
    }
}

/// `s` behind as many spaces as bring it to `width` characters.
pub open spec fn pad_left(s: Seq<char>, width: int) -> Seq<char> {
    Seq::new(
        (if width > s.len() {
            width - s.len()
        } else {
            0
        }) as nat,
        |i: int| ' ',
    ) + s
}

/// One line of the listing: the line number right-aligned in six columns, a
/// tab, the text, a line break.
pub open spec fn numbered(line_no: int, text: Seq<char>) -> Seq<char> {
    pad_left(decimal(line_no as nat), 6) + seq!['\t'] + text + seq!['\n']
}

/// The listing of the `count` lines from index `first` on.
pub open spec fn listing(lines: Seq<Seq<char>>, first: int, count: int) -> Seq<char>
    decreases count,
{
    if count <= 0 {
        Seq::empty()
    } else {
        listing(lines, first, count - 1) + numbered(
            first + count,
            shown(lines[first + count - 1]),
        )
    }
}

/// The numbers of the lines that were cut, among the `count` lines from
/// index `first` on.
pub open spec fn cut_lines(lines: Seq<Seq<char>>, first: int, count: int) -> Seq<int>
    decreases count,
{
    if count <= 0 {
        Seq::empty()
    } else if truncate_line_spec(lines[first + count - 1]).1 {
        cut_lines(lines, first, count - 1).push(first + count)
    } else {
        cut_lines(lines, first, count - 1)
    }
}

/// Numbers separated by a comma and a space.
pub open spec fn joined_numbers(ns: Seq<int>) -> Seq<char>
    decreases ns.len(),
{
    if ns.len() == 0 {
        Seq::empty()
    } else if ns.len() == 1 {
        decimal(ns[0] as nat)
    } else {
        joined_numbers(ns.drop_last()) + seq![',', ' '] + decimal(ns.last() as nat)
    }
}

/// The summary of a read.
pub open spec fn read_summary(count: int, start: int, bytes: int, cut: Seq<int>) -> Seq<char> {
    (if count == 0 {
        "No lines read from file."@
    } else {
        decimal(count as nat) + " lines read from file starting at line "@ + decimal(start as nat)
            + "."@
    }) + (if count >= MAX_LINES {
        " Max lines reached."@
    } else if bytes >= MAX_BYTES {
        " Max bytes reached."@
    } else {
        Seq::empty()
    }) + (if cut.len() > 0 {
        " Lines ["@ + joined_numbers(cut) + "] were truncated."@
    } else {
        Seq::empty()
    })
}

/// What a read of `lines` reports.
pub open spec fn read_lines_spec(
    lines: Seq<Seq<char>>,
    line_offset: int,
    n_lines: int,
) -> ToolOutputView {
    let start = first_line_number(line_offset);
    let first = start - 1;
    let count = lines_read(lines, first, line_quota(n_lines), 0);
    ToolOutputView {
        ok: true,
        summary: read_summary(
            count,
            start,
            bytes_shown(lines, first, count),
            cut_lines(lines, first, count),
        ),
        output: listing(lines, first, count),
    }
}

/// What [`read_file`] reports.
pub open spec fn read_file_spec(
    attempt: ReadAttempt,
    line_offset: int,
    n_lines: int,
) -> ToolOutputView {
    match attempt {
        ReadAttempt::ResolveFailed { error } => failure(error@),
        ReadAttempt::NotAFile => failure("Path is not a file"@),
        ReadAttempt::MetadataFailed { error } => failure(
            "Failed to read file metadata: "@ + error@,
        ),
        ReadAttempt::OpenFailed { bytes, error } => if bytes > MAX_BYTES {
            failure("File too large (max 100KB)"@)
        } else {
            failure("Failed to read file: "@ + error@)
        },
        ReadAttempt::Opened { bytes, lines } => if bytes > MAX_BYTES {
            failure("File too large (max 100KB)"@)
        } else {
            read_lines_spec(string_texts(lines@), line_offset, n_lines)
        },
    }
}

/// Whether a file of `bytes` bytes is small enough to be read.
pub fn size_allowed(bytes: u64) -> (r: bool)
    ensures
        r == (bytes <= MAX_BYTES),
{
    bytes <= MAX_BYTES as u64
}

fn push_numbered(out: &mut Vec<char>, line_no: usize, text: &str)
    ensures
        final(out)@ == old(out)@ + numbered(line_no as int, text@),
{
    let mut digits: Vec<char> = Vec::new();
    push_decimal(&mut digits, line_no as u128);
    assert(digits@ == decimal(line_no as nat)) by {
        assert(Seq::<char>::empty() + decimal(line_no as nat) == decimal(line_no as nat));
    }
    let mut pad: usize = 0;
    let want: usize = if digits.len() < 6 {
        6 - digits.len()
    } else {
        0
    };
    while pad < want
        invariant
            pad <= want,
            out@ == old(out)@ + Seq::new(pad as nat, |i: int| ' '),
        decreases want - pad,
    {
        out.push(' ');
        pad += 1;
        assert(out@ =~= old(out)@ + Seq::new(pad as nat, |i: int| ' '));
    }
    crate::text::push_all(out, &digits);
    out.push('\t');
    push_str(out, text);
    out.push('\n');
    assert(out@ =~= old(out)@ + numbered(line_no as int, text@));
}

fn push_number_list(out: &mut Vec<char>, ns: &Vec<usize>)
    ensures
        final(out)@ == old(out)@ + joined_numbers(ns@.map_values(|n: usize| n as int)),
{
    let ghost all = ns@.map_values(|n: usize| n as int);
    let mut i: usize = 0;
    assert(all.take(0) =~= Seq::<int>::empty());
    assert(old(out)@ + Seq::<char>::empty() =~= old(out)@);
    while i < ns.len()
        invariant
            i <= ns.len(),
            all == ns@.map_values(|n: usize| n as int),
            out@ == old(out)@ + joined_numbers(all.take(i as int)),
        decreases ns.len() - i,
    {
        let ghost before = out@;
        if i > 0 {
            out.push(',');
            out.push(' ');
        }
        push_decimal(out, ns[i] as u128);
        proof {
            let upto = all.take(i + 1);
            assert(upto.drop_last() =~= all.take(i as int));
            assert(upto.last() == ns@[i as int] as int);
            if i == 0 {
                assert(upto.len() == 1);
                assert(joined_numbers(all.take(0)) =~= Seq::<char>::empty());
                assert(out@ =~= old(out)@ + joined_numbers(upto));
            } else {
                assert(out@ =~= old(out)@ + joined_numbers(upto));
            }
        }
        i += 1;
    }
    assert(all.take(ns.len() as int) =~= all);
}

/// Shows up to `n_lines` lines (at least one, at most [`MAX_LINES`]) of
/// `lines`, starting at the 1-based line `line_offset`. Each line is cut to
/// the line limit and prefixed with its number. The summary tells how many
/// lines were read, from where, which limit stopped the read, and which
/// lines were cut.
pub fn read_lines(lines: &Vec<String>, line_offset: usize, n_lines: usize) -> (r: ToolOutput)
    ensures
        r@ == read_lines_spec(string_texts(lines@), line_offset as int, n_lines as int),
{
    let ghost texts = string_texts(lines@);
    let start: usize = if line_offset < 1 {
        1
    } else {
        line_offset
    };
    let quota: usize = if n_lines < 1 {
        1
    } else if n_lines > MAX_LINES {
        MAX_LINES
    } else {
        n_lines
    };
    let first: usize = start - 1;
    let mut out: Vec<char> = Vec::new();
    let mut cut: Vec<usize> = Vec::new();
    let mut bytes: u128 = 0;
    let mut count: usize = 0;
    let mut i: usize = first;
    let ghost total = lines_read(texts, first as int, quota as int, 0);
    while i < lines.len()
        invariant_except_break
            i == first + count,
            count < quota,
            bytes < MAX_BYTES,
            bytes == bytes_shown(texts, first as int, count as int),
            out@ == listing(texts, first as int, count as int),
            cut@.map_values(|n: usize| n as int) == cut_lines(texts, first as int, count as int),
            total == lines_read(texts, first as int, quota as int, count as int),
        invariant
            texts == string_texts(lines@),
            1 <= quota <= MAX_LINES,
        ensures
            count == total,
            bytes == bytes_shown(texts, first as int, count as int),
            out@ == listing(texts, first as int, count as int),
            cut@.map_values(|n: usize| n as int) == cut_lines(texts, first as int, count as int),
            count <= MAX_LINES,
        decreases lines.len() - i,
    {
        let ghost before_cut = cut@.map_values(|n: usize| n as int);
        assert(texts[i as int] == lines@[i as int]@);
        let (text, was_cut) = truncate_line(lines[i].as_str());
        bytes = bytes + text.as_str().len() as u128;
        push_numbered(&mut out, i + 1, text.as_str());
        if was_cut {
            cut.push(i + 1);
            assert(cut@.map_values(|n: usize| n as int) =~= before_cut.push((i + 1) as int));
        }
        count += 1;
        i += 1;
        if count >= quota || bytes >= MAX_BYTES as u128 {
            break;
        }
    }
    let mut s: Vec<char> = Vec::new();
    if count == 0 {
        push_str(&mut s, "No lines read from file.");
    } else {
        push_decimal(&mut s, count as u128);
        push_str(&mut s, " lines read from file starting at line ");
        push_decimal(&mut s, start as u128);
        push_str(&mut s, ".");
    }
    let ghost head = s@;
    if count >= MAX_LINES {
        push_str(&mut s, " Max lines reached.");
    } else if bytes >= MAX_BYTES as u128 {
        push_str(&mut s, " Max bytes reached.");
    }
    let ghost middle = s@;
    if cut.len() > 0 {
        let ghost b0 = s@;
        push_str(&mut s, " Lines [");
        push_number_list(&mut s, &cut);
        push_str(&mut s, "] were truncated.");
        assert(s@ =~= b0 + (" Lines ["@ + joined_numbers(cut@.map_values(|n: usize| n as int))
            + "] were truncated."@));
    }
    proof {
        assert(head =~= (if count == 0 {
            "No lines read from file."@
        } else {
            decimal(count as nat) + " lines read from file starting at line "@ + decimal(
                start as nat,
            ) + "."@
        }));
        assert(middle =~= head + (if count >= MAX_LINES {
            " Max lines reached."@
        } else if bytes >= MAX_BYTES {
            " Max bytes reached."@
        } else {
            Seq::<char>::empty()
        }));
        assert(s@ =~= read_summary(
            count as int,
            start as int,
            bytes as int,
            cut@.map_values(|n: usize| n as int),
        ));
    }
    ToolOutput { ok: true, summary: string_of(&s), output: string_of(&out) }
}

/// Reports on a file read. A file of more than [`MAX_BYTES`] bytes is
/// refused before any line is looked at.
pub fn read_file(attempt: &ReadAttempt, line_offset: usize, n_lines: usize) -> (r: ToolOutput)
    ensures
        r@ == read_file_spec(*attempt, line_offset as int, n_lines as int),
{
    match attempt {
        ReadAttempt::ResolveFailed { error } => fail(error.clone()),
        ReadAttempt::NotAFile => fail_str("Path is not a file"),
        ReadAttempt::MetadataFailed { error } => fail_with(
            "Failed to read file metadata: ",
            error.as_str(),
        ),
        ReadAttempt::OpenFailed { bytes, error } => {
            if !size_allowed(*bytes) {
                fail_str("File too large (max 100KB)")
            } else {
                fail_with("Failed to read file: ", error.as_str())
            }
        },
        ReadAttempt::Opened { bytes, lines } => {
            if !size_allowed(*bytes) {
                fail_str("File too large (max 100KB)")
            } else {
                read_lines(lines, line_offset, n_lines)
            }
        },
    }
}

} // verus!
