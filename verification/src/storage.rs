//! Where sessions live on disk: the names of files and directories.
//!
//! The agent keeps the transcripts of a working directory in a directory
//! named by a hash of the directory's path, written as sixteen hexadecimal
//! digits. Only names are built here; the caller joins them to its roots.

use crate::session::SessionManager;
use crate::text::{push_str, str_eq, string_of, string_texts, to_chars};
use std::collections::hash_map::DefaultHasher;
use std::hash::Hasher;
use vstd::prelude::*;
use vstd::std_specs::hash::DefaultHasherAdditionalSpecFns;

verus! {

/// What hashing a text writes into a hasher, as the `Hash` impl of `str`
/// does it.
pub uninterp spec fn hashed_writes(text: Seq<char>) -> Seq<Seq<u8>>;

/// `Hash::hash` of `str` feeds the text into the hasher. What it writes
/// depends on the text alone.
#[verifier::external_body]
fn hash_text_into(text: &str, hasher: &mut DefaultHasher)
    ensures
        final(hasher)@ == old(hasher)@ + hashed_writes(text@),
{
    std::hash::Hash::hash(text, hasher)
}

/// The hash of a text.
pub open spec fn text_hash(text: Seq<char>) -> u64 {
    DefaultHasher::spec_finish(Seq::<Seq<u8>>::empty() + hashed_writes(text))
}

/// A hexadecimal digit, in lower case.
pub open spec fn hex_digit(d: int) -> char {
    if d == 0 {
        '0'
    } else if d == 1 {
        '1'
    } else if d == 2 {
        '2'
    } else if d == 3 {
        '3'
    } else if d == 4 {
        '4'
    } else if d == 5 {
        '5'
    } else if d == 6 {
        '6'
    } else if d == 7 {
        '7'
    } else if d == 8 {
        '8'
    } else if d == 9 {
        '9'
    } else if d == 10 {
        'a'
    } else if d == 11 {
        'b'
    } else if d == 12 {
        'c'
    } else if d == 13 {
        'd'
    } else if d == 14 {
        'e'
    } else {
        'f'
    }
}

/// The last `width` hexadecimal digits of `n`, with leading zeros.
pub open spec fn hex(n: nat, width: nat) -> Seq<char>
    decreases width,
{
    if width == 0 {
        Seq::empty()
    } else {
        hex(n / 16, (width - 1) as nat).push(hex_digit((n % 16) as int))
    }
}

/// The name of the directory that holds the transcripts of a working
/// directory: the hash of its path, behind the name of the execution
/// environment where that is not `local`.
pub open spec fn session_dir_name(work_dir: Seq<char>, kaos: Seq<char>) -> Seq<char> {
    if kaos == "local"@ {
        hex(text_hash(work_dir) as nat, 16)
    } else {
        kaos + "_"@ + hex(text_hash(work_dir) as nat, 16)
    }
}

fn hex_char(d: u8) -> (c: char)
    requires
        d < 16,
    ensures
        c == hex_digit(d as int),
{
    if d == 0 {
        '0'
    } else if d == 1 {
        '1'
    } else if d == 2 {
        '2'
    } else if d == 3 {
        '3'
    } else if d == 4 {
        '4'
    } else if d == 5 {
        '5'
    } else if d == 6 {
        '6'
    } else if d == 7 {
        '7'
    } else if d == 8 {
        '8'
    } else if d == 9 {
        '9'
    } else if d == 10 {
        'a'
    } else if d == 11 {
        'b'
    } else if d == 12 {
        'c'
    } else if d == 13 {
        'd'
    } else if d == 14 {
        'e'
    } else {
        'f'
    }
}

/// Appends the last `width` hexadecimal digits of `n` to `dst`.
pub fn push_hex(dst: &mut Vec<char>, n: u64, width: usize)
    ensures
        final(dst)@ == old(dst)@ + hex(n as nat, width as nat),
    decreases width,
{
    if width == 0 {
        assert(old(dst)@ + Seq::<char>::empty() =~= old(dst)@);
    } else {
        push_hex(dst, n / 16, width - 1);
        dst.push(hex_char((n % 16) as u8));
        assert(dst@ =~= old(dst)@ + hex(n as nat, width as nat));
    }
}

/// The hash of a working directory's path.
pub fn work_dir_hash(work_dir: &str) -> (h: u64)
    ensures
        h == text_hash(work_dir@),
{
    let mut hasher = DefaultHasher::new();
    hash_text_into(work_dir, &mut hasher);
    hasher.finish()
}

/// The name of the directory that holds the transcripts of a working
/// directory.
pub fn get_session_dir(work_dir: &str, kaos: &str) -> (r: String)
    ensures
        r@ == session_dir_name(work_dir@, kaos@),
{
    let h = work_dir_hash(work_dir);
    let mut out: Vec<char> = Vec::new();
    if !str_eq(kaos, "local") {
        push_str(&mut out, kaos);
        push_str(&mut out, "_");
    }
    let ghost head = out@;
    push_hex(&mut out, h, 16);
    proof {
        if kaos@ == "local"@ {
            assert(head + hex(h as nat, 16) =~= hex(h as nat, 16));
        } else {
            assert(head =~= kaos@ + "_"@);
        }
    }
    string_of(&out)
}

impl SessionManager {
    /// Where the agent keeps the transcript of a session, below the root of
    /// its data: `sessions`, the directory of the working directory, the
    /// session's id.
    pub fn get_session_dir(work_dir: &str, session_id: &str) -> (r: Vec<String>)
        ensures
            string_texts(r@) == seq![
                "sessions"@,
                session_dir_name(work_dir@, "local"@),
                session_id@,
            ],
    {
        let mut parts: Vec<String> = Vec::new();
        parts.push(string_of(&to_chars("sessions")));
        parts.push(get_session_dir(work_dir, "local"));
        parts.push(string_of(&to_chars(session_id)));
        assert(string_texts(parts@) =~= seq![
            "sessions"@,
            session_dir_name(work_dir@, "local"@),
            session_id@,
        ]);
        parts
    }
}

} // verus!
