//! Character-level text primitives shared by the rest of the crate.
//!
//! Every function here is stated over the `Seq<char>` view of its arguments.
//! Searching and replacing work on characters; because a pattern and a
//! haystack are both well-formed text, this finds the same occurrences as a
//! byte-wise search would.

use vstd::prelude::*;
use vstd::std_specs::iter::IteratorSpec;

verus! {

// ---------------------------------------------------------------------------
// What the standard library decides
// ---------------------------------------------------------------------------

/// Whether `c` carries the Unicode `White_Space` property, as
/// `char::is_whitespace` reports it.
pub uninterp spec fn is_whitespace(c: char) -> bool;

/// The lowercase form of a text, as `str::to_lowercase` produces it.
pub uninterp spec fn lowercase(s: Seq<char>) -> Seq<char>;

/// `char::is_whitespace` is a function of the character alone; its answer is
/// what [`is_whitespace`] names.
pub assume_specification[ char::is_whitespace ](c: char) -> (b: bool)
    ensures
        b == is_whitespace(c),
;

/// `str::to_lowercase` is a function of the text alone; its answer is what
/// [`lowercase`] names.
pub assume_specification[ str::to_lowercase ](s: &str) -> (r: String)
    ensures
        r@ == lowercase(s@),
;

/// `String::push` appends exactly one character to the end of the string.
pub assume_specification[ String::push ](s: &mut String, c: char)
    ensures
        final(s)@ == old(s)@.push(c),
;

// ---------------------------------------------------------------------------
// Conversions
// ---------------------------------------------------------------------------

/// The characters of `s`, in order.
pub fn to_chars(s: &str) -> (v: Vec<char>)
    ensures
        v@ == s@,
{
    let mut v: Vec<char> = Vec::new();
    let it0 = s.chars();
    for c in it: it0
        invariant
            v@ == it.seq().take(it.index()),
            it.seq() == s@,
    {
        v.push(c);
    }
    v
}

/// The string made of the characters `v[from..to]`.
pub fn from_chars(v: &Vec<char>, from: usize, to: usize) -> (s: String)
    requires
        from <= to <= v.len(),
    ensures
        s@ == v@.subrange(from as int, to as int),
{
    let mut s = String::new();
    let mut i: usize = from;
    while i < to
        invariant
            from <= i <= to <= v.len(),
            s@ == v@.subrange(from as int, i as int),
        decreases to - i,
    {
        s.push(v[i]);
        i += 1;
    }
    s
}

/// The string made of all the characters of `v`.
pub fn string_of(v: &Vec<char>) -> (s: String)
    ensures
        s@ == v@,
{
    let s = from_chars(v, 0, v.len());
    assert(v@.subrange(0, v.len() as int) == v@);
    s
}

/// Appends `src[from..to]` to `dst`.
pub fn push_range(dst: &mut Vec<char>, src: &Vec<char>, from: usize, to: usize)
    requires
        from <= to <= src.len(),
    ensures
        final(dst)@ == old(dst)@ + src@.subrange(from as int, to as int),
{
    let mut i: usize = from;
    while i < to
        invariant
            from <= i <= to <= src.len(),
            dst@ == old(dst)@ + src@.subrange(from as int, i as int),
        decreases to - i,
    {
        dst.push(src[i]);
        i += 1;
        assert(dst@ == old(dst)@ + src@.subrange(from as int, i as int));
    }
}

/// Appends all of `src` to `dst`.
pub fn push_all(dst: &mut Vec<char>, src: &Vec<char>)
    ensures
        final(dst)@ == old(dst)@ + src@,
{
    assert(src@.subrange(0, src.len() as int) == src@);
    push_range(dst, src, 0, src.len());
}

/// Appends the characters of `s` to `dst`.
pub fn push_str(dst: &mut Vec<char>, s: &str)
    ensures
        final(dst)@ == old(dst)@ + s@,
{
    let v = to_chars(s);
    push_all(dst, &v);
}

/// A copy of `v[from..to]`.
pub fn copy_range(v: &Vec<char>, from: usize, to: usize) -> (r: Vec<char>)
    requires
        from <= to <= v.len(),
    ensures
        r@ == v@.subrange(from as int, to as int),
{
    let mut r: Vec<char> = Vec::new();
    push_range(&mut r, v, from, to);
    assert(Seq::<char>::empty() + v@.subrange(from as int, to as int) == v@.subrange(
        from as int,
        to as int,
    ));
    r
}

/// Whether two character vectors hold the same text.
pub fn same_chars(a: &Vec<char>, b: &Vec<char>) -> (r: bool)
    ensures
        r == (a@ == b@),
{
    if a.len() != b.len() {
        return false;
    }
    let mut i: usize = 0;
    while i < a.len()
        invariant
            a.len() == b.len(),
            i <= a.len(),
            forall|k: int| 0 <= k < i ==> a@[k] == b@[k],
        decreases a.len() - i,
    {
        if a[i] != b[i] {
            return false;
        }
        i += 1;
    }
    assert(a@ =~= b@);
    true
}

/// Whether a string and a literal hold the same text.
pub fn str_eq(a: &str, b: &str) -> (r: bool)
    ensures
        r == (a@ == b@),
{
    let x = to_chars(a);
    let y = to_chars(b);
    same_chars(&x, &y)
}

/// Number of bytes of a text in UTF-8, as `str::len` counts them.
pub open spec fn byte_len(s: Seq<char>) -> nat {
    vstd::utf8::encode_utf8(s).len() as usize as nat
}

// ---------------------------------------------------------------------------
// Whitespace
// ---------------------------------------------------------------------------

/// Every character of `s` is whitespace (true of the empty text).
pub open spec fn is_blank(s: Seq<char>) -> bool {
    forall|i: int| 0 <= i < s.len() ==> is_whitespace(#[trigger] s[i])
}

/// Number of leading whitespace characters of `s`.
pub open spec fn leading_space(s: Seq<char>) -> int
    decreases s.len(),
{
    if s.len() > 0 && is_whitespace(s[0]) {
        1 + leading_space(s.drop_first())
    } else {
        0
    }
}

/// Number of trailing whitespace characters of `s`.
pub open spec fn trailing_space(s: Seq<char>) -> int
    decreases s.len(),
{
    if s.len() > 0 && is_whitespace(s.last()) {
        1 + trailing_space(s.drop_last())
    } else {
        0
    }
}

/// `s` without its leading whitespace.
pub open spec fn trim_start(s: Seq<char>) -> Seq<char> {
    s.skip(leading_space(s))
}

/// `s` without its trailing whitespace.
pub open spec fn trim_end(s: Seq<char>) -> Seq<char> {
    s.take(s.len() - trailing_space(s))
}

/// `s` without its leading and trailing whitespace.
pub open spec fn trim(s: Seq<char>) -> Seq<char> {
    trim_end(trim_start(s))
}

pub proof fn lemma_leading_space(s: Seq<char>)
    ensures
        0 <= leading_space(s) <= s.len(),
        forall|i: int| 0 <= i < leading_space(s) ==> is_whitespace(#[trigger] s[i]),
        leading_space(s) < s.len() ==> !is_whitespace(s[leading_space(s)]),
    decreases s.len(),
{
    if s.len() > 0 && is_whitespace(s[0]) {
        let t = s.drop_first();
        lemma_leading_space(t);
        assert forall|i: int| 0 <= i < leading_space(s) implies is_whitespace(#[trigger] s[i]) by {
            if i > 0 {
                assert(s[i] == t[i - 1]);
            }
        }
        if leading_space(s) < s.len() {
            assert(s[leading_space(s)] == t[leading_space(t)]);
        }
    }
}

/// A count of leading whitespace is the leading-space count when it stops at
/// the first character that is not whitespace.
pub proof fn lemma_leading_space_unique(s: Seq<char>, n: int)
    requires
        0 <= n <= s.len(),
        forall|i: int| 0 <= i < n ==> is_whitespace(#[trigger] s[i]),
        n < s.len() ==> !is_whitespace(s[n]),
    ensures
        leading_space(s) == n,
    decreases s.len(),
{
    if s.len() > 0 && is_whitespace(s[0]) {
        let t = s.drop_first();
        assert(n > 0);
        assert forall|i: int| 0 <= i < n - 1 implies is_whitespace(#[trigger] t[i]) by {
            assert(t[i] == s[i + 1]);
        }
        lemma_leading_space_unique(t, n - 1);
    } else if s.len() > 0 {
        if n > 0 {
            assert(is_whitespace(s[0]));
        }
    }
}

pub proof fn lemma_trailing_space(s: Seq<char>)
    ensures
        0 <= trailing_space(s) <= s.len(),
        forall|i: int| s.len() - trailing_space(s) <= i < s.len() ==> is_whitespace(#[trigger] s[i]),
        trailing_space(s) < s.len() ==> !is_whitespace(s[s.len() - trailing_space(s) - 1]),
    decreases s.len(),
{
    if s.len() > 0 && is_whitespace(s.last()) {
        let t = s.drop_last();
        lemma_trailing_space(t);
        assert forall|i: int| s.len() - trailing_space(s) <= i < s.len() implies is_whitespace(
            #[trigger] s[i],
        ) by {
            if i < s.len() - 1 {
                assert(s[i] == t[i]);
            }
        }
        if trailing_space(s) < s.len() {
            assert(s[s.len() - trailing_space(s) - 1] == t[t.len() - trailing_space(t) - 1]);
        }
    }
}

pub proof fn lemma_trailing_space_unique(s: Seq<char>, n: int)
    requires
        0 <= n <= s.len(),
        forall|i: int| s.len() - n <= i < s.len() ==> is_whitespace(#[trigger] s[i]),
        n < s.len() ==> !is_whitespace(s[s.len() - n - 1]),
    ensures
        trailing_space(s) == n,
    decreases s.len(),
{
    if s.len() > 0 && is_whitespace(s.last()) {
        let t = s.drop_last();
        assert(n > 0);
        assert forall|i: int| t.len() - (n - 1) <= i < t.len() implies is_whitespace(
            #[trigger] t[i],
        ) by {
            assert(t[i] == s[i]);
        }
        if n - 1 < t.len() {
            assert(t[t.len() - (n - 1) - 1] == s[s.len() - n - 1]);
        }
        lemma_trailing_space_unique(t, n - 1);
    } else if s.len() > 0 {
        if n > 0 {
            assert(is_whitespace(s[s.len() - 1]));
        }
    }
}

/// A text trims to nothing exactly when it is blank.
pub proof fn lemma_trim_blank(s: Seq<char>)
    ensures
        trim(s).len() == 0 <==> is_blank(s),
{
    lemma_leading_space(s);
    let t = trim_start(s);
    lemma_trailing_space(t);
    if is_blank(s) {
        if leading_space(s) < s.len() {
            assert(is_whitespace(s[leading_space(s)]));
        }
        assert(t.len() == 0);
    } else {
        if leading_space(s) == s.len() {
            assert(is_blank(s));
        }
        assert(t.len() > 0);
        assert(t[0] == s[leading_space(s)]);
        if trailing_space(t) == t.len() {
            assert(is_whitespace(t[0]));
        }
    }
}

/// The bounds `(from, to)` of `trim(v[lo..hi])` inside `v`.
pub fn trim_bounds(v: &Vec<char>, lo: usize, hi: usize) -> (r: (usize, usize))
    requires
        lo <= hi <= v.len(),
    ensures
        lo <= r.0 <= r.1 <= hi,
        v@.subrange(r.0 as int, r.1 as int) == trim(v@.subrange(lo as int, hi as int)),
{
    let ghost s = v@.subrange(lo as int, hi as int);
    let mut a: usize = lo;
    while a < hi && v[a].is_whitespace()
        invariant
            lo <= a <= hi <= v.len(),
            s == v@.subrange(lo as int, hi as int),
            forall|i: int| 0 <= i < a - lo ==> is_whitespace(#[trigger] s[i]),
        decreases hi - a,
    {
        a += 1;
    }
    proof {
        lemma_leading_space_unique(s, a - lo);
    }
    let ghost t = trim_start(s);
    assert(t == v@.subrange(a as int, hi as int));
    let mut b: usize = hi;
    while b > a && v[b - 1].is_whitespace()
        invariant
            a <= b <= hi <= v.len(),
            t == v@.subrange(a as int, hi as int),
            forall|i: int| b - a <= i < t.len() ==> is_whitespace(#[trigger] t[i]),
        decreases b,
    {
        b -= 1;
    }
    proof {
        lemma_trailing_space_unique(t, hi - b);
        assert(t.take(t.len() - (hi - b)) == v@.subrange(a as int, b as int));
    }
    (a, b)
}

/// The trimmed copy of `v`.
pub fn trim_chars(v: &Vec<char>) -> (r: Vec<char>)
    ensures
        r@ == trim(v@),
{
    assert(v@.subrange(0, v.len() as int) == v@);
    let (a, b) = trim_bounds(v, 0, v.len());
    copy_range(v, a, b)
}

/// Whether `s` consists of whitespace only, which is to say that nothing
/// is left of it when it is trimmed.
pub fn is_blank_str(s: &str) -> (r: bool)
    ensures
        r == is_blank(s@),
        r == (trim(s@).len() == 0),
{
    let v = to_chars(s);
    let mut i: usize = 0;
    while i < v.len()
        invariant
            i <= v.len(),
            v@ == s@,
            forall|k: int| 0 <= k < i ==> is_whitespace(#[trigger] v@[k]),
        decreases v.len() - i,
    {
        if !v[i].is_whitespace() {
            proof {
                assert(!is_whitespace(s@[i as int]));
                lemma_trim_blank(s@);
            }
            return false;
        }
        i += 1;
    }
    proof {
        lemma_trim_blank(s@);
    }
    true
}

// ---------------------------------------------------------------------------
// Searching
// ---------------------------------------------------------------------------

/// `pat` occurs in `s` at index `i`.
pub open spec fn occurs_at(s: Seq<char>, pat: Seq<char>, i: int) -> bool {
    0 <= i && i + pat.len() <= s.len() && s.subrange(i, i + pat.len()) == pat
}

/// `s` begins with `pat`.
pub open spec fn starts_with(s: Seq<char>, pat: Seq<char>) -> bool {
    occurs_at(s, pat, 0)
}

/// `s` ends with `pat`.
pub open spec fn ends_with(s: Seq<char>, pat: Seq<char>) -> bool {
    occurs_at(s, pat, s.len() - pat.len())
}

/// The least index at or after `from` at which `pat` occurs in `s`, or `-1`.
pub open spec fn find_from(s: Seq<char>, pat: Seq<char>, from: int) -> int
    decreases s.len() - from + 1,
{
    if from < 0 || from + pat.len() > s.len() {
        -1
    } else if occurs_at(s, pat, from) {
        from
    } else {
        find_from(s, pat, from + 1)
    }
}

/// `pat` occurs somewhere in `s`.
pub open spec fn contains(s: Seq<char>, pat: Seq<char>) -> bool {
    find_from(s, pat, 0) >= 0
}

/// The least index at or after `from` that holds `c`, or `s.len()`.
pub open spec fn index_of(s: Seq<char>, c: char, from: int) -> int
    decreases s.len() - from,
{
    if from < 0 || from >= s.len() {
        s.len() as int
    } else if s[from] == c {
        from
    } else {
        index_of(s, c, from + 1)
    }
}

pub proof fn lemma_find_from(s: Seq<char>, pat: Seq<char>, from: int)
    requires
        0 <= from,
    ensures
        find_from(s, pat, from) == -1 || (from <= find_from(s, pat, from) && occurs_at(
            s,
            pat,
            find_from(s, pat, from),
        )),
        forall|i: int|
            from <= i && (i < find_from(s, pat, from) || find_from(s, pat, from) == -1)
                ==> !#[trigger] occurs_at(s, pat, i),
    decreases s.len() - from + 1,
{
    if from + pat.len() > s.len() {
    } else if occurs_at(s, pat, from) {
    } else {
        lemma_find_from(s, pat, from + 1);
    }
}

/// `find_from` is the index that occurs first.
pub proof fn lemma_find_from_unique(s: Seq<char>, pat: Seq<char>, from: int, at: int)
    requires
        0 <= from <= at,
        occurs_at(s, pat, at),
        forall|i: int| from <= i < at ==> !#[trigger] occurs_at(s, pat, i),
    ensures
        find_from(s, pat, from) == at,
    decreases at - from,
{
    if from < at {
        lemma_find_from_unique(s, pat, from + 1, at);
    }
}

pub proof fn lemma_index_of(s: Seq<char>, c: char, from: int)
    requires
        0 <= from <= s.len(),
    ensures
        from <= index_of(s, c, from) <= s.len(),
        index_of(s, c, from) < s.len() ==> s[index_of(s, c, from)] == c,
        forall|i: int| from <= i < index_of(s, c, from) ==> #[trigger] s[i] != c,
    decreases s.len() - from,
{
    if from < s.len() && s[from] != c {
        lemma_index_of(s, c, from + 1);
    }
}

pub proof fn lemma_index_of_unique(s: Seq<char>, c: char, from: int, at: int)
    requires
        0 <= from <= at <= s.len(),
        at < s.len() ==> s[at] == c,
        forall|i: int| from <= i < at ==> #[trigger] s[i] != c,
    ensures
        index_of(s, c, from) == at,
    decreases at - from,
{
    if from < at {
        lemma_index_of_unique(s, c, from + 1, at);
    }
}

/// Whether `pat` occurs in `s` at index `i`.
pub fn occurs_at_exec(s: &Vec<char>, pat: &Vec<char>, i: usize) -> (r: bool)
    ensures
        r == occurs_at(s@, pat@, i as int),
{
    if pat.len() > s.len() || i > s.len() - pat.len() {
        return false;
    }
    let mut k: usize = 0;
    while k < pat.len()
        invariant
            k <= pat.len(),
            i + pat.len() <= s.len(),
            forall|j: int| 0 <= j < k ==> s@[i + j] == pat@[j],
        decreases pat.len() - k,
    {
        if s[i + k] != pat[k] {
            assert(s@.subrange(i as int, i + pat.len())[k as int] == s@[i + k]);
            return false;
        }
        k += 1;
    }
    assert(s@.subrange(i as int, i + pat.len()) =~= pat@);
    true
}

/// The first index at or after `from` at which `pat` occurs in `s`.
pub fn find_chars(s: &Vec<char>, pat: &Vec<char>, from: usize) -> (r: Option<usize>)
    ensures
        match r {
            Some(i) => find_from(s@, pat@, from as int) == i,
            None => find_from(s@, pat@, from as int) == -1,
        },
{
    if pat.len() > s.len() || from > s.len() - pat.len() {
        return None;
    }
    let last: usize = s.len() - pat.len();
    let mut i: usize = from;
    while i < last
        invariant
            from <= i <= last,
            last == s.len() - pat.len(),
            forall|k: int| from <= k < i ==> !#[trigger] occurs_at(s@, pat@, k),
        decreases last - i,
    {
        if occurs_at_exec(s, pat, i) {
            proof {
                lemma_find_from_unique(s@, pat@, from as int, i as int);
            }
            return Some(i);
        }
        i += 1;
    }
    if occurs_at_exec(s, pat, last) {
        proof {
            lemma_find_from_unique(s@, pat@, from as int, last as int);
        }
        return Some(last);
    }
    proof {
        lemma_find_from(s@, pat@, from as int);
        let f = find_from(s@, pat@, from as int);
        if f != -1 {
            assert(occurs_at(s@, pat@, f));
        }
    }
    None
}

/// Whether `s` begins with the literal `pat`.
pub fn starts_with_str(s: &Vec<char>, pat: &str) -> (r: bool)
    ensures
        r == starts_with(s@, pat@),
{
    let p = to_chars(pat);
    occurs_at_exec(s, &p, 0)
}

/// Whether `s` ends with the literal `pat`.
pub fn ends_with_str(s: &Vec<char>, pat: &str) -> (r: bool)
    ensures
        r == ends_with(s@, pat@),
{
    let p = to_chars(pat);
    if p.len() > s.len() {
        return false;
    }
    occurs_at_exec(s, &p, s.len() - p.len())
}

/// Whether `s` contains the literal `pat`.
pub fn contains_str(s: &Vec<char>, pat: &str) -> (r: bool)
    ensures
        r == contains(s@, pat@),
{
    let p = to_chars(pat);
    find_chars(s, &p, 0).is_some()
}

/// The first index at or after `from` that holds `c`, or the length.
pub fn index_of_char(s: &Vec<char>, c: char, from: usize) -> (r: usize)
    requires
        from <= s.len(),
    ensures
        r == index_of(s@, c, from as int),
        from <= r <= s.len(),
{
    let mut i: usize = from;
    while i < s.len() && s[i] != c
        invariant
            from <= i <= s.len(),
            forall|k: int| from <= k < i ==> #[trigger] s@[k] != c,
        decreases s.len() - i,
    {
        i += 1;
    }
    proof {
        lemma_index_of_unique(s@, c, from as int, i as int);
    }
    i
}

// ---------------------------------------------------------------------------
// Concatenation helpers
// ---------------------------------------------------------------------------

/// The concatenation of two strings.
pub fn concat2(a: &str, b: &str) -> (r: String)
    ensures
        r@ == a@ + b@,
{
    let mut v = to_chars(a);
    push_str(&mut v, b);
    string_of(&v)
}

/// The concatenation of three strings.
pub fn concat3(a: &str, b: &str, c: &str) -> (r: String)
    ensures
        r@ == a@ + b@ + c@,
{
    let mut v = to_chars(a);
    push_str(&mut v, b);
    push_str(&mut v, c);
    string_of(&v)
}

// ---------------------------------------------------------------------------
// Decimal numbers
// ---------------------------------------------------------------------------

/// The character of a decimal digit.
pub open spec fn digit(d: int) -> char {
    if d == 0 {
        '0'
    } else if d == 1 {
        '1'
    } else if d == 2 {
        '2'
    } else if d == 3 {
        '3'
    } else if d == 4 {
        '4'
    } else if d == 5 {
        '5'
    } else if d == 6 {
        '6'
    } else if d == 7 {
        '7'
    } else if d == 8 {
        '8'
    } else {
        '9'
    }
}

/// The decimal text of a natural number, without leading zeros.
pub open spec fn decimal(n: nat) -> Seq<char>
    decreases n,
{
    if n < 10 {
        seq![digit(n as int)]
    } else {
        decimal(n / 10).push(digit((n % 10) as int))
    }
}

/// The decimal text of an integer, with a minus sign when negative.
pub open spec fn signed_decimal(n: int) -> Seq<char> {
    if n < 0 {
        seq!['-'] + decimal((-n) as nat)
    } else {
        decimal(n as nat)
    }
}

fn digit_char(d: u8) -> (c: char)
    requires
        d < 10,
    ensures
        c == digit(d as int),
{
    if d == 0 {
        '0'
    } else if d == 1 {
        '1'
    } else if d == 2 {
        '2'
    } else if d == 3 {
        '3'
    } else if d == 4 {
        '4'
    } else if d == 5 {
        '5'
    } else if d == 6 {
        '6'
    } else if d == 7 {
        '7'
    } else if d == 8 {
        '8'
    } else {
        '9'
    }
}

/// Appends the decimal text of `n` to `dst`.
pub fn push_decimal(dst: &mut Vec<char>, n: u128)
    ensures
        final(dst)@ == old(dst)@ + decimal(n as nat),
    decreases n,
{
    if n >= 10 {
        push_decimal(dst, n / 10);
    }
    let d: u8 = (n % 10) as u8;
    dst.push(digit_char(d));
    proof {
        if n >= 10 {
            assert(old(dst)@ + decimal(n as nat) == (old(dst)@ + decimal((n / 10) as nat)).push(
                digit((n % 10) as int),
            ));
        } else {
            assert(old(dst)@ + decimal(n as nat) == old(dst)@.push(digit(n as int)));
        }
    }
}

/// Appends the decimal text of `n`, with its sign, to `dst`.
pub fn push_signed_decimal(dst: &mut Vec<char>, n: i64)
    ensures
        final(dst)@ == old(dst)@ + signed_decimal(n as int),
{
    if n < 0 {
        dst.push('-');
        let m: u128 = if n == i64::MIN {
            9223372036854775808u128
        } else {
            (-n) as u128
        };
        push_decimal(dst, m);
        assert(old(dst)@.push('-') + decimal(m as nat) == old(dst)@ + (seq!['-'] + decimal(
            m as nat,
        )));
    } else {
        push_decimal(dst, n as u128);
    }
}

// ---------------------------------------------------------------------------
// Replacing
// ---------------------------------------------------------------------------

/// `s` with every occurrence of `old` replaced by `new`. Occurrences are
/// taken from the left and do not overlap. The empty pattern occurs before
/// every character and at the end.
pub open spec fn replace_all(s: Seq<char>, old: Seq<char>, new: Seq<char>) -> Seq<char>
    decreases s.len(),
{
    if old.len() == 0 {
        if s.len() == 0 {
            new
        } else {
            new + seq![s[0]] + replace_all(s.skip(1), old, new)
        }
    } else if s.len() < old.len() {
        s
    } else if occurs_at(s, old, 0) {
        new + replace_all(s.skip(old.len() as int), old, new)
    } else {
        seq![s[0]] + replace_all(s.skip(1), old, new)
    }
}

/// Number of occurrences of `old` in `s` that [`replace_all`] replaces.
pub open spec fn count_matches(s: Seq<char>, old: Seq<char>) -> nat
    decreases s.len(),
{
    if old.len() == 0 {
        s.len() + 1
    } else if s.len() < old.len() {
        0
    } else if occurs_at(s, old, 0) {
        1 + count_matches(s.skip(old.len() as int), old)
    } else {
        count_matches(s.skip(1), old)
    }
}

/// `s` with its first occurrence of `old` replaced by `new`; `s` itself
/// where `old` does not occur.
pub open spec fn replace_first(s: Seq<char>, old: Seq<char>, new: Seq<char>) -> Seq<char> {
    let at = find_from(s, old, 0);
    if at < 0 {
        s
    } else {
        s.take(at) + new + s.skip(at + old.len())
    }
}

/// A text that does not contain the pattern is left as it is, and nothing is
/// counted.
pub proof fn lemma_replace_all_absent(s: Seq<char>, old: Seq<char>, new: Seq<char>)
    requires
        !contains(s, old),
    ensures
        replace_all(s, old, new) == s,
        count_matches(s, old) == 0,
    decreases s.len(),
{
    lemma_find_from(s, old, 0);
    if old.len() == 0 {
        assert(s.subrange(0, 0) =~= old);
        assert(occurs_at(s, old, 0));
    } else if s.len() < old.len() {
    } else {
        assert(!occurs_at(s, old, 0));
        let t = s.skip(1);
        lemma_find_from(t, old, 0);
        if contains(t, old) {
            let i = find_from(t, old, 0);
            assert(t.subrange(i, i + old.len()) =~= s.subrange(i + 1, i + 1 + old.len()));
            assert(occurs_at(s, old, i + 1));
        }
        lemma_replace_all_absent(t, old, new);
        assert(seq![s[0]] + t =~= s);
    }
}

/// No text holds more occurrences than it has characters, plus one.
pub proof fn lemma_count_matches_bound(s: Seq<char>, old: Seq<char>)
    ensures
        count_matches(s, old) <= s.len() + 1,
    decreases s.len(),
{
    if old.len() == 0 {
    } else if s.len() < old.len() {
    } else if occurs_at(s, old, 0) {
        lemma_count_matches_bound(s.skip(old.len() as int), old);
    } else {
        lemma_count_matches_bound(s.skip(1), old);
    }
}

proof fn lemma_occurs_at_skip(s: Seq<char>, pat: Seq<char>, pos: int)
    requires
        0 <= pos <= s.len(),
    ensures
        occurs_at(s.skip(pos), pat, 0) == occurs_at(s, pat, pos),
{
    if pos + pat.len() <= s.len() {
        assert(s.skip(pos).subrange(0, pat.len() as int) =~= s.subrange(pos, pos + pat.len()));
    }
}

/// Replaces every occurrence of `old` in `s` by `new` and counts them.
pub fn replace_all_chars(s: &Vec<char>, old: &Vec<char>, new: &Vec<char>) -> (r: (Vec<char>, u128))
    ensures
        r.0@ == replace_all(s@, old@, new@),
        r.1 == count_matches(s@, old@),
{
    let mut out: Vec<char> = Vec::new();
    let mut count: u128 = 0;
    let mut pos: usize = 0;
    let ghost goal = replace_all(s@, old@, new@);
    let ghost total = count_matches(s@, old@);
    proof {
        assert(s@.skip(0) == s@);
        assert(Seq::<char>::empty() + goal == goal);
    }
    if old.len() == 0 {
        while pos < s.len()
            invariant
                pos <= s.len(),
                old@.len() == 0,
                goal == out@ + replace_all(s@.skip(pos as int), old@, new@),
            decreases s.len() - pos,
        {
            let ghost rest = s@.skip(pos as int);
            let ghost before = out@;
            push_all(&mut out, new);
            out.push(s[pos]);
            pos += 1;
            proof {
                assert(rest.skip(1) == s@.skip(pos as int));
                let tail = replace_all(s@.skip(pos as int), old@, new@);
                assert(before + (new@ + seq![rest[0]] + tail) == (before + new@).push(rest[0])
                    + tail);
            }
        }
        push_all(&mut out, new);
        let n: u128 = s.len() as u128 + 1;
        return (out, n);
    }
    while pos < s.len() && s.len() - pos >= old.len()
        invariant
            pos <= s.len(),
            old@.len() > 0,
            goal == out@ + replace_all(s@.skip(pos as int), old@, new@),
            total == count + count_matches(s@.skip(pos as int), old@),
            count <= pos,
        decreases s.len() - pos,
    {
        let ghost rest = s@.skip(pos as int);
        let ghost before = out@;
        proof {
            lemma_occurs_at_skip(s@, old@, pos as int);
        }
        if occurs_at_exec(s, old, pos) {
            push_all(&mut out, new);
            pos += old.len();
            count += 1;
            proof {
                assert(rest.skip(old@.len() as int) == s@.skip(pos as int));
                let tail = replace_all(s@.skip(pos as int), old@, new@);
                assert(before + (new@ + tail) == before + new@ + tail);
            }
        } else {
            out.push(s[pos]);
            pos += 1;
            proof {
                assert(rest.skip(1) == s@.skip(pos as int));
                let tail = replace_all(s@.skip(pos as int), old@, new@);
                assert(before + (seq![rest[0]] + tail) == before.push(rest[0]) + tail);
            }
        }
    }
    let ghost before = out@;
    push_range(&mut out, s, pos, s.len());
    proof {
        let rest = s@.skip(pos as int);
        assert(rest == s@.subrange(pos as int, s.len() as int));
        assert(rest.len() < old@.len());
    }
    (out, count)
}

/// Replaces the first occurrence of `old` in `s` by `new`; the flag says
/// whether there was one.
pub fn replace_first_chars(s: &Vec<char>, old: &Vec<char>, new: &Vec<char>) -> (r: (Vec<char>, bool))
    ensures
        r.0@ == replace_first(s@, old@, new@),
        r.1 == contains(s@, old@),
{
    match find_chars(s, old, 0) {
        None => {
            let c = copy_range(s, 0, s.len());
            assert(s@.subrange(0, s.len() as int) == s@);
            (c, false)
        },
        Some(at) => {
            proof {
                lemma_find_from(s@, old@, 0);
                assert(occurs_at(s@, old@, at as int));
            }
            let mut out = copy_range(s, 0, at);
            push_all(&mut out, new);
            push_range(&mut out, s, at + old.len(), s.len());
            proof {
                assert(s@.subrange(0, at as int) == s@.take(at as int));
                assert(s@.subrange(at + old.len(), s.len() as int) == s@.skip(at + old.len()));
            }
            (out, true)
        },
    }
}

// ---------------------------------------------------------------------------
// Lines
// ---------------------------------------------------------------------------

/// Length of the first line of `s`, its `\n` included.
pub open spec fn first_line_len(s: Seq<char>) -> int {
    let nl = index_of(s, '\n', 0);
    if nl < s.len() {
        nl + 1
    } else {
        s.len() as int
    }
}

/// Length of the line terminator that ends `piece`: 2 for `\r\n`, 1 for a
/// bare `\n`, 0 for none.
pub open spec fn break_len(piece: Seq<char>) -> int {
    let n = piece.len() as int;
    if n >= 2 && piece[n - 2] == '\r' && piece[n - 1] == '\n' {
        2
    } else if n >= 1 && piece[n - 1] == '\n' {
        1
    } else {
        0
    }
}

/// The lines of `s`, without their terminators. A line ends at `\n` or
/// `\r\n`; the last line needs no terminator, and a text that ends in one
/// has no empty line behind it.
pub open spec fn split_lines(s: Seq<char>) -> Seq<Seq<char>>
    decreases s.len(),
{
    if s.len() == 0 {
        Seq::empty()
    } else {
        let n = first_line_len(s);
        let piece = s.take(n);
        proof {
            lemma_index_of(s, '\n', 0);
        }
        seq![piece.take(n - break_len(piece))] + split_lines(s.skip(n))
    }
}

pub proof fn lemma_first_line_len(s: Seq<char>)
    requires
        s.len() > 0,
    ensures
        1 <= first_line_len(s) <= s.len(),
        forall|i: int| 0 <= i < first_line_len(s) - 1 ==> #[trigger] s[i] != '\n',
        first_line_len(s) < s.len() ==> s[first_line_len(s) - 1] == '\n',
{
    lemma_index_of(s, '\n', 0);
}

/// A length is the first line's length when no `\n` stands before its last
/// character and it either ends in `\n` or reaches the end of the text.
pub proof fn lemma_first_line_len_unique(s: Seq<char>, n: int)
    requires
        1 <= n <= s.len(),
        forall|i: int| 0 <= i < n - 1 ==> #[trigger] s[i] != '\n',
        s[n - 1] == '\n' || n == s.len(),
    ensures
        first_line_len(s) == n,
{
    if s[n - 1] == '\n' {
        lemma_index_of_unique(s, '\n', 0, n - 1);
    } else {
        lemma_index_of_unique(s, '\n', 0, n);
    }
}

pub proof fn lemma_skip_first_line(s: Seq<char>, pos: int, nl: int)
    requires
        0 <= pos < s.len(),
        nl == index_of(s, '\n', pos),
    ensures
        first_line_len(s.skip(pos)) == (if nl < s.len() {
            nl + 1 - pos
        } else {
            s.len() - pos
        }),
{
    lemma_index_of(s, '\n', pos);
    let t = s.skip(pos);
    let n = if nl < s.len() {
        nl + 1 - pos
    } else {
        s.len() - pos
    };
    assert forall|i: int| 0 <= i < n - 1 implies #[trigger] t[i] != '\n' by {
        assert(t[i] == s[pos + i]);
    }
    lemma_first_line_len_unique(t, n);
}

/// The texts of a sequence of character vectors.
pub open spec fn texts(v: Seq<Vec<char>>) -> Seq<Seq<char>> {
    v.map_values(|l: Vec<char>| l@)
}

/// The texts of a sequence of strings.
pub open spec fn string_texts(v: Seq<String>) -> Seq<Seq<char>> {
    v.map_values(|l: String| l@)
}

/// The bounds of the line of `v` that starts at `pos`: where its body ends
/// and where the next line starts.
pub fn line_bounds(v: &Vec<char>, pos: usize) -> (r: (usize, usize))
    requires
        pos < v.len(),
    ensures
        pos <= r.0 <= r.1 <= v.len(),
        pos < r.1,
        r.1 - pos == first_line_len(v@.skip(pos as int)),
        r.1 - r.0 == break_len(v@.subrange(pos as int, r.1 as int)),
{
    let nl = index_of_char(v, '\n', pos);
    let end: usize = if nl < v.len() {
        nl + 1
    } else {
        v.len()
    };
    proof {
        lemma_skip_first_line(v@, pos as int, nl as int);
        lemma_index_of(v@, '\n', pos as int);
    }
    let brk: usize = if end - pos >= 2 && v[end - 2] == '\r' && v[end - 1] == '\n' {
        2
    } else if end - pos >= 1 && v[end - 1] == '\n' {
        1
    } else {
        0
    };
    (end - brk, end)
}

/// The lines of `v`, without their terminators.
pub fn lines_of(v: &Vec<char>) -> (r: Vec<Vec<char>>)
    ensures
        texts(r@) == split_lines(v@),
{
    let mut out: Vec<Vec<char>> = Vec::new();
    let mut pos: usize = 0;
    proof {
        assert(v@.skip(0) == v@);
        assert(texts(out@) =~= Seq::<Seq<char>>::empty());
        assert(Seq::<Seq<char>>::empty() + split_lines(v@) == split_lines(v@));
    }
    while pos < v.len()
        invariant
            pos <= v.len(),
            split_lines(v@) == texts(out@) + split_lines(v@.skip(pos as int)),
        decreases v.len() - pos,
    {
        let ghost rest = v@.skip(pos as int);
        let ghost before = out@;
        let (body_end, end) = line_bounds(v, pos);
        let line = copy_range(v, pos, body_end);
        out.push(line);
        proof {
            let piece = rest.take(end - pos);
            assert(piece == v@.subrange(pos as int, end as int));
            assert(piece.take(piece.len() - break_len(piece)) == v@.subrange(
                pos as int,
                body_end as int,
            ));
            assert(rest.skip(end - pos) == v@.skip(end as int));
            assert(texts(out@) =~= texts(before).push(line@));
            let tail = split_lines(v@.skip(end as int));
            assert(texts(before) + (seq![line@] + tail) == texts(before).push(line@) + tail);
        }
        pos = end;
    }
    proof {
        assert(split_lines(v@.skip(pos as int)) == Seq::<Seq<char>>::empty());
        assert(texts(out@) + Seq::<Seq<char>>::empty() == texts(out@));
    }
    out
}

// ---------------------------------------------------------------------------
// Trimming by pattern, and splitting
// ---------------------------------------------------------------------------

/// `s` without the repetitions of `pat` that end it.
pub open spec fn trim_end_matches(s: Seq<char>, pat: Seq<char>) -> Seq<char>
    decreases s.len(),
{
    if pat.len() > 0 && ends_with(s, pat) {
        trim_end_matches(s.take(s.len() - pat.len()), pat)
    } else {
        s
    }
}

/// Number of leading characters of `s` that are `c`.
pub open spec fn leading_run(s: Seq<char>, c: char) -> int
    decreases s.len(),
{
    if s.len() > 0 && s[0] == c {
        1 + leading_run(s.drop_first(), c)
    } else {
        0
    }
}

/// Number of trailing characters of `s` that are `c`.
pub open spec fn trailing_run(s: Seq<char>, c: char) -> int
    decreases s.len(),
{
    if s.len() > 0 && s.last() == c {
        1 + trailing_run(s.drop_last(), c)
    } else {
        0
    }
}

/// `s` without the characters `c` that begin and end it.
pub open spec fn trim_matches(s: Seq<char>, c: char) -> Seq<char> {
    let t = s.skip(leading_run(s, c));
    t.take(t.len() - trailing_run(t, c))
}

pub proof fn lemma_leading_run_unique(s: Seq<char>, c: char, n: int)
    requires
        0 <= n <= s.len(),
        forall|i: int| 0 <= i < n ==> #[trigger] s[i] == c,
        n < s.len() ==> s[n] != c,
    ensures
        leading_run(s, c) == n,
    decreases s.len(),
{
    if s.len() > 0 && s[0] == c {
        let t = s.drop_first();
        assert(n > 0);
        assert forall|i: int| 0 <= i < n - 1 implies #[trigger] t[i] == c by {
            assert(t[i] == s[i + 1]);
        }
        lemma_leading_run_unique(t, c, n - 1);
    } else if s.len() > 0 {
        if n > 0 {
            assert(s[0] == c);
        }
    }
}

pub proof fn lemma_trailing_run_unique(s: Seq<char>, c: char, n: int)
    requires
        0 <= n <= s.len(),
        forall|i: int| s.len() - n <= i < s.len() ==> #[trigger] s[i] == c,
        n < s.len() ==> s[s.len() - n - 1] != c,
    ensures
        trailing_run(s, c) == n,
    decreases s.len(),
{
    if s.len() > 0 && s.last() == c {
        let t = s.drop_last();
        assert(n > 0);
        assert forall|i: int| t.len() - (n - 1) <= i < t.len() implies #[trigger] t[i] == c by {
            assert(t[i] == s[i]);
        }
        if n - 1 < t.len() {
            assert(t[t.len() - (n - 1) - 1] == s[s.len() - n - 1]);
        }
        lemma_trailing_run_unique(t, c, n - 1);
    } else if s.len() > 0 {
        if n > 0 {
            assert(s[s.len() - 1] == c);
        }
    }
}

/// The copy of `v` without the characters `c` that begin and end it.
pub fn trim_matches_chars(v: &Vec<char>, c: char) -> (r: Vec<char>)
    ensures
        r@ == trim_matches(v@, c),
{
    let mut a: usize = 0;
    while a < v.len() && v[a] == c
        invariant
            a <= v.len(),
            forall|i: int| 0 <= i < a ==> #[trigger] v@[i] == c,
        decreases v.len() - a,
    {
        a += 1;
    }
    proof {
        lemma_leading_run_unique(v@, c, a as int);
    }
    let ghost t = v@.skip(a as int);
    let mut b: usize = v.len();
    while b > a && v[b - 1] == c
        invariant
            a <= b <= v.len(),
            t == v@.skip(a as int),
            forall|i: int| b - a <= i < t.len() ==> #[trigger] t[i] == c,
        decreases b,
    {
        b -= 1;
    }
    proof {
        lemma_trailing_run_unique(t, c, v.len() - b);
        assert(t.take(t.len() - (v.len() - b)) == v@.subrange(a as int, b as int));
    }
    copy_range(v, a, b)
}

/// The copy of `v` without the repetitions of `pat` that end it.
pub fn trim_end_matches_chars(v: &Vec<char>, pat: &Vec<char>) -> (r: Vec<char>)
    ensures
        r@ == trim_end_matches(v@, pat@),
{
    let mut end: usize = v.len();
    assert(v@.take(end as int) == v@);
    if pat.len() == 0 {
        return copy_range(v, 0, end);
    }
    loop
        invariant
            end <= v.len(),
            pat.len() > 0,
            trim_end_matches(v@, pat@) == trim_end_matches(v@.take(end as int), pat@),
        ensures
            end <= v.len(),
            trim_end_matches(v@, pat@) == v@.take(end as int),
        decreases end,
    {
        let ghost cur = v@.take(end as int);
        if end < pat.len() {
            break;
        }
        let at = end - pat.len();
        let hit = occurs_at_exec(v, pat, at);
        assert(cur.subrange(at as int, end as int) == v@.subrange(at as int, end as int));
        if !hit {
            break;
        }
        assert(cur.take(cur.len() - pat@.len()) == v@.take(at as int));
        end = at;
    }
    assert(v@.subrange(0, end as int) == v@.take(end as int));
    copy_range(v, 0, end)
}

/// `s` with everything in front of its first `c`, and everything behind
/// it; `None` where `s` holds no `c`.
pub open spec fn split_once(s: Seq<char>, c: char) -> Option<(Seq<char>, Seq<char>)> {
    let at = index_of(s, c, 0);
    if at < s.len() {
        Some((s.take(at), s.skip(at + 1)))
    } else {
        None
    }
}

/// Splits `v` at its first `c`.
pub fn split_once_chars(v: &Vec<char>, c: char) -> (r: Option<(Vec<char>, Vec<char>)>)
    ensures
        match r {
            Some(parts) => split_once(v@, c) == Some((parts.0@, parts.1@)),
            None => split_once(v@, c) is None,
        },
{
    let at = index_of_char(v, c, 0);
    if at < v.len() {
        let head = copy_range(v, 0, at);
        let tail = copy_range(v, at + 1, v.len());
        assert(v@.subrange(0, at as int) == v@.take(at as int));
        assert(v@.subrange(at + 1, v.len() as int) == v@.skip(at + 1));
        Some((head, tail))
    } else {
        None
    }
}

/// Whether `c` is one of the digits `0` to `9`.
pub open spec fn is_digit(c: char) -> bool {
    '0' <= c && c <= '9'
}

/// The number that decimal digits write.
pub open spec fn digits_value(digits: Seq<char>) -> nat
    decreases digits.len(),
{
    if digits.len() == 0 {
        0
    } else {
        digits_value(digits.drop_last()) * 10 + (digits.last() as int - '0' as int) as nat
    }
}

/// Every character of `s` is a digit.
pub open spec fn all_digits(s: Seq<char>) -> bool {
    forall|i: int| 0 <= i < s.len() ==> is_digit(#[trigger] s[i])
}

/// Whether a text begins with a sign.
pub open spec fn has_sign(text: Seq<char>) -> bool {
    text.len() > 0 && (text[0] == '-' || text[0] == '+')
}

/// A text without the sign that it begins with.
pub open spec fn unsigned_part(text: Seq<char>) -> Seq<char> {
    if has_sign(text) {
        text.skip(1)
    } else {
        text
    }
}

/// The whole number that a text writes: an optional `+` or `-`, then one
/// or more decimal digits and nothing else. `None` where the text is not of
/// this form, or the number does not fit `i64`.
pub open spec fn parsed_i64(text: Seq<char>) -> Option<i64> {
    let digits = unsigned_part(text);
    let value = if has_sign(text) && text[0] == '-' {
        -(digits_value(digits) as int)
    } else {
        digits_value(digits) as int
    };
    if digits.len() > 0 && all_digits(digits) && i64::MIN <= value <= i64::MAX {
        Some(value as i64)
    } else {
        None
    }
}

fn digit_of(c: char) -> (r: Option<u8>)
    ensures
        match r {
            Some(d) => is_digit(c) && d == c as int - '0' as int && d < 10,
            None => !is_digit(c),
        },
{
    if c == '0' {
        Some(0)
    } else if c == '1' {
        Some(1)
    } else if c == '2' {
        Some(2)
    } else if c == '3' {
        Some(3)
    } else if c == '4' {
        Some(4)
    } else if c == '5' {
        Some(5)
    } else if c == '6' {
        Some(6)
    } else if c == '7' {
        Some(7)
    } else if c == '8' {
        Some(8)
    } else if c == '9' {
        Some(9)
    } else {
        None
    }
}

/// The whole number that a text writes.
pub fn parse_i64(text: &str) -> (r: Option<i64>)
    ensures
        r == parsed_i64(text@),
{
    let v = to_chars(text);
    if v.len() == 0 {
        return None;
    }
    let negative = v[0] == '-';
    let start: usize = if v[0] == '-' || v[0] == '+' {
        1
    } else {
        0
    };
    let ghost digits = v@.skip(start as int);
    proof {
        if start == 0 {
            assert(digits =~= v@);
        }
    }
    if start >= v.len() {
        return None;
    }
    let limit: i128 = 0x8000_0000_0000_0000;
    let mut acc: i128 = 0;
    let mut i: usize = start;
    assert(digits.take(0) =~= Seq::<char>::empty());
    while i < v.len()
        invariant
            start <= i <= v.len(),
            v@ == text@,
            digits == v@.skip(start as int),
            digits == unsigned_part(text@),
            limit == 0x8000_0000_0000_0000,
            forall|k: int| 0 <= k < i - start ==> is_digit(#[trigger] digits[k]),
            acc <= limit ==> acc == digits_value(digits.take(i - start)),
            acc > limit ==> acc == limit + 1 && digits_value(digits.take(i - start)) > limit,
            0 <= acc <= limit + 1,
        decreases v.len() - i,
    {
        assert(digits[i - start] == v@[i as int]);
        let d = match digit_of(v[i]) {
            Some(d) => d,
            None => {
                assert(!is_digit(digits[i - start]));
                assert(!all_digits(digits));
                return None;
            },
        };
        proof {
            let upto = digits.take(i - start + 1);
            assert(upto.drop_last() =~= digits.take(i - start));
            assert(upto.last() == v@[i as int]);
        }
        if acc <= limit {
            acc = acc * 10 + d as i128;
            if acc > limit {
                acc = limit + 1;
            }
        }
        i += 1;
    }
    assert(digits.take(digits.len() as int) =~= digits);
    if negative {
        if acc <= limit {
            Some((-acc) as i64)
        } else {
            None
        }
    } else if acc < limit {
        Some(acc as i64)
    } else {
        None
    }
}

} // verus!
