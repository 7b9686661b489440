//! Character-level helpers shared by the text-processing parts of the library.
use vstd::prelude::*;
use vstd::string::*;

verus! {

/// ASCII letters and digits.
pub open spec fn spec_ascii_alnum(c: char) -> bool {
    ('a' <= c && c <= 'z') || ('A' <= c && c <= 'Z') || ('0' <= c && c <= '9')
}

pub open spec fn spec_ascii_alpha(c: char) -> bool {
    ('a' <= c && c <= 'z') || ('A' <= c && c <= 'Z')
}

pub fn is_ascii_alnum(c: char) -> (r: bool)
    ensures
        r == spec_ascii_alnum(c),
{
    ('a' <= c && c <= 'z') || ('A' <= c && c <= 'Z') || ('0' <= c && c <= '9')
}

pub fn is_ascii_alpha(c: char) -> (r: bool)
    ensures
        r == spec_ascii_alpha(c),
{
    ('a' <= c && c <= 'z') || ('A' <= c && c <= 'Z')
}

/// The characters of a string slice, in order.
pub(crate) fn chars_of(s: &str) -> (r: Vec<char>)
    ensures
        r@ == s@,
{
    broadcast use vstd::string::axiom_spec_iter;
    let mut v: Vec<char> = Vec::new();
    for c in it: s.chars()
        invariant
            it.seq() == s@,
            v@ == it.seq().take(it.index() as int),
    {
        v.push(c);
    }
    v
}

/// `String`'s `FromIterator<&char>`: a string holding exactly the given
/// characters, in order.
#[verifier::external_body]
pub(crate) fn string_of(v: &[char]) -> (r: String)
    ensures
        r@ == v@,
{
    v.iter().collect()
}

/// `String::push`: appends one character to a string.
#[verifier::external_body]
pub(crate) fn push_char(s: &mut String, c: char)
    ensures
        final(s)@ == old(s)@.push(c),
{
    s.push(c)
}

/// Equality of two string slices by their characters.
pub fn str_eq(a: &str, b: &str) -> (r: bool)
    ensures
        r == (a@ == b@),
{
    let x = chars_of(a);
    let y = chars_of(b);
    seq_eq(&x, &y)
}

pub fn seq_eq(x: &Vec<char>, y: &Vec<char>) -> (r: bool)
    ensures
        r == (x@ == y@),
{
    if x.len() != y.len() {
        return false;
    }
    let mut i: usize = 0;
    while i < x.len()
        invariant
            x@.len() == y@.len(),
            i <= x@.len(),
            forall|j: int| 0 <= j < i ==> x@[j] == y@[j],
        decreases x@.len() - i,
    {
        if x[i] != y[i] {
            return false;
        }
        i = i + 1;
    }
    assert(x@ =~= y@);
    true
}

/// Whether `pat` occurs in `s` starting at `at`.
pub open spec fn spec_matches_at(s: Seq<char>, at: int, pat: Seq<char>) -> bool {
    0 <= at && at + pat.len() <= s.len() && s.subrange(at, at + pat.len()) == pat
}

pub fn matches_at(s: &Vec<char>, at: usize, pat: &Vec<char>) -> (r: bool)
    ensures
        r == spec_matches_at(s@, at as int, pat@),
{
    if at > s.len() || pat.len() > s.len() - at {
        return false;
    }
    let mut i: usize = 0;
    while i < pat.len()
        invariant
            at + pat@.len() <= s@.len(),
            s@.len() == s.len(),
            i <= pat@.len(),
            forall|j: int| 0 <= j < i ==> s@[at + j] == pat@[j],
        decreases pat@.len() - i,
    {
        if s[at + i] != pat[i] {
            assert(s@.subrange(at as int, at + pat@.len())[i as int] != pat@[i as int]);
            return false;
        }
        i = i + 1;
    }
    assert(s@.subrange(at as int, at + pat@.len()) =~= pat@);
    true
}

/// The first position at or after `i` at which `pat` occurs in `s`.
pub open spec fn spec_find_from(s: Seq<char>, pat: Seq<char>, i: int) -> Option<int>
    decreases s.len() + 1 - i,
{
    if i < 0 || i > s.len() {
        None
    } else if spec_matches_at(s, i, pat) {
        Some(i)
    } else {
        spec_find_from(s, pat, i + 1)
    }
}

pub fn find_from(s: &Vec<char>, pat: &Vec<char>, start: usize) -> (r: Option<usize>)
    ensures
        r matches Some(at) ==> spec_find_from(s@, pat@, start as int) == Some(at as int) && start
            <= at && spec_matches_at(s@, at as int, pat@),
        r is None ==> spec_find_from(s@, pat@, start as int) is None,
{
    if start > s.len() {
        return None;
    }
    let mut k: usize = start;
    while k < s.len()
        invariant
            start <= k <= s@.len(),
            spec_find_from(s@, pat@, k as int) == spec_find_from(s@, pat@, start as int),
        decreases s@.len() - k,
    {
        if matches_at(s, k, pat) {
            return Some(k);
        }
        k = k + 1;
    }
    if matches_at(s, k, pat) {
        return Some(k);
    }
    assert(spec_find_from(s@, pat@, k + 1) is None);
    None
}

/// Whether `pat` occurs anywhere in `s`.
pub open spec fn spec_contains(s: Seq<char>, pat: Seq<char>) -> bool {
    spec_find_from(s, pat, 0) is Some
}

/// The number of non-overlapping occurrences of `pat` in `s`, scanning from the left.
pub open spec fn spec_count_from(s: Seq<char>, pat: Seq<char>, from: int) -> nat
    decreases s.len() + 1 - from,
{
    if from < 0 || from > s.len() || pat.len() == 0 {
        0
    } else if spec_matches_at(s, from, pat) {
        1 + spec_count_from(s, pat, from + pat.len())
    } else {
        spec_count_from(s, pat, from + 1)
    }
}

pub open spec fn spec_count(s: Seq<char>, pat: Seq<char>) -> nat {
    spec_count_from(s, pat, 0)
}

pub fn count_matches(s: &Vec<char>, pat: &Vec<char>) -> (r: usize)
    requires
        pat@.len() > 0,
    ensures
        r == spec_count(s@, pat@),
{
    let mut k: usize = 0;
    let mut total: usize = 0;
    while k < s.len()
        invariant
            pat@.len() > 0,
            k <= s@.len(),
            total <= k,
            total + spec_count_from(s@, pat@, k as int) == spec_count(s@, pat@),
        decreases s@.len() - k,
    {
        if matches_at(s, k, pat) {
            total = total + 1;
            k = k + pat.len();
        } else {
            k = k + 1;
        }
    }
    assert(spec_count_from(s@, pat@, k as int) == 0) by {
        assert(!spec_matches_at(s@, k as int, pat@));
        assert(spec_count_from(s@, pat@, k + 1) == 0);
    }
    total
}

/// Appends every character of `s` to `v`.
pub fn extend(v: &mut Vec<char>, s: &Vec<char>)
    ensures
        final(v)@ == old(v)@ + s@,
{
    let mut i: usize = 0;
    while i < s.len()
        invariant
            i <= s@.len(),
            v@ == old(v)@ + s@.subrange(0, i as int),
        decreases s@.len() - i,
    {
        v.push(s[i]);
        i = i + 1;
        assert(s@.subrange(0, i as int) =~= s@.subrange(0, i - 1).push(s@[i - 1]));
    }
    assert(s@.subrange(0, s@.len() as int) =~= s@);
}

/// Appends the characters of a string slice to `v`.
pub fn extend_str(v: &mut Vec<char>, s: &str)
    ensures
        final(v)@ == old(v)@ + s@,
{
    let c = chars_of(s);
    extend(v, &c);
}

/// The decimal digit character for `d` (0 to 9).
pub open spec fn digit(d: int) -> char {
    if d <= 0 {
        '0'
    } else if d == 1 {
        '1'
    } else if d == 2 {
        '2'
    } else if d == 3 {
        '3'
    } else if d == 4 {
        '4'
    } else if d == 5 {
        '5'
    } else if d == 6 {
        '6'
    } else if d == 7 {
        '7'
    } else if d == 8 {
        '8'
    } else {
        '9'
    }
}

/// The decimal representation of a natural number, without leading zeros.
pub open spec fn dec(n: nat) -> Seq<char>
    decreases n,
{
    if n < 10 {
        seq![digit(n as int)]
    } else {
        dec(n / 10).push(digit((n % 10) as int))
    }
}

pub fn digit_char(d: u128) -> (c: char)
    requires
        d < 10,
    ensures
        c == digit(d as int),
{
    if d == 0 {
        '0'
    } else if d == 1 {
        '1'
    } else if d == 2 {
        '2'
    } else if d == 3 {
        '3'
    } else if d == 4 {
        '4'
    } else if d == 5 {
        '5'
    } else if d == 6 {
        '6'
    } else if d == 7 {
        '7'
    } else if d == 8 {
        '8'
    } else {
        '9'
    }
}

/// Appends the decimal representation of `n` to `v`.
pub fn push_decimal(v: &mut Vec<char>, n: u128)
    ensures
        final(v)@ == old(v)@ + dec(n as nat),
    decreases n,
{
    if n < 10 {
        v.push(digit_char(n));
        assert(dec(n as nat) =~= seq![digit(n as int)]);
    } else {
        push_decimal(v, n / 10);
        v.push(digit_char(n % 10));
        assert(dec(n as nat) == dec((n / 10) as nat).push(digit((n % 10) as int)));
    }
}

/// Unicode `White_Space`, as `char::is_whitespace` documents it.
pub open spec fn spec_is_whitespace(c: char) -> bool {
    c == ' ' || ('\t' <= c && c <= '\r') || c == '\u{85}' || c == '\u{A0}' || c == '\u{1680}'
        || ('\u{2000}' <= c && c <= '\u{200A}') || c == '\u{2028}' || c == '\u{2029}'
        || c == '\u{202F}' || c == '\u{205F}' || c == '\u{3000}'
}

pub fn is_whitespace(c: char) -> (r: bool)
    ensures
        r == spec_is_whitespace(c),
{
    c == ' ' || ('\t' <= c && c <= '\r') || c == '\u{85}' || c == '\u{A0}' || c == '\u{1680}'
        || ('\u{2000}' <= c && c <= '\u{200A}') || c == '\u{2028}' || c == '\u{2029}'
        || c == '\u{202F}' || c == '\u{205F}' || c == '\u{3000}'
}

/// The index of the first non-whitespace character at or after `i`.
pub open spec fn skip_ws(s: Seq<char>, i: int) -> int
    decreases s.len() - i,
{
    if 0 <= i < s.len() && spec_is_whitespace(s[i]) {
        skip_ws(s, i + 1)
    } else {
        i
    }
}

/// `str::trim_start`.
pub open spec fn trim_start(s: Seq<char>) -> Seq<char> {
    s.skip(skip_ws(s, 0))
}

/// The end of `s.take(j)` once trailing whitespace is removed.
pub open spec fn trim_end_at(s: Seq<char>, j: int) -> int
    decreases j,
{
    if 0 < j <= s.len() && spec_is_whitespace(s[j - 1]) {
        trim_end_at(s, j - 1)
    } else {
        j
    }
}

/// `str::trim`.
pub open spec fn trim(s: Seq<char>) -> Seq<char> {
    let t = trim_start(s);
    t.take(trim_end_at(t, t.len() as int))
}

pub fn trim_start_vec(s: &Vec<char>) -> (r: Vec<char>)
    ensures
        r@ == trim_start(s@),
{
    let mut i: usize = 0;
    while i < s.len() && is_whitespace(s[i])
        invariant
            i <= s@.len(),
            skip_ws(s@, i as int) == skip_ws(s@, 0),
        decreases s@.len() - i,
    {
        i = i + 1;
    }
    slice_of(s, i, s.len())
}

pub fn trim_vec(s: &Vec<char>) -> (r: Vec<char>)
    ensures
        r@ == trim(s@),
{
    let t = trim_start_vec(s);
    let mut j: usize = t.len();
    while j > 0 && is_whitespace(t[j - 1])
        invariant
            j <= t@.len(),
            trim_end_at(t@, j as int) == trim_end_at(t@, t@.len() as int),
        decreases j,
    {
        j = j - 1;
    }
    slice_of(&t, 0, j)
}

/// A copy of `s[from..to]`.
pub fn slice_of(s: &Vec<char>, from: usize, to: usize) -> (r: Vec<char>)
    requires
        from <= to <= s@.len(),
    ensures
        r@ == s@.subrange(from as int, to as int),
{
    let mut r: Vec<char> = Vec::new();
    let mut i: usize = from;
    while i < to
        invariant
            from <= i <= to <= s@.len(),
            r@ == s@.subrange(from as int, i as int),
        decreases to - i,
    {
        r.push(s[i]);
        i = i + 1;
        assert(r@ =~= s@.subrange(from as int, i as int));
    }
    r
}

/// `str::replace`: every non-overlapping occurrence of `from`, scanning from
/// the left starting at `i`, is replaced by `to`.
pub open spec fn replace_from(s: Seq<char>, from: Seq<char>, to: Seq<char>, i: int) -> Seq<char>
    decreases s.len() - i,
{
    if i < 0 || i >= s.len() {
        seq![]
    } else if from.len() > 0 && spec_matches_at(s, i, from) {
        to + replace_from(s, from, to, i + from.len())
    } else {
        seq![s[i]] + replace_from(s, from, to, i + 1)
    }
}

pub open spec fn replace_all(s: Seq<char>, from: Seq<char>, to: Seq<char>) -> Seq<char> {
    replace_from(s, from, to, 0)
}

pub fn replace_vec(s: &Vec<char>, from: &Vec<char>, to: &Vec<char>) -> (r: Vec<char>)
    requires
        from@.len() > 0,
    ensures
        r@ == replace_all(s@, from@, to@),
{
    let mut out: Vec<char> = Vec::new();
    let mut i: usize = 0;
    while i < s.len()
        invariant
            from@.len() > 0,
            i <= s@.len(),
            out@ + replace_from(s@, from@, to@, i as int) == replace_all(s@, from@, to@),
        decreases s@.len() - i,
    {
        if matches_at(s, i, from) {
            let ghost before = out@;
            extend(&mut out, to);
            assert(out@ + replace_from(s@, from@, to@, i + from@.len()) =~= before
                + replace_from(s@, from@, to@, i as int));
            i = i + from.len();
        } else {
            let ghost before = out@;
            out.push(s[i]);
            assert(out@ + replace_from(s@, from@, to@, i + 1) =~= before + replace_from(
                s@,
                from@,
                to@,
                i as int,
            ));
            i = i + 1;
        }
    }
    assert(replace_from(s@, from@, to@, i as int) =~= seq![]);
    assert(out@ =~= out@ + seq![]);
    out
}

} // verus!
