//! Explanations attached to syntax: the comment gap before a token, comments
//! trailing attributes, and whether a text explains why unsafe code is safe.
use vstd::prelude::*;
use crate::evidence::{names_of, ExprList, ExprModel, SegList, PathArgs};
use crate::text::{chars_of, spec_contains, spec_is_whitespace, is_whitespace, str_eq, string_of, find_from, slice_of, trim_start, trim_start_vec};

verus! {

pub open spec fn ascii_alpha(c: char) -> bool {
    ('a' <= c && c <= 'z') || ('A' <= c && c <= 'Z')
}

pub open spec fn lower(c: char) -> char {
    if 'A' <= c && c <= 'Z' {
        ((c as u32) + 32) as char
    } else {
        c
    }
}

/// The maximal runs of ASCII letters of a text, lowercased, in order.
pub open spec fn words(s: Seq<char>) -> Seq<Seq<char>>
    decreases s.len(),
{
    if s.len() == 0 {
        Seq::empty()
    } else if !ascii_alpha(s.last()) {
        words(s.drop_last())
    } else if s.len() >= 2 && ascii_alpha(s[s.len() - 2]) {
        let w = words(s.drop_last());
        w.update(w.len() - 1, w.last().push(lower(s.last())))
    } else {
        words(s.drop_last()).push(seq![lower(s.last())])
    }
}

proof fn lemma_words_nonempty(s: Seq<char>)
    requires
        s.len() > 0,
        ascii_alpha(s.last()),
    ensures
        words(s).len() > 0,
    decreases s.len(),
{
    if s.len() >= 2 && ascii_alpha(s[s.len() - 2]) {
        lemma_words_nonempty(s.drop_last());
    }
}

fn lower_char(c: char) -> (r: char)
    ensures
        r == lower(c),
{
    if 'A' <= c && c <= 'Z' {
        let v: u8 = (c as u32 + 32) as u8;
        v as char
    } else {
        c
    }
}

fn is_alpha(c: char) -> (r: bool)
    ensures
        r == ascii_alpha(c),
{
    ('a' <= c && c <= 'z') || ('A' <= c && c <= 'Z')
}

/// The lowercased ASCII words of a text.
pub fn text_words(text: &str) -> (r: Vec<Vec<char>>)
    ensures
        r@.len() == words(text@).len(),
        forall|i: int| 0 <= i < r@.len() ==> #[trigger] r@[i]@ == words(text@)[i],
{
    let s = chars_of(text);
    let mut out: Vec<Vec<char>> = Vec::new();
    let mut i: usize = 0;
    while i < s.len()
        invariant
            s@ == text@,
            i <= s@.len(),
            out@.len() == words(s@.take(i as int)).len(),
            forall|j: int| 0 <= j < out@.len() ==> #[trigger] out@[j]@ == words(s@.take(i as int))[j],
        decreases s@.len() - i,
    {
        let c = s[i];
        let ghost t = s@.take(i + 1);
        assert(t.drop_last() =~= s@.take(i as int));
        assert(t.last() == c);
        if is_alpha(c) {
            if i >= 1 && is_alpha(s[i - 1]) {
                assert(t[t.len() - 2] == s@[i - 1]);
                proof {
                    lemma_words_nonempty(s@.take(i as int));
                }
                let n = out.len();
                let mut last = out.pop().unwrap();
                last.push(lower_char(c));
                out.push(last);
                assert forall|j: int| 0 <= j < out@.len() implies #[trigger] out@[j]@ == words(t)[j] by {
                    if j < n - 1 {
                    }
                }
            } else {
                let mut w: Vec<char> = Vec::new();
                w.push(lower_char(c));
                assert(w@ =~= seq![lower(c)]);
                out.push(w);
            }
        }
        i = i + 1;
    }
    assert(s@.take(s@.len() as int) =~= s@);
    out
}

pub open spec fn join_words(w: Seq<Seq<char>>) -> Seq<char>
    decreases w.len(),
{
    if w.len() == 0 {
        Seq::empty()
    } else if w.len() == 1 {
        w[0]
    } else {
        join_words(w.drop_last()) + seq![' '] + w.last()
    }
}

pub open spec fn is_reason_after(w: Seq<char>) -> bool {
    w == "because"@ || w == "since"@
}

pub open spec fn is_reason_before(w: Seq<char>) -> bool {
    w == "so"@ || w == "therefore"@ || w == "hence"@
}

/// Where the look-back for a reason before `safe` at `index` starts.
pub open spec fn look_back_start(index: int) -> int {
    let a = if index >= 4 { index - 4 } else { 0 };
    let b = if a >= 3 { a } else { 3 };
    if b <= index { b } else { index }
}

/// `safe` at `index` with `because`/`since` among the next six words and a
/// word after that, or `so`/`therefore`/`hence` shortly before.
pub open spec fn safe_with_reason(w: Seq<Seq<char>>, index: int) -> bool {
    &&& 0 <= index < w.len()
    &&& w[index] == "safe"@
    &&& {
        ||| exists|i: int| 0 <= i < 6 && index + 1 + i < w.len() && is_reason_after(#[trigger] w[index + 1 + i]) && w.len() - (index + 1) > i + 1
        ||| exists|j: int| look_back_start(index) <= j < index && is_reason_before(#[trigger] w[j])
    }
}

/// A natural-language explanation that connects `safe` to a reason.
pub open spec fn spec_causal_safety_note(w: Seq<Seq<char>>) -> bool {
    exists|index: int| #[trigger] safe_with_reason(w, index)
}

fn word_is(w: &Vec<char>, s: &str) -> (r: bool)
    ensures
        r == (w@ == s@),
{
    let t = chars_of(s);
    crate::text::seq_eq(w, &t)
}

pub fn causal_safety_note(w: &Vec<Vec<char>>) -> (r: bool)
    ensures
        r == spec_causal_safety_note(w@.map_values(|x: Vec<char>| x@)),
{
    let ghost ws = w@.map_values(|x: Vec<char>| x@);
    let n = w.len();
    let mut index: usize = 0;
    while index < n
        invariant
            n == w@.len(),
            ws == w@.map_values(|x: Vec<char>| x@),
            index <= n,
            forall|k: int| 0 <= k < index ==> !#[trigger] safe_with_reason(ws, k),
        decreases n - index,
    {
        if word_is(&w[index], "safe") {
            let mut after = false;
            let mut i: usize = 0;
            let room = n - index - 1;
            while i < 6 && i < room
                invariant
                    n == w@.len(),
                    ws == w@.map_values(|x: Vec<char>| x@),
                    index < n,
                    room == n - index - 1,
                    i <= 6,
                    after == exists|k: int| 0 <= k < i && index + 1 + k < n && is_reason_after(#[trigger] ws[index + 1 + k]) && n - (index + 1) > k + 1,
                decreases 6 - i,
            {
                if (word_is(&w[index + 1 + i], "because") || word_is(&w[index + 1 + i], "since")) && room > i + 1 {
                    assert(is_reason_after(ws[index + 1 + i]));
                    after = true;
                }
                i = i + 1;
            }
            let a: usize = if index >= 4 { index - 4 } else { 0 };
            let b: usize = if a >= 3 { a } else { 3 };
            let lo: usize = if b <= index { b } else { index };
            let mut before = false;
            let mut j: usize = lo;
            while j < index
                invariant
                    n == w@.len(),
                    ws == w@.map_values(|x: Vec<char>| x@),
                    index < n,
                    lo as int == look_back_start(index as int),
                    lo <= j <= index,
                    before == exists|k: int| lo <= k < j && is_reason_before(#[trigger] ws[k]),
                decreases index - j,
            {
                if word_is(&w[j], "so") || word_is(&w[j], "therefore") || word_is(&w[j], "hence") {
                    assert(is_reason_before(ws[j as int]));
                    before = true;
                }
                j = j + 1;
            }
            assert(ws[index as int] == "safe"@);
            if after || before {
                assert(safe_with_reason(ws, index as int));
                return true;
            }
            assert(!safe_with_reason(ws, index as int));
        }
        index = index + 1;
    }
    false
}

/// Whether a text explains why unsafe code is sound: it names safety,
/// gives a causal reason for `safe`, or uses one of the recognized phrases.
pub open spec fn spec_mentions_safety(text: Seq<char>) -> bool {
    let w = words(text);
    let joined = seq![' '] + join_words(w) + seq![' '];
    ||| w.contains("safety"@)
    ||| spec_causal_safety_note(w)
    ||| spec_contains(joined, "relies on the invariant"@)
    ||| spec_contains(joined, "according to"@) && spec_contains(joined, "documentation"@) && (
    w.contains("thread"@) || w.contains("threads"@))
    ||| spec_contains(joined, "do not"@) && w.contains("hold"@) && (w.contains("reference"@)
        || w.contains("references"@))
}

fn words_contain(w: &Vec<Vec<char>>, s: &str) -> (r: bool)
    ensures
        r == w@.map_values(|x: Vec<char>| x@).contains(s@),
{
    let ghost ws = w@.map_values(|x: Vec<char>| x@);
    let mut i: usize = 0;
    while i < w.len()
        invariant
            i <= w@.len(),
            ws == w@.map_values(|x: Vec<char>| x@),
            forall|j: int| 0 <= j < i ==> ws[j] != s@,
        decreases w@.len() - i,
    {
        if word_is(&w[i], s) {
            assert(ws[i as int] == s@);
            return true;
        }
        i = i + 1;
    }
    false
}

fn join_with_spaces(w: &Vec<Vec<char>>) -> (r: Vec<char>)
    ensures
        r@ == seq![' '] + join_words(w@.map_values(|x: Vec<char>| x@)) + seq![' '],
{
    let ghost ws = w@.map_values(|x: Vec<char>| x@);
    let mut out: Vec<char> = Vec::new();
    out.push(' ');
    let mut i: usize = 0;
    while i < w.len()
        invariant
            i <= w@.len(),
            ws == w@.map_values(|x: Vec<char>| x@),
            out@ == seq![' '] + join_words(ws.take(i as int)),
        decreases w@.len() - i,
    {
        assert(ws.take(i + 1).drop_last() =~= ws.take(i as int));
        if i > 0 {
            out.push(' ');
        }
        crate::text::extend(&mut out, &w[i]);
        assert(out@ =~= seq![' '] + join_words(ws.take(i + 1)));
        i = i + 1;
    }
    assert(ws.take(w@.len() as int) =~= ws);
    out.push(' ');
    out
}

fn contains_text(s: &Vec<char>, pat: &str) -> (r: bool)
    ensures
        r == spec_contains(s@, pat@),
{
    let p = chars_of(pat);
    match find_from(s, &p, 0) {
        Some(_) => true,
        None => false,
    }
}

pub fn mentions_safety(text: &str) -> (r: bool)
    ensures
        r == spec_mentions_safety(text@),
{
    let w = text_words(text);
    let ghost ws = w@.map_values(|x: Vec<char>| x@);
    assert(ws =~= words(text@));
    let joined = join_with_spaces(&w);
    words_contain(&w, "safety") || causal_safety_note(&w) || contains_text(
        &joined,
        "relies on the invariant",
    ) || (contains_text(&joined, "according to") && contains_text(&joined, "documentation") && (
    words_contain(&w, "thread") || words_contain(&w, "threads"))) || (contains_text(&joined, "do not")
        && words_contain(&w, "hold") && (words_contain(&w, "reference") || words_contain(
        &w,
        "references",
    )))
}

/// Texts joined by newlines, such as the doc attributes of an item.
pub open spec fn join_lines(parts: Seq<Seq<char>>) -> Seq<char>
    decreases parts.len(),
{
    if parts.len() == 0 {
        Seq::empty()
    } else if parts.len() == 1 {
        parts[0]
    } else {
        join_lines(parts.drop_last()) + seq!['\n'] + parts.last()
    }
}

pub fn doc_text(docs: &Vec<String>) -> (r: String)
    ensures
        r@ == join_lines(names_of(docs@)),
{
    let ghost ds = names_of(docs@);
    let mut out: Vec<char> = Vec::new();
    let mut i: usize = 0;
    while i < docs.len()
        invariant
            i <= docs@.len(),
            ds == names_of(docs@),
            out@ == join_lines(ds.take(i as int)),
        decreases docs@.len() - i,
    {
        assert(ds.take(i + 1).drop_last() =~= ds.take(i as int));
        if i > 0 {
            out.push('\n');
        }
        crate::text::extend(&mut out, &chars_of(docs[i].as_str()));
        assert(out@ =~= join_lines(ds.take(i + 1)));
        i = i + 1;
    }
    assert(ds.take(docs@.len() as int) =~= ds);
    string_of(out.as_slice())
}

/// The character offsets at which the lines of a text start.
pub open spec fn line_starts(s: Seq<char>) -> Seq<usize>
    decreases s.len(),
{
    if s.len() == 0 {
        seq![0usize]
    } else if s.last() == '\n' {
        line_starts(s.drop_last()).push(s.len() as usize)
    } else {
        line_starts(s.drop_last())
    }
}

/// A source text with the end offsets of its tokens, for finding the gap
/// of comments and whitespace before a token.
pub struct SourceNotes {
    pub chars: Vec<char>,
    pub starts: Vec<usize>,
    pub ends: Vec<usize>,
}

pub open spec fn spec_offset(chars: Seq<char>, starts: Seq<usize>, line: usize, column: usize) -> usize {
    let l = if line >= 1 { line - 1 } else { 0 };
    let base: int = if l < starts.len() { starts[l] as int } else { chars.len() as int };
    let sum: int = base + column;
    let sat: int = if sum > usize::MAX { usize::MAX as int } else { sum };
    if sat < chars.len() { sat as usize } else { chars.len() as usize }
}

/// The end of the last token that ends at or before `end`, or 0.
pub open spec fn gap_start(ends: Seq<usize>, end: usize) -> usize
    decreases ends.len(),
{
    if ends.len() == 0 {
        0
    } else {
        let r = gap_start(ends.drop_last(), end);
        if ends.last() <= end && ends.last() > r {
            ends.last()
        } else {
            r
        }
    }
}

proof fn lemma_gap_start_bound(ends: Seq<usize>, end: usize)
    ensures
        gap_start(ends, end) <= end,
    decreases ends.len(),
{
    if ends.len() > 0 {
        lemma_gap_start_bound(ends.drop_last(), end);
    }
}

/// The comment gap before a token that starts at `end`: the text after the
/// previous token, without a first line that trails a preceding statement
/// (a gap right after `{` is kept whole).
pub open spec fn spec_leading(chars: Seq<char>, start: usize, end: usize) -> Seq<char> {
    let gap = chars.subrange(start as int, end as int);
    if start > 0 && chars[start - 1] != '{' && gap.contains('\n') {
        let k = choose|k: int| 0 <= k < gap.len() && gap[k] == '\n' && forall|j: int| 0 <= j < k ==> gap[j] != '\n';
        gap.subrange(k + 1, gap.len() as int)
    } else {
        gap
    }
}

impl SourceNotes {
    pub open spec fn wf(&self) -> bool {
        &&& self.starts@ == line_starts(self.chars@)
        &&& forall|i: int| 0 <= i < self.ends@.len() ==> self.ends@[i] <= self.chars@.len()
    }

    /// `token_ends` are the (line, column) ends of the source's tokens: of
    /// every token, and of each group's opening and closing delimiter.
    pub fn new(code: &str, token_ends: &Vec<(usize, usize)>) -> (r: Self)
        ensures
            r.wf(),
            r.chars@ == code@,
            r.ends@.len() == token_ends@.len(),
            forall|i: int| 0 <= i < token_ends@.len() ==> #[trigger] r.ends@[i] == spec_offset(
                code@,
                line_starts(code@),
                token_ends@[i].0,
                token_ends@[i].1,
            ),
    {
        let chars = chars_of(code);
        let mut starts: Vec<usize> = Vec::new();
        starts.push(0);
        let mut i: usize = 0;
        while i < chars.len()
            invariant
                i <= chars@.len(),
                starts@ == line_starts(chars@.take(i as int)),
            decreases chars@.len() - i,
        {
            assert(chars@.take(i + 1).drop_last() =~= chars@.take(i as int));
            if chars[i] == '\n' {
                starts.push(i + 1);
            }
            i = i + 1;
        }
        assert(chars@.take(chars@.len() as int) =~= chars@);
        let mut notes = SourceNotes { chars, starts, ends: Vec::new() };
        let mut k: usize = 0;
        while k < token_ends.len()
            invariant
                notes.starts@ == line_starts(notes.chars@),
                notes.chars@ == code@,
                k <= token_ends@.len(),
                notes.ends@.len() == k,
                forall|j: int| 0 <= j < notes.ends@.len() ==> notes.ends@[j] <= notes.chars@.len(),
                forall|j: int| 0 <= j < k ==> #[trigger] notes.ends@[j] == spec_offset(
                    code@,
                    line_starts(code@),
                    token_ends@[j].0,
                    token_ends@[j].1,
                ),
            decreases token_ends@.len() - k,
        {
            let o = notes.offset(token_ends[k].0, token_ends[k].1);
            notes.ends.push(o);
            k = k + 1;
        }
        notes
    }

    /// The character offset of a (line, column) position, clamped to the text.
    pub fn offset(&self, line: usize, column: usize) -> (r: usize)
        requires
            self.starts@ == line_starts(self.chars@),
        ensures
            r == spec_offset(self.chars@, self.starts@, line, column),
            r <= self.chars@.len(),
    {
        let l = if line >= 1 { line - 1 } else { 0 };
        let base = if l < self.starts.len() { self.starts[l] } else { self.chars.len() };
        let sum = if base <= usize::MAX - column { base + column } else { usize::MAX };
        if sum < self.chars.len() { sum } else { self.chars.len() }
    }

    /// The comment gap before a token starting at (line, column).
    pub fn leading(&self, line: usize, column: usize) -> (r: String)
        requires
            self.wf(),
        ensures
            r@ == spec_leading(
                self.chars@,
                gap_start(self.ends@, spec_offset(self.chars@, self.starts@, line, column)),
                spec_offset(self.chars@, self.starts@, line, column),
            ),
    {
        let end = self.offset(line, column);
        let mut start: usize = 0;
        let mut i: usize = 0;
        while i < self.ends.len()
            invariant
                i <= self.ends@.len(),
                start == gap_start(self.ends@.take(i as int), end),
            decreases self.ends@.len() - i,
        {
            assert(self.ends@.take(i + 1).drop_last() =~= self.ends@.take(i as int));
            let e = self.ends[i];
            if e <= end && e > start {
                start = e;
            }
            i = i + 1;
        }
        assert(self.ends@.take(self.ends@.len() as int) =~= self.ends@);
        proof {
            lemma_gap_start_bound(self.ends@, end);
        }
        let gap = slice_of(&self.chars, start, end);
        if start > 0 && self.chars[start - 1] != '{' {
            let nl = vec!['\n'];
            match find_from(&gap, &nl, 0) {
                Some(k) => {
                    proof {
                        assert(gap@[k as int] == '\n') by {
                            assert(gap@.subrange(k as int, k + 1) =~= nl@);
                            assert(gap@.subrange(k as int, k + 1)[0] == gap@[k as int]);
                        }
                        assert(gap@.contains('\n'));
                        assert forall|j: int| 0 <= j < k implies gap@[j] != '\n' by {
                            if gap@[j] == '\n' {
                                assert(crate::text::spec_matches_at(gap@, j, nl@)) by {
                                    assert(gap@.subrange(j, j + 1) =~= nl@);
                                }
                                lemma_find_first(gap@, nl@, 0, j);
                            }
                        }
                        let c = choose|c: int| 0 <= c < gap@.len() && gap@[c] == '\n' && forall|j: int| 0 <= j < c ==> gap@[j] != '\n';
                        if c < k {
                        } else if c > k {
                            assert(gap@[k as int] != '\n');
                        }
                    }
                    let rest = slice_of(&gap, k + 1, gap.len());
                    return string_of(rest.as_slice());
                },
                None => {
                    proof {
                        if gap@.contains('\n') {
                            let j = choose|j: int| 0 <= j < gap@.len() && gap@[j] == '\n';
                            assert(crate::text::spec_matches_at(gap@, j, nl@)) by {
                                assert(gap@.subrange(j, j + 1) =~= nl@);
                            }
                            lemma_find_some(gap@, nl@, 0, j);
                        }
                    }
                },
            }
        }
        string_of(gap.as_slice())
    }
}

/// A search from `i` finds no later match than one at `j`.
proof fn lemma_find_first(s: Seq<char>, p: Seq<char>, i: int, j: int)
    requires
        0 <= i <= j,
        crate::text::spec_matches_at(s, j, p),
    ensures
        crate::text::spec_find_from(s, p, i) matches Some(k) && k <= j,
    decreases j - i,
{
    if !crate::text::spec_matches_at(s, i, p) {
        lemma_find_first(s, p, i + 1, j);
    }
}

proof fn lemma_find_some(s: Seq<char>, p: Seq<char>, i: int, j: int)
    requires
        0 <= i <= j,
        crate::text::spec_matches_at(s, j, p),
    ensures
        crate::text::spec_find_from(s, p, i) is Some,
{
    lemma_find_first(s, p, i, j);
}

/// The pieces of a text between newlines.
pub open spec fn split_newlines(s: Seq<char>) -> Seq<Seq<char>>
    decreases s.len(),
{
    if s.len() == 0 {
        seq![Seq::empty()]
    } else if s.last() == '\n' {
        split_newlines(s.drop_last()).push(Seq::empty())
    } else {
        let p = split_newlines(s.drop_last());
        p.update(p.len() - 1, p.last().push(s.last()))
    }
}

proof fn lemma_split_nonempty(s: Seq<char>)
    ensures
        split_newlines(s).len() > 0,
    decreases s.len(),
{
    if s.len() > 0 {
        lemma_split_nonempty(s.drop_last());
    }
}

/// The lines of a text as `str::lines` yields them, for counting blank ones:
/// a final newline adds no empty line.
pub open spec fn text_lines(s: Seq<char>) -> Seq<Seq<char>> {
    let p = split_newlines(s);
    if p.len() > 0 && p.last().len() == 0 {
        p.drop_last()
    } else {
        p
    }
}

pub open spec fn blank(l: Seq<char>) -> bool {
    forall|i: int| 0 <= i < l.len() ==> spec_is_whitespace(l[i])
}

/// How many lines after the first are blank.
pub open spec fn blank_after_first(lines: Seq<Seq<char>>) -> nat
    decreases lines.len(),
{
    if lines.len() <= 1 {
        0
    } else {
        blank_after_first(lines.drop_last()) + if blank(lines.last()) { 1nat } else { 0nat }
    }
}

fn split_pieces(s: &Vec<char>) -> (r: Vec<Vec<char>>)
    ensures
        r@.len() == split_newlines(s@).len(),
        forall|i: int| 0 <= i < r@.len() ==> #[trigger] r@[i]@ == split_newlines(s@)[i],
{
    let mut out: Vec<Vec<char>> = Vec::new();
    out.push(Vec::new());
    assert(split_newlines(s@.take(0)) =~= seq![Seq::<char>::empty()]);
    let mut i: usize = 0;
    while i < s.len()
        invariant
            i <= s@.len(),
            out@.len() == split_newlines(s@.take(i as int)).len(),
            out@.len() > 0,
            forall|j: int| 0 <= j < out@.len() ==> #[trigger] out@[j]@ == split_newlines(s@.take(i as int))[j],
        decreases s@.len() - i,
    {
        assert(s@.take(i + 1).drop_last() =~= s@.take(i as int));
        let c = s[i];
        if c == '\n' {
            out.push(Vec::new());
            assert forall|j: int| 0 <= j < out@.len() implies #[trigger] out@[j]@ == split_newlines(s@.take(i + 1))[j] by {
                if j == out@.len() - 1 {
                    assert(out@[j]@ =~= Seq::<char>::empty());
                }
            }
        } else {
            let n = out.len();
            let mut last = out.pop().unwrap();
            last.push(c);
            out.push(last);
            assert forall|j: int| 0 <= j < out@.len() implies #[trigger] out@[j]@ == split_newlines(s@.take(i + 1))[j] by {
                if j < n - 1 {
                }
            }
        }
        i = i + 1;
    }
    assert(s@.take(s@.len() as int) =~= s@);
    out
}

fn is_blank(l: &Vec<char>) -> (r: bool)
    ensures
        r == blank(l@),
{
    let mut i: usize = 0;
    while i < l.len()
        invariant
            i <= l@.len(),
            forall|j: int| 0 <= j < i ==> spec_is_whitespace(l@[j]),
        decreases l@.len() - i,
    {
        if !is_whitespace(l[i]) {
            return false;
        }
        i = i + 1;
    }
    true
}

/// How many lines of a comment gap after its first are blank.
pub fn blank_lines_after_first(gap: &str) -> (r: usize)
    ensures
        r == blank_after_first(text_lines(gap@)),
{
    let s = chars_of(gap);
    let pieces = split_pieces(&s);
    proof {
        lemma_split_nonempty(s@);
    }
    let mut n = pieces.len();
    if n > 0 && pieces[n - 1].len() == 0 {
        n = n - 1;
    }
    let ghost lines = text_lines(gap@);
    assert(lines.len() == n);
    assert(forall|j: int| 0 <= j < n ==> lines[j] == #[trigger] pieces@[j]@);
    let mut count: usize = 0;
    let mut k: usize = 1;
    if n <= 1 {
        return 0;
    }
    while k < n
        invariant
            1 <= k <= n,
            n == lines.len(),
            n <= pieces@.len(),
            forall|j: int| 0 <= j < n ==> lines[j] == #[trigger] pieces@[j]@,
            count == blank_after_first(lines.take(k as int)),
            count <= k,
        decreases n - k,
    {
        assert(lines.take(k + 1).drop_last() =~= lines.take(k as int));
        if is_blank(&pieces[k]) {
            count = count + 1;
        }
        k = k + 1;
    }
    assert(lines.take(n as int) =~= lines);
    count
}

/// Where explanations were found: the positions of `unsafe` keywords and
/// of unsafe calls that a safety note covers.
pub struct SafetyDocs {
    pub found: Vec<(usize, usize)>,
}

impl SafetyDocs {
    /// No explained `unsafe` keyword yet.
    pub fn empty() -> (r: Self)
        ensures
            r.found@.len() == 0,
    {
        SafetyDocs { found: Vec::new() }
    }

    /// Records a position when the current context is documented.
    pub fn record(&mut self, documented: bool, at: (usize, usize))
        ensures
            final(self).found@ == if documented {
                old(self).found@.push(at)
            } else {
                old(self).found@
            },
    {
        if documented {
            self.found.push(at);
        }
    }

    pub fn contains(&self, at: (usize, usize)) -> (r: bool)
        ensures
            r == self.found@.contains(at),
    {
        let mut i: usize = 0;
        while i < self.found.len()
            invariant
                i <= self.found@.len(),
                forall|j: int| 0 <= j < i ==> self.found@[j] != at,
            decreases self.found@.len() - i,
        {
            if self.found[i].0 == at.0 && self.found[i].1 == at.1 {
                assert(self.found@[i as int] == at);
                return true;
            }
            i = i + 1;
        }
        false
    }
}

/// What the statements of one block pass on to the next: whether the block
/// as a whole is documented, whether a documented pure binding precedes,
/// and the last documented unsafe call.
pub struct BlockDocs {
    pub inherited: bool,
    pub pending: bool,
    pub previous_call: Option<String>,
}

pub open spec fn opt_view(o: Option<String>) -> Option<Seq<char>> {
    match o {
        Some(s) => Some(s@),
        None => None,
    }
}

/// A statement is documented when its block is, when a documented pure
/// binding precedes it, when its own comment gap explains safety, or when
/// it repeats the previous documented unsafe call with at most one blank
/// line between them.
pub open spec fn statement_documented(b: BlockDocs, gap: Seq<char>, call: Option<Seq<char>>) -> bool {
    let related = blank_after_first(text_lines(gap)) <= 1 && call is Some && call == opt_view(
        b.previous_call,
    );
    b.inherited || b.pending || spec_mentions_safety(gap) || related
}

impl BlockDocs {
    pub fn new(inherited: bool) -> (r: Self)
        ensures
            r.inherited == inherited,
            !r.pending,
            r.previous_call is None,
    {
        BlockDocs { inherited, pending: false, previous_call: None }
    }

    /// Takes one statement of the block: its comment gap, the single unsafe
    /// call it makes (its callee and first argument as text), and whether it
    /// is a pure binding. Returns whether the statement is documented.
    pub fn statement(&mut self, gap: &str, call: Option<String>, pure: bool) -> (r: bool)
        ensures
            r == statement_documented(*old(self), gap@, opt_view(call)),
            final(self).inherited == old(self).inherited,
            final(self).pending == (pure && r),
            opt_view(final(self).previous_call) == if pure {
                opt_view(old(self).previous_call)
            } else if r {
                opt_view(call)
            } else {
                None
            },
    {
        let blanks = blank_lines_after_first(gap);
        let related = blanks <= 1 && match (&call, &self.previous_call) {
            (Some(c), Some(p)) => str_eq(c.as_str(), p.as_str()),
            _ => false,
        };
        let documented = self.inherited || self.pending || mentions_safety(gap) || related;
        self.pending = pure && documented;
        if !pure {
            self.previous_call = if documented { call } else { None };
        }
        documented
    }
}

/// An initializer without effects: literals, paths, casts, fields and
/// references of those, and `std::ptr::null`/`null_mut` calls.
pub open spec fn pure_expr(e: ExprModel) -> bool
    decreases e,
{
    match e {
        ExprModel::Lit(_) | ExprModel::Path(_) => true,
        ExprModel::Cast(x, _) => pure_expr(*x),
        ExprModel::Field { base, .. } => pure_expr(*base),
        ExprModel::Reference { expr, .. } => pure_expr(*expr),
        ExprModel::Call { func, args } => args is Nil && match *func {
            ExprModel::Path(p) => !p.leading_colon && null_pointer_path(p.segments),
            _ => false,
        },
        _ => false,
    }
}

/// `std::ptr::null` or `std::ptr::null_mut`, without generic arguments.
pub open spec fn null_pointer_path(l: SegList) -> bool {
    match l {
        SegList::Cons(a, r1) => a.ident@ == "std"@ && a.args is Bare && match *r1 {
            SegList::Cons(b, r2) => b.ident@ == "ptr"@ && b.args is Bare && match *r2 {
                SegList::Cons(c, r3) => (c.ident@ == "null_mut"@ || c.ident@ == "null"@) && c.args is Bare
                    && *r3 is Nil,
                SegList::Nil => false,
            },
            SegList::Nil => false,
        },
        SegList::Nil => false,
    }
}

fn null_pointer_path_exec(l: &SegList) -> (r: bool)
    ensures
        r == null_pointer_path(*l),
{
    match l {
        SegList::Cons(a, r1) => str_eq(a.ident.as_str(), "std") && matches!(a.args, PathArgs::Bare)
            && match &**r1 {
            SegList::Cons(b, r2) => str_eq(b.ident.as_str(), "ptr") && matches!(b.args, PathArgs::Bare)
                && match &**r2 {
                SegList::Cons(c, r3) => (str_eq(c.ident.as_str(), "null_mut") || str_eq(
                    c.ident.as_str(),
                    "null",
                )) && matches!(c.args, PathArgs::Bare) && matches!(**r3, SegList::Nil),
                SegList::Nil => false,
            },
            SegList::Nil => false,
        },
        SegList::Nil => false,
    }
}

fn pure_expr_exec(e: &ExprModel) -> (r: bool)
    ensures
        r == pure_expr(*e),
    decreases e,
{
    match e {
        ExprModel::Lit(_) | ExprModel::Path(_) => true,
        ExprModel::Cast(x, _) => pure_expr_exec(x),
        ExprModel::Field { base, .. } => pure_expr_exec(base),
        ExprModel::Reference { expr, .. } => pure_expr_exec(expr),
        ExprModel::Call { func, args } => matches!(args, crate::evidence::ExprList::Nil) && match &**func {
            ExprModel::Path(p) => !p.leading_colon && null_pointer_path_exec(&p.segments),
            _ => false,
        },
        _ => false,
    }
}

/// A `let` whose initializer is pure and has no `else` branch.
pub open spec fn spec_pure_binding(init: Option<ExprModel>, diverges: bool) -> bool {
    match init {
        Some(e) => !diverges && pure_expr(e),
        None => false,
    }
}

pub fn pure_binding(init: Option<&ExprModel>, diverges: bool) -> (r: bool)
    ensures
        r == spec_pure_binding(match init {
            Some(e) => Some(*e),
            None => None,
        }, diverges),
{
    match init {
        Some(e) => !diverges && pure_expr_exec(e),
        None => false,
    }
}

/// The comment that follows an attribute on its line: a `//` comment with
/// the rest of the line, or a `/* .. */` comment up to its end.
pub open spec fn trailing_comment(rest_of_line: Seq<char>) -> Option<Seq<char>> {
    let text = trim_start(rest_of_line);
    if text.len() >= 2 && text.take(2) == "//"@ {
        Some(rest_of_line)
    } else if text.len() >= 2 && text.take(2) == "/*"@ {
        match crate::text::spec_find_from(text, "*/"@, 0) {
            Some(k) => Some(text.take(k)),
            None => Some(text),
        }
    } else {
        None
    }
}

/// The rest of the line from an offset on.
pub open spec fn rest_of_line(chars: Seq<char>, start: int) -> Seq<char> {
    let tail = chars.skip(start);
    match crate::text::spec_find_from(tail, seq!['\n'], 0) {
        Some(k) => tail.take(k),
        None => tail,
    }
}

pub open spec fn attribute_comment_list(chars: Seq<char>, starts: Seq<usize>, attr_ends: Seq<(usize, usize)>) -> Seq<Seq<char>>
    decreases attr_ends.len(),
{
    if attr_ends.len() == 0 {
        Seq::empty()
    } else {
        let e = attr_ends.last();
        attribute_comment_list(chars, starts, attr_ends.drop_last()) + match trailing_comment(
            rest_of_line(chars, spec_offset(chars, starts, e.0, e.1) as int),
        ) {
            Some(c) => seq![c],
            None => Seq::empty(),
        }
    }
}

fn starts_two(t: &Vec<char>, a: char, b: char) -> (r: bool)
    ensures
        r == (t@.len() >= 2 && t@.take(2) == seq![a, b]),
{
    let r = t.len() >= 2 && t[0] == a && t[1] == b;
    proof {
        if t@.len() >= 2 {
            if r {
                assert(t@.take(2) =~= seq![a, b]);
            } else if t@.take(2) == seq![a, b] {
                assert(t@.take(2)[0] == t@[0]);
                assert(t@.take(2)[1] == t@[1]);
            }
        }
    }
    r
}

impl SourceNotes {
    /// The comments trailing the attributes that end at `attr_ends`, joined
    /// by newlines.
    pub fn attribute_comments(&self, attr_ends: &Vec<(usize, usize)>) -> (r: String)
        requires
            self.wf(),
        ensures
            r@ == join_lines(attribute_comment_list(self.chars@, self.starts@, attr_ends@)),
    {
        proof {
            reveal_strlit("//");
            reveal_strlit("/*");
            reveal_strlit("*/");
        }
        let mut parts: Vec<String> = Vec::new();
        let mut i: usize = 0;
        while i < attr_ends.len()
            invariant
                self.wf(),
                i <= attr_ends@.len(),
                names_of(parts@) == attribute_comment_list(self.chars@, self.starts@, attr_ends@.take(i as int)),
            decreases attr_ends@.len() - i,
        {
            assert(attr_ends@.take(i + 1).drop_last() =~= attr_ends@.take(i as int));
            proof {
                reveal_strlit("//");
                reveal_strlit("/*");
                reveal_strlit("*/");
            }
            let start = self.offset(attr_ends[i].0, attr_ends[i].1);
            let tail = slice_of(&self.chars, start, self.chars.len());
            let nl = vec!['\n'];
            let line = match find_from(&tail, &nl, 0) {
                Some(k) => slice_of(&tail, 0, k),
                None => tail,
            };
            assert(line@ == rest_of_line(self.chars@, start as int)) by {
                assert(tail@ =~= self.chars@.skip(start as int));
                assert(nl@ =~= seq!['\n']);
            }
            let text = trim_start_vec(&line);
            let ghost before = names_of(parts@);
            let close = vec!['*', '/'];
            assert(close@ =~= "*/"@);
            if starts_two(&text, '/', '/') {
                assert(seq!['/', '/'] =~= "//"@);
                parts.push(string_of(line.as_slice()));
                assert(names_of(parts@) =~= before + seq![line@]);
            } else if starts_two(&text, '/', '*') {
                assert(seq!['/', '/'] =~= "//"@);
                assert(seq!['/', '*'] =~= "/*"@);
                let piece = match find_from(&text, &close, 0) {
                    Some(k) => slice_of(&text, 0, k),
                    None => text,
                };
                parts.push(string_of(piece.as_slice()));
                assert(names_of(parts@) =~= before + seq![piece@]);
            } else {
                assert(seq!['/', '/'] =~= "//"@);
                assert(seq!['/', '*'] =~= "/*"@);
                assert(names_of(parts@) =~= before + Seq::<Seq<char>>::empty());
            }
            i = i + 1;
        }
        assert(attr_ends@.take(attr_ends@.len() as int) =~= attr_ends@);
        doc_text(&parts)
    }
}

impl SourceNotes {
    /// Whether a syntax node explains its own safety: by the comment gap
    /// before it (it starts at `line`, `column`), its doc attributes, or
    /// comments trailing its attributes.
    pub fn own(&self, line: usize, column: usize, docs: &Vec<String>, attr_ends: &Vec<(usize, usize)>) -> (r: bool)
        requires
            self.wf(),
        ensures
            r == (spec_mentions_safety(spec_leading(
                self.chars@,
                gap_start(self.ends@, spec_offset(self.chars@, self.starts@, line, column)),
                spec_offset(self.chars@, self.starts@, line, column),
            )) || spec_mentions_safety(join_lines(names_of(docs@))) || spec_mentions_safety(
                join_lines(attribute_comment_list(self.chars@, self.starts@, attr_ends@)),
            )),
    {
        let gap = self.leading(line, column);
        if mentions_safety(gap.as_str()) {
            return true;
        }
        let d = doc_text(docs);
        if mentions_safety(d.as_str()) {
            return true;
        }
        let a = self.attribute_comments(attr_ends);
        mentions_safety(a.as_str())
    }
}


/// Whether `char::is_alphanumeric` holds of a character.
pub uninterp spec fn unicode_alphanumeric(c: char) -> bool;

/// `char::is_alphanumeric`: the Unicode `Alphabetic` or `Numeric` property.
#[verifier::external_body]
fn is_alphanumeric(c: char) -> (r: bool)
    ensures
        r == unicode_alphanumeric(c),
{
    c.is_alphanumeric()
}

/// A character that can belong to a word of a note: alphanumeric or `_`.
pub open spec fn note_char(c: char) -> bool {
    unicode_alphanumeric(c) || c == '_'
}

/// `w` occurs in `s` at `i`, with no word character on either side.
pub open spec fn word_at(s: Seq<char>, w: Seq<char>, i: int) -> bool {
    &&& 0 <= i && i + w.len() <= s.len()
    &&& s.subrange(i, i + w.len()) == w
    &&& (i == 0 || !note_char(s[i - 1]))
    &&& (i + w.len() == s.len() || !note_char(s[i + w.len()]))
}

/// `w` is one of the maximal runs of word characters of `s`.
pub open spec fn is_note_word(s: Seq<char>, w: Seq<char>) -> bool {
    &&& w.len() > 0
    &&& forall|k: int| 0 <= k < w.len() ==> note_char(#[trigger] w[k])
    &&& exists|i: int| #[trigger] word_at(s, w, i)
}

fn word_char(c: char) -> (r: bool)
    ensures
        r == note_char(c),
{
    c == '_' || is_alphanumeric(c)
}

fn word_at_exec(s: &Vec<char>, w: &Vec<char>, i: usize) -> (r: bool)
    requires
        i + w@.len() <= s@.len(),
    ensures
        r == word_at(s@, w@, i as int),
{
    let mut k: usize = 0;
    while k < w.len()
        invariant
            i + w.len() <= s.len(),
            k <= w@.len(),
            forall|j: int| 0 <= j < k ==> s@[i + j] == w@[j],
        decreases w@.len() - k,
    {
        if s[i + k] != w[k] {
            assert(s@.subrange(i as int, i + w@.len())[k as int] != w@[k as int]);
            return false;
        }
        k = k + 1;
    }
    assert(s@.subrange(i as int, i + w@.len()) =~= w@);
    let before = i == 0 || !word_char(s[i - 1]);
    assert(i + w.len() <= s.len());
    let end = i + w.len();
    let after = end == s.len() || !word_char(s[end]);
    before && after
}

/// Whether `w` is one of the words of `s` (maximal runs of alphanumeric
/// characters and `_`).
pub fn note_has_word(s: &Vec<char>, w: &Vec<char>) -> (r: bool)
    ensures
        r == is_note_word(s@, w@),
{
    if w.len() == 0 {
        return false;
    }
    let mut k: usize = 0;
    while k < w.len()
        invariant
            k <= w@.len(),
            forall|j: int| 0 <= j < k ==> note_char(#[trigger] w@[j]),
        decreases w@.len() - k,
    {
        if !word_char(w[k]) {
            assert(!note_char(w@[k as int]));
            return false;
        }
        k = k + 1;
    }
    if w.len() > s.len() {
        assert(forall|i: int| !#[trigger] word_at(s@, w@, i));
        return false;
    }
    let last = s.len() - w.len();
    let mut i: usize = 0;
    while i <= last
        invariant
            last == s@.len() - w@.len(),
            w@.len() > 0,
            last < s.len(),
            forall|j: int| 0 <= j < w@.len() ==> note_char(#[trigger] w@[j]),
            i <= last + 1,
            forall|j: int| 0 <= j < i ==> !#[trigger] word_at(s@, w@, j),
        decreases last + 1 - i,
    {
        if word_at_exec(s, w, i) {
            return true;
        }
        i = i + 1;
    }
    assert(forall|j: int| !#[trigger] word_at(s@, w@, j));
    false
}

/// The words of which a note must name one before it can document an unsafe
/// call inside a closure: an explicit condition.
pub open spec fn condition_words() -> Seq<Seq<char>> {
    seq!["valid"@, "lifetime"@, "invariant"@, "preconditions"@, "initialized"@, "bounds"@]
}

pub open spec fn spec_closure_call_documented(
    note: Seq<char>,
    unsafe_blocks: nat,
    closure_call: Option<Seq<char>>,
) -> bool {
    &&& spec_mentions_safety(note)
    &&& exists|k: int| 0 <= k < condition_words().len() && is_note_word(note, #[trigger] condition_words()[k])
    &&& unsafe_blocks == 1
    &&& match closure_call {
        Some(name) => is_note_word(note, name),
        None => false,
    }
}

/// Whether the safety note in front of a statement documents the unsafe call
/// that a synchronous closure in the statement makes. `unsafe_blocks` counts
/// the statement's unsafe blocks outside nested items, async bodies and
/// closures in closures; `closure_call` is the name of the function that the
/// only such block calls, when that block is a single call by a path inside a
/// closure. The note must explain safety, name an explicit condition and name
/// that function.
pub fn closure_call_documented(note: &str, unsafe_blocks: usize, closure_call: Option<&str>) -> (r: bool)
    ensures
        r == spec_closure_call_documented(
            note@,
            unsafe_blocks as nat,
            match closure_call {
                Some(n) => Some(n@),
                None => None,
            },
        ),
{
    if !mentions_safety(note) || unsafe_blocks != 1 {
        return false;
    }
    let name = match closure_call {
        Some(n) => n,
        None => return false,
    };
    let s = chars_of(note);
    proof {
        reveal_strlit("valid");
        reveal_strlit("lifetime");
        reveal_strlit("invariant");
        reveal_strlit("preconditions");
        reveal_strlit("initialized");
        reveal_strlit("bounds");
    }
    let conditions = [
        chars_of("valid"),
        chars_of("lifetime"),
        chars_of("invariant"),
        chars_of("preconditions"),
        chars_of("initialized"),
        chars_of("bounds"),
    ];
    let mut found = false;
    let mut k: usize = 0;
    while k < 6
        invariant
            k <= 6,
            s@ == note@,
            forall|j: int| 0 <= j < 6 ==> #[trigger] conditions@[j]@ == condition_words()[j],
            found == exists|j: int| 0 <= j < k && is_note_word(note@, #[trigger] condition_words()[j]),
        decreases 6 - k,
    {
        if note_has_word(&s, &conditions[k]) {
            found = true;
        }
        k = k + 1;
    }
    if !found {
        return false;
    }
    note_has_word(&s, &chars_of(name))
}

/// A word that says errors are deliberately not handled.
pub open spec fn intent_word(w: Seq<char>) -> bool {
    ||| w == "ignore"@
    ||| w == "ignores"@
    ||| w == "ignored"@
    ||| w == "ignoring"@
    ||| w == "swallow"@
    ||| w == "swallows"@
    ||| w == "swallowed"@
    ||| w == "swallowing"@
    ||| w == "intentional"@
    ||| w == "intentionally"@
}

/// Word `i` of `w` starts a note of intent: an intent word, or the pairs
/// "best effort" and "non fatal" (as in `best-effort`, `non-fatal`).
pub open spec fn intent_at(w: Seq<Seq<char>>, i: int) -> bool {
    ||| intent_word(w[i])
    ||| i + 1 < w.len() && w[i] == "best"@ && w[i + 1] == "effort"@
    ||| i + 1 < w.len() && w[i] == "non"@ && w[i + 1] == "fatal"@
}

/// The text says that discarding errors is intentional: best-effort or
/// non-fatal work, or errors that are ignored or swallowed on purpose.
pub open spec fn spec_intentional_note(text: Seq<char>) -> bool {
    exists|i: int| 0 <= i < words(text).len() && #[trigger] intent_at(words(text), i)
}

/// Whether a comment or doc text says that discarding errors is intentional.
pub fn intentional_note(text: &str) -> (r: bool)
    ensures
        r == spec_intentional_note(text@),
{
    proof {
        reveal_strlit("ignore");
        reveal_strlit("ignores");
        reveal_strlit("ignored");
        reveal_strlit("ignoring");
        reveal_strlit("swallow");
        reveal_strlit("swallows");
        reveal_strlit("swallowed");
        reveal_strlit("swallowing");
        reveal_strlit("intentional");
        reveal_strlit("intentionally");
        reveal_strlit("best");
        reveal_strlit("effort");
        reveal_strlit("non");
        reveal_strlit("fatal");
    }
    let w = text_words(text);
    let ghost ws = words(text@);
    let mut i: usize = 0;
    while i < w.len()
        invariant
            ws == words(text@),
            w@.len() == ws.len(),
            forall|j: int| 0 <= j < w@.len() ==> #[trigger] w@[j]@ == ws[j],
            i <= w@.len(),
            forall|j: int| 0 <= j < i ==> !#[trigger] intent_at(ws, j),
        decreases w@.len() - i,
    {
        let x = &w[i];
        let single = word_is(x, "ignore") || word_is(x, "ignores") || word_is(x, "ignored")
            || word_is(x, "ignoring") || word_is(x, "swallow") || word_is(x, "swallows")
            || word_is(x, "swallowed") || word_is(x, "swallowing") || word_is(x, "intentional")
            || word_is(x, "intentionally");
        let pair = i + 1 < w.len() && ((word_is(x, "best") && word_is(&w[i + 1], "effort")) || (
        word_is(x, "non") && word_is(&w[i + 1], "fatal")));
        assert(x@ == ws[i as int]);
        if i + 1 < w.len() {
            assert(w@[i + 1]@ == ws[i + 1]);
        }
        if single || pair {
            assert(intent_at(ws, i as int));
            return true;
        }
        assert(!intent_at(ws, i as int));
        i = i + 1;
    }
    false
}

/// The token ends of a source text; none where it does not lex.
pub open spec fn code_token_ends(code: Seq<char>) -> Seq<(usize, usize)> {
    match crate::tokens::lexed_tokens(code) {
        Some(t) => crate::tokens::token_ends_of(t),
        None => Seq::empty(),
    }
}

impl SourceNotes {
    /// The notes of a source text, with the token ends its lexing gives.
    pub fn from_code(code: &str) -> (r: Self)
        ensures
            r.wf(),
            r.chars@ == code@,
            r.ends@.len() == code_token_ends(code@).len(),
            forall|i: int| 0 <= i < r.ends@.len() ==> #[trigger] r.ends@[i] == spec_offset(
                code@,
                line_starts(code@),
                code_token_ends(code@)[i].0,
                code_token_ends(code@)[i].1,
            ),
    {
        let ends = match crate::tokens::lex(code) {
            Some(t) => crate::tokens::token_ends(&t),
            None => Vec::new(),
        };
        assert(ends@ == code_token_ends(code@));
        SourceNotes::new(code, &ends)
    }
}

} // verus!
