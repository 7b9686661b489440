//! Replacement lines for the few findings whose rewrite is unambiguous.
use vstd::prelude::*;
use crate::domain::{FindingConfidence, Smell};
use crate::lifetimes::{elidable, spec_elidable, FnLifetimes};
use crate::signature::{line_function, spec_line_function};
use crate::tokens::{call_counts, chars_counts_in, clone_calls_in, lex, lexed_tokens};
use crate::text::{
    chars_of, count_matches, extend, find_from, is_ascii_alnum, is_whitespace, replace_all,
    replace_vec, slice_of, spec_ascii_alnum, spec_count, spec_find_from, spec_is_whitespace,
    str_eq, string_of, trim, trim_start, trim_start_vec, trim_vec,
};

verus! {

/// What a parser establishes about the line of a finding.
pub struct LineSyntax {
    /// Zero-argument `.clone()` method calls in the line parsed as a block,
    /// or `None` when it does not parse.
    pub clone_calls: Option<usize>,
    /// Zero-argument `.count()` calls on a zero-argument `.chars()` call in
    /// the line parsed as a block, or `None` when it does not parse.
    pub chars_count_calls: Option<usize>,
    /// The lifetimes of the line parsed as a function item (or as a signature
    /// followed by an empty body), or `None` when it reads as neither.
    pub function: Option<FnLifetimes>,
}

/// Whether `syn::parse_str::<syn::Block>` accepts a text.
pub uninterp spec fn parses_as_block_text(text: Seq<char>) -> bool;

/// `syn::parse_str::<syn::Block>`: whether the text parses as a block.
#[verifier::external_body]
fn parses_as_block(text: &str) -> (r: bool)
    ensures
        r == parses_as_block_text(text@),
{
    syn::parse_str::<syn::Block>(text).is_ok()
}

/// A line as the only content of a block: `{`, the line and `}`, each on a
/// line of its own.
pub open spec fn block_of(line: Seq<char>) -> Seq<char> {
    seq!['{', '\n'] + line + seq!['\n', '}']
}

/// Whether the line parses as the body of a block.
pub open spec fn line_parses_as_block(line: Seq<char>) -> bool {
    parses_as_block_text(block_of(line))
}

fn block_text(line: &str) -> (r: String)
    ensures
        r@ == block_of(line@),
{
    let mut v: Vec<char> = Vec::new();
    v.push('{');
    v.push('\n');
    extend(&mut v, &chars_of(line));
    v.push('\n');
    v.push('}');
    assert(v@ =~= block_of(line@));
    string_of(v.as_slice())
}

/// What the line establishes: when it parses as the body of a block, its
/// `.clone()` calls and `.chars().count()` chains in parsed code; when it
/// reads as a function item, its lifetimes.
pub open spec fn spec_line_syntax(line: Seq<char>) -> LineSyntax {
    let function = spec_line_function(line);
    match lexed_tokens(line) {
        Some(t) => if line_parses_as_block(line) {
            LineSyntax {
                clone_calls: Some(clone_calls_in(t, t.len() as int) as usize),
                chars_count_calls: Some(chars_counts_in(t, t.len() as int) as usize),
                function,
            }
        } else {
            LineSyntax { clone_calls: None, chars_count_calls: None, function }
        },
        None => LineSyntax { clone_calls: None, chars_count_calls: None, function },
    }
}

/// What a line establishes.
pub fn line_syntax(line: &str) -> (r: LineSyntax)
    ensures
        r == spec_line_syntax(line@),
{
    let function = line_function(line);
    match lex(line) {
        Some(t) => if parses_as_block(block_text(line).as_str()) {
            let (clones, counts) = call_counts(&t);
            LineSyntax { clone_calls: Some(clones), chars_count_calls: Some(counts), function }
        } else {
            LineSyntax { clone_calls: None, chars_count_calls: None, function }
        },
        None => LineSyntax { clone_calls: None, chars_count_calls: None, function },
    }
}

pub open spec fn clone_pat() -> Seq<char> {
    seq!['.', 'c', 'l', 'o', 'n', 'e', '(', ')']
}

pub open spec fn chars_count_pat() -> Seq<char> {
    seq!['.', 'c', 'h', 'a', 'r', 's', '(', ')', '.', 'c', 'o', 'u', 'n', 't', '(', ')']
}

pub open spec fn is_empty_call() -> Seq<char> {
    seq!['.', 'i', 's', '_', 'e', 'm', 'p', 't', 'y', '(', ')']
}

/// The line without its single `.clone()` call.
pub open spec fn spec_remove_clone(s: Seq<char>, clone_calls: Option<usize>) -> Option<Seq<char>> {
    if clone_calls == Some(1usize) && spec_count(s, clone_pat()) == 1 {
        match spec_find_from(s, clone_pat(), 0) {
            Some(k) => Some(s.take(k) + s.skip(k + 8)),
            None => None,
        }
    } else {
        None
    }
}

pub open spec fn spec_is_receiver_char(c: char) -> bool {
    spec_ascii_alnum(c) || c == '_' || c == ':' || c == '.'
}

/// Where the receiver ending at `j` starts: after the last character before
/// `j` that cannot belong to a path or field chain.
pub open spec fn receiver_start_at(s: Seq<char>, j: int) -> int
    decreases j,
{
    if 0 < j <= s.len() && spec_is_receiver_char(s[j - 1]) {
        receiver_start_at(s, j - 1)
    } else {
        j
    }
}

/// Trying one comparison operator on the trimmed tail: `None` to try the
/// next operator, `Some(None)` to give up, `Some(Some(..))` on success.
pub open spec fn tail_after(r: Seq<char>, op: Seq<char>, negated: bool) -> Option<
    Option<(bool, Seq<char>)>,
> {
    if !(r.len() >= op.len() && r.take(op.len() as int) == op) {
        None
    } else {
        let a = trim_start(r.skip(op.len() as int));
        if !(a.len() > 0 && a[0] == '0') {
            None
        } else {
            let z = a.skip(1);
            if z.len() > 0 && (spec_ascii_alnum(z[0]) || z[0] == '_' || z[0] == '.') {
                Some(None)
            } else {
                Some(Some((negated, z)))
            }
        }
    }
}

/// A comparison of the count with a literal zero that means (non)emptiness:
/// whether it is negated, and the text after the zero.
pub open spec fn spec_empty_check_tail(rest: Seq<char>) -> Option<(bool, Seq<char>)> {
    let r = trim_start(rest);
    match tail_after(r, seq!['=', '='], false) {
        Some(x) => x,
        None => match tail_after(r, seq!['!', '='], true) {
            Some(x) => x,
            None => match tail_after(r, seq!['>'], true) {
                Some(x) => x,
                None => None,
            },
        },
    }
}

pub open spec fn spec_rewrite_empty_check(s: Seq<char>) -> Option<Seq<char>> {
    match spec_find_from(s, chars_count_pat(), 0) {
        None => None,
        Some(cs) => {
            let rs = receiver_start_at(s, cs);
            if rs >= cs {
                None
            } else {
                let receiver = trim(s.subrange(rs, cs));
                if receiver.len() == 0 {
                    None
                } else {
                    match spec_empty_check_tail(s.skip(cs + 16)) {
                        None => None,
                        Some((negated, trailing)) => Some(
                            s.take(rs) + (if negated {
                                seq!['!']
                            } else {
                                seq![]
                            }) + receiver + is_empty_call() + trailing,
                        ),
                    }
                }
            }
        },
    }
}

pub open spec fn spec_rewrite_chars_count(s: Seq<char>, counts: Option<usize>) -> Option<Seq<char>> {
    if counts == Some(1usize) && spec_count(s, chars_count_pat()) == 1 {
        spec_rewrite_empty_check(s)
    } else {
        None
    }
}

/// A single lifetime parameter without bounds: `'` and a nonempty name.
pub open spec fn spec_single_lifetime(v: Seq<char>) -> bool {
    &&& v.len() >= 2
    &&& v[0] == '\''
    &&& forall|i: int| 1 <= i < v.len() ==> spec_ascii_alnum(#[trigger] v[i]) || v[i] == '_'
}

pub open spec fn spec_elide(s: Seq<char>, f: Option<FnLifetimes>) -> Option<Seq<char>> {
    match f {
        None => None,
        Some(f) => if !spec_elidable(f) {
            None
        } else {
            match spec_find_from(s, seq!['f', 'n', ' '], 0) {
                None => None,
                Some(fs) => match spec_find_from(s, seq!['<'], fs) {
                    None => None,
                    Some(gs) => match spec_find_from(s, seq!['>'], gs) {
                        None => None,
                        Some(ge) => match spec_find_from(s, seq!['('], fs) {
                            None => None,
                            Some(ps) => if gs > ps {
                                None
                            } else {
                                let lt = trim(s.subrange(gs + 1, ge));
                                if !spec_single_lifetime(lt) {
                                    None
                                } else {
                                    let rewritten = s.take(gs) + s.skip(ge + 1);
                                    let a = replace_all(
                                        rewritten,
                                        seq!['&'] + lt + seq![' ', 'm', 'u', 't', ' '],
                                        seq!['&', 'm', 'u', 't', ' '],
                                    );
                                    Some(replace_all(a, seq!['&'] + lt + seq![' '], seq!['&']))
                                }
                            },
                        },
                    },
                },
            }
        },
    }
}

/// The replacement line for a finding, when one is supported: only
/// high-confidence Clone on Copy / Clone Before Move (one `.clone()`),
/// Chars Count Length Check (an emptiness comparison) and Needless Explicit
/// Lifetime findings get one.
pub open spec fn spec_suggested_line(
    code: Seq<char>,
    confidence: FindingConfidence,
    s: Seq<char>,
    syntax: LineSyntax,
) -> Option<Seq<char>> {
    if confidence != FindingConfidence::High {
        None
    } else if code == seq!['Q', '0', '0', '5', '8'] || code == seq!['Q', '0', '0', '6', '4'] {
        spec_remove_clone(s, syntax.clone_calls)
    } else if code == seq!['Q', '0', '0', '6', '0'] {
        spec_rewrite_chars_count(s, syntax.chars_count_calls)
    } else if code == seq!['Q', '0', '0', '7', '6'] {
        spec_elide(s, syntax.function)
    } else {
        None
    }
}

fn remove_clone_call(s: &Vec<char>, clone_calls: Option<usize>) -> (r: Option<Vec<char>>)
    ensures
        r matches Some(v) ==> spec_remove_clone(s@, clone_calls) == Some(v@),
        r is None ==> spec_remove_clone(s@, clone_calls) is None,
{
    let pat = vec!['.', 'c', 'l', 'o', 'n', 'e', '(', ')'];
    assert(pat@ =~= clone_pat());
    if clone_calls != Some(1usize) || count_matches(s, &pat) != 1 {
        return None;
    }
    match find_from(s, &pat, 0) {
        Some(k) => {
            let n = s.len();
            assert(k + 8 <= n);
            let mut out = slice_of(s, 0, k);
            let rest = slice_of(s, k + 8, s.len());
            extend(&mut out, &rest);
            assert(out@ =~= s@.take(k as int) + s@.skip(k + 8));
            Some(out)
        },
        None => None,
    }
}

pub fn is_receiver_char(c: char) -> (r: bool)
    ensures
        r == spec_is_receiver_char(c),
{
    is_ascii_alnum(c) || c == '_' || c == ':' || c == '.'
}

/// The start of the receiver that ends at `end`, when it is nonempty.
pub fn receiver_start(s: &Vec<char>, end: usize) -> (r: Option<usize>)
    requires
        end <= s@.len(),
    ensures
        r matches Some(k) ==> k == receiver_start_at(s@, end as int) && k < end,
        r is None ==> receiver_start_at(s@, end as int) >= end,
{
    let mut j = end;
    while j > 0 && is_receiver_char(s[j - 1])
        invariant
            j <= end <= s@.len(),
            receiver_start_at(s@, j as int) == receiver_start_at(s@, end as int),
        decreases j,
    {
        j = j - 1;
    }
    if j < end {
        Some(j)
    } else {
        None
    }
}

fn starts_with(r: &Vec<char>, op: &Vec<char>) -> (b: bool)
    ensures
        b == (r@.len() >= op@.len() && r@.take(op@.len() as int) == op@),
{
    if r.len() < op.len() {
        return false;
    }
    let head = slice_of(r, 0, op.len());
    assert(head@ =~= r@.take(op@.len() as int));
    crate::text::seq_eq(&head, op)
}

fn try_operator(r: &Vec<char>, op: &Vec<char>, negated: bool) -> (t: Option<Option<(bool, Vec<char>)>>)
    ensures
        t matches None ==> tail_after(r@, op@, negated) is None,
        t matches Some(None) ==> tail_after(r@, op@, negated) == Some(None::<(bool, Seq<char>)>),
        t matches Some(Some((n, z))) ==> tail_after(r@, op@, negated) == Some(Some((n, z@))),
{
    if !starts_with(r, op) {
        return None;
    }
    let rest = slice_of(r, op.len(), r.len());
    assert(rest@ =~= r@.skip(op@.len() as int));
    let a = trim_start_vec(&rest);
    if !(a.len() > 0 && a[0] == '0') {
        return None;
    }
    let z = slice_of(&a, 1, a.len());
    assert(z@ =~= a@.skip(1));
    if z.len() > 0 && (is_ascii_alnum(z[0]) || z[0] == '_' || z[0] == '.') {
        Some(None)
    } else {
        Some(Some((negated, z)))
    }
}

fn empty_check_tail(rest: &Vec<char>) -> (t: Option<(bool, Vec<char>)>)
    ensures
        t matches Some((n, z)) ==> spec_empty_check_tail(rest@) == Some((n, z@)),
        t is None ==> spec_empty_check_tail(rest@) is None,
{
    let r = trim_start_vec(rest);
    let ops: Vec<(Vec<char>, bool)> = vec![(vec!['=', '='], false), (vec!['!', '='], true), (vec!['>'], true)];
    assert(ops@[0].0@ =~= seq!['=', '=']);
    assert(ops@[1].0@ =~= seq!['!', '=']);
    assert(ops@[2].0@ =~= seq!['>']);
    match try_operator(&r, &ops[0].0, ops[0].1) {
        Some(x) => return x,
        None => {},
    }
    match try_operator(&r, &ops[1].0, ops[1].1) {
        Some(x) => return x,
        None => {},
    }
    match try_operator(&r, &ops[2].0, ops[2].1) {
        Some(x) => return x,
        None => {},
    }
    None
}

fn rewrite_chars_count_empty_check(s: &Vec<char>) -> (r: Option<Vec<char>>)
    ensures
        r matches Some(v) ==> spec_rewrite_empty_check(s@) == Some(v@),
        r is None ==> spec_rewrite_empty_check(s@) is None,
{
    let pat = vec!['.', 'c', 'h', 'a', 'r', 's', '(', ')', '.', 'c', 'o', 'u', 'n', 't', '(', ')'];
    assert(pat@ =~= chars_count_pat());
    let cs = match find_from(s, &pat, 0) {
        Some(k) => k,
        None => return None,
    };
    let n = s.len();
    assert(cs + 16 <= n);
    let rs = match receiver_start(s, cs) {
        Some(k) => k,
        None => return None,
    };
    let raw = slice_of(s, rs, cs);
    let receiver = trim_vec(&raw);
    if receiver.len() == 0 {
        return None;
    }
    let rest = slice_of(s, cs + 16, s.len());
    assert(rest@ =~= s@.skip(cs + 16));
    let (negated, trailing) = match empty_check_tail(&rest) {
        Some(t) => t,
        None => return None,
    };
    let mut out = slice_of(s, 0, rs);
    let ghost head = out@;
    if negated {
        out.push('!');
    }
    extend(&mut out, &receiver);
    let call = vec!['.', 'i', 's', '_', 'e', 'm', 'p', 't', 'y', '(', ')'];
    assert(call@ =~= is_empty_call());
    extend(&mut out, &call);
    extend(&mut out, &trailing);
    assert(out@ =~= head + (if negated {
        seq!['!']
    } else {
        seq![]
    }) + receiver@ + is_empty_call() + trailing@);
    Some(out)
}

fn rewrite_chars_count(s: &Vec<char>, counts: Option<usize>) -> (r: Option<Vec<char>>)
    ensures
        r matches Some(v) ==> spec_rewrite_chars_count(s@, counts) == Some(v@),
        r is None ==> spec_rewrite_chars_count(s@, counts) is None,
{
    let pat = vec!['.', 'c', 'h', 'a', 'r', 's', '(', ')', '.', 'c', 'o', 'u', 'n', 't', '(', ')'];
    assert(pat@ =~= chars_count_pat());
    if counts != Some(1usize) || count_matches(s, &pat) != 1 {
        return None;
    }
    rewrite_chars_count_empty_check(s)
}

pub fn is_single_lifetime_param(v: &Vec<char>) -> (r: bool)
    ensures
        r == spec_single_lifetime(v@),
{
    if v.len() < 2 || v[0] != '\'' {
        return false;
    }
    let mut i: usize = 1;
    while i < v.len()
        invariant
            1 <= i <= v@.len(),
            forall|j: int| 1 <= j < i ==> spec_ascii_alnum(#[trigger] v@[j]) || v@[j] == '_',
        decreases v@.len() - i,
    {
        if !(is_ascii_alnum(v[i]) || v[i] == '_') {
            return false;
        }
        i = i + 1;
    }
    true
}

fn elide_lifetime(s: &Vec<char>, f: &Option<FnLifetimes>) -> (r: Option<Vec<char>>)
    ensures
        r matches Some(v) ==> spec_elide(s@, *f) == Some(v@),
        r is None ==> spec_elide(s@, *f) is None,
{
    match f {
        None => return None,
        Some(f) => {
            if !elidable(f) {
                return None;
            }
        },
    }
    let fn_pat = vec!['f', 'n', ' '];
    let lt_open = vec!['<'];
    let lt_close = vec!['>'];
    let paren = vec!['('];
    assert(fn_pat@ =~= seq!['f', 'n', ' ']);
    assert(lt_open@ =~= seq!['<']);
    assert(lt_close@ =~= seq!['>']);
    assert(paren@ =~= seq!['(']);
    let fs = match find_from(s, &fn_pat, 0) {
        Some(k) => k,
        None => return None,
    };
    let gs = match find_from(s, &lt_open, fs) {
        Some(k) => k,
        None => return None,
    };
    let ge = match find_from(s, &lt_close, gs) {
        Some(k) => k,
        None => return None,
    };
    let ps = match find_from(s, &paren, fs) {
        Some(k) => k,
        None => return None,
    };
    if gs > ps {
        return None;
    }
    assert(s@[gs as int] == '<');
    assert(ge != gs) by {
        if ge == gs {
            assert(s@.subrange(ge as int, ge + 1)[0] == '>');
        }
    }
    let n = s.len();
    assert(ge < n);
    let raw = slice_of(s, gs + 1, ge);
    let lt = trim_vec(&raw);
    if !is_single_lifetime_param(&lt) {
        return None;
    }
    let mut rewritten = slice_of(s, 0, gs);
    let tail = slice_of(s, ge + 1, s.len());
    extend(&mut rewritten, &tail);
    assert(rewritten@ =~= s@.take(gs as int) + s@.skip(ge + 1));
    let mut from_mut = vec!['&'];
    extend(&mut from_mut, &lt);
    let mut_suffix = vec![' ', 'm', 'u', 't', ' '];
    extend(&mut from_mut, &mut_suffix);
    let to_mut = vec!['&', 'm', 'u', 't', ' '];
    assert(from_mut@ =~= seq!['&'] + lt@ + seq![' ', 'm', 'u', 't', ' ']);
    assert(to_mut@ =~= seq!['&', 'm', 'u', 't', ' ']);
    let a = replace_vec(&rewritten, &from_mut, &to_mut);
    let mut from_ref = vec!['&'];
    extend(&mut from_ref, &lt);
    from_ref.push(' ');
    let to_ref = vec!['&'];
    assert(from_ref@ =~= seq!['&'] + lt@ + seq![' ']);
    assert(to_ref@ =~= seq!['&']);
    Some(replace_vec(&a, &from_ref, &to_ref))
}

fn code_is(code: &String, a: char, b: char) -> (r: bool)
    ensures
        r == (code@ == seq!['Q', '0', '0', a, b]),
{
    let c = chars_of(code.as_str());
    let want = vec!['Q', '0', '0', a, b];
    assert(want@ =~= seq!['Q', '0', '0', a, b]);
    crate::text::seq_eq(&c, &want)
}

/// The replacement for the finding's source line `line`, when the rewrite is
/// supported.
pub fn suggested_line_for(smell: &Smell, line: &str) -> (r: Option<String>)
    ensures
        r matches Some(v) ==> spec_suggested_line(
            smell.code@,
            smell.confidence,
            line@,
            spec_line_syntax(line@),
        ) == Some(v@),
        r is None ==> spec_suggested_line(
            smell.code@,
            smell.confidence,
            line@,
            spec_line_syntax(line@),
        ) is None,
{
    let syntax = line_syntax(line);
    rewrite_line(smell, line, &syntax)
}

fn rewrite_line(smell: &Smell, line: &str, syntax: &LineSyntax) -> (r: Option<String>)
    ensures
        r matches Some(v) ==> spec_suggested_line(smell.code@, smell.confidence, line@, *syntax)
            == Some(v@),
        r is None ==> spec_suggested_line(smell.code@, smell.confidence, line@, *syntax) is None,
{
    if smell.confidence != FindingConfidence::High {
        return None;
    }
    let s = chars_of(line);
    let result = if code_is(&smell.code, '5', '8') || code_is(&smell.code, '6', '4') {
        remove_clone_call(&s, syntax.clone_calls)
    } else if code_is(&smell.code, '6', '0') {
        rewrite_chars_count(&s, syntax.chars_count_calls)
    } else if code_is(&smell.code, '7', '6') {
        elide_lifetime(&s, &syntax.function)
    } else {
        None
    };
    match result {
        Some(v) => Some(string_of(v.as_slice())),
        None => None,
    }
}

/// A suggestion is only offered when it changes more than surrounding whitespace.
pub open spec fn spec_suggested_code(
    code: Seq<char>,
    confidence: FindingConfidence,
    line: Seq<char>,
    syntax: LineSyntax,
) -> Option<Seq<char>> {
    match spec_suggested_line(code, confidence, line, syntax) {
        Some(suggestion) => if trim(suggestion) != trim(line) {
            Some(suggestion)
        } else {
            None
        },
        None => None,
    }
}

/// The replacement for the finding's source line `line`, when supported and
/// different from the line.
pub fn suggested_code(smell: &Smell, line: &str) -> (r: Option<String>)
    ensures
        r matches Some(v) ==> spec_suggested_code(
            smell.code@,
            smell.confidence,
            line@,
            spec_line_syntax(line@),
        ) == Some(v@),
        r is None ==> spec_suggested_code(
            smell.code@,
            smell.confidence,
            line@,
            spec_line_syntax(line@),
        ) is None,
{
    let suggestion = match suggested_line_for(smell, line) {
        Some(v) => v,
        None => return None,
    };
    let a = chars_of(suggestion.as_str());
    let b = chars_of(line);
    let ta = trim_vec(&a);
    let tb = trim_vec(&b);
    if crate::text::seq_eq(&ta, &tb) {
        None
    } else {
        Some(suggestion)
    }
}

/// A line without a trailing carriage return.
pub open spec fn strip_cr(l: Seq<char>) -> Seq<char> {
    if l.len() > 0 && l.last() == '\r' {
        l.drop_last()
    } else {
        l
    }
}

/// `str::lines`: split at `\n`, each line without its `\r\n` or `\n`
/// ending; a final line ending adds no empty line.
pub open spec fn spec_lines(s: Seq<char>) -> Seq<Seq<char>>
    decreases s.len(),
{
    if s.len() == 0 {
        seq![]
    } else {
        match spec_find_from(s, seq!['\n'], 0) {
            None => seq![s],
            Some(k) => if 0 <= k < s.len() {
                seq![strip_cr(s.take(k))] + spec_lines(s.skip(k + 1))
            } else {
                seq![]
            },
        }
    }
}

/// The 1-based line `line_start` of a source text.
pub open spec fn spec_source_line(source: Seq<char>, line_start: int) -> Option<Seq<char>> {
    if 1 <= line_start <= spec_lines(source).len() {
        Some(spec_lines(source)[line_start - 1])
    } else {
        None
    }
}

pub fn source_line(source: &str, line_start: usize) -> (r: Option<String>)
    ensures
        r matches Some(v) ==> spec_source_line(source@, line_start as int) == Some(v@),
        r is None ==> spec_source_line(source@, line_start as int) is None,
{
    if line_start == 0 {
        return None;
    }
    let all = chars_of(source);
    let newline = vec!['\n'];
    assert(newline@ =~= seq!['\n']);
    let mut rest = all;
    let mut n: usize = 1;
    while rest.len() > 0
        invariant
            1 <= n <= line_start,
            newline@ =~= seq!['\n'],
            spec_source_line(source@, line_start as int) == spec_source_line_from(rest@, line_start - n + 1),
        decreases rest@.len(),
    {
        let k = match find_from(&rest, &newline, 0) {
            Some(k) => k,
            None => {
                if n == line_start {
                    return Some(string_of(rest.as_slice()));
                }
                return None;
            },
        };
        let line = slice_of(&rest, 0, k);
        let mut kept = line;
        if kept.len() > 0 && kept[kept.len() - 1] == '\r' {
            let m = kept.len() - 1;
            kept = slice_of(&kept, 0, m);
            assert(kept@ =~= line@.drop_last());
        }
        if n == line_start {
            return Some(string_of(kept.as_slice()));
        }
        let next = slice_of(&rest, k + 1, rest.len());
        assert(next@ =~= rest@.skip(k + 1));
        rest = next;
        n = n + 1;
    }
    None
}

/// Line `i` (1-based) of the lines of `s`.
pub open spec fn spec_source_line_from(s: Seq<char>, i: int) -> Option<Seq<char>> {
    if 1 <= i <= spec_lines(s).len() {
        Some(spec_lines(s)[i - 1])
    } else {
        None
    }
}

/// The number of lines of a source text, as `str::lines` counts them.
pub fn line_count(source: &str) -> (r: usize)
    ensures
        r == spec_lines(source@).len(),
{
    let all = chars_of(source);
    let newline = vec!['\n'];
    assert(newline@ =~= seq!['\n']);
    let total = all.len();
    let mut rest = all;
    let mut n: usize = 0;
    while rest.len() > 0
        invariant
            newline@ =~= seq!['\n'],
            n <= total - rest@.len(),
            rest@.len() <= total,
            n + spec_lines(rest@).len() == spec_lines(source@).len(),
        decreases rest@.len(),
    {
        let k = match find_from(&rest, &newline, 0) {
            Some(k) => k,
            None => {
                return n + 1;
            },
        };
        let next = slice_of(&rest, k + 1, rest.len());
        assert(next@ =~= rest@.skip(k + 1));
        rest = next;
        n = n + 1;
    }
    n
}

} // verus!
