//! A source text as `proc_macro2` lexes it, one model per token tree, and
//! what the library reads from those tokens.
use vstd::prelude::*;
use proc_macro2::{TokenStream, TokenTree};
use crate::text::str_eq;

verus! {

/// One token tree, in the order of a depth-first walk: a group comes before
/// the trees inside it.
pub struct TokenModel {
    /// How many groups enclose it, plus one.
    pub depth: usize,
    /// Its text as `proc_macro2` prints it: an identifier, a punctuation
    /// character or a literal as written; a group with its delimiters.
    pub text: String,
    /// Where it ends; a group ends with its closing delimiter.
    pub end: (usize, usize),
    /// For a group, where its opening delimiter ends.
    pub open_end: Option<(usize, usize)>,
}

#[verifier::external_type_specification]
#[verifier::external_body]
pub struct ExTokenStream(TokenStream);

/// A token tree of a stream, as `proc_macro2` gives it: its text as it
/// prints, where it ends and, for a group, where its opening delimiter ends
/// and the stream between its delimiters.
pub enum TreeModel {
    Group { text: String, open_end: (usize, usize), end: (usize, usize), inner: TokenStream },
    Leaf { text: String, end: (usize, usize) },
}

/// What `proc_macro2::TokenStream`'s `FromStr` lexes from a text; `None`
/// where the text does not lex.
pub uninterp spec fn lexed_stream(code: Seq<char>) -> Option<TokenStream>;

/// The token trees directly inside a stream, in order.
pub uninterp spec fn stream_trees(s: TokenStream) -> Seq<TreeModel>;

/// `proc_macro2::TokenStream`'s `FromStr`.
#[verifier::external_body]
fn lex_stream(code: &str) -> (r: Option<TokenStream>)
    ensures
        r == lexed_stream(code@),
{
    code.parse::<TokenStream>().ok()
}

/// `proc_macro2::TokenStream`'s `IntoIterator`, each token tree converted
/// into a `TreeModel`.
#[verifier::external_body]
fn trees(s: &TokenStream) -> (r: Vec<TreeModel>)
    ensures
        r@ == stream_trees(*s),
{
    s.clone().into_iter().map(|t| match t {
        TokenTree::Group(g) => TreeModel::Group {
            text: g.to_string(),
            open_end: (g.span_open().end().line, g.span_open().end().column),
            end: (g.span().end().line, g.span().end().column),
            inner: g.stream(),
        },
        t => TreeModel::Leaf { text: t.to_string(), end: (t.span().end().line, t.span().end().column) },
    }).collect()
}

/// One token tree as a `TokenModel` at `depth`.
pub open spec fn tree_token(t: TreeModel, depth: usize) -> TokenModel {
    match t {
        TreeModel::Group { text, open_end, end, .. } => TokenModel { depth, text, end, open_end: Some(open_end) },
        TreeModel::Leaf { text, end } => TokenModel { depth, text, end, open_end: None },
    }
}

/// The token trees `ts` and everything inside them, depth first: a group
/// comes before the trees inside it. `fuel` bounds how many levels of
/// groups are entered.
pub open spec fn flat_trees(ts: Seq<TreeModel>, depth: usize, fuel: nat) -> Seq<TokenModel>
    decreases fuel, ts.len(),
{
    if ts.len() == 0 {
        Seq::empty()
    } else {
        flat_trees(ts.drop_last(), depth, fuel) + seq![tree_token(ts.last(), depth)] + match ts.last() {
            TreeModel::Group { inner, .. } => if fuel > 0 {
                flat_trees(stream_trees(inner), (depth + 1) as usize, (fuel - 1) as nat)
            } else {
                Seq::empty()
            },
            TreeModel::Leaf { .. } => Seq::empty(),
        }
    }
}

/// The token trees of a text, depth first; groups nest at most half as deep
/// as the text is long. `None` where the text does not lex.
pub open spec fn lexed_tokens(code: Seq<char>) -> Option<Seq<TokenModel>> {
    match lexed_stream(code) {
        Some(s) => Some(flat_trees(stream_trees(s), 1, code.len() / 2)),
        None => None,
    }
}

fn flatten(s: &TokenStream, depth: usize, fuel: usize, out: &mut Vec<TokenModel>)
    requires
        depth + fuel < usize::MAX,
    ensures
        final(out)@ == old(out)@ + flat_trees(stream_trees(*s), depth, fuel as nat),
    decreases fuel,
{
    let ts = trees(s);
    let ghost start = out@;
    let mut i: usize = 0;
    assert(ts@.take(0) =~= Seq::<TreeModel>::empty());
    assert(start + flat_trees(Seq::<TreeModel>::empty(), depth, fuel as nat) =~= start);
    while i < ts.len()
        invariant
            i <= ts@.len(),
            depth + fuel < usize::MAX,
            out@ == start + flat_trees(ts@.take(i as int), depth, fuel as nat),
        decreases ts@.len() - i,
    {
        let ghost before = out@;
        assert(ts@.take(i + 1).drop_last() =~= ts@.take(i as int));
        assert(ts@.take(i + 1).last() == ts@[i as int]);
        match &ts[i] {
            TreeModel::Group { text, open_end, end, inner } => {
                out.push(TokenModel { depth, text: text.clone(), end: *end, open_end: Some(*open_end) });
                assert(out@ =~= before + seq![tree_token(ts@[i as int], depth)]);
                if fuel > 0 {
                    flatten(inner, depth + 1, fuel - 1, out);
                }
                assert(out@ =~= start + flat_trees(ts@.take(i + 1), depth, fuel as nat));
            },
            TreeModel::Leaf { text, end } => {
                out.push(TokenModel { depth, text: text.clone(), end: *end, open_end: None });
                assert(out@ =~= start + flat_trees(ts@.take(i + 1), depth, fuel as nat));
            },
        }
        i = i + 1;
    }
    assert(ts@.take(ts@.len() as int) =~= ts@);
}

/// Lexes `code` and lists its token trees depth first.
pub(crate) fn lex(code: &str) -> (r: Option<Vec<TokenModel>>)
    ensures
        match r {
            Some(v) => lexed_tokens(code@) == Some(v@),
            None => lexed_tokens(code@) is None,
        },
{
    match lex_stream(code) {
        Some(s) => {
            let mut out: Vec<TokenModel> = Vec::new();
            let n = crate::text::chars_of(code).len();
            flatten(&s, 1, n / 2, &mut out);
            assert(out@ =~= flat_trees(stream_trees(s), 1, (code@.len() / 2) as nat));
            Some(out)
        },
        None => None,
    }
}

/// The ends that separate a text's tokens: each token's end, preceded for a
/// group by the end of its opening delimiter.
pub open spec fn token_ends_of(t: Seq<TokenModel>) -> Seq<(usize, usize)>
    decreases t.len(),
{
    if t.len() == 0 {
        Seq::empty()
    } else {
        token_ends_of(t.drop_last()) + match t.last().open_end {
            Some(o) => seq![o, t.last().end],
            None => seq![t.last().end],
        }
    }
}

pub fn token_ends(t: &Vec<TokenModel>) -> (r: Vec<(usize, usize)>)
    ensures
        r@ == token_ends_of(t@),
{
    let mut r: Vec<(usize, usize)> = Vec::new();
    let mut i: usize = 0;
    while i < t.len()
        invariant
            i <= t@.len(),
            r@ == token_ends_of(t@.take(i as int)),
        decreases t@.len() - i,
    {
        assert(t@.take(i + 1).drop_last() =~= t@.take(i as int));
        let ghost before = r@;
        match t[i].open_end {
            Some(o) => {
                r.push(o);
                r.push(t[i].end);
                assert(r@ =~= before + seq![o, t@[i as int].end]);
            },
            None => {
                r.push(t[i].end);
                assert(r@ =~= before + seq![t@[i as int].end]);
            },
        }
        i = i + 1;
    }
    assert(t@.take(t@.len() as int) =~= t@);
    r
}

/// A leaf token whose text is `c`: a punctuation character.
pub open spec fn punct_is(t: TokenModel, c: char) -> bool {
    t.open_end is None && t.text@ == seq![c]
}

/// A leaf token whose text is `name`: an identifier.
pub open spec fn ident_is(t: TokenModel, name: Seq<char>) -> bool {
    t.open_end is None && t.text@ == name
}

/// A keyword that can stand before `!` in an expression.
pub open spec fn expression_keyword(w: Seq<char>) -> bool {
    ||| w == "as"@ || w == "break"@ || w == "const"@ || w == "else"@ || w == "for"@
    ||| w == "if"@ || w == "in"@ || w == "let"@ || w == "loop"@ || w == "match"@
    ||| w == "move"@ || w == "mut"@ || w == "ref"@ || w == "return"@ || w == "static"@
    ||| w == "unsafe"@ || w == "while"@ || w == "yield"@
}

/// A leaf token that can name a macro: it starts like an identifier, ends
/// unlike a string or character literal, and is no expression keyword.
pub open spec fn macro_name(t: TokenModel) -> bool {
    &&& t.open_end is None
    &&& t.text@.len() > 0
    &&& (crate::text::spec_ascii_alpha(t.text@[0]) || t.text@[0] == '_')
    &&& t.text@.last() != '"' && t.text@.last() != '#' && t.text@.last() != '\''
    &&& !expression_keyword(t.text@)
}

/// The group at `j` holds tokens that are not parsed as code: the input of
/// a macro invocation (`name!(..)`, `#![..]`) or of an attribute (`#[..]`).
pub open spec fn opens_unparsed(t: Seq<TokenModel>, j: int) -> bool {
    &&& 1 <= j < t.len()
    &&& t[j].open_end is Some
    &&& t[j - 1].depth == t[j].depth
    &&& {
        ||| punct_is(t[j - 1], '#')
        ||| punct_is(t[j - 1], '!') && j >= 2 && t[j - 2].depth == t[j].depth && (macro_name(t[j - 2])
            || punct_is(t[j - 2], '#'))
    }
}

/// Token `i` lies inside a group that holds unparsed tokens.
pub open spec fn unparsed(t: Seq<TokenModel>, i: int) -> bool {
    exists|j: int|
        0 <= j < i && #[trigger] opens_unparsed(t, j) && forall|k: int| j < k <= i ==> t[k].depth > t[j].depth
}

/// A method call `.name()` with no arguments starts at token `i`: a `.`
/// (not the second dot of `..`, which ends right after another dot), the
/// name, and empty parentheses, side by side in parsed code.
pub open spec fn method_call_at(t: Seq<TokenModel>, i: int, name: Seq<char>) -> bool {
    &&& 0 <= i && i + 2 < t.len()
    &&& punct_is(t[i], '.')
    &&& ident_is(t[i + 1], name) && t[i + 1].depth == t[i].depth
    &&& t[i + 2].open_end is Some && t[i + 2].text@ == "()"@ && t[i + 2].depth == t[i].depth
    &&& !(i >= 1 && punct_is(t[i - 1], '.') && t[i - 1].end.0 == t[i].end.0 && t[i - 1].end.1 + 1 == t[i].end.1)
    &&& !unparsed(t, i)
}

/// What token `k` does to the nesting of angle brackets: `<` opens, `>`
/// closes unless it ends a `->`.
pub open spec fn angle_step(t: Seq<TokenModel>, k: int) -> int {
    if punct_is(t[k], '<') {
        1
    } else if punct_is(t[k], '>') && !(k >= 1 && punct_is(t[k - 1], '-')) {
        -1
    } else {
        0
    }
}

/// The angle-bracket nesting after tokens `from` up to `to`, exclusive.
pub open spec fn angle_balance(t: Seq<TokenModel>, from: int, to: int) -> int
    decreases to - from,
{
    if to <= from {
        0
    } else {
        angle_balance(t, from, to - 1) + angle_step(t, to - 1)
    }
}

/// The angle-bracket nesting inside a turbofish starting at `s`, after its
/// tokens up to `k`, exclusive.
pub open spec fn fish_balance(t: Seq<TokenModel>, s: int, k: int) -> int {
    angle_balance(t, s + 2, k)
}

/// Tokens `s` to `c` are a turbofish `::<..>`: the `>` at `c` closes the `<`
/// at `s + 2`, on the level of token `s`.
pub open spec fn turbofish(t: Seq<TokenModel>, s: int, c: int) -> bool {
    &&& 0 <= s && s + 2 < c < t.len()
    &&& punct_is(t[s], ':') && punct_is(t[s + 1], ':') && punct_is(t[s + 2], '<')
    &&& t[s + 1].depth == t[s].depth && t[s + 2].depth == t[s].depth && t[c].depth == t[s].depth
    &&& fish_balance(t, s, c + 1) == 0
    &&& forall|k: int| s + 2 < k <= c ==> #[trigger] fish_balance(t, s, k) > 0
}

/// A `.clone()` call starts at token `i`, with or without a turbofish
/// between the name and the empty parentheses.
pub open spec fn clone_call_at(t: Seq<TokenModel>, i: int) -> bool {
    ||| method_call_at(t, i, "clone"@)
    ||| {
        &&& 0 <= i && i + 1 < t.len()
        &&& punct_is(t[i], '.')
        &&& ident_is(t[i + 1], "clone"@) && t[i + 1].depth == t[i].depth
        &&& !(i >= 1 && punct_is(t[i - 1], '.') && t[i - 1].end.0 == t[i].end.0 && t[i - 1].end.1 + 1 == t[i].end.1)
        &&& !unparsed(t, i)
        &&& t[i + 2].depth == t[i].depth
        &&& exists|c: int| #[trigger] turbofish(t, i + 2, c) && c + 1 < t.len() && t[c + 1].open_end is Some
            && t[c + 1].text@ == "()"@ && t[c + 1].depth == t[i].depth
    }
}

/// `.chars().count()` starts at token `i`.
pub open spec fn chars_count_at(t: Seq<TokenModel>, i: int) -> bool {
    method_call_at(t, i, "chars"@) && method_call_at(t, i + 3, "count"@)
}

/// The `.clone()` calls among the first `n` tokens.
pub open spec fn clone_calls_in(t: Seq<TokenModel>, n: int) -> nat
    decreases n,
{
    if n <= 0 {
        0
    } else {
        clone_calls_in(t, n - 1) + if clone_call_at(t, n - 1) {
            1nat
        } else {
            0nat
        }
    }
}

/// The `.chars().count()` chains among the first `n` tokens.
pub open spec fn chars_counts_in(t: Seq<TokenModel>, n: int) -> nat
    decreases n,
{
    if n <= 0 {
        0
    } else {
        chars_counts_in(t, n - 1) + if chars_count_at(t, n - 1) {
            1nat
        } else {
            0nat
        }
    }
}

fn is_punct(t: &TokenModel, c: char) -> (r: bool)
    ensures
        r == punct_is(*t, c),
{
    if t.open_end.is_some() {
        return false;
    }
    let v = crate::text::chars_of(t.text.as_str());
    v.len() == 1 && v[0] == c && {
        assert(v@ =~= seq![c]);
        true
    }
}

fn is_ident(t: &TokenModel, name: &str) -> (r: bool)
    ensures
        r == ident_is(*t, name@),
{
    t.open_end.is_none() && crate::text::str_eq(t.text.as_str(), name)
}

fn keyword(w: &str) -> (r: bool)
    ensures
        r == expression_keyword(w@),
{
    str_eq(w, "as") || str_eq(w, "break") || str_eq(w, "const") || str_eq(w, "else") || str_eq(w, "for")
        || str_eq(w, "if") || str_eq(w, "in") || str_eq(w, "let") || str_eq(w, "loop") || str_eq(w, "match")
        || str_eq(w, "move") || str_eq(w, "mut") || str_eq(w, "ref") || str_eq(w, "return") || str_eq(
        w,
        "static",
    ) || str_eq(w, "unsafe") || str_eq(w, "while") || str_eq(w, "yield")
}

fn is_macro_name(t: &TokenModel) -> (r: bool)
    ensures
        r == macro_name(*t),
{
    if t.open_end.is_some() {
        return false;
    }
    let v = crate::text::chars_of(t.text.as_str());
    if v.len() == 0 {
        return false;
    }
    let first = v[0];
    let last = v[v.len() - 1];
    (crate::text::is_ascii_alpha(first) || first == '_') && last != '"' && last != '#' && last != '\''
        && !keyword(t.text.as_str())
}

fn opens_unparsed_exec(t: &Vec<TokenModel>, j: usize) -> (r: bool)
    requires
        j < t@.len(),
    ensures
        r == opens_unparsed(t@, j as int),
{
    if j < 1 || t[j].open_end.is_none() || t[j - 1].depth != t[j].depth {
        return false;
    }
    if is_punct(&t[j - 1], '#') {
        return true;
    }
    is_punct(&t[j - 1], '!') && j >= 2 && t[j - 2].depth == t[j].depth && (is_macro_name(&t[j - 2])
        || is_punct(&t[j - 2], '#'))
}

/// Whether token `i` lies inside a group of unparsed tokens.
pub fn unparsed_at(t: &Vec<TokenModel>, i: usize) -> (r: bool)
    requires
        i < t@.len(),
    ensures
        r == unparsed(t@, i as int),
{
    // `m` is the least depth among the tokens after `j` up to `i`.
    let mut m = t[i].depth;
    let mut j = i;
    while j > 0
        invariant
            i < t@.len(),
            j <= i,
            forall|k: int| j <= k <= i ==> t@[k].depth >= m,
            exists|k: int| j <= k <= i && t@[k].depth == m,
            forall|x: int|
                j <= x < i ==> !(#[trigger] opens_unparsed(t@, x) && forall|k: int| x < k <= i ==> t@[k].depth > t@[x].depth),
        decreases j,
    {
        let ghost old_j = j;
        let ghost old_m = m;
        j = j - 1;
        if opens_unparsed_exec(t, j) && m > t[j].depth {
            assert(forall|k: int| j < k <= i ==> t@[k].depth >= old_m);
            return true;
        }
        proof {
            if opens_unparsed(t@, j as int) {
                let w = choose|k: int| old_j <= k <= i && t@[k].depth == old_m;
                assert(!(t@[w].depth > t@[j as int].depth));
            }
        }
        if t[j].depth < m {
            m = t[j].depth;
        }
    }
    false
}

fn method_call_exec(t: &Vec<TokenModel>, i: usize, name: &str) -> (r: bool)
    ensures
        r == method_call_at(t@, i as int, name@),
{
    proof {
        reveal_strlit("()");
    }
    if i >= t.len() || t.len() - i <= 2 {
        return false;
    }
    if !is_punct(&t[i], '.') || !is_ident(&t[i + 1], name) || t[i + 1].depth != t[i].depth {
        return false;
    }
    if t[i + 2].open_end.is_none() || !crate::text::str_eq(t[i + 2].text.as_str(), "()") || t[i + 2].depth
        != t[i].depth {
        return false;
    }
    if i >= 1 && is_punct(&t[i - 1], '.') && t[i - 1].end.0 == t[i].end.0 && t[i].end.1 >= 1 && t[i - 1].end.1
        == t[i].end.1 - 1 {
        return false;
    }
    !unparsed_at(t, i)
}

fn angle_step_exec(t: &Vec<TokenModel>, k: usize) -> (r: i8)
    requires
        k < t@.len(),
    ensures
        r == angle_step(t@, k as int),
{
    if is_punct(&t[k], '<') {
        1
    } else if is_punct(&t[k], '>') && !(k >= 1 && is_punct(&t[k - 1], '-')) {
        -1
    } else {
        0
    }
}

proof fn lemma_turbofish_unique(t: Seq<TokenModel>, s: int, c1: int, c2: int)
    requires
        turbofish(t, s, c1),
        turbofish(t, s, c2),
    ensures
        c1 == c2,
{
    if c1 < c2 {
        assert(fish_balance(t, s, c1 + 1) > 0);
    } else if c2 < c1 {
        assert(fish_balance(t, s, c2 + 1) > 0);
    }
}

/// Where the turbofish starting at token `s` closes, if one does.
fn turbofish_close(t: &Vec<TokenModel>, s: usize) -> (r: Option<usize>)
    ensures
        match r {
            Some(c) => turbofish(t@, s as int, c as int),
            None => forall|c: int| !#[trigger] turbofish(t@, s as int, c),
        },
{
    if s >= t.len() || t.len() - s <= 3 {
        return None;
    }
    if !is_punct(&t[s], ':') || !is_punct(&t[s + 1], ':') || !is_punct(&t[s + 2], '<') || t[s + 1].depth
        != t[s].depth || t[s + 2].depth != t[s].depth {
        return None;
    }
    let ghost from = s + 2;
    assert(angle_balance(t@, from as int, from + 1) == 1) by {
        assert(angle_balance(t@, from as int, from as int) == 0);
    }
    let mut bal: usize = 1;
    let mut j: usize = s + 3;
    while j < t.len()
        invariant
            s + 3 <= j <= t@.len(),
            from == s + 2,
            punct_is(t@[s as int], ':') && punct_is(t@[s + 1], ':') && punct_is(t@[from as int], '<'),
            t@[s + 1].depth == t@[s as int].depth && t@[from as int].depth == t@[s as int].depth,
            bal >= 1,
            bal == fish_balance(t@, s as int, j as int),
            bal <= j,
            forall|k: int| from < k <= j ==> #[trigger] fish_balance(t@, s as int, k) > 0,
        decreases t@.len() - j,
    {
        let step = angle_step_exec(t, j);
        assert(angle_balance(t@, from as int, j + 1) == angle_balance(t@, from as int, j as int) + angle_step(
            t@,
            j as int,
        ));
        if step == 1 {
            bal = bal + 1;
        } else if step == -1 {
            bal = bal - 1;
        }
        if bal == 0 {
            if t[j].depth == t[s].depth {
                return Some(j);
            }
            proof {
                assert forall|c: int| !#[trigger] turbofish(t@, s as int, c) by {
                    if turbofish(t@, s as int, c) {
                        if c < j {
                            assert(fish_balance(t@, s as int, c + 1) > 0);
                        } else if c > j {
                            assert(fish_balance(t@, s as int, j + 1) > 0);
                        }
                    }
                }
            }
            return None;
        }
        j = j + 1;
    }
    proof {
        assert forall|c: int| !#[trigger] turbofish(t@, s as int, c) by {
            if turbofish(t@, s as int, c) {
                assert(fish_balance(t@, s as int, c + 1) > 0);
            }
        }
    }
    None
}

fn clone_call_exec(t: &Vec<TokenModel>, i: usize) -> (r: bool)
    ensures
        r == clone_call_at(t@, i as int),
{
    proof {
        reveal_strlit("()");
        reveal_strlit("clone");
    }
    if method_call_exec(t, i, "clone") {
        return true;
    }
    if i >= t.len() || t.len() - i <= 2 {
        return false;
    }
    if !is_punct(&t[i], '.') || !is_ident(&t[i + 1], "clone") || t[i + 1].depth != t[i].depth || t[i + 2].depth
        != t[i].depth {
        return false;
    }
    if i >= 1 && is_punct(&t[i - 1], '.') && t[i - 1].end.0 == t[i].end.0 && t[i].end.1 >= 1 && t[i - 1].end.1
        == t[i].end.1 - 1 {
        return false;
    }
    if unparsed_at(t, i) {
        return false;
    }
    match turbofish_close(t, i + 2) {
        Some(c) => {
            proof {
                assert forall|c2: int| #[trigger] turbofish(t@, i + 2, c2) implies c2 == c by {
                    lemma_turbofish_unique(t@, i + 2, c as int, c2);
                }
            }
            c + 1 < t.len() && t[c + 1].open_end.is_some() && crate::text::str_eq(t[c + 1].text.as_str(), "()")
                && t[c + 1].depth == t[i].depth
        },
        None => false,
    }
}

/// The `.clone()` calls and the `.chars().count()` chains of a text's tokens.
pub fn call_counts(t: &Vec<TokenModel>) -> (r: (usize, usize))
    ensures
        r.0 == clone_calls_in(t@, t@.len() as int),
        r.1 == chars_counts_in(t@, t@.len() as int),
{
    proof {
        reveal_strlit("clone");
        reveal_strlit("chars");
        reveal_strlit("count");
    }
    let mut clones: usize = 0;
    let mut counts: usize = 0;
    let mut i: usize = 0;
    while i < t.len()
        invariant
            i <= t@.len(),
            clones == clone_calls_in(t@, i as int),
            counts == chars_counts_in(t@, i as int),
            clones <= i,
            counts <= i,
        decreases t@.len() - i,
    {
        if clone_call_exec(t, i) {
            clones = clones + 1;
        }
        if method_call_exec(t, i, "chars") && i + 3 < t.len() && method_call_exec(t, i + 3, "count") {
            counts = counts + 1;
        }
        i = i + 1;
    }
    (clones, counts)
}

} // verus!
