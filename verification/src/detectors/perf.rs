//! Shared evidence of the performance detectors: which names a statement
//! mentions, sort-then-select pairs, and clones moved into a `Vec` on their
//! last use.
use vstd::prelude::*;
use crate::evidence::{
    names_of, spec_ident, ident, Context, ExprList, ExprModel, Kind, LitModel, expr_count,
    first_expr,
};
use crate::text::{chars_of, matches_at, spec_matches_at, str_eq};

verus! {

pub open spec fn word_char(c: char) -> bool {
    c == '_' || crate::text::spec_ascii_alnum(c)
}

/// `ident` is one of the pieces that splitting `tokens` at every character
/// other than `_` and ASCII alphanumerics yields, starting at `i`.
pub open spec fn word_at(tokens: Seq<char>, i: int, ident: Seq<char>) -> bool {
    &&& spec_matches_at(tokens, i, ident)
    &&& (i == 0 || !word_char(tokens[i - 1]))
    &&& (i + ident.len() == tokens.len() || !word_char(tokens[i + ident.len()]))
}

pub open spec fn spec_mentions_word(tokens: Seq<char>, ident: Seq<char>) -> bool {
    exists|i: int| #[trigger] word_at(tokens, i, ident)
}

fn is_word_char(c: char) -> (r: bool)
    ensures
        r == word_char(c),
{
    c == '_' || crate::text::is_ascii_alnum(c)
}

/// Whether a macro's token text mentions an identifier as a whole word.
pub fn macro_tokens_mention_ident(tokens: &str, ident: &str) -> (r: bool)
    ensures
        r == spec_mentions_word(tokens@, ident@),
{
    let t = chars_of(tokens);
    let w = chars_of(ident);
    if w.len() > t.len() {
        assert forall|i: int| !#[trigger] word_at(tokens@, i, ident@) by {}
        return false;
    }
    let last = t.len() - w.len();
    let mut i: usize = 0;
    while i <= last
        invariant
            t@ == tokens@,
            w@ == ident@,
            last == t@.len() - w@.len(),
            i <= last + 1,
            forall|j: int| 0 <= j < i ==> !#[trigger] word_at(tokens@, j, ident@),
        decreases last + 1 - i,
    {
        let before = i == 0 || !is_word_char(t[i - 1]);
        let end = i + w.len();
        let after = end == t.len() || !is_word_char(t[end]);
        if before && after && matches_at(&t, i, &w) {
            assert(word_at(tokens@, i as int, ident@));
            return true;
        }
        if i == last {
            assert forall|j: int| !#[trigger] word_at(tokens@, j, ident@) by {
                if 0 <= j <= last {
                }
            }
            return false;
        }
        i = i + 1;
    }
    false
}

/// What a statement or expression mentions: the single-identifier paths in it
/// and the token text of each macro in it.
pub struct Mentions {
    pub paths: Vec<String>,
    pub macros: Vec<String>,
}

pub open spec fn spec_mentions(m: Mentions, name: Seq<char>) -> bool {
    names_of(m.paths@).contains(name) || exists|k: int|
        0 <= k < m.macros@.len() && #[trigger] spec_mentions_word(m.macros@[k]@, name)
}

pub fn mentions(m: &Mentions, name: &str) -> (r: bool)
    ensures
        r == spec_mentions(*m, name@),
{
    if crate::manifest::contains_name(&m.paths, name) {
        return true;
    }
    let mut k: usize = 0;
    while k < m.macros.len()
        invariant
            k <= m.macros@.len(),
            forall|j: int| 0 <= j < k ==> !#[trigger] spec_mentions_word(m.macros@[j]@, name@),
        decreases m.macros@.len() - k,
    {
        if macro_tokens_mention_ident(m.macros[k].as_str(), name) {
            return true;
        }
        k = k + 1;
    }
    false
}

/// A statement of a block, with what it mentions.
pub enum StmtModel {
    /// `let`: the identifier its pattern binds when it binds just one, its
    /// initializer, and what the initializer and the whole statement mention.
    Local { name: Option<String>, init: Option<ExprModel>, init_mentions: Mentions, mentions: Mentions },
    /// An expression statement; `receiver_mentions` is what the receiver of a
    /// method call expression mentions (nothing for other expressions).
    Expr { expr: ExprModel, semi: bool, receiver_mentions: Mentions, mentions: Mentions },
    /// An item or macro statement.
    Other { mentions: Mentions },
}

pub open spec fn stmt_mentions(s: StmtModel, name: Seq<char>) -> bool {
    match s {
        StmtModel::Local { mentions, .. } => spec_mentions(mentions, name),
        StmtModel::Expr { mentions, .. } => spec_mentions(mentions, name),
        StmtModel::Other { mentions } => spec_mentions(mentions, name),
    }
}

/// A statement mentions `name` other than by declaring it: a `let` that
/// binds `name` counts only where its initializer mentions `name`.
pub open spec fn mentions_except_declaration(s: StmtModel, name: Seq<char>) -> bool {
    match s {
        StmtModel::Local { name: Some(n), init, init_mentions, .. } if n@ == name => init is Some
            && spec_mentions(init_mentions, name),
        _ => stmt_mentions(s, name),
    }
}

fn stmt_mentions_exec(s: &StmtModel, name: &str) -> (r: bool)
    ensures
        r == stmt_mentions(*s, name@),
{
    match s {
        StmtModel::Local { mentions: m, .. } => mentions(m, name),
        StmtModel::Expr { mentions: m, .. } => mentions(m, name),
        StmtModel::Other { mentions: m } => mentions(m, name),
    }
}

fn mentions_except_declaration_exec(s: &StmtModel, name: &str) -> (r: bool)
    ensures
        r == mentions_except_declaration(*s, name@),
{
    match s {
        StmtModel::Local { name: Some(n), init, init_mentions, .. } => {
            if str_eq(n.as_str(), name) {
                init.is_some() && mentions(init_mentions, name)
            } else {
                stmt_mentions_exec(s, name)
            }
        },
        _ => stmt_mentions_exec(s, name),
    }
}

/// No statement of `stmts` before `i` mentions `name` other than by declaring
/// it, and none after `j` mentions it at all.
pub open spec fn unused_around(stmts: Seq<StmtModel>, i: int, j: int, name: Seq<char>) -> bool {
    &&& forall|k: int| 0 <= k < i ==> !#[trigger] mentions_except_declaration(stmts[k], name)
    &&& forall|k: int| j < k < stmts.len() ==> !#[trigger] stmt_mentions(stmts[k], name)
}

fn unused_around_exec(stmts: &Vec<StmtModel>, i: usize, j: usize, name: &str) -> (r: bool)
    requires
        i <= j < stmts@.len(),
    ensures
        r == unused_around(stmts@, i as int, j as int, name@),
{
    let mut k: usize = 0;
    while k < i
        invariant
            i <= j < stmts@.len(),
            k <= i,
            forall|m: int| 0 <= m < k ==> !#[trigger] mentions_except_declaration(stmts@[m], name@),
        decreases i - k,
    {
        if mentions_except_declaration_exec(&stmts[k], name) {
            return false;
        }
        k = k + 1;
    }
    let n = stmts.len();
    let mut k: usize = j + 1;
    while k < n
        invariant
            i <= j < stmts@.len(),
            n == stmts@.len(),
            j < k <= stmts@.len(),
            forall|m: int| 0 <= m < i ==> !#[trigger] mentions_except_declaration(stmts@[m], name@),
            forall|m: int| j < m < k ==> !#[trigger] stmt_mentions(stmts@[m], name@),
        decreases stmts@.len() - k,
    {
        if stmt_mentions_exec(&stmts[k], name) {
            return false;
        }
        k = k + 1;
    }
    true
}

/// The value of an integer literal, possibly parenthesized.
pub open spec fn int_lit_value(e: ExprModel) -> Option<u128>
    decreases e,
{
    match e {
        ExprModel::Lit(LitModel::Int(v)) => v,
        ExprModel::Paren(inner) => int_lit_value(*inner),
        _ => None,
    }
}

pub fn int_lit(e: &ExprModel) -> (r: Option<u128>)
    ensures
        r == int_lit_value(*e),
    decreases e,
{
    match e {
        ExprModel::Lit(LitModel::Int(v)) => *v,
        ExprModel::Paren(inner) => int_lit(inner),
        _ => None,
    }
}

/// An index built from literals, paths and `name.len()` only.
pub open spec fn simple_index(e: ExprModel, name: Seq<char>) -> bool
    decreases e,
{
    match e {
        ExprModel::Lit(_) | ExprModel::Path(_) => true,
        ExprModel::Paren(inner) => simple_index(*inner, name),
        ExprModel::Binary { left, right, .. } => simple_index(*left, name) && simple_index(*right, name),
        ExprModel::MethodCall { receiver, method, args, .. } => method@ == "len"@ && args is Nil
            && spec_ident(*receiver) == Some(name),
        _ => false,
    }
}

fn simple_index_exec(e: &ExprModel, name: &str) -> (r: bool)
    ensures
        r == simple_index(*e, name@),
    decreases e,
{
    match e {
        ExprModel::Lit(_) | ExprModel::Path(_) => true,
        ExprModel::Paren(inner) => simple_index_exec(inner, name),
        ExprModel::Binary { left, right, .. } => simple_index_exec(left, name) && simple_index_exec(
            right,
            name,
        ),
        ExprModel::MethodCall { receiver, method, args, .. } => {
            proof {
                reveal_strlit("len");
            }
            str_eq(method.as_str(), "len") && matches!(args, ExprList::Nil) && match ident(receiver) {
                Some(n) => str_eq(n.as_str(), name),
                None => false,
            }
        },
        _ => false,
    }
}

/// The rank an expression selects from the sorted `name`, given as the
/// number of `return`, parenthesis and `copied`/`cloned` layers above the
/// selecting call or index: `first()`/`last()` when `!indexed`, `get(k)` or
/// `[k]` with a simple index other than literal `0` when `indexed`.
pub open spec fn selection(e: ExprModel, name: Seq<char>, indexed: bool) -> Option<nat>
    decreases e,
{
    match e {
        ExprModel::Return(Some(x)) => match selection(*x, name, indexed) {
            Some(d) => Some(d + 1),
            None => None,
        },
        ExprModel::Paren(x) => match selection(*x, name, indexed) {
            Some(d) => Some(d + 1),
            None => None,
        },
        ExprModel::MethodCall { receiver, method, args, .. } => if (method@ == "copied"@
            || method@ == "cloned"@) && args is Nil {
            match selection(*receiver, name, indexed) {
                Some(d) => Some(d + 1),
                None => None,
            }
        } else if spec_ident(*receiver) == Some(name) {
            if (!indexed && (method@ == "first"@ || method@ == "last"@) && args is Nil) || (indexed
                && method@ == "get"@ && expr_count(args) == 1 && int_lit_value(
                first_expr(args)->0,
            ) != Some(0u128) && simple_index(first_expr(args)->0, name)) {
                Some(0)
            } else {
                None
            }
        } else {
            None
        },
        ExprModel::Index { expr, index } => if indexed && spec_ident(*expr) == Some(name)
            && int_lit_value(*index) != Some(0u128) && simple_index(*index, name) {
            Some(0)
        } else {
            None
        },
        _ => None,
    }
}

pub fn count_one(l: &ExprList) -> (r: bool)
    ensures
        r == (expr_count(*l) == 1),
{
    match l {
        ExprList::Cons(_, rest) => {
            proof {
                reveal_with_fuel(expr_count, 2);
            }
            matches!(**rest, ExprList::Nil)
        },
        ExprList::Nil => false,
    }
}

fn selection_exec(e: &ExprModel, name: &str, indexed: bool) -> (r: Option<usize>)
    ensures
        match r {
            Some(d) => selection(*e, name@, indexed) == Some(d as nat),
            None => selection(*e, name@, indexed) is None || selection(*e, name@, indexed)->0
                > usize::MAX,
        },
    decreases e,
{
    proof {
        reveal_strlit("copied");
        reveal_strlit("cloned");
        reveal_strlit("first");
        reveal_strlit("last");
        reveal_strlit("get");
    }
    match e {
        ExprModel::Return(Some(x)) => match selection_exec(x, name, indexed) {
            Some(d) => if d < usize::MAX { Some(d + 1) } else { None },
            None => None,
        },
        ExprModel::Paren(x) => match selection_exec(x, name, indexed) {
            Some(d) => if d < usize::MAX { Some(d + 1) } else { None },
            None => None,
        },
        ExprModel::MethodCall { receiver, method, args, .. } => {
            let m = method.as_str();
            let no_args = matches!(args, ExprList::Nil);
            if (str_eq(m, "copied") || str_eq(m, "cloned")) && no_args {
                match selection_exec(receiver, name, indexed) {
                    Some(d) => if d < usize::MAX { Some(d + 1) } else { None },
                    None => None,
                }
            } else {
                let named = match ident(receiver) {
                    Some(n) => str_eq(n.as_str(), name),
                    None => false,
                };
                if !named {
                    return None;
                }
                if !indexed && (str_eq(m, "first") || str_eq(m, "last")) && no_args {
                    return Some(0);
                }
                if indexed && str_eq(m, "get") && count_one(args) {
                    match args {
                        ExprList::Cons(a, _) => {
                            if int_lit(a) != Some(0u128) && simple_index_exec(a, name) {
                                return Some(0);
                            }
                        },
                        ExprList::Nil => {},
                    }
                }
                None
            }
        },
        ExprModel::Index { expr, index } => {
            let named = match ident(expr) {
                Some(n) => str_eq(n.as_str(), name),
                None => false,
            };
            if indexed && named && int_lit(index) != Some(0u128) && simple_index_exec(index, name) {
                Some(0)
            } else {
                None
            }
        },
        _ => None,
    }
}

/// The expression a statement yields: an expression statement's expression
/// or a `let` initializer.
pub open spec fn statement_value(s: StmtModel) -> Option<ExprModel> {
    match s {
        StmtModel::Expr { expr, .. } => Some(expr),
        StmtModel::Local { init, .. } => init,
        StmtModel::Other { .. } => None,
    }
}

/// The variable a statement `v.sort();` or `v.sort_unstable();` sorts.
pub open spec fn sorted_name(s: StmtModel) -> Option<Seq<char>> {
    match s {
        StmtModel::Expr { expr: ExprModel::MethodCall { receiver, method, .. }, semi: true, .. } =>
            if method@ == "sort"@ || method@ == "sort_unstable"@ {
            spec_ident(*receiver)
        } else {
            None
        },
        _ => None,
    }
}

/// Statement `i` sorts a variable that statement `i + 1` then selects one
/// rank of, and no other statement of the block uses it; the result is the
/// selection's depth in statement `i + 1` (a depth that fits a `usize`).
pub open spec fn sort_candidate(stmts: Seq<StmtModel>, i: int, indexed: bool) -> Option<nat> {
    if 0 <= i && i + 1 < stmts.len() {
        match sorted_name(stmts[i]) {
            Some(name) => if unused_around(stmts, i, i + 1, name) {
                match statement_value(stmts[i + 1]) {
                    Some(v) => match selection(v, name, indexed) {
                        Some(d) => if d <= usize::MAX {
                            Some(d)
                        } else {
                            None
                        },
                        None => None,
                    },
                    None => None,
                }
            } else {
                None
            },
            None => None,
        }
    } else {
        None
    }
}

/// Each candidate pair of a block: the index of its selecting statement and
/// the selection's depth in it, in statement order.
pub open spec fn sort_candidates_of(stmts: Seq<StmtModel>, indexed: bool, n: int) -> Seq<(usize, usize)>
    decreases n,
{
    if n <= 0 {
        Seq::empty()
    } else {
        sort_candidates_of(stmts, indexed, n - 1) + match sort_candidate(stmts, n - 1, indexed) {
            Some(d) => seq![(n as usize, d as usize)],
            None => Seq::empty(),
        }
    }
}

/// The sort-then-select pairs of one block.
pub fn sort_candidates(stmts: &Vec<StmtModel>, indexed: bool) -> (r: Vec<(usize, usize)>)
    ensures
        r@ == sort_candidates_of(stmts@, indexed, stmts@.len() as int),
{
    proof {
        reveal_strlit("sort");
        reveal_strlit("sort_unstable");
    }
    let mut out: Vec<(usize, usize)> = Vec::new();
    let mut i: usize = 0;
    while i < stmts.len()
        invariant
            i <= stmts@.len(),
            out@ == sort_candidates_of(stmts@, indexed, i as int),
        decreases stmts@.len() - i,
    {
        let ghost before = out@;
        let mut found: Option<usize> = None;
        if i + 1 < stmts.len() {
            let name: Option<&String> = match &stmts[i] {
                StmtModel::Expr { expr: ExprModel::MethodCall { receiver, method, .. }, semi, .. } => {
                    if *semi && (str_eq(method.as_str(), "sort") || str_eq(
                        method.as_str(),
                        "sort_unstable",
                    )) {
                        ident(receiver)
                    } else {
                        None
                    }
                },
                _ => None,
            };
            assert(match name {
                Some(n) => sorted_name(stmts@[i as int]) == Some(n@),
                None => sorted_name(stmts@[i as int]) is None,
            });
            if let Some(n) = name {
                if unused_around_exec(stmts, i, i + 1, n.as_str()) {
                    let value: Option<&ExprModel> = match &stmts[i + 1] {
                        StmtModel::Expr { expr, .. } => Some(expr),
                        StmtModel::Local { init, .. } => match init {
                            Some(x) => Some(x),
                            None => None,
                        },
                        StmtModel::Other { .. } => None,
                    };
                    assert(match value {
                        Some(v) => statement_value(stmts@[i + 1]) == Some(*v),
                        None => statement_value(stmts@[i + 1]) is None,
                    });
                    if let Some(v) = value {
                        found = selection_exec(v, n.as_str(), indexed);
                    }
                }
            }
        }
        assert(match found {
            Some(d) => sort_candidate(stmts@, i as int, indexed) == Some(d as nat),
            None => sort_candidate(stmts@, i as int, indexed) is None,
        });
        match found {
            Some(d) => {
                out.push((i + 1, d));
                assert(out@ =~= before + seq![((i + 1) as usize, d)]);
            },
            None => {
                assert(out@ =~= before + Seq::<(usize, usize)>::empty());
            },
        }
        i = i + 1;
    }
    out
}

/// The receiver of a selecting call or index.
pub open spec fn selected_from(e: ExprModel) -> Option<ExprModel> {
    match e {
        ExprModel::MethodCall { receiver, .. } => Some(*receiver),
        ExprModel::Index { expr, .. } => Some(*expr),
        _ => None,
    }
}

/// A selection is reported when what it selects from is a `Vec` bound in the
/// current scope, outside any loop.
pub open spec fn spec_confirm_selection(ctx: Context, e: ExprModel) -> bool {
    match selected_from(e) {
        Some(recv) => ctx.spec_expr(recv) == Kind::Vec && ctx.loop_depth == 0
            && ctx.spec_is_current_binding(recv),
        None => false,
    }
}

pub fn confirm_selection(ctx: &Context, e: &ExprModel) -> (r: bool)
    requires
        ctx.wf(),
    ensures
        r == spec_confirm_selection(*ctx, *e),
{
    let recv: &ExprModel = match e {
        ExprModel::MethodCall { receiver, .. } => receiver,
        ExprModel::Index { expr, .. } => expr,
        _ => return false,
    };
    matches!(ctx.expr(recv), Kind::Vec) && ctx.loop_depth == 0 && ctx.is_current_binding(recv)
}

/// Statement `i` is `target.push(name.clone());`, `target` does not mention
/// `name`, and no other statement of the block uses `name`.
pub open spec fn movable_clone(stmts: Seq<StmtModel>, i: int) -> bool {
    0 <= i < stmts.len() && match stmts[i] {
        StmtModel::Expr {
            expr: ExprModel::MethodCall { method, args, .. },
            receiver_mentions,
            ..
        } => method@ == "push"@ && expr_count(args) == 1 && match first_expr(args)->0 {
            ExprModel::MethodCall { receiver: cr, method: cm, args: ca, .. } => cm@ == "clone"@
                && ca is Nil && match spec_ident(*cr) {
                Some(name) => !spec_mentions(receiver_mentions, name) && unused_around(
                    stmts,
                    i,
                    i,
                    name,
                ),
                None => false,
            },
            _ => false,
        },
        _ => false,
    }
}

pub open spec fn movable_clones_of(stmts: Seq<StmtModel>, n: int) -> Seq<usize>
    decreases n,
{
    if n <= 0 {
        Seq::empty()
    } else {
        movable_clones_of(stmts, n - 1) + if movable_clone(stmts, n - 1) {
            seq![(n - 1) as usize]
        } else {
            Seq::empty()
        }
    }
}

fn movable_clone_exec(stmts: &Vec<StmtModel>, i: usize) -> (r: bool)
    requires
        i < stmts@.len(),
    ensures
        r == movable_clone(stmts@, i as int),
{
    proof {
        reveal_strlit("push");
        reveal_strlit("clone");
    }
    match &stmts[i] {
        StmtModel::Expr { expr: ExprModel::MethodCall { method, args, .. }, receiver_mentions, .. } => {
            if !str_eq(method.as_str(), "push") || !count_one(args) {
                return false;
            }
            match args {
                ExprList::Cons(a, _) => match &**a {
                    ExprModel::MethodCall { receiver: cr, method: cm, args: ca, .. } => {
                        if !str_eq(cm.as_str(), "clone") || !matches!(ca, ExprList::Nil) {
                            return false;
                        }
                        match ident(cr) {
                            Some(name) => !mentions(receiver_mentions, name.as_str())
                                && unused_around_exec(stmts, i, i, name.as_str()),
                            None => false,
                        }
                    },
                    _ => false,
                },
                ExprList::Nil => false,
            }
        },
        _ => false,
    }
}

/// The statements of a block that push a clone of a value on its last use.
pub fn movable_clone_candidates(stmts: &Vec<StmtModel>) -> (r: Vec<usize>)
    ensures
        r@ == movable_clones_of(stmts@, stmts@.len() as int),
{
    let mut out: Vec<usize> = Vec::new();
    let mut i: usize = 0;
    while i < stmts.len()
        invariant
            i <= stmts@.len(),
            out@ == movable_clones_of(stmts@, i as int),
        decreases stmts@.len() - i,
    {
        let ghost before = out@;
        if movable_clone_exec(stmts, i) {
            out.push(i);
            assert(out@ =~= before + seq![i]);
        } else {
            assert(out@ =~= before + Seq::<usize>::empty());
        }
        i = i + 1;
    }
    out
}

/// A candidate push is reported outside loops, when it pushes into a `Vec`
/// (or a reference to one) a `String` or `Vec` bound in the current scope.
pub open spec fn spec_confirm_clone(ctx: Context, push: ExprModel) -> bool {
    ctx.loop_depth == 0 && match push {
        ExprModel::MethodCall { receiver, args, .. } => match first_expr(args) {
            Some(ExprModel::MethodCall { receiver: cr, .. }) => crate::evidence::spec_value(ctx.spec_expr(*receiver))
                == Kind::Vec && (ctx.spec_expr(*cr) == Kind::String || ctx.spec_expr(*cr)
                == Kind::Vec) && ctx.spec_is_current_binding(*cr),
            _ => false,
        },
        _ => false,
    }
}

pub fn confirm_clone(ctx: &Context, push: &ExprModel) -> (r: bool)
    requires
        ctx.wf(),
    ensures
        r == spec_confirm_clone(*ctx, *push),
{
    if ctx.loop_depth > 0 {
        return false;
    }
    match push {
        ExprModel::MethodCall { receiver, args, .. } => match args {
            ExprList::Cons(a, _) => match &**a {
                ExprModel::MethodCall { receiver: cr, .. } => {
                    let target = ctx.expr(receiver);
                    let value = ctx.expr(cr);
                    matches!(target.value(), Kind::Vec) && (matches!(value, Kind::String)
                        || matches!(value, Kind::Vec)) && ctx.is_current_binding(cr)
                },
                _ => false,
            },
            ExprList::Nil => false,
        },
        _ => false,
    }
}

} // verus!
