//! The traversal that shows each expression of a file, in evaluation order,
//! with the scope context that holds at it: blocks, branches, loops,
//! closures, async blocks, constant contexts, functions and modules each
//! shape that context as the rules below say.
use vstd::prelude::*;
use crate::evidence::{
    empty_maps, forget_guards_named, generic_marker, let_scopes, names_of, released, scope_views, spec_decls,
    spec_imports, without_guards, Context, ExprList, ExprModel, ItemModel, Kind, PatModel, TypeModel,
};
use crate::scan::deeper;

verus! {

/// Syntax as the traversal meets it.
pub enum ScanNode {
    /// An expression, shown before its parts; a call releases the guards
    /// moved into its arguments `releases` once its parts are walked.
    Expr { id: usize, parts: Box<ScanList>, releases: Option<ExprList> },
    /// An `.await`: the awaited future is walked first, then the await shown.
    Await { id: usize, base: Box<ScanNode> },
    /// A `let`: its initializer and `else` block are walked, then its
    /// pattern binds the initializer's kind.
    Local { pat: PatModel, init: Option<ExprModel>, parts: Box<ScanList> },
    /// A block whose brace is at `at` and whose statements declare `items`.
    Block { at: (usize, usize), items: Vec<ItemModel>, stmts: Box<ScanStmts> },
    /// `if`, `match`, `for`, `while` and `loop`: `head` is walked in the
    /// enclosing scope, then each arm from the scope after it.
    Branching { head: Box<ScanList>, arms: Box<ScanArms> },
    /// A function, closure, `async` block, constant context or module body,
    /// walked in a context of its own; `skip` leaves it out (an item compiled
    /// only for tests); `used` are the names a closure body mentions.
    Scoped { skip: bool, entry: Entry, body: Box<ScanNode>, used: Option<Vec<String>> },
    /// Other syntax: its parts in order.
    Plain(Box<ScanList>),
}

/// Nodes, in order.
pub enum ScanList {
    Nil,
    Cons(Box<ScanNode>, Box<ScanList>),
}

/// A block's statements; `exits` marks a `return`, `break` or `continue`
/// statement, after which the block's remaining statements do not run.
pub enum ScanStmts {
    Nil,
    Cons { exits: bool, stmt: Box<ScanNode>, rest: Box<ScanStmts> },
}

/// One arm of a branching expression: `fresh` starts it from a copy of the
/// scope before the arms (an `else` or a later `match` arm); `loop_at` is
/// where a loop it repeats starts; `push` gives it a binding scope; `pre` is
/// walked before `pat` binds (a `while` condition), `body` after.
pub struct ScanArm {
    pub fresh: bool,
    pub loop_at: Option<(usize, usize)>,
    pub push: bool,
    pub pre: Box<ScanList>,
    pub pat: Option<PatModel>,
    pub body: Box<ScanList>,
}

pub enum ScanArms {
    Nil,
    Cons(Box<ScanArm>, Box<ScanArms>),
}

/// How a scoped body's context starts.
pub enum Entry {
    /// A constant context: a `const` or `static` initializer, a `const` block.
    Const,
    Async { at: (usize, usize) },
    /// A closure with its parameter patterns.
    Closure { in_async: bool, at: (usize, usize), params: Vec<PatModel> },
    /// A function with its generic type parameters and typed parameters.
    Function {
        in_async: bool,
        in_const: bool,
        at: (usize, usize),
        generics: Vec<String>,
        params: Vec<(PatModel, TypeModel)>,
    },
    /// An inline module with the evidence of its items.
    Module { items: Vec<ItemModel> },
}

/// Every context of a sequence of observations is well formed.
pub open spec fn all_shown_wf(obs: Seq<(usize, Context)>) -> bool {
    forall|i: int| 0 <= i < obs.len() ==> #[trigger] obs[i].1.wf()
}

/// Names the values an existential picks, so that a proof can point at them.
pub open spec fn picked<T>(t: T) -> bool {
    true
}

// The effects of the context's steps, as their contracts state them.

pub open spec fn copied(a: Context, b: Context) -> bool {
    &&& b.wf()
    &&& b.items.names@ == a.items.names@
    &&& b.items.aliases@ == a.items.aliases@
    &&& b.items.return_kinds@ == a.items.return_kinds@
    &&& scope_views(b.bindings@) == scope_views(a.bindings@)
    &&& b.origins@ == a.origins@
    &&& b.in_async == a.in_async
    &&& b.in_const == a.in_const
    &&& b.loop_depth == a.loop_depth
    &&& b.loop_start == a.loop_start
    &&& b.execution == a.execution
    &&& b.block == a.block
}

pub open spec fn pushed(a: Context, b: Context) -> bool {
    &&& b.wf()
    &&& b.same_frame(&a)
    &&& b.origins == a.origins
    &&& b.bindings@ == a.bindings@.push(b.bindings@.last())
    &&& b.bindings@.last()@ == Map::<Seq<char>, Kind>::empty()
}

pub open spec fn popped(a: Context, b: Context) -> bool {
    &&& b.wf()
    &&& b.same_frame(&a)
    &&& b.origins == a.origins
    &&& b.bindings@ == (if a.bindings@.len() > 0 {
        a.bindings@.drop_last()
    } else {
        a.bindings@
    })
}

pub open spec fn guards_forgotten(a: Context, b: Context) -> bool {
    &&& b.wf()
    &&& b.same_frame(&a)
    &&& b.origins == a.origins
    &&& scope_views(b.bindings@) == scope_views(a.bindings@).map_values(
        |m: Map<Seq<char>, Kind>| without_guards(m),
    )
}

pub open spec fn captured_forgotten(a: Context, used: Seq<String>, b: Context) -> bool {
    &&& b.wf()
    &&& b.same_frame(&a)
    &&& b.origins == a.origins
    &&& scope_views(b.bindings@) == forget_guards_named(scope_views(a.bindings@), names_of(used))
}

pub open spec fn released_by(a: Context, args: ExprList, b: Context) -> bool {
    &&& b.wf()
    &&& b.same_frame(&a)
    &&& b.origins == a.origins
    &&& b.bindings@.len() == a.bindings@.len()
    &&& scope_views(b.bindings@) == released(scope_views(a.bindings@), args)
}

pub open spec fn bound(a: Context, pat: PatModel, kind: Kind, b: Context) -> bool {
    &&& b.wf()
    &&& b.same_frame(&a)
    &&& b.bindings@.len() == a.bindings@.len()
    &&& forall|i: int| 0 <= i < a.bindings@.len() - 1 ==> (#[trigger] b.bindings@[i])@ == a.bindings@[i]@
    &&& b.bindings@.last()@ == a.bind_scope(a.bindings@.last()@, pat, kind)
    &&& b.origins@ == Context::bind_origins(a.origins@, pat)
}

pub open spec fn let_finished(a: Context, pat: PatModel, kind: Kind, init: Option<&ExprModel>, b: Context) -> bool {
    &&& b.wf()
    &&& b.same_frame(&a)
    &&& b.bindings@.len() == a.bindings@.len()
    &&& b.origins@ == Context::bind_origins(a.origins@, pat)
    &&& forall|i: int|
        0 <= i < a.bindings@.len() - 1 ==> (#[trigger] b.bindings@[i])@ == let_scopes(
            scope_views(a.bindings@),
            pat,
            kind,
            init,
        )[i]
    &&& pat matches PatModel::Ident { name, by_ref: false, .. } ==> b.bindings@.last()@.contains_key(name@)
        && b.bindings@.last()@[name@] == kind
}

pub open spec fn loop_entered(a: Context, at: (usize, usize), b: Context) -> bool {
    &&& b.wf()
    &&& b.loop_depth == deeper(a.loop_depth)
    &&& b.loop_start == if a.loop_depth == 0 {
        at
    } else {
        a.loop_start
    }
    &&& b.bindings == a.bindings
    &&& b.origins == a.origins
    &&& b.items == a.items
    &&& b.in_async == a.in_async
    &&& b.in_const == a.in_const
    &&& b.execution == a.execution
    &&& b.block == a.block
}

pub open spec fn const_entered(a: Context, b: Context) -> bool {
    &&& b.wf()
    &&& b.in_const
    &&& b.loop_depth == 0
    &&& b.bindings == a.bindings
    &&& b.origins == a.origins
    &&& b.items == a.items
    &&& b.in_async == a.in_async
    &&& b.loop_start == a.loop_start
    &&& b.execution == a.execution
    &&& b.block == a.block
}

pub open spec fn closure_entered(a: Context, in_async: bool, at: (usize, usize), b: Context) -> bool {
    &&& b.wf()
    &&& !b.spec_has_guard()
    &&& b.loop_depth == 0
    &&& b.in_async == in_async
    &&& b.execution == at
    &&& b.bindings@.len() == a.bindings@.len() + 1
    &&& b.bindings@.last()@ == Map::<Seq<char>, Kind>::empty()
    &&& b.origins == a.origins
    &&& b.items == a.items
    &&& b.in_const == a.in_const
    &&& b.block == a.block
}

pub open spec fn async_entered(a: Context, at: (usize, usize), b: Context) -> bool {
    &&& b.wf()
    &&& !b.spec_has_guard()
    &&& b.in_async
    &&& b.loop_depth == 0
    &&& b.execution == at
    &&& b.bindings@.len() == a.bindings@.len()
    &&& b.origins == a.origins
    &&& b.items == a.items
    &&& b.in_const == a.in_const
    &&& b.block == a.block
}

/// A block's items join the item scope (their names and type aliases), and
/// the block gets a binding scope of its own.
pub open spec fn block_entered(a: Context, at: (usize, usize), items: Seq<ItemModel>, b: Context) -> bool {
    &&& b.wf()
    &&& b.block == at
    &&& b.bindings@.len() == a.bindings@.len() + 1
    &&& b.bindings@.last()@ == Map::<Seq<char>, Kind>::empty()
    &&& b.origins == a.origins
    &&& b.in_async == a.in_async
    &&& b.in_const == a.in_const
    &&& b.loop_depth == a.loop_depth
    &&& b.loop_start == a.loop_start
    &&& b.execution == a.execution
    &&& b.items.maps().names == spec_imports(spec_decls(a.items.maps(), items), items).names
    &&& b.items.maps().aliases == spec_imports(spec_decls(a.items.maps(), items), items).aliases
}

pub open spec fn function_started(
    a: Context,
    in_async: bool,
    in_const: bool,
    at: (usize, usize),
    generics: Seq<String>,
    b: Context,
) -> bool {
    &&& b.wf()
    &&& b.bindings@.len() == 1
    &&& b.bindings@[0]@ == Map::<Seq<char>, Kind>::empty()
    &&& b.origins@ == Map::<Seq<char>, (usize, usize)>::empty()
    &&& b.in_async == in_async
    &&& b.in_const == in_const
    &&& b.loop_depth == 0
    &&& b.execution == at
    &&& b.loop_start == a.loop_start
    &&& b.block == a.block
    &&& b.items.aliases == a.items.aliases
    &&& b.items.return_kinds == a.items.return_kinds
    &&& forall|k: Seq<char>|
        #![trigger b.items.names@.contains_key(k)]
        b.items.names@.contains_key(k) <==> a.items.names@.contains_key(k) || names_of(generics).contains(k)
    &&& forall|k: Seq<char>|
        #![trigger b.items.names@[k]]
        b.items.names@.contains_key(k) ==> b.items.names@[k]@ == (if names_of(generics).contains(k) {
            generic_marker()
        } else {
            a.items.names@[k]@
        })
}

pub open spec fn made_from_items(items: Seq<ItemModel>, b: Context) -> bool {
    &&& b.wf()
    &&& b.bindings@.len() == 0
    &&& b.origins@ == Map::<Seq<char>, (usize, usize)>::empty()
    &&& b.items.maps().names == spec_imports(spec_decls(empty_maps(), items), items).names
    &&& b.items.maps().aliases == spec_imports(spec_decls(empty_maps(), items), items).aliases
    &&& b.items.return_kinds@ == b.spec_return_kinds(spec_imports(spec_decls(empty_maps(), items), items).kinds, items)
    &&& !b.in_async && !b.in_const && b.loop_depth == 0
}

/// Binds patterns one after another, each to an unknown kind, where a
/// binding scope is open.
pub open spec fn unknown_bound(a: Context, pats: Seq<PatModel>, b: Context) -> bool
    decreases pats.len(),
{
    if pats.len() == 0 {
        b == a
    } else {
        exists|m: Context|
            #[trigger] picked(m) && unknown_bound(a, pats.drop_last(), m) && if m.bindings@.len() > 0 {
                bound(m, pats.last(), Kind::Unknown, b)
            } else {
                b == m
            }
    }
}

/// Binds typed parameters one after another, each to its type's kind.
pub open spec fn params_bound(a: Context, params: Seq<(PatModel, TypeModel)>, b: Context) -> bool
    decreases params.len(),
{
    if params.len() == 0 {
        b == a
    } else {
        exists|m: Context|
            #[trigger] picked(m) && params_bound(a, params.drop_last(), m) && if m.bindings@.len() > 0 {
                bound(m, params.last().0, m.spec_kind(params.last().1), b)
            } else {
                b == m
            }
    }
}

/// The context a scoped body starts in.
pub open spec fn entered(a: Context, entry: Entry, b: Context) -> bool {
    match entry {
        Entry::Const => const_entered(a, b),
        Entry::Async { at } => async_entered(a, at, b),
        Entry::Closure { in_async, at, params } => exists|m: Context|
            #[trigger] picked(m) && closure_entered(a, in_async, at, m) && unknown_bound(m, params@, b),
        Entry::Function { in_async, in_const, at, generics, params } => exists|m: Context|
            #[trigger] picked(m) && function_started(a, in_async, in_const, at, generics@, m) && params_bound(m, params@, b),
        Entry::Module { items } => made_from_items(items@, b),
    }
}

/// Walking `n` from context `c` shows `obs` and leaves context `d`.
pub open spec fn walked(c: Context, n: ScanNode, obs: Seq<(usize, Context)>, d: Context) -> bool
    decreases n,
{
    match n {
        ScanNode::Expr { id, parts, releases } => {
            &&& obs.len() >= 1
            &&& obs[0].0 == id
            &&& copied(c, obs[0].1)
            &&& exists|m: Context|
                #[trigger] picked(m) && walked_list(c, *parts, obs.drop_first(), m) && match releases {
                    Some(a) => released_by(m, a, d),
                    None => d == m,
                }
        },
        ScanNode::Await { id, base } => {
            &&& obs.len() >= 1
            &&& walked(c, *base, obs.drop_last(), d)
            &&& obs.last().0 == id
            &&& copied(d, obs.last().1)
        },
        ScanNode::Local { pat, init, parts } => exists|m: Context|
            #[trigger] picked(m) && walked_list(c, *parts, obs, m) && if m.bindings@.len() > 0 {
                match init {
                    Some(e) => let_finished(m, pat, c.spec_expr(e), Some(&e), d),
                    None => let_finished(m, pat, Kind::Unknown, None, d),
                }
            } else {
                d == m
            },
        ScanNode::Block { at, items, stmts } => exists|saved: Context, e1: Context, e2: Context, p: Context|
            #[trigger] picked((saved, e1, e2, p)) && walked_stmts(e1, *stmts, obs, e2) && copied(c, saved) && block_entered(c, at, items@, e1)
                && popped(e2, p) && d == (Context {
                items: saved.items,
                origins: saved.origins,
                block: saved.block,
                ..p
            }),
        ScanNode::Branching { head, arms } => exists|k: int, m: Context, prev: Context, e: Context|
            #[trigger] picked((k, m, prev, e)) && 0 <= k <= obs.len() && walked_list(c, *head, obs.take(k), m) && copied(m, prev)
                && walked_arms(m, prev, *arms, obs.skip(k), e) && guards_forgotten(prev, d),
        ScanNode::Scoped { skip, entry, body, used } => if skip {
            obs.len() == 0 && d == c
        } else {
            exists|prev: Context, s: Context, e: Context|
                #[trigger] picked((prev, s, e)) && walked(s, *body, obs, e) && copied(c, prev) && entered(c, entry, s) && match used {
                    Some(u) => captured_forgotten(prev, u@, d),
                    None => d == prev,
                }
        },
        ScanNode::Plain(parts) => walked_list(c, *parts, obs, d),
    }
}

pub open spec fn walked_list(c: Context, l: ScanList, obs: Seq<(usize, Context)>, d: Context) -> bool
    decreases l,
{
    match l {
        ScanList::Nil => obs.len() == 0 && d == c,
        ScanList::Cons(n, rest) => exists|k: int, m: Context|
            #[trigger] picked((k, m)) && 0 <= k <= obs.len() && walked(c, *n, obs.take(k), m) && walked_list(m, *rest, obs.skip(k), d),
    }
}

pub open spec fn walked_stmts(c: Context, l: ScanStmts, obs: Seq<(usize, Context)>, d: Context) -> bool
    decreases l,
{
    match l {
        ScanStmts::Nil => obs.len() == 0 && d == c,
        ScanStmts::Cons { exits, stmt, rest } => exists|k: int, m: Context|
            #[trigger] picked((k, m)) && 0 <= k <= obs.len() && walked(c, *stmt, obs.take(k), m) && if exits {
                k == obs.len() && d == m
            } else {
                walked_stmts(m, *rest, obs.skip(k), d)
            },
    }
}

pub open spec fn walked_arms(
    c: Context,
    prev: Context,
    l: ScanArms,
    obs: Seq<(usize, Context)>,
    d: Context,
) -> bool
    decreases l,
{
    match l {
        ScanArms::Nil => obs.len() == 0 && d == c,
        ScanArms::Cons(arm, rest) => exists|k: int, m: Context|
            #[trigger] picked((k, m)) && 0 <= k <= obs.len() && walked_arm(c, prev, *arm, obs.take(k), m) && walked_arms(
                m,
                prev,
                *rest,
                obs.skip(k),
                d,
            ),
    }
}

pub open spec fn walked_arm(c: Context, prev: Context, arm: ScanArm, obs: Seq<(usize, Context)>, d: Context) -> bool
    decreases arm,
{
    exists|s0: Context, s1: Context, s2: Context, k: int, s3: Context, s4: Context|
        #[trigger] picked((s0, s1, s2, k, s3, s4)) && 0 <= k <= obs.len() && walked_list(s2, *arm.pre, obs.take(k), s3) && (if arm.fresh {
            copied(prev, s0)
        } else {
            s0 == c
        }) && match arm.loop_at {
            Some(at) => loop_entered(s0, at, s1),
            None => s1 == s0,
        } && (if arm.push {
            pushed(s1, s2)
        } else {
            s2 == s1
        }) && (match arm.pat {
            Some(p) => if s3.bindings@.len() > 0 {
                bound(s3, p, Kind::Unknown, s4)
            } else {
                s4 == s3
            },
            None => s4 == s3,
        }) && walked_list(s4, *arm.body, obs.skip(k), d)
}


proof fn lemma_split<A>(o0: Seq<A>, o1: Seq<A>, o2: Seq<A>)
    requires
        o0.len() <= o1.len() <= o2.len(),
        o1.take(o0.len() as int) == o0,
        o2.take(o1.len() as int) == o1,
    ensures
        o2.take(o0.len() as int) == o0,
        o2.skip(o0.len() as int).take(o1.len() - o0.len()) == o1.skip(o0.len() as int),
        o2.skip(o0.len() as int).skip(o1.len() - o0.len()) == o2.skip(o1.len() as int),
{
    assert(o2.take(o0.len() as int) =~= o0) by {
        assert forall|i: int| 0 <= i < o0.len() implies o2[i] == o0[i] by {
            assert(o2.take(o1.len() as int)[i] == o2[i]);
            assert(o1.take(o0.len() as int)[i] == o1[i]);
        }
    }
    assert(o2.skip(o0.len() as int).take(o1.len() - o0.len()) =~= o1.skip(o0.len() as int)) by {
        assert forall|i: int| 0 <= i < o1.len() - o0.len() implies #[trigger] o2.skip(o0.len() as int)[i]
            == o1.skip(o0.len() as int)[i] by {
            assert(o2.take(o1.len() as int)[o0.len() + i] == o2[o0.len() + i]);
        }
    }
    assert(o2.skip(o0.len() as int).skip(o1.len() - o0.len()) =~= o2.skip(o1.len() as int));
}

/// `o1` extends `o0`.
pub open spec fn extends<A>(o1: Seq<A>, o0: Seq<A>) -> bool {
    o1.len() >= o0.len() && o1.take(o0.len() as int) == o0
}

fn walk_node(ctx: &mut Context, n: &ScanNode, out: &mut Vec<(usize, Context)>)
    requires
        all_shown_wf(old(out)@),
        old(ctx).wf(),
    ensures
        all_shown_wf(final(out)@),
        final(ctx).wf(),
        extends(final(out)@, old(out)@),
        walked(*old(ctx), *n, final(out)@.skip(old(out)@.len() as int), *final(ctx)),
    decreases n,
{
    let ghost c0 = *ctx;
    let ghost o0 = out@;
    match n {
        ScanNode::Expr { id, parts, releases } => {
            let snap = ctx.snapshot();
            out.push((*id, snap));
            let ghost o1 = out@;
            assert(o1.take(o0.len() as int) =~= o0);
            walk_list(ctx, parts, out);
            let ghost m = *ctx;
            let ghost o2 = out@;
            match releases {
                Some(a) => ctx.release_moved_guards(a),
                None => {},
            }
            proof {
                lemma_split(o0, o1, o2);
                let obs = o2.skip(o0.len() as int);
                assert(obs.drop_first() =~= o2.skip(o1.len() as int));
                assert(obs[0] == o1[o0.len() as int]);
                assert(picked(m));
            }
        },
        ScanNode::Await { id, base } => {
            walk_node(ctx, base, out);
            let ghost o1 = out@;
            let snap = ctx.snapshot();
            out.push((*id, snap));
            proof {
                let o2 = out@;
                assert(o2.take(o1.len() as int) =~= o1);
                lemma_split(o0, o1, o2);
                let obs = o2.skip(o0.len() as int);
                assert(obs.drop_last() =~= o1.skip(o0.len() as int));
            }
        },
        ScanNode::Local { pat, init, parts } => {
            let kind = match init {
                Some(e) => ctx.expr(e),
                None => Kind::Unknown,
            };
            walk_list(ctx, parts, out);
            let ghost m = *ctx;
            if ctx.bindings.len() > 0 {
                match init {
                    Some(e) => ctx.finish_let(pat, kind, Some(e)),
                    None => ctx.finish_let(pat, kind, None),
                }
            }
            proof {
                assert(picked(m));
            }
        },
        ScanNode::Block { at, items, stmts } => {
            let saved = ctx.snapshot();
            let ghost sv = saved;
            ctx.enter_block(*at, items);
            let ghost e1 = *ctx;
            walk_stmts(ctx, stmts, out);
            let ghost e2 = *ctx;
            ctx.pop_scope();
            let ghost p = *ctx;
            ctx.items = saved.items;
            ctx.origins = saved.origins;
            ctx.block = saved.block;
            proof {
                assert(picked((sv, e1, e2, p)));
                assert(*ctx == (Context { items: sv.items, origins: sv.origins, block: sv.block, ..p }));
            }
        },
        ScanNode::Branching { head, arms } => {
            walk_list(ctx, head, out);
            let ghost m = *ctx;
            let ghost o1 = out@;
            let prev = ctx.snapshot();
            let ghost pv = prev;
            walk_arms(ctx, &prev, arms, out);
            let ghost e = *ctx;
            let ghost o2 = out@;
            *ctx = prev;
            ctx.forget_guards();
            proof {
                lemma_split(o0, o1, o2);
                let k = o1.len() - o0.len();
                assert(picked((k, m, pv, e)));
            }
        },
        ScanNode::Scoped { skip, entry, body, used } => {
            if *skip {
                proof {
                    assert(out@.skip(o0.len() as int) =~= Seq::<(usize, Context)>::empty());
                    assert(out@.take(o0.len() as int) =~= o0);
                }
                return;
            }
            let prev = ctx.snapshot();
            let ghost pv = prev;
            enter(ctx, entry);
            let ghost s = *ctx;
            walk_node(ctx, body, out);
            let ghost e = *ctx;
            *ctx = prev;
            match used {
                Some(u) => ctx.forget_captured_guards(u),
                None => {},
            }
            proof {
                assert(picked((pv, s, e)));
            }
        },
        ScanNode::Plain(parts) => {
            walk_list(ctx, parts, out);
        },
    }
}

fn enter(ctx: &mut Context, entry: &Entry)
    requires
        old(ctx).wf(),
    ensures
        final(ctx).wf(),
        entered(*old(ctx), *entry, *final(ctx)),
{
    match entry {
        Entry::Const => ctx.enter_const(),
        Entry::Async { at } => ctx.enter_async_block(*at),
        Entry::Closure { in_async, at, params } => {
            ctx.enter_closure(*in_async, *at);
            let ghost m = *ctx;
            bind_unknown(ctx, params);
            proof {
                assert(picked(m));
            }
        },
        Entry::Function { in_async, in_const, at, generics, params } => {
            ctx.start_function(*in_async, *in_const, *at, generics);
            let ghost m = *ctx;
            bind_params(ctx, params);
            proof {
                assert(picked(m));
            }
        },
        Entry::Module { items } => {
            *ctx = Context::new(items);
        },
    }
}

fn bind_unknown(ctx: &mut Context, pats: &Vec<PatModel>)
    requires
        old(ctx).wf(),
    ensures
        final(ctx).wf(),
        unknown_bound(*old(ctx), pats@, *final(ctx)),
{
    let ghost c0 = *ctx;
    let mut i: usize = 0;
    assert(pats@.take(0) =~= Seq::<PatModel>::empty());
    while i < pats.len()
        invariant
            i <= pats@.len(),
            ctx.wf(),
            unknown_bound(c0, pats@.take(i as int), *ctx),
        decreases pats@.len() - i,
    {
        let ghost m = *ctx;
        if ctx.bindings.len() > 0 {
            ctx.bind(&pats[i], Kind::Unknown);
        }
        proof {
            assert(pats@.take(i + 1).drop_last() =~= pats@.take(i as int));
            assert(pats@.take(i + 1).last() == pats@[i as int]);
            assert(picked(m));
        }
        i = i + 1;
    }
    assert(pats@.take(pats@.len() as int) =~= pats@);
}

fn bind_params(ctx: &mut Context, params: &Vec<(PatModel, TypeModel)>)
    requires
        old(ctx).wf(),
    ensures
        final(ctx).wf(),
        params_bound(*old(ctx), params@, *final(ctx)),
{
    let ghost c0 = *ctx;
    let mut i: usize = 0;
    assert(params@.take(0) =~= Seq::<(PatModel, TypeModel)>::empty());
    while i < params.len()
        invariant
            i <= params@.len(),
            ctx.wf(),
            params_bound(c0, params@.take(i as int), *ctx),
        decreases params@.len() - i,
    {
        let ghost m = *ctx;
        if ctx.bindings.len() > 0 {
            let k = ctx.kind(&params[i].1);
            ctx.bind(&params[i].0, k);
        }
        proof {
            assert(params@.take(i + 1).drop_last() =~= params@.take(i as int));
            assert(params@.take(i + 1).last() == params@[i as int]);
            assert(picked(m));
        }
        i = i + 1;
    }
    assert(params@.take(params@.len() as int) =~= params@);
}

fn walk_list(ctx: &mut Context, l: &ScanList, out: &mut Vec<(usize, Context)>)
    requires
        all_shown_wf(old(out)@),
        old(ctx).wf(),
    ensures
        all_shown_wf(final(out)@),
        final(ctx).wf(),
        extends(final(out)@, old(out)@),
        walked_list(*old(ctx), *l, final(out)@.skip(old(out)@.len() as int), *final(ctx)),
    decreases l,
{
    let ghost o0 = out@;
    match l {
        ScanList::Nil => {
            proof {
                assert(out@.skip(o0.len() as int) =~= Seq::<(usize, Context)>::empty());
                assert(out@.take(o0.len() as int) =~= o0);
            }
        },
        ScanList::Cons(n, rest) => {
            walk_node(ctx, n, out);
            let ghost m = *ctx;
            let ghost o1 = out@;
            walk_list(ctx, rest, out);
            proof {
                let o2 = out@;
                lemma_split(o0, o1, o2);
                assert(picked((o1.len() - o0.len(), m)));
            }
        },
    }
}

fn walk_stmts(ctx: &mut Context, l: &ScanStmts, out: &mut Vec<(usize, Context)>)
    requires
        all_shown_wf(old(out)@),
        old(ctx).wf(),
    ensures
        all_shown_wf(final(out)@),
        final(ctx).wf(),
        extends(final(out)@, old(out)@),
        walked_stmts(*old(ctx), *l, final(out)@.skip(old(out)@.len() as int), *final(ctx)),
    decreases l,
{
    let ghost o0 = out@;
    match l {
        ScanStmts::Nil => {
            proof {
                assert(out@.skip(o0.len() as int) =~= Seq::<(usize, Context)>::empty());
                assert(out@.take(o0.len() as int) =~= o0);
            }
        },
        ScanStmts::Cons { exits, stmt, rest } => {
            walk_node(ctx, stmt, out);
            let ghost m = *ctx;
            let ghost o1 = out@;
            if !*exits {
                walk_stmts(ctx, rest, out);
            }
            proof {
                let o2 = out@;
                if *exits {
                    assert(o2.take(o1.len() as int) =~= o1);
                }
                lemma_split(o0, o1, o2);
                assert(picked((o1.len() - o0.len(), m)));
            }
        },
    }
}

fn walk_arms(ctx: &mut Context, prev: &Context, l: &ScanArms, out: &mut Vec<(usize, Context)>)
    requires
        all_shown_wf(old(out)@),
        old(ctx).wf(),
        prev.wf(),
    ensures
        all_shown_wf(final(out)@),
        final(ctx).wf(),
        extends(final(out)@, old(out)@),
        walked_arms(*old(ctx), *prev, *l, final(out)@.skip(old(out)@.len() as int), *final(ctx)),
    decreases l,
{
    let ghost o0 = out@;
    match l {
        ScanArms::Nil => {
            proof {
                assert(out@.skip(o0.len() as int) =~= Seq::<(usize, Context)>::empty());
                assert(out@.take(o0.len() as int) =~= o0);
            }
        },
        ScanArms::Cons(arm, rest) => {
            walk_arm(ctx, prev, arm, out);
            let ghost m = *ctx;
            let ghost o1 = out@;
            walk_arms(ctx, prev, rest, out);
            proof {
                let o2 = out@;
                lemma_split(o0, o1, o2);
                assert(picked((o1.len() - o0.len(), m)));
            }
        },
    }
}

fn walk_arm(ctx: &mut Context, prev: &Context, arm: &ScanArm, out: &mut Vec<(usize, Context)>)
    requires
        all_shown_wf(old(out)@),
        old(ctx).wf(),
        prev.wf(),
    ensures
        all_shown_wf(final(out)@),
        final(ctx).wf(),
        extends(final(out)@, old(out)@),
        walked_arm(*old(ctx), *prev, *arm, final(out)@.skip(old(out)@.len() as int), *final(ctx)),
    decreases arm,
{
    let ghost o0 = out@;
    if arm.fresh {
        *ctx = prev.snapshot();
    }
    let ghost s0 = *ctx;
    match arm.loop_at {
        Some(at) => ctx.enter_loop(at),
        None => {},
    }
    let ghost s1 = *ctx;
    if arm.push {
        ctx.push_scope();
    }
    let ghost s2 = *ctx;
    walk_list(ctx, &arm.pre, out);
    let ghost s3 = *ctx;
    let ghost o1 = out@;
    match &arm.pat {
        Some(p) => if ctx.bindings.len() > 0 {
            ctx.bind(p, Kind::Unknown);
        },
        None => {},
    }
    let ghost s4 = *ctx;
    walk_list(ctx, &arm.body, out);
    proof {
        let o2 = out@;
        lemma_split(o0, o1, o2);
        assert(picked((s0, s1, s2, o1.len() - o0.len(), s3, s4)));
    }
}

/// Each expression of `root`, in the order the traversal meets it, with the
/// context that holds at it; the traversal starts from a copy of `ctx`.
pub fn observations(ctx: &Context, root: &ScanNode) -> (r: Vec<(usize, Context)>)
    requires
        ctx.wf(),
    ensures
        all_shown_wf(r@),
        exists|c: Context, d: Context| #[trigger] picked((c, d)) && copied(*ctx, c) && walked(c, *root, r@, d),
{
    let mut c = ctx.snapshot();
    let ghost c0 = c;
    let mut out: Vec<(usize, Context)> = Vec::new();
    walk_node(&mut c, root, &mut out);
    proof {
        assert(out@.skip(0) =~= out@);
        assert(picked((c0, c)));
    }
    out
}

} // verus!
