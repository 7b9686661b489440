//! Properties of the library as a whole, stated over the spec functions the
//! operations' contracts use.
use vstd::prelude::*;
use crate::detectors::concurrency::{await_hit, channel_hit, deadlock_hit, spawn_lines, spawn_seen, ShownExpr};
use crate::detectors::implementation::{collect_then_iterate, forest_depth, if_depth, IfAlt, IfForest, IfTree};
use crate::detectors::local_lock::{
    builds_lock, find_origin, insert_by_line, lock_hits, observed, observed_all, origin_of, reported, same_lock, LockState,
    LocalLockTracker, LockShown, Observation, lock_run,
};
use crate::detectors::perf::{spec_confirm_clone, sort_candidate, stmt_mentions, sorted_name, StmtModel};
use crate::detectors::Hit;
use crate::domain::{FindingConfidence, Severity, Smell};
use crate::evidence::{spec_ident, spec_value, without_guards, scope_views, Context, ExprModel, Kind, PatModel};
use crate::manifest::{default_entries, dependency_scopes, dev_only, scopes_names, spec_entry_paths, toml_document, toml_parses};
use crate::source_notes::{spec_closure_call_documented, statement_documented, BlockDocs};
use crate::suggested_code::{chars_count_pat, is_empty_call, receiver_start_at, spec_is_receiver_char, spec_rewrite_empty_check, spec_empty_check_tail, spec_suggested_line, LineSyntax};
use crate::detectors::unsafe_code::{mut_ref_entry, mut_ref_source};
use crate::evidence::{first_expr, ArgList, GenericArg};
use crate::text::{skip_ws, spec_find_from, spec_matches_at, spec_is_whitespace, trim, trim_end_at, trim_start};
use crate::stats::{dur_part, duration_fields, duration_parts, spec_format_duration, spec_long_duration};
use crate::evidence::{TypeList, TypeModel};
use crate::text::dec;
use crate::walk::{bound, captured_forgotten, closure_entered, copied, entered, picked, unknown_bound, walked, walked_stmts, Entry, ScanNode, ScanStmts};
use crate::report::{kept, spec_keeps, Precision, ReportFilter};
use crate::safety_docs::{code_view, empty_walk, keyword_in, lemma_walk_node_records_keywords, walk_node, NoteNode};

verus! {

/// A kind's value is never a reference, and taking it twice changes nothing.
pub proof fn law_value_strips_references(k: Kind)
    ensures
        !(spec_value(k) is Reference),
        spec_value(spec_value(k)) == spec_value(k),
    decreases k,
{
    if let Kind::Reference(inner) = k {
        law_value_strips_references(*inner);
    }
}

/// What a plain `let name = ..` binds is what reading `name` gives back:
/// once the innermost scope is the one `bind` leaves, a path naming the
/// binding has the bound kind.
pub proof fn law_bound_name_reads_back(before: Context, after: Context, pat: PatModel, kind: Kind, e: ExprModel)
    requires
        before.bindings@.len() > 0,
        after.bindings@.len() == before.bindings@.len(),
        after.bindings@.last()@ == before.bind_scope(before.bindings@.last()@, pat, kind),
        pat matches PatModel::Ident { name, by_ref: false, .. } && spec_ident(e) == Some(name@),
        e is Path,
    ensures
        after.spec_expr(e) == kind,
{
    let n = spec_ident(e)->0;
    assert(after.bindings@[after.bindings@.len() - 1]@.contains_key(n));
    assert(crate::evidence::lookup_from(after.bindings@, n, after.bindings@.len() as int) == Some(kind));
}

/// After `forget_guards`, no guard stays in scope.
pub proof fn law_forgotten_guards_are_gone(before: Context, after: Context)
    requires
        scope_views(after.bindings@) == scope_views(before.bindings@).map_values(
            |m: Map<Seq<char>, Kind>| without_guards(m),
        ),
    ensures
        !after.spec_has_guard(),
{
    if after.spec_has_guard() {
        let (i, k) = choose|i: int, k: Seq<char>|
            #![trigger after.bindings@[i]@.contains_key(k)]
            0 <= i < after.bindings@.len() && after.bindings@[i]@.contains_key(k) && after.bindings@[i]@[k]
                == Kind::Guard;
        assert(scope_views(after.bindings@).len() == after.bindings@.len());
        assert(scope_views(before.bindings@).len() == before.bindings@.len());
        assert(scope_views(after.bindings@)[i] == after.bindings@[i]@);
        assert(scope_views(before.bindings@)[i] == before.bindings@[i]@);
        assert(after.bindings@[i]@ == without_guards(before.bindings@[i]@));
        assert(after.bindings@[i]@[k] != Kind::Guard);
    }
}

/// A deadlock hint is only given while a synchronous guard is in scope, and
/// a lock-across-await finding only in async code with a guard in scope.
pub proof fn law_lock_hints_need_a_guard(ctx: Context, e: ExprModel, line: usize)
    ensures
        deadlock_hit(ctx, e, line) is Some ==> ctx.spec_has_guard(),
        await_hit(ctx, e, line) is Some ==> ctx.in_async && ctx.spec_has_guard(),
{
}

/// An `if` whose only continuations are `else if`s, with no `if` nested in
/// a condition or branch.
pub open spec fn flat_ladder(t: IfTree) -> bool
    decreases t,
{
    match t {
        IfTree::If { cond, then_branch, alt } => cond is Nil && then_branch is Nil && match alt {
            IfAlt::Nothing => true,
            IfAlt::ElseIf(next) => flat_ladder(*next),
            IfAlt::Else(f) => f is Nil,
        },
    }
}

/// An `else if` ladder of any length nests one level deep.
pub proof fn law_else_if_ladder_is_one_level(t: IfTree)
    requires
        flat_ladder(t),
    ensures
        if_depth(t) == 1,
    decreases t,
{
    match t {
        IfTree::If { cond, then_branch, alt } => {
            assert(forest_depth(cond) == 0);
            assert(forest_depth(then_branch) == 0);
            match alt {
                IfAlt::ElseIf(next) => {
                    law_else_if_ladder_is_one_level(*next);
                },
                IfAlt::Else(f) => {
                    assert(forest_depth(f) == 0);
                },
                IfAlt::Nothing => {},
            }
        },
    }
}

/// Nesting an `if` inside a then-block adds one level.
pub proof fn law_nested_if_adds_a_level(inner: IfTree)
    ensures
        if_depth(IfTree::If {
            cond: IfForest::Nil,
            then_branch: IfForest::Cons(Box::new(inner), Box::new(IfForest::Nil)),
            alt: IfAlt::Nothing,
        }) == if_depth(inner) + 1,
{
    let f = IfForest::Cons(Box::new(inner), Box::new(IfForest::Nil));
    assert(forest_depth(IfForest::Nil) == 0);
    assert(forest_depth(f) == if_depth(inner));
}

/// Only high-confidence findings get replacement code.
pub proof fn law_suggestions_need_high_confidence(
    code: Seq<char>,
    confidence: FindingConfidence,
    line: Seq<char>,
    syntax: LineSyntax,
)
    requires
        confidence != FindingConfidence::High,
    ensures
        spec_suggested_line(code, confidence, line, syntax) is None,
{
}

proof fn lemma_insert_by_line_sorted(s: Seq<Hit>, h: Hit)
    requires
        forall|i: int, j: int| 0 <= i < j < s.len() ==> s[i].0 <= s[j].0,
    ensures
        forall|i: int, j: int|
            0 <= i < j < insert_by_line(s, h).len() ==> insert_by_line(s, h)[i].0 <= insert_by_line(s, h)[j].0,
        insert_by_line(s, h).len() == s.len() + 1,
        forall|x: Hit| #[trigger] insert_by_line(s, h).contains(x) <==> s.contains(x) || x == h,
    decreases s.len(),
{
    let r = insert_by_line(s, h);
    if s.len() == 0 {
        assert forall|x: Hit| r.contains(x) <==> s.contains(x) || x == h by {
            if r.contains(x) {
                assert(r[0] == h);
            }
            if x == h {
                assert(r[0] == x);
            }
        }
    } else if s[0].0 <= h.0 {
        let t = s.drop_first();
        lemma_insert_by_line_sorted(t, h);
        let rt = insert_by_line(t, h);
        assert(r == seq![s[0]] + rt);
        assert forall|i: int, j: int| 0 <= i < j < r.len() implies r[i].0 <= r[j].0 by {
            if i == 0 {
                assert(r[j] == rt[j - 1]);
                assert(insert_by_line(t, h).contains(rt[j - 1]));
                if rt[j - 1] == h {
                } else {
                    let k = choose|k: int| 0 <= k < t.len() && t[k] == rt[j - 1];
                    assert(s[k + 1] == t[k]);
                }
            } else {
                assert(r[i] == rt[i - 1]);
                assert(r[j] == rt[j - 1]);
            }
        }
        assert forall|x: Hit| r.contains(x) <==> s.contains(x) || x == h by {
            if r.contains(x) {
                let k = choose|k: int| 0 <= k < r.len() && r[k] == x;
                if k == 0 {
                    assert(s[0] == x);
                } else {
                    assert(rt[k - 1] == x);
                    assert(rt.contains(x));
                    if t.contains(x) {
                        let m = choose|m: int| 0 <= m < t.len() && t[m] == x;
                        assert(s[m + 1] == x);
                    }
                }
            }
            if s.contains(x) {
                let k = choose|k: int| 0 <= k < s.len() && s[k] == x;
                if k == 0 {
                    assert(r[0] == x);
                } else {
                    assert(t[k - 1] == x);
                    assert(t.contains(x));
                    assert(insert_by_line(t, h).contains(x));
                    let m = choose|m: int| 0 <= m < rt.len() && rt[m] == x;
                    assert(r[m + 1] == x);
                }
            }
            if x == h {
                assert(insert_by_line(t, h).contains(h));
                let m = choose|m: int| 0 <= m < rt.len() && rt[m] == h;
                assert(r[m + 1] == h);
            }
        }
    } else {
        assert(r == seq![h] + s);
        assert forall|i: int, j: int| 0 <= i < j < r.len() implies r[i].0 <= r[j].0 by {
            if i == 0 {
                assert(s[0].0 <= s[j - 1].0 || j - 1 == 0);
            }
        }
        assert forall|x: Hit| r.contains(x) <==> s.contains(x) || x == h by {
            if r.contains(x) {
                let k = choose|k: int| 0 <= k < r.len() && r[k] == x;
                if k > 0 {
                    assert(s[k - 1] == x);
                }
            }
            if s.contains(x) {
                let k = choose|k: int| 0 <= k < s.len() && s[k] == x;
                assert(r[k + 1] == x);
            }
            if x == h {
                assert(r[0] == x);
            }
        }
    }
}

/// Local-lock findings come in line order, one per reported lock; a lock
/// that escaped its scope, or was used other than by lock calls, is never
/// reported.
pub proof fn law_lock_findings_sorted_and_only_reported(locks: Seq<LockState>)
    ensures
        forall|i: int, j: int| 0 <= i < j < lock_hits(locks).len() ==> lock_hits(locks)[i].0 <= lock_hits(locks)[j].0,
        (forall|i: int| 0 <= i < locks.len() ==> !reported(#[trigger] locks[i])) ==> lock_hits(locks).len() == 0,
        lock_hits(locks).len() <= locks.len(),
    decreases locks.len(),
{
    if locks.len() > 0 {
        law_lock_findings_sorted_and_only_reported(locks.drop_last());
        let prev = lock_hits(locks.drop_last());
        if reported(locks.last()) {
            lemma_insert_by_line_sorted(
                prev,
                (locks.last().line->0, FindingConfidence::High, crate::detectors::local_lock::lock_message(locks.last())),
            );
        }
        if forall|i: int| 0 <= i < locks.len() ==> !reported(#[trigger] locks[i]) {
            assert forall|i: int| 0 <= i < locks.drop_last().len() implies !reported(#[trigger] locks.drop_last()[i]) by {
                assert(locks.drop_last()[i] == locks[i]);
            }
            assert(!reported(locks[locks.len() - 1]));
        }
    }
}

/// A dependency that the manifest also declares as a normal dependency is
/// never reported as dev-only.
pub proof fn law_production_dependencies_are_not_dev_only(text: Seq<char>, name: Seq<char>)
    requires
        toml_parses(text),
        scopes_names(dependency_scopes(toml_document(text)), "dependencies"@).contains(name),
    ensures
        !dev_only(text).contains(name),
{
}

/// A sort is paired with a selection only when no statement after the
/// selection uses the sorted variable.
pub proof fn law_sort_candidates_are_last_uses(stmts: Seq<StmtModel>, i: int, indexed: bool)
    requires
        sort_candidate(stmts, i, indexed) is Some,
    ensures
        sorted_name(stmts[i]) matches Some(name) && forall|k: int| i + 1 < k < stmts.len() ==> !#[trigger] stmt_mentions(stmts[k], name),
{
}

/// Inside a block whose context is documented, every statement is.
pub proof fn law_documented_blocks_document_statements(b: BlockDocs, gap: Seq<char>, call: Option<Seq<char>>)
    requires
        b.inherited,
    ensures
        statement_documented(b, gap, call),
{
}

/// `src/lib.rs` and `src/main.rs` are crate roots whatever the manifest
/// declares, and they come first.
pub proof fn law_conventional_roots_are_entries(manifest: Option<Seq<char>>)
    ensures
        spec_entry_paths(manifest).len() >= 2,
        spec_entry_paths(manifest).take(2) == default_entries(),
{
    let r = spec_entry_paths(manifest);
    assert(r.take(2) =~= default_entries());
}

/// A note never documents a closure's unsafe call in a statement that holds
/// more than one unsafe block.
pub proof fn law_closure_notes_cover_a_single_block(note: Seq<char>, unsafe_blocks: nat, call: Option<Seq<char>>)
    requires
        unsafe_blocks != 1,
    ensures
        !spec_closure_call_documented(note, unsafe_blocks, call),
{
}

/// A duration of at least one second (after rounding to milliseconds) is
/// written as its days, hours below 24, minutes below 60 and seconds below
/// 60, which add up to its whole seconds, in that order; at least one part
/// is written, and each unit part appears exactly when its count is nonzero.
pub proof fn law_duration_parts_add_up(nanos: nat)
    requires
        nanos > 0,
        (nanos + 500_000) / 1_000_000 >= 1000,
    ensures
        ({
            let millis = (nanos + 500_000) / 1_000_000;
            let (d, h, m, s) = duration_fields(millis);
            &&& spec_format_duration(nanos) == spec_long_duration(millis)
            &&& h < 24 && m < 60 && s < 60
            &&& d * 86400 + h * 3600 + m * 60 + s == millis / 1000
            &&& duration_parts(millis).len() >= 1
            &&& duration_parts(millis).take(
                (dur_part(d, "d"@).len() + dur_part(h, "h"@).len() + dur_part(m, "min"@).len()) as int,
            ) == dur_part(d, "d"@) + dur_part(h, "h"@) + dur_part(m, "min"@)
            &&& (d > 0 <==> dur_part(d, "d"@) == seq![dec(d) + seq![' '] + "d"@])
        }),
{
    let millis = (nanos + 500_000) / 1_000_000;
    let seconds = millis / 1000;
    let r1 = seconds % 86400;
    let r2 = r1 % 3600;
    assert(seconds == (seconds / 86400) * 86400 + r1);
    assert(r1 == (r1 / 3600) * 3600 + r2);
    assert(r2 == (r2 / 60) * 60 + r2 % 60);
    let (d, h, m, s) = duration_fields(millis);
    let parts = dur_part(d, "d"@) + dur_part(h, "h"@) + dur_part(m, "min"@);
    let all = duration_parts(millis);
    assert(all.take(parts.len() as int) =~= parts);
}

/// A type wrapped `n` times in a reference.
pub open spec fn references(n: nat, t: TypeModel) -> TypeModel
    decreases n,
{
    if n == 0 {
        t
    } else {
        TypeModel::Reference(Box::new(references((n - 1) as nat, t)))
    }
}

/// A larger depth budget never proves `Eq` for a type that a smaller one
/// does not: starting deeper only loses proofs.
pub proof fn law_proven_eq_needs_budget(ctx: Context, t: TypeModel, shallow: int, deep: int)
    requires
        0 <= shallow <= deep,
        ctx.spec_proven(t, deep),
    ensures
        ctx.spec_proven(t, shallow),
{
    lemma_proven_mono(ctx, t, shallow, deep);
}

proof fn lemma_proven_mono(ctx: Context, t: TypeModel, a: int, b: int)
    requires
        0 <= a <= b,
        ctx.spec_proven(t, b),
    ensures
        ctx.spec_proven(t, a),
    decreases 17 - b, t, 1int,
{
    match t {
        TypeModel::Tuple(l) => lemma_all_proven_mono(ctx, l, a + 1, b + 1),
        TypeModel::Array(e) => lemma_proven_mono(ctx, *e, a + 1, b + 1),
        TypeModel::Slice(e) => lemma_proven_mono(ctx, *e, a + 1, b + 1),
        TypeModel::Reference(e) => lemma_proven_mono(ctx, *e, a + 1, b + 1),
        TypeModel::Paren(e) => lemma_proven_mono(ctx, *e, a + 1, b + 1),
        TypeModel::Group(e) => lemma_proven_mono(ctx, *e, a + 1, b + 1),
        TypeModel::Path { qself, path } => {
            if !qself {
                match ctx.alias_of(seq![], path) {
                    Some(x) => lemma_proven_mono(ctx, x, a + 1, b + 1),
                    None => {
                        let p = ctx.spec_path(path);
                        if !crate::evidence::is_eq_scalar(p) && crate::evidence::is_eq_container(p) {
                            match crate::evidence::last_segment(path.segments) {
                                Some(seg) => match seg.args {
                                    crate::evidence::PathArgs::Angle(l) => match l {
                                        crate::evidence::ArgList::Cons(g, _) => match g {
                                            crate::evidence::GenericArg::Type(x) => lemma_proven_mono(
                                                ctx,
                                                *x,
                                                a + 1,
                                                b + 1,
                                            ),
                                            _ => {},
                                        },
                                        _ => {},
                                    },
                                    _ => {},
                                },
                                None => {},
                            }
                        }
                    },
                }
            }
        },
        _ => {},
    }
}

proof fn lemma_all_proven_mono(ctx: Context, l: TypeList, a: int, b: int)
    requires
        0 <= a <= b,
        ctx.spec_all_proven(l, b),
    ensures
        ctx.spec_all_proven(l, a),
    decreases 17 - b, l, 0int,
{
    match l {
        TypeList::Nil => {},
        TypeList::Cons(t, rest) => {
            lemma_proven_mono(ctx, *t, a, b);
            lemma_all_proven_mono(ctx, *rest, a, b);
        },
    }
}

/// Each reference, slice, array or tuple around a type costs one level of
/// the depth budget, and a tuple is proven exactly when all its elements are.
pub proof fn law_wrappers_cost_one_level(ctx: Context, t: TypeModel, u: TypeModel, depth: int)
    requires
        0 <= depth <= 16,
    ensures
        ctx.spec_proven(TypeModel::Reference(Box::new(t)), depth) == ctx.spec_proven(t, depth + 1),
        ctx.spec_proven(TypeModel::Slice(Box::new(t)), depth) == ctx.spec_proven(t, depth + 1),
        ctx.spec_proven(TypeModel::Array(Box::new(t)), depth) == ctx.spec_proven(t, depth + 1),
        ctx.spec_proven(
            TypeModel::Tuple(TypeList::Cons(Box::new(t), Box::new(TypeList::Cons(Box::new(u), Box::new(TypeList::Nil))))),
            depth,
        ) == (ctx.spec_proven(t, depth + 1) && ctx.spec_proven(u, depth + 1)),
{
    let l = TypeList::Cons(Box::new(t), Box::new(TypeList::Cons(Box::new(u), Box::new(TypeList::Nil))));
    let tail = TypeList::Cons(Box::new(u), Box::new(TypeList::Nil));
    assert(ctx.spec_all_proven(TypeList::Nil, depth + 1));
    assert(ctx.spec_all_proven(tail, depth + 1) == ctx.spec_proven(u, depth + 1));
    assert(ctx.spec_all_proven(l, depth + 1) == (ctx.spec_proven(t, depth + 1) && ctx.spec_all_proven(tail, depth + 1)));
    assert(ctx.spec_all_proven(l, depth + 1) == (ctx.spec_proven(t, depth + 1) && ctx.spec_proven(u, depth + 1)));
}

/// A type nested in more than 16 references is never proven `Eq`.
pub proof fn law_deep_types_are_never_proven(ctx: Context, n: nat, t: TypeModel)
    requires
        n > 16,
    ensures
        !ctx.spec_proves_eq(references(n, t)),
{
    lemma_references_unproven(ctx, n, t, 0);
}

proof fn lemma_references_unproven(ctx: Context, n: nat, t: TypeModel, depth: int)
    requires
        0 <= depth,
        depth + n > 16,
    ensures
        !ctx.spec_proven(references(n, t), depth),
    decreases n,
{
    if depth <= 16 {
        assert(n > 0);
        lemma_references_unproven(ctx, (n - 1) as nat, t, depth + 1);
    }
}

/// The type argument a container's last segment carries, for `Eq`.
pub open spec fn container_arg(ctx: Context, path: crate::evidence::PathModel) -> Option<TypeModel> {
    match crate::evidence::last_segment(path.segments) {
        Some(seg) => match seg.args {
            crate::evidence::PathArgs::Angle(l) => if crate::evidence::arg_count(l) == 1 {
                match l {
                    crate::evidence::ArgList::Cons(a, _) => match a {
                        crate::evidence::GenericArg::Type(x) => Some(*x),
                        _ => None,
                    },
                    _ => None,
                }
            } else {
                None
            },
            _ => None,
        },
        None => None,
    }
}

/// Proving `Eq` for `t`, aliases expanded, needs fewer than `n` levels.
pub open spec fn eq_within(ctx: Context, t: TypeModel, n: nat) -> bool
    decreases n, t,
{
    n > 0 && match t {
        TypeModel::Tuple(l) => all_eq_within(ctx, l, (n - 1) as nat),
        TypeModel::Array(e) => eq_within(ctx, *e, (n - 1) as nat),
        TypeModel::Slice(e) => eq_within(ctx, *e, (n - 1) as nat),
        TypeModel::Reference(e) => eq_within(ctx, *e, (n - 1) as nat),
        TypeModel::Paren(e) => eq_within(ctx, *e, (n - 1) as nat),
        TypeModel::Group(e) => eq_within(ctx, *e, (n - 1) as nat),
        TypeModel::Path { qself, path } => qself || match ctx.alias_of(seq![], path) {
            Some(x) => eq_within(ctx, x, (n - 1) as nat),
            None => {
                let p = ctx.spec_path(path);
                if !crate::evidence::is_eq_scalar(p) && crate::evidence::is_eq_container(p) {
                    match container_arg(ctx, path) {
                        Some(x) => eq_within(ctx, x, (n - 1) as nat),
                        None => true,
                    }
                } else {
                    true
                }
            },
        },
        _ => true,
    }
}

pub open spec fn all_eq_within(ctx: Context, l: TypeList, n: nat) -> bool
    decreases n, l,
{
    match l {
        TypeList::Nil => true,
        TypeList::Cons(t, rest) => eq_within(ctx, *t, n) && all_eq_within(ctx, *rest, n),
    }
}

proof fn lemma_proven_shift(ctx: Context, t: TypeModel, n: nat, a: int, b: int)
    requires
        eq_within(ctx, t, n),
        0 <= a,
        0 <= b,
        a + n <= 17,
        b + n <= 17,
    ensures
        ctx.spec_proven(t, a) == ctx.spec_proven(t, b),
    decreases n, t, 1int,
{
    match t {
        TypeModel::Tuple(l) => lemma_all_proven_shift(ctx, l, (n - 1) as nat, a + 1, b + 1),
        TypeModel::Array(e) => lemma_proven_shift(ctx, *e, (n - 1) as nat, a + 1, b + 1),
        TypeModel::Slice(e) => lemma_proven_shift(ctx, *e, (n - 1) as nat, a + 1, b + 1),
        TypeModel::Reference(e) => lemma_proven_shift(ctx, *e, (n - 1) as nat, a + 1, b + 1),
        TypeModel::Paren(e) => lemma_proven_shift(ctx, *e, (n - 1) as nat, a + 1, b + 1),
        TypeModel::Group(e) => lemma_proven_shift(ctx, *e, (n - 1) as nat, a + 1, b + 1),
        TypeModel::Path { qself, path } => {
            if !qself {
                match ctx.alias_of(seq![], path) {
                    Some(x) => lemma_proven_shift(ctx, x, (n - 1) as nat, a + 1, b + 1),
                    None => {
                        let p = ctx.spec_path(path);
                        if !crate::evidence::is_eq_scalar(p) && crate::evidence::is_eq_container(p) {
                            match container_arg(ctx, path) {
                                Some(x) => lemma_proven_shift(ctx, x, (n - 1) as nat, a + 1, b + 1),
                                None => {},
                            }
                        }
                    },
                }
            }
        },
        _ => {},
    }
}

proof fn lemma_all_proven_shift(ctx: Context, l: TypeList, n: nat, a: int, b: int)
    requires
        all_eq_within(ctx, l, n),
        0 <= a,
        0 <= b,
        a + n <= 17,
        b + n <= 17,
    ensures
        ctx.spec_all_proven(l, a) == ctx.spec_all_proven(l, b),
    decreases n, l, 0int,
{
    match l {
        TypeList::Nil => {},
        TypeList::Cons(t, rest) => {
            lemma_proven_shift(ctx, *t, n, a, b);
            lemma_all_proven_shift(ctx, *rest, n, a, b);
        },
    }
}

/// For types whose `Eq` proof, aliases expanded, is nested fewer than 16
/// levels, `Eq` is proven for a reference, slice, array or pair of them
/// exactly when it is proven for the parts.
pub proof fn law_eq_through_wrappers(ctx: Context, t: TypeModel, u: TypeModel, n: nat)
    requires
        n <= 16,
        eq_within(ctx, t, n),
        eq_within(ctx, u, n),
    ensures
        ctx.spec_proves_eq(TypeModel::Reference(Box::new(t))) == ctx.spec_proves_eq(t),
        ctx.spec_proves_eq(TypeModel::Slice(Box::new(t))) == ctx.spec_proves_eq(t),
        ctx.spec_proves_eq(TypeModel::Array(Box::new(t))) == ctx.spec_proves_eq(t),
        ctx.spec_proves_eq(
            TypeModel::Tuple(TypeList::Cons(Box::new(t), Box::new(TypeList::Cons(Box::new(u), Box::new(TypeList::Nil))))),
        ) == (ctx.spec_proves_eq(t) && ctx.spec_proves_eq(u)),
{
    lemma_proven_shift(ctx, t, n, 1, 0);
    lemma_proven_shift(ctx, u, n, 1, 0);
    law_wrappers_cost_one_level(ctx, t, u, 0);
}

/// After one more expression, each lock state the tracker holds is the state
/// of a binding it already held (same origin, name and kind), or the
/// expression is the `let` that binds it to a standard `Mutex::new` or
/// `RwLock::new` call.
pub proof fn law_lock_states_are_kept_or_constructed(
    locks: Seq<LockState>,
    ctx: Context,
    e: ExprModel,
    local: Option<((usize, usize), String)>,
    method_line: usize,
    tokens: Seq<char>,
)
    ensures
        forall|k: int|
            0 <= k < observed(locks, ctx, e, local, method_line, tokens).len() ==> (exists|j: int|
                0 <= j < locks.len() && same_lock(locks[j], #[trigger] observed(locks, ctx, e, local, method_line, tokens)[k]))
                || builds_lock(
                (Observation { ctx, e, local, method_line, tokens }),
                observed(locks, ctx, e, local, method_line, tokens)[k],
            ),
{
    let after = observed(locks, ctx, e, local, method_line, tokens);
    let ob = Observation { ctx, e, local, method_line, tokens };
    assert forall|k: int| 0 <= k < after.len() implies (exists|j: int|
        0 <= j < locks.len() && same_lock(locks[j], #[trigger] after[k])) || builds_lock(ob, after[k]) by {
        if k < locks.len() && same_lock(locks[k], after[k]) {
        } else {
            match e {
                ExprModel::Path(_) => {
                    let i = find_origin(locks, origin_of(ctx, e)->0);
                    assert(same_lock(locks[i->0], after[k]));
                },
                ExprModel::MethodCall { receiver, .. } => {
                    let i = find_origin(locks, origin_of(ctx, *receiver)->0);
                    assert(same_lock(locks[i->0], after[k]));
                },
                _ => {},
            }
        }
    }
}

/// From an empty tracker, every lock state that any run of observations
/// leaves was built by one of them: a `let` that binds the lock's origin and
/// name to a standard `Mutex::new` or `RwLock::new` call of its kind.
pub proof fn law_tracked_locks_come_from_std_constructors(run: Seq<Observation>)
    ensures
        forall|k: int|
            0 <= k < observed_all(seq![], run).len() ==> exists|i: int|
                0 <= i < run.len() && builds_lock(run[i], #[trigger] observed_all(seq![], run)[k]),
    decreases run.len(),
{
    if run.len() > 0 {
        let prefix = run.drop_last();
        law_tracked_locks_come_from_std_constructors(prefix);
        let before = observed_all(seq![], prefix);
        let ob = run.last();
        law_lock_states_are_kept_or_constructed(before, ob.ctx, ob.e, ob.local, ob.method_line, ob.tokens);
        let after = observed_all(seq![], run);
        assert forall|k: int| 0 <= k < after.len() implies exists|i: int|
            0 <= i < run.len() && builds_lock(run[i], #[trigger] after[k]) by {
            if builds_lock(ob, after[k]) {
                assert(builds_lock(run[run.len() - 1], after[k]));
            } else {
                let j = choose|j: int| 0 <= j < before.len() && same_lock(before[j], after[k]);
                let i = choose|i: int| 0 <= i < prefix.len() && builds_lock(prefix[i], before[j]);
                assert(run[i] == prefix[i]);
                assert(builds_lock(run[i], after[k]));
            }
        }
    }
}

pub open spec fn precision_rank(p: Precision) -> int {
    match p {
        Precision::Conservative => 0,
        Precision::Balanced => 1,
        Precision::Exploratory => 2,
    }
}

/// Precision modes nest: reporting with a stricter mode keeps exactly what
/// the stricter mode keeps of the broader mode's report, so every finding of
/// a conservative report is in the balanced one, and every finding of that
/// in the exploratory one.
pub proof fn law_precision_modes_nest(strict: ReportFilter, broad: ReportFilter, s: Seq<Smell>)
    requires
        precision_rank(strict.precision) <= precision_rank(broad.precision),
        strict.min_severity == broad.min_severity,
        strict.category == broad.category,
    ensures
        kept(strict, s) == kept(strict, kept(broad, s)),
        kept(strict, s).len() <= kept(broad, s).len(),
    decreases s.len(),
{
    if s.len() > 0 {
        let p = s.drop_last();
        let x = s.last();
        law_precision_modes_nest(strict, broad, p);
        lemma_kept_len(strict, kept(broad, p));
        if spec_keeps(broad, x) {
            let b = kept(broad, p).push(x);
            assert(b.drop_last() =~= kept(broad, p));
            assert(b.last() == x);
        }
    }
}

proof fn lemma_kept_len(f: ReportFilter, s: Seq<Smell>)
    ensures
        kept(f, s).len() <= s.len(),
    decreases s.len(),
{
    if s.len() > 0 {
        lemma_kept_len(f, s.drop_last());
    }
}

/// A report keeps, in their order, the findings its filters accept and no
/// other: each kept finding is accepted and was found, and a report with
/// exploratory precision, no minimum severity and no category keeps all.
pub proof fn law_report_keeps_accepted_findings(f: ReportFilter, s: Seq<Smell>)
    ensures
        forall|i: int| 0 <= i < kept(f, s).len() ==> spec_keeps(f, #[trigger] kept(f, s)[i]) && s.contains(kept(f, s)[i]),
        forall|i: int| 0 <= i < s.len() && spec_keeps(f, #[trigger] s[i]) ==> kept(f, s).contains(s[i]),
        f.precision == Precision::Exploratory && f.min_severity == Severity::Info && f.category is None ==> kept(f, s)
            == s,
    decreases s.len(),
{
    if s.len() > 0 {
        let p = s.drop_last();
        law_report_keeps_accepted_findings(f, p);
        let k = kept(f, s);
        assert forall|i: int| 0 <= i < k.len() implies spec_keeps(f, #[trigger] k[i]) && s.contains(k[i]) by {
            if i < kept(f, p).len() {
                assert(k[i] == kept(f, p)[i]);
                let j = choose|j: int| 0 <= j < p.len() && p[j] == kept(f, p)[i];
                assert(s[j] == p[j]);
            } else {
                assert(s[s.len() - 1] == s.last());
            }
        }
        assert forall|i: int| 0 <= i < s.len() && spec_keeps(f, #[trigger] s[i]) implies k.contains(s[i]) by {
            if i < p.len() {
                assert(p[i] == s[i]);
                let j = choose|j: int| 0 <= j < kept(f, p).len() && kept(f, p)[j] == p[i];
                if spec_keeps(f, s.last()) {
                    assert(k[j] == kept(f, p)[j]);
                }
            } else {
                assert(k[k.len() - 1] == s.last());
            }
        }
        if f.precision == Precision::Exploratory && f.min_severity == Severity::Info && f.category is None {
            assert(p.push(s.last()) =~= s);
        }
    }
}

/// Every lock state a tracker holds was built by one of the observations
/// shown to it: a `let` that binds the lock's origin and name to a standard
/// `Mutex::new` or `RwLock::new` call of its kind. The local-lock findings
/// are drawn from these states only.
pub proof fn law_tracker_locks_come_from_std_constructors(t: LocalLockTracker)
    requires
        t.wf(),
    ensures
        forall|k: int|
            0 <= k < t.states().len() ==> exists|i: int|
                0 <= i < t.shown().len() && builds_lock(t.shown()[i], #[trigger] t.states()[k]),
{
    t.lemma_wf();
    law_tracked_locks_come_from_std_constructors(t.shown());
}

proof fn lemma_unknown_bound_keeps_frame(a: Context, pats: Seq<PatModel>, b: Context)
    requires
        unknown_bound(a, pats, b),
    ensures
        b.execution == a.execution,
        b.loop_depth == a.loop_depth,
        b.in_async == a.in_async,
        b.in_const == a.in_const,
    decreases pats.len(),
{
    if pats.len() > 0 {
        let m = choose|m: Context| #[trigger] picked(m) && unknown_bound(a, pats.drop_last(), m) && if m.bindings@.len() > 0 {
            bound(m, pats.last(), Kind::Unknown, b)
        } else {
            b == m
        };
        lemma_unknown_bound_keeps_frame(a, pats.drop_last(), m);
    }
}

/// A closure body is walked in an execution scope of its own: it starts
/// where the closure starts, outside every loop of the enclosing code, async
/// exactly when the closure is; and the guards its body names are forgotten
/// once it is walked.
pub proof fn law_closures_are_execution_scopes(
    c: Context,
    in_async: bool,
    at: (usize, usize),
    params: Vec<PatModel>,
    body: ScanNode,
    used: Vec<String>,
    obs: Seq<(usize, Context)>,
    d: Context,
)
    requires
        walked(
            c,
            ScanNode::Scoped {
                skip: false,
                entry: Entry::Closure { in_async, at, params },
                body: Box::new(body),
                used: Some(used),
            },
            obs,
            d,
        ),
    ensures
        exists|s: Context, e: Context|
            #[trigger] picked((s, e)) && walked(s, body, obs, e) && s.execution == at && s.loop_depth == 0
                && s.in_async == in_async,
        exists|prev: Context| #[trigger] picked(prev) && copied(c, prev) && captured_forgotten(prev, used@, d),
{
    let (prev, s, e) = choose|prev: Context, s: Context, e: Context|
        #[trigger] picked((prev, s, e)) && walked(s, body, obs, e) && copied(c, prev) && entered(
            c,
            Entry::Closure { in_async, at, params },
            s,
        ) && captured_forgotten(prev, used@, d);
    let m = choose|m: Context| #[trigger] picked(m) && closure_entered(c, in_async, at, m) && unknown_bound(m, params@, s);
    lemma_unknown_bound_keeps_frame(m, params@, s);
    assert(picked((s, e)));
    assert(picked(prev));
}

/// The statements of a block after a `return`, `break` or `continue` are
/// never walked: what the block shows from that statement on is what the
/// statement shows.
pub proof fn law_blocks_stop_after_exits(c: Context, stmt: ScanNode, rest: ScanStmts, obs: Seq<(usize, Context)>, d: Context)
    requires
        walked_stmts(c, ScanStmts::Cons { exits: true, stmt: Box::new(stmt), rest: Box::new(rest) }, obs, d),
    ensures
        walked(c, stmt, obs, d),
{
    let (k, m) = choose|k: int, m: Context| #[trigger] picked((k, m)) && 0 <= k <= obs.len() && walked(c, stmt, obs.take(k), m) && (k == obs.len() && d == m);
    assert(obs.take(k) =~= obs);
}

/// A function, `async` block, constant context or module body leaves the
/// context as it found it, and an item compiled only for tests shows
/// nothing.
pub proof fn law_scoped_bodies_restore_the_context(c: Context, skip: bool, entry: Entry, body: ScanNode, obs: Seq<(usize, Context)>, d: Context)
    requires
        walked(c, ScanNode::Scoped { skip, entry, body: Box::new(body), used: None }, obs, d),
    ensures
        skip ==> obs.len() == 0 && d == c,
        !skip ==> copied(c, d),
{
}

/// The observation a walk's expression at `i` makes.
pub open spec fn walk_observation(obs: Seq<(usize, Context)>, shown: Seq<LockShown>, i: int) -> Observation {
    let s = shown[obs[i].0 as int];
    Observation { ctx: obs[i].1, e: s.model, local: s.local, method_line: s.method_line, tokens: s.tokens@ }
}

proof fn lemma_lock_run_entries(obs: Seq<(usize, Context)>, shown: Seq<LockShown>)
    ensures
        forall|j: int| 0 <= j < lock_run(obs, shown).len() ==> exists|i: int|
            0 <= i < obs.len() && obs[i].0 < shown.len() && #[trigger] lock_run(obs, shown)[j] == walk_observation(
                obs,
                shown,
                i,
            ),
    decreases obs.len(),
{
    if obs.len() > 0 {
        let pre = obs.drop_last();
        lemma_lock_run_entries(pre, shown);
        let r = lock_run(obs, shown);
        let r0 = lock_run(pre, shown);
        let last = obs.len() - 1;
        assert forall|j: int| 0 <= j < r.len() implies exists|i: int|
            0 <= i < obs.len() && obs[i].0 < shown.len() && #[trigger] r[j] == walk_observation(obs, shown, i) by {
            if j < r0.len() {
                let i = choose|i: int| 0 <= i < pre.len() && pre[i].0 < shown.len() && #[trigger] r0[j] == walk_observation(
                    pre,
                    shown,
                    i,
                );
                assert(pre[i] == obs[i]);
                assert(walk_observation(pre, shown, i) == walk_observation(obs, shown, i));
            } else {
                assert(r[j] == walk_observation(obs, shown, last));
            }
        }
    }
}

/// Over a walk of a file, every lock the tracker holds, and so every lock it
/// can report, was built by an expression of the walk, in the context the
/// walk gives it: a `let` that binds the lock's origin and name to a
/// standard `Mutex::new` or `RwLock::new` call of its kind.
pub proof fn law_walked_locks_come_from_std_constructors(obs: Seq<(usize, Context)>, shown: Seq<LockShown>)
    ensures
        forall|k: int|
            0 <= k < observed_all(seq![], lock_run(obs, shown)).len() ==> exists|i: int|
                0 <= i < obs.len() && obs[i].0 < shown.len() && builds_lock(
                    walk_observation(obs, shown, i),
                    #[trigger] observed_all(seq![], lock_run(obs, shown))[k],
                ),
{
    let run = lock_run(obs, shown);
    law_tracked_locks_come_from_std_constructors(run);
    lemma_lock_run_entries(obs, shown);
    assert forall|k: int| 0 <= k < observed_all(seq![], run).len() implies exists|i: int|
        0 <= i < obs.len() && obs[i].0 < shown.len() && builds_lock(
            walk_observation(obs, shown, i),
            #[trigger] observed_all(seq![], run)[k],
        ) by {
        let j = choose|j: int| 0 <= j < run.len() && builds_lock(run[j], observed_all(seq![], run)[k]);
        let i = choose|i: int| 0 <= i < obs.len() && obs[i].0 < shown.len() && #[trigger] run[j] == walk_observation(obs, shown, i);
    }
}

/// `a` is `b` with some items left out: each item of `a` sits at an index of
/// `b`, and the indices rise.
pub open spec fn subsequence_of(a: Seq<usize>, b: Seq<usize>) -> bool {
    exists|f: Seq<int>| #[trigger] picked(f) && embeds(f, a, b)
}

pub open spec fn embeds(f: Seq<int>, a: Seq<usize>, b: Seq<usize>) -> bool {
    &&& f.len() == a.len()
    &&& forall|i: int| 0 <= i < f.len() ==> 0 <= #[trigger] f[i] < b.len() && b[f[i]] == a[i]
    &&& forall|i: int, j: int| 0 <= i < j < f.len() ==> f[i] < f[j]
}

/// `x` is the line of an observed expression that is a looked-at discarded
/// known spawn call.
pub open spec fn spawn_line_seen(obs: Seq<(usize, Context)>, shown: Seq<ShownExpr>, x: usize) -> bool {
    exists|i: int| 0 <= i < obs.len() && #[trigger] spawn_seen(obs, shown, true, i) && shown[obs[i].0 as int].line == x
}

/// Looking at thrown-away statements as well only adds spawn lines: over the
/// same observations, the lines found from `let _` alone are a subsequence
/// of those found with statements too, and each line found is that of an
/// observed expression that is a known spawn call in its context.
pub proof fn law_statement_discards_only_add_spawn_lines(obs: Seq<(usize, Context)>, shown: Seq<ShownExpr>)
    ensures
        subsequence_of(spawn_lines(obs, shown, false), spawn_lines(obs, shown, true)),
        forall|k: int| 0 <= k < spawn_lines(obs, shown, true).len() ==> spawn_line_seen(
            obs,
            shown,
            #[trigger] spawn_lines(obs, shown, true)[k],
        ),
    decreases obs.len(),
{
    let a = spawn_lines(obs, shown, false);
    let b = spawn_lines(obs, shown, true);
    if obs.len() == 0 {
        let f: Seq<int> = Seq::empty();
        assert(embeds(f, a, b));
        assert(picked(f));
    } else {
        let pre = obs.drop_last();
        law_statement_discards_only_add_spawn_lines(pre, shown);
        let a0 = spawn_lines(pre, shown, false);
        let b0 = spawn_lines(pre, shown, true);
        let f0 = choose|f: Seq<int>| #[trigger] picked(f) && embeds(f, a0, b0);
        let last = obs.len() - 1;
        assert forall|i: int| 0 <= i < pre.len() implies (#[trigger] spawn_seen(pre, shown, true, i)
            == spawn_seen(obs, shown, true, i)) by {
            assert(pre[i] == obs[i]);
        }
        if spawn_seen(obs, shown, false, last) {
            assert(spawn_seen(obs, shown, true, last));
            let f = f0.push(b0.len() as int);
            assert(embeds(f, a, b));
            assert(picked(f));
        } else {
            assert(embeds(f0, a, b));
            assert(picked(f0));
        }
        if spawn_seen(obs, shown, true, last) {
            assert(b =~= b0.push(shown[obs[last].0 as int].line));
        } else {
            assert(b =~= b0);
        }
        assert forall|k: int| 0 <= k < b.len() implies spawn_line_seen(obs, shown, #[trigger] b[k]) by {
            if k < b0.len() {
                assert(spawn_line_seen(pre, shown, b0[k]));
                let i = choose|i: int| 0 <= i < pre.len() && #[trigger] spawn_seen(pre, shown, true, i)
                    && shown[pre[i].0 as int].line == b0[k];
                assert(pre[i] == obs[i]);
                assert(spawn_seen(obs, shown, true, i));
            } else {
                assert(spawn_seen(obs, shown, true, last));
                assert(shown[obs[last].0 as int].line == b[k]);
            }
        }
    }
}

/// Every position the safety walk of a file records is an `unsafe` keyword
/// of the syntax it walks: that of an unsafe block, an unsafe function or an
/// unsafe impl, or that of an unsafe block a statement holds.
pub proof fn law_safety_docs_record_only_unsafe_keywords(code: Seq<char>, file: NoteNode)
    ensures
        forall|k: int|
            0 <= k < walk_node(code_view(code), file, empty_walk()).found.len() ==> keyword_in(
                file,
                #[trigger] walk_node(code_view(code), file, empty_walk()).found[k],
            ),
{
    lemma_walk_node_records_keywords(code_view(code), file, empty_walk());
}

/// The type a query's receiver collects into, when the receiver is a
/// `collect` call with a turbofish type.
pub open spec fn collected_type(e: ExprModel) -> Option<TypeModel> {
    match e {
        ExprModel::MethodCall { receiver, .. } => match *receiver {
            ExprModel::MethodCall { method, turbofish: Some(ArgList::Cons(GenericArg::Type(ty), _)), .. } => if method@
                == "collect"@ {
                Some(*ty)
            } else {
                None
            },
            _ => None,
        },
        _ => None,
    }
}

/// Collect-then-iterate speaks only of collections established as `Vec`: a
/// query of a collection into any other kind (a set, a map, an unknown type)
/// yields no finding.
pub proof fn law_collect_then_iterate_needs_a_vec(ctx: Context, e: ExprModel)
    ensures
        collect_then_iterate(ctx, e) is Some ==> (collected_type(e) matches Some(t) && ctx.spec_kind(t) == Kind::Vec),
        collected_type(e) matches Some(t) && ctx.spec_kind(t) != Kind::Vec ==> collect_then_iterate(ctx, e) is None,
        collect_then_iterate(ctx, e) is Some ==> (e matches ExprModel::MethodCall { method, args, .. } && args is Nil && (
        method@ == "iter"@ || method@ == "into_iter"@ || method@ == "len"@ || method@ == "is_empty"@)),
        collect_then_iterate(ctx, e) == Some(FindingConfidence::High) ==> (collected_source(e) matches Some(r)
            && spec_value(ctx.spec_expr(r)) == Kind::Vec),
{
}

/// What the collected iterator is taken from, when it comes from an `iter`
/// or `into_iter` call.
pub open spec fn collected_source(e: ExprModel) -> Option<ExprModel> {
    match e {
        ExprModel::MethodCall { receiver, .. } => match *receiver {
            ExprModel::MethodCall { receiver: source, .. } => match *source {
                ExprModel::MethodCall { receiver: r, method, .. } => if method@ == "iter"@ || method@ == "into_iter"@ {
                    Some(*r)
                } else {
                    None
                },
                _ => None,
            },
            _ => None,
        },
        _ => None,
    }
}

/// The value whose clone a `push` call moves into a collection.
pub open spec fn pushed_clone_receiver(push: ExprModel) -> Option<ExprModel> {
    match push {
        ExprModel::MethodCall { args, .. } => match first_expr(args) {
            Some(ExprModel::MethodCall { receiver, .. }) => Some(*receiver),
            _ => None,
        },
        _ => None,
    }
}

/// A clone pushed into a collection is confirmed only when the cloned value
/// is a binding of the current scope, outside any loop: a clone of a value
/// bound further out, which later code may still use, is never confirmed.
pub proof fn law_confirmed_clones_are_current_bindings(ctx: Context, push: ExprModel)
    ensures
        spec_confirm_clone(ctx, push) ==> (ctx.loop_depth == 0 && (pushed_clone_receiver(push) matches Some(cr)
            && ctx.spec_is_current_binding(cr))),
        pushed_clone_receiver(push) matches Some(cr) && !ctx.spec_is_current_binding(cr) ==> !spec_confirm_clone(ctx, push),
        spec_confirm_clone(ctx, push) ==> (push matches ExprModel::MethodCall { receiver, .. } && spec_value(
            ctx.spec_expr(*receiver),
        ) == Kind::Vec),
        spec_confirm_clone(ctx, push) ==> (pushed_clone_receiver(push) matches Some(cr) && (ctx.spec_expr(cr)
            == Kind::String || ctx.spec_expr(cr) == Kind::Vec)),
{
}

/// Rewriting a comparison of a character count with zero keeps its truth
/// value: `== 0` becomes a plain emptiness test, `!= 0` and `> 0` a negated
/// one.
pub proof fn law_empty_check_keeps_the_comparison(rest: Seq<char>)
    ensures
        spec_empty_check_tail(rest) matches Some((negated, _)) ==> {
            let r = trim_start(rest);
            &&& (r.len() >= 2 && r[0] == '=' && r[1] == '=') ==> !negated
            &&& (r.len() >= 2 && r[0] == '!' && r[1] == '=') ==> negated
            &&& (r.len() >= 1 && r[0] == '>') ==> negated
        },
{
    let r = trim_start(rest);
    if r.len() >= 2 && r[0] == '!' && r[1] == '=' {
        assert(r.take(2) != seq!['=', '=']) by {
            assert(r.take(2)[0] == '!');
        }
        assert(r.take(2) =~= seq!['!', '=']);
    }
    if r.len() >= 1 && r[0] == '>' {
        if r.len() >= 2 {
            assert(r.take(2) != seq!['=', '=']) by {
                assert(r.take(2)[0] == '>');
            }
            assert(r.take(2) != seq!['!', '=']) by {
                assert(r.take(2)[0] == '>');
            }
        }
        assert(r.take(1) =~= seq!['>']);
    }
    if r.len() >= 2 && r[0] == '=' && r[1] == '=' {
        assert(r.take(2) =~= seq!['=', '=']);
    }
}

proof fn lemma_found_in(s: Seq<char>, pat: Seq<char>, i: int)
    ensures
        spec_find_from(s, pat, i) matches Some(k) ==> i <= k && spec_matches_at(s, k, pat),
    decreases s.len() + 1 - i,
{
    if 0 <= i <= s.len() && !spec_matches_at(s, i, pat) {
        lemma_found_in(s, pat, i + 1);
    }
}

proof fn lemma_receiver_chars(s: Seq<char>, j: int)
    requires
        0 <= j <= s.len(),
    ensures
        0 <= receiver_start_at(s, j) <= j,
        forall|m: int| receiver_start_at(s, j) <= m < j ==> #[trigger] spec_is_receiver_char(s[m]),
    decreases j,
{
    if 0 < j && spec_is_receiver_char(s[j - 1]) {
        lemma_receiver_chars(s, j - 1);
    }
}

/// The rewrite of `<receiver>.chars().count() <op> 0` keeps the line up to
/// the receiver and keeps the comparison's truth value: after `== 0` the
/// receiver follows unnegated, after `!= 0` or `> 0` it follows a `!`.
pub proof fn law_rewritten_empty_check_keeps_the_comparison(s: Seq<char>)
    ensures
        spec_rewrite_empty_check(s) matches Some(t) ==> {
            let cs = spec_find_from(s, chars_count_pat(), 0)->0;
            let rs = receiver_start_at(s, cs);
            let r = trim_start(s.skip(cs + 16));
            &&& 0 <= rs < t.len()
            &&& t.take(rs) == s.take(rs)
            &&& (r.len() >= 2 && r[0] == '=' && r[1] == '=') ==> t[rs] != '!'
            &&& (r.len() >= 2 && r[0] == '!' && r[1] == '=') ==> t[rs] == '!'
            &&& (r.len() >= 1 && r[0] == '>') ==> t[rs] == '!'
        },
{
    if let Some(t) = spec_rewrite_empty_check(s) {
        let cs = spec_find_from(s, chars_count_pat(), 0)->0;
        lemma_found_in(s, chars_count_pat(), 0);
        lemma_receiver_chars(s, cs);
        let rs = receiver_start_at(s, cs);
        let sub = s.subrange(rs, cs);
        assert(sub.len() > 0);
        assert(!spec_is_whitespace(sub[0])) by {
            assert(spec_is_receiver_char(s[rs]));
        }
        assert(skip_ws(sub, 0) == 0);
        assert(trim_start(sub) =~= sub);
        assert(!spec_is_whitespace(sub[sub.len() - 1])) by {
            assert(spec_is_receiver_char(s[cs - 1]));
        }
        assert(trim_end_at(sub, sub.len() as int) == sub.len());
        assert(trim(sub) =~= sub);
        law_empty_check_keeps_the_comparison(s.skip(cs + 16));
        let (negated, trailing) = spec_empty_check_tail(s.skip(cs + 16))->0;
        let pre = s.take(rs) + (if negated { seq!['!'] } else { seq![] });
        assert(t == pre + sub + is_empty_call() + trailing);
        assert(t.take(rs) =~= s.take(rs));
        if !negated {
            assert(t[rs] == sub[0]);
            assert(sub[0] == s[rs]);
            assert(spec_is_receiver_char(s[rs]));
        } else {
            assert(t[rs] == '!');
        }
    }
}

/// Only a mutable reference `&mut *p` or a call `p.as_mut()` joins a group
/// of mutable references; a shared reference `&*p` never does, so it leaves
/// the groups unchanged.
pub proof fn law_only_mutable_references_join_groups(ctx: Context, e: ExprModel)
    ensures
        e matches ExprModel::Reference { mutable: false, .. } ==> mut_ref_entry(ctx, e) is None,
        mut_ref_entry(ctx, e) is Some ==> (e matches ExprModel::Reference { mutable: true, expr } && *expr matches ExprModel::Unary {
            deref: true,
            ..
        }) || (e matches ExprModel::MethodCall { method, .. } && method@ == "as_mut"@),
        mut_ref_entry(ctx, e) matches Some((_, name)) ==> (mut_ref_source(e) matches Some(p) && ctx.spec_expr(p)
            == Kind::RawPointer && spec_ident(p) == Some(name)),
{
}

/// A synchronous channel receive is reported only in async execution: outside
/// async code the detector finds nothing.
pub proof fn law_blocking_receives_need_async(ctx: Context, e: ExprModel, line: usize)
    ensures
        channel_hit(ctx, e, line) is Some ==> ctx.in_async,
        !ctx.in_async ==> channel_hit(ctx, e, line) is None,
        channel_hit(ctx, e, line) is Some ==> (e matches ExprModel::MethodCall { receiver, method, .. } && spec_value(
            ctx.spec_expr(*receiver),
        ) == Kind::SyncReceiver && (method@ == "recv"@ || method@ == "recv_timeout"@)),
        channel_hit(ctx, e, line) matches Some(h) ==> h.0 == line,
{
}

} // verus!
