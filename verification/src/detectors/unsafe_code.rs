//! Unsafe-code detectors: transmutes, raw pointer arithmetic, repeated
//! mutable references from one raw pointer, foreign functions without a
//! safe caller, and undocumented unsafe `Send`/`Sync` impls.
use vstd::prelude::*;
use crate::detectors::{
    appended, finding, findings_are, findings_match, has_test_cfg, lemma_findings_concat,
    lemma_findings_push, lemma_match_push, push_hit, requires_test, smell_is, CfgModel, FullHit, Hit,
};
use crate::domain::{FindingConfidence, Severity, Smell, SmellCategory};
use crate::evidence::{
    ident, names_of, spec_ident, spec_value, Context, ExprModel, Kind, PathModel,
};
use crate::manifest::contains_name;
use crate::text::{chars_of, extend, extend_str, slice_of, str_eq, string_of};

verus! {

pub open spec fn transmute_path(p: Seq<char>) -> bool {
    p == "std::mem::transmute"@ || p == "core::mem::transmute"@ || p == "std::mem::transmute_copy"@
        || p == "core::mem::transmute_copy"@
}

pub open spec fn transmute_hit(ctx: Context, e: ExprModel, line: usize) -> Option<FullHit> {
    match e {
        ExprModel::Call { func, .. } => match *func {
            ExprModel::Path(p) => if transmute_path(ctx.spec_path(p)) {
                Some(
                    (
                        line,
                        Severity::Critical,
                        FindingConfidence::High,
                        "Explicit memory transmutation requires a safety review"@,
                        "Prefer a checked conversion where it preserves the intended representation."@,
                    ),
                )
            } else {
                None
            },
            _ => None,
        },
        _ => None,
    }
}

/// Calls of `transmute` and `transmute_copy`.
pub struct TransmuteUsageDetector;

impl TransmuteUsageDetector {
    pub fn name(&self) -> (r: &'static str)
        ensures
            r@ == "Transmute Usage"@,
    {
        "Transmute Usage"
    }

    /// Inspects one expression starting on `line`.
    pub fn observe(&self, path: &str, ctx: &Context, e: &ExprModel, line: usize, out: &mut Vec<Smell>)
        requires
            ctx.wf(),
        ensures
            appended(old(out)@, final(out)@, transmute_hit(*ctx, *e, line), SmellCategory::Unsafe,
                "Transmute Usage"@, path@),
    {
        if let ExprModel::Call { func, .. } = e {
            if let ExprModel::Path(p) = &**func {
                let resolved = ctx.path(p);
                let t = resolved.as_str();
                if str_eq(t, "std::mem::transmute") || str_eq(t, "core::mem::transmute") || str_eq(
                    t,
                    "std::mem::transmute_copy",
                ) || str_eq(t, "core::mem::transmute_copy") {
                    let s = finding(
                        SmellCategory::Unsafe,
                        self.name(),
                        Severity::Critical,
                        FindingConfidence::High,
                        path,
                        line,
                        line,
                        "Explicit memory transmutation requires a safety review",
                        "Prefer a checked conversion where it preserves the intended representation.",
                    );
                    push_hit(out, Ghost(transmute_hit(*ctx, *e, line)), s, SmellCategory::Unsafe,
                        Ghost("Transmute Usage"@), Ghost(path@));
                }
            }
        }
    }
}

pub open spec fn pointer_arithmetic(m: Seq<char>) -> bool {
    ||| m == "offset"@
    ||| m == "add"@
    ||| m == "sub"@
    ||| m == "wrapping_offset"@
    ||| m == "wrapping_add"@
    ||| m == "wrapping_sub"@
    ||| m == "byte_offset"@
    ||| m == "byte_add"@
    ||| m == "byte_sub"@
}

fn pointer_arithmetic_exec(m: &str) -> (r: bool)
    ensures
        r == pointer_arithmetic(m@),
{
    str_eq(m, "offset") || str_eq(m, "add") || str_eq(m, "sub") || str_eq(m, "wrapping_offset")
        || str_eq(m, "wrapping_add") || str_eq(m, "wrapping_sub") || str_eq(m, "byte_offset")
        || str_eq(m, "byte_add") || str_eq(m, "byte_sub")
}

pub open spec fn arithmetic_hit(ctx: Context, e: ExprModel, method_line: usize) -> Option<FullHit> {
    match e {
        ExprModel::MethodCall { receiver, method, .. } => if spec_value(ctx.spec_expr(*receiver))
            == Kind::RawPointer && pointer_arithmetic(method@) {
            Some(
                (
                    method_line,
                    Severity::Warning,
                    FindingConfidence::High,
                    "Raw pointer arithmetic: "@ + method@,
                    "Prefer safe indexing when possible; otherwise verify pointer provenance and bounds."@,
                ),
            )
        } else {
            None
        },
        _ => None,
    }
}

/// Offset arithmetic on raw pointers.
pub struct RawPointerArithmeticDetector;

impl RawPointerArithmeticDetector {
    pub fn name(&self) -> (r: &'static str)
        ensures
            r@ == "Raw Pointer Arithmetic"@,
    {
        "Raw Pointer Arithmetic"
    }

    /// Inspects one expression; `method_line` is the line of a method
    /// call's name.
    pub fn observe(&self, path: &str, ctx: &Context, e: &ExprModel, method_line: usize, out: &mut Vec<Smell>)
        requires
            ctx.wf(),
        ensures
            appended(old(out)@, final(out)@, arithmetic_hit(*ctx, *e, method_line), SmellCategory::Unsafe,
                "Raw Pointer Arithmetic"@, path@),
    {
        if let ExprModel::MethodCall { receiver, method, .. } = e {
            let k = ctx.expr(receiver);
            if matches!(k.value(), Kind::RawPointer) && pointer_arithmetic_exec(method.as_str()) {
                let mut msg: Vec<char> = Vec::new();
                extend_str(&mut msg, "Raw pointer arithmetic: ");
                extend(&mut msg, &chars_of(method.as_str()));
                let message = string_of(msg.as_slice());
                let s = finding(
                    SmellCategory::Unsafe,
                    self.name(),
                    Severity::Warning,
                    FindingConfidence::High,
                    path,
                    method_line,
                    method_line,
                    message.as_str(),
                    "Prefer safe indexing when possible; otherwise verify pointer provenance and bounds.",
                );
                push_hit(out, Ghost(arithmetic_hit(*ctx, *e, method_line)), s, SmellCategory::Unsafe,
                    Ghost("Raw Pointer Arithmetic"@), Ghost(path@));
            }
        }
    }
}

/// The raw pointer a mutable reference is built from: `&mut *p` or
/// `p.as_mut()`.
pub open spec fn mut_ref_source(e: ExprModel) -> Option<ExprModel> {
    match e {
        ExprModel::Reference { mutable: true, expr } => match *expr {
            ExprModel::Unary { deref: true, expr: inner } => Some(*inner),
            _ => None,
        },
        ExprModel::MethodCall { receiver, method, .. } => if method@ == "as_mut"@ {
            Some(*receiver)
        } else {
            None
        },
        _ => None,
    }
}

/// Where mutable references from one raw pointer binding are grouped: the
/// execution scope, the block, the binding's origin and its name.
pub struct MutRefKey {
    pub execution: (usize, usize),
    pub block: (usize, usize),
    pub origin: Option<(usize, usize)>,
    pub name: String,
}

pub open spec fn same_key(a: MutRefKey, b: MutRefKey) -> bool {
    a.execution == b.execution && a.block == b.block && a.origin == b.origin && a.name@ == b.name@
}

/// The binding origin and name of the raw pointer a mutable reference is
/// built from, when it is a plain binding.
pub open spec fn mut_ref_entry(ctx: Context, e: ExprModel) -> Option<(Option<(usize, usize)>, Seq<char>)> {
    match mut_ref_source(e) {
        Some(p) => if ctx.spec_expr(p) == Kind::RawPointer {
            match spec_ident(p) {
                Some(n) => Some(
                    (
                        if ctx.origins@.contains_key(n) {
                            Some(ctx.origins@[n])
                        } else {
                            None
                        },
                        n,
                    ),
                ),
                None => None,
            }
        } else {
            None
        },
        None => None,
    }
}

/// Groups of mutable reference constructions from raw pointers, in the
/// order their keys first appeared, each with its lines in order.
pub struct MutRefGroups {
    pub groups: Vec<(MutRefKey, Vec<usize>)>,
}

pub open spec fn key_matches(k: MutRefKey, ctx: Context, origin: Option<(usize, usize)>, name: Seq<char>) -> bool {
    k.execution == ctx.execution && k.block == ctx.block && k.origin == origin && k.name@ == name
}

pub open spec fn keys_distinct(groups: Seq<(MutRefKey, Vec<usize>)>) -> bool {
    forall|i: int, j: int| 0 <= i < j < groups.len() ==> !same_key(groups[i].0, groups[j].0)
}

impl MutRefGroups {
    pub open spec fn wf(&self) -> bool {
        keys_distinct(self.groups@)
    }

    pub fn new() -> (r: Self)
        ensures
            r.wf(),
            r.groups@.len() == 0,
    {
        MutRefGroups { groups: Vec::new() }
    }

    /// Inspects one expression starting on `line`: a mutable reference built
    /// from a raw pointer binding joins the group of its key.
    pub fn observe(&mut self, ctx: &Context, e: &ExprModel, line: usize)
        requires
            old(self).wf(),
            ctx.wf(),
        ensures
            final(self).wf(),
            final(self).groups@.len() >= old(self).groups@.len(),
            mut_ref_entry(*ctx, *e) is None ==> final(self).groups@ == old(self).groups@,
            mut_ref_entry(*ctx, *e) matches Some((origin, name)) ==> {
                ||| exists|i: int|
                    0 <= i < old(self).groups@.len() && key_matches(old(self).groups@[i].0, *ctx, origin, name)
                        && final(self).groups@.len() == old(self).groups@.len()
                        && final(self).groups@[i].1@ == old(self).groups@[i].1@.push(line)
                        && forall|j: int| 0 <= j < old(self).groups@.len() && j != i ==> final(self).groups@[j] == old(self).groups@[j]
                ||| (forall|i: int| 0 <= i < old(self).groups@.len() ==> !key_matches(old(self).groups@[i].0, *ctx, origin, name))
                    && final(self).groups@.len() == old(self).groups@.len() + 1
                    && final(self).groups@.take(old(self).groups@.len() as int) == old(self).groups@
                    && key_matches(final(self).groups@.last().0, *ctx, origin, name)
                    && final(self).groups@.last().1@ == seq![line]
            },
    {
        proof {
            reveal_strlit("as_mut");
        }
        let source: &ExprModel = match e {
            ExprModel::Reference { mutable, expr } => {
                if !*mutable {
                    return;
                }
                match &**expr {
                    ExprModel::Unary { deref, expr: inner } => {
                        if !*deref {
                            return;
                        }
                        inner
                    },
                    _ => return,
                }
            },
            ExprModel::MethodCall { receiver, method, .. } => {
                if !str_eq(method.as_str(), "as_mut") {
                    return;
                }
                receiver
            },
            _ => return,
        };
        if !matches!(ctx.expr(source), Kind::RawPointer) {
            return;
        }
        let name = match ident(source) {
            Some(n) => n,
            None => return,
        };
        let origin = ctx.binding_origin(source);
        let ghost gname = name@;
        assert(mut_ref_source(*e) == Some(*source));
        assert(mut_ref_entry(*ctx, *e) == Some((origin, gname)));
        let mut i: usize = 0;
        while i < self.groups.len()
            invariant
                i <= self.groups@.len(),
                self.groups@ == old(self).groups@,
                keys_distinct(old(self).groups@),
                gname == name@,
                mut_ref_entry(*ctx, *e) == Some((origin, gname)),
                forall|j: int| 0 <= j < i ==> !key_matches(self.groups@[j].0, *ctx, origin, gname),
            decreases self.groups@.len() - i,
        {
            let k = &self.groups[i].0;
            let o_eq = match (k.origin, origin) {
                (Some(a), Some(b)) => a.0 == b.0 && a.1 == b.1,
                (None, None) => true,
                _ => false,
            };
            assert(o_eq == (k.origin == origin));
            if k.execution.0 == ctx.execution.0 && k.execution.1 == ctx.execution.1 && k.block.0
                == ctx.block.0 && k.block.1 == ctx.block.1 && o_eq && str_eq(k.name.as_str(), name.as_str()) {
                assert(key_matches(old(self).groups@[i as int].0, *ctx, origin, gname));
                let (key, mut lines) = self.groups.remove(i);
                lines.push(line);
                self.groups.insert(i, (key, lines));
                assert(self.groups@[i as int].1@ == old(self).groups@[i as int].1@.push(line));
                proof {
                    assert forall|a: int, b: int| 0 <= a < b < self.groups@.len() implies !same_key(self.groups@[a].0, self.groups@[b].0) by {
                        assert(!same_key(old(self).groups@[a].0, old(self).groups@[b].0));
                    }
                    assert forall|j: int| 0 <= j < old(self).groups@.len() && j != i implies self.groups@[j] == old(self).groups@[j] by {}
                }
                return;
            }
            i = i + 1;
        }
        let key = MutRefKey {
            execution: ctx.execution,
            block: ctx.block,
            origin,
            name: crate::evidence::string_clone(name),
        };
        let ghost before = self.groups@;
        self.groups.push((key, vec![line]));
        proof {
            assert forall|a: int, b: int| 0 <= a < b < self.groups@.len() implies !same_key(self.groups@[a].0, self.groups@[b].0) by {
                if b == before.len() {
                    assert(!key_matches(before[a].0, *ctx, origin, gname));
                } else {
                    assert(!same_key(before[a].0, before[b].0));
                }
            }
            assert(self.groups@.take(before.len() as int) =~= before);
        }
    }
}

pub open spec fn mut_ref_message(name: Seq<char>) -> Seq<char> {
    "Repeated mutable reference construction from raw pointer `"@ + name
        + "`; overlapping lifetimes are unproven"@
}

pub open spec fn mut_ref_suggestion() -> Seq<char> {
    "Verify provenance and reference lifetimes; separate uses may be valid."@
}

/// One hit per line of each group of two or more, group by group.
pub open spec fn group_hits(groups: Seq<(MutRefKey, Vec<usize>)>) -> Seq<Hit>
    decreases groups.len(),
{
    if groups.len() == 0 {
        Seq::empty()
    } else {
        let g = groups.last();
        group_hits(groups.drop_last()) + if g.1@.len() >= 2 {
            g.1@.map_values(|l: usize| (l, FindingConfidence::Low, mut_ref_message(g.0.name@)))
        } else {
            Seq::empty()
        }
    }
}

/// Mutable references built more than once from the same raw pointer
/// binding in one scope.
pub struct MultiMutRefUnsafeDetector;

impl MultiMutRefUnsafeDetector {
    pub fn name(&self) -> (r: &'static str)
        ensures
            r@ == "Multi Mut Ref Unsafe"@,
    {
        "Multi Mut Ref Unsafe"
    }

    pub fn detect(&self, path: &str, groups: &MutRefGroups) -> (r: Vec<Smell>)
        ensures
            findings_are(
                r@,
                group_hits(groups.groups@),
                SmellCategory::Unsafe,
                "Multi Mut Ref Unsafe"@,
                Severity::Warning,
                path@,
                mut_ref_suggestion(),
            ),
    {
        let gs = &groups.groups;
        let mut out: Vec<Smell> = Vec::new();
        let mut i: usize = 0;
        while i < gs.len()
            invariant
                i <= gs@.len(),
                findings_are(
                    out@,
                    group_hits(gs@.take(i as int)),
                    SmellCategory::Unsafe,
                    "Multi Mut Ref Unsafe"@,
                    Severity::Warning,
                    path@,
                    mut_ref_suggestion(),
                ),
            decreases gs@.len() - i,
        {
            assert(gs@.take(i + 1).drop_last() =~= gs@.take(i as int));
            let ghost before = group_hits(gs@.take(i as int));
            let (key, lines) = (&gs[i].0, &gs[i].1);
            if lines.len() >= 2 {
                let mut msg: Vec<char> = Vec::new();
                extend_str(&mut msg, "Repeated mutable reference construction from raw pointer `");
                extend(&mut msg, &chars_of(key.name.as_str()));
                extend_str(&mut msg, "`; overlapping lifetimes are unproven");
                let message = string_of(msg.as_slice());
                let ghost mm = mut_ref_message(key.name@);
                let mut k: usize = 0;
                while k < lines.len()
                    invariant
                        k <= lines@.len(),
                        message@ == mm,
                        findings_are(
                            out@,
                            before + lines@.take(k as int).map_values(|l: usize| (l, FindingConfidence::Low, mm)),
                            SmellCategory::Unsafe,
                            "Multi Mut Ref Unsafe"@,
                            Severity::Warning,
                            path@,
                            mut_ref_suggestion(),
                        ),
                    decreases lines@.len() - k,
                {
                    let s = finding(
                        SmellCategory::Unsafe,
                        self.name(),
                        Severity::Warning,
                        FindingConfidence::Low,
                        path,
                        lines[k],
                        lines[k],
                        message.as_str(),
                        "Verify provenance and reference lifetimes; separate uses may be valid.",
                    );
                    proof {
                        let hs = before + lines@.take(k as int).map_values(|l: usize| (l, FindingConfidence::Low, mm));
                        let h = (lines@[k as int], FindingConfidence::Low, mm);
                        lemma_findings_push(out@, hs, s, h, SmellCategory::Unsafe, "Multi Mut Ref Unsafe"@,
                            Severity::Warning, path@, mut_ref_suggestion());
                        assert(hs.push(h) =~= before + lines@.take(k + 1).map_values(|l: usize| (l, FindingConfidence::Low, mm)));
                    }
                    out.push(s);
                    k = k + 1;
                }
                assert(lines@.take(lines@.len() as int) =~= lines@);
            } else {
                assert(before + Seq::<Hit>::empty() =~= before);
            }
            i = i + 1;
        }
        assert(gs@.take(gs@.len() as int) =~= gs@);
        out
    }
}

/// A resolved call path without a leading `self::`.
pub open spec fn strip_self(p: Seq<char>) -> Seq<char> {
    if p.len() >= 6 && p.take(6) == "self::"@ {
        p.skip(6)
    } else {
        p
    }
}

/// The name a call in a safe function resolves to, as a candidate wrapper
/// of a foreign function of the same module.
pub fn wrapped_name(ctx: &Context, callee: &PathModel) -> (r: String)
    requires
        ctx.wf(),
    ensures
        r@ == strip_self(ctx.spec_path(*callee)),
{
    let resolved = chars_of(ctx.path(callee).as_str());
    let pre = chars_of("self::");
    proof {
        reveal_strlit("self::");
    }
    if crate::evidence::has_prefix(&resolved, &pre) {
        assert(resolved@.take(6) =~= pre@);
        let rest = slice_of(&resolved, 6, resolved.len());
        assert(rest@ =~= resolved@.skip(6));
        string_of(rest.as_slice())
    } else {
        string_of(resolved.as_slice())
    }
}

/// A foreign function declaration: its name and the line of its `fn`.
pub struct ForeignFn {
    pub name: String,
    pub line: usize,
}

pub open spec fn ffi_message(name: Seq<char>) -> Seq<char> {
    "No local safe caller was resolved for FFI function `"@ + name
        + "`; a wrapper may exist elsewhere"@
}

pub open spec fn ffi_suggestion() -> Seq<char> {
    "Review callers and provide a safe wrapper that validates inputs when the API permits one."@
}

pub open spec fn ffi_hits(decls: Seq<ForeignFn>, wrapped: Seq<Seq<char>>) -> Seq<Hit>
    decreases decls.len(),
{
    if decls.len() == 0 {
        Seq::empty()
    } else {
        ffi_hits(decls.drop_last(), wrapped) + if wrapped.contains(decls.last().name@) {
            Seq::empty()
        } else {
            seq![(decls.last().line, FindingConfidence::Low, ffi_message(decls.last().name@))]
        }
    }
}

/// A function with a body, as the FFI check reads it.
pub struct FfiFunction {
    /// Its `cfg` attributes.
    pub cfgs: Vec<CfgModel>,
    /// It is an `unsafe fn`.
    pub unsafe_fn: bool,
    /// What its calls by path resolve to (with a leading `self::` removed),
    /// closures included, functions declared in its body excluded.
    pub calls: Vec<String>,
    /// The functions declared in its body.
    pub nested: Vec<FfiFunction>,
}

/// A function compiled only for tests.
pub open spec fn test_function(f: FfiFunction) -> bool {
    exists|i: int| 0 <= i < f.cfgs@.len() && #[trigger] requires_test(f.cfgs@[i])
}

/// The names that safe callers wrap: the calls of a safe function that is
/// not test-only, and those of the functions declared in it (a test-only
/// function, with everything in it, counts for nothing).
pub open spec fn function_wrapped(f: FfiFunction) -> Seq<Seq<char>>
    decreases f, 1int,
{
    if test_function(f) {
        Seq::empty()
    } else {
        (if f.unsafe_fn {
            Seq::empty()
        } else {
            names_of(f.calls@)
        }) + functions_wrapped(f.nested@)
    }
}

pub open spec fn functions_wrapped(fs: Seq<FfiFunction>) -> Seq<Seq<char>>
    decreases fs, 0int,
{
    if fs.len() == 0 {
        Seq::empty()
    } else {
        functions_wrapped(fs.drop_last()) + function_wrapped(fs.last())
    }
}

fn collect_wrapped(f: &FfiFunction, out: &mut Vec<String>)
    ensures
        names_of(final(out)@) == names_of(old(out)@) + function_wrapped(*f),
    decreases f, 1int,
{
    if has_test_cfg(&f.cfgs) {
        assert(test_function(*f));
        assert(names_of(out@) =~= names_of(out@) + Seq::<Seq<char>>::empty());
        return;
    }
    let ghost start = names_of(out@);
    if !f.unsafe_fn {
        let mut i: usize = 0;
        while i < f.calls.len()
            invariant
                i <= f.calls@.len(),
                names_of(out@) == start + names_of(f.calls@).take(i as int),
            decreases f.calls@.len() - i,
        {
            let ghost before = out@;
            out.push(f.calls[i].clone());
            assert(names_of(out@) =~= names_of(before).push(f.calls@[i as int]@));
            assert(names_of(f.calls@).take(i + 1) =~= names_of(f.calls@).take(i as int).push(f.calls@[i as int]@));
            i = i + 1;
        }
        assert(names_of(f.calls@).take(f.calls@.len() as int) =~= names_of(f.calls@));
    } else {
        assert(start =~= start + Seq::<Seq<char>>::empty());
    }
    let ghost mid = names_of(out@);
    collect_all_wrapped(&f.nested, out);
    assert(names_of(out@) =~= start + function_wrapped(*f));
}

fn collect_all_wrapped(fs: &Vec<FfiFunction>, out: &mut Vec<String>)
    ensures
        names_of(final(out)@) == names_of(old(out)@) + functions_wrapped(fs@),
    decreases fs, 0int,
{
    let ghost start = names_of(out@);
    let mut i: usize = 0;
    assert(start =~= start + functions_wrapped(fs@.take(0)));
    while i < fs.len()
        invariant
            i <= fs@.len(),
            names_of(out@) == start + functions_wrapped(fs@.take(i as int)),
        decreases fs@.len() - i,
    {
        assert(fs@.take(i + 1).drop_last() =~= fs@.take(i as int));
        assert(decreases_to!(fs => fs@));
        assert(decreases_to!(fs@ => fs@[i as int]));
        collect_wrapped(&fs[i], out);
        assert(names_of(out@) =~= start + functions_wrapped(fs@.take(i + 1)));
        i = i + 1;
    }
    assert(fs@.take(fs@.len() as int) =~= fs@);
}

/// A lexical module as the FFI check reads it.
pub struct FfiModule {
    /// Its `cfg` attributes (none for the file itself).
    pub cfgs: Vec<CfgModel>,
    /// The foreign functions its `extern` blocks declare, in order.
    pub decls: Vec<ForeignFn>,
    /// Its functions, methods and trait methods with bodies.
    pub functions: Vec<FfiFunction>,
    /// Its inline child modules, in order.
    pub children: Vec<FfiModule>,
}

/// A module compiled only for tests.
pub open spec fn test_module(m: FfiModule) -> bool {
    exists|i: int| 0 <= i < m.cfgs@.len() && #[trigger] requires_test(m.cfgs@[i])
}

/// The findings of a module: those of its non-test child modules, in order,
/// then its own foreign functions that no safe function of it calls.
pub open spec fn module_ffi_hits(m: FfiModule) -> Seq<Hit>
    decreases m, 1int,
{
    children_ffi_hits(m.children@) + ffi_hits(m.decls@, functions_wrapped(m.functions@))
}

pub open spec fn children_ffi_hits(cs: Seq<FfiModule>) -> Seq<Hit>
    decreases cs, 0int,
{
    if cs.len() == 0 {
        Seq::empty()
    } else {
        children_ffi_hits(cs.drop_last()) + if test_module(cs.last()) {
            Seq::empty()
        } else {
            module_ffi_hits(cs.last())
        }
    }
}

/// Foreign functions that no safe function of their module calls.
pub struct FfiWithoutWrapperDetector;

impl FfiWithoutWrapperDetector {
    pub fn name(&self) -> (r: &'static str)
        ensures
            r@ == "FFI Without Wrapper"@,
    {
        "FFI Without Wrapper"
    }

    /// The findings of one module: `decls` are its foreign functions in
    /// order, `wrapped` the names its safe functions' calls resolve to.
    pub fn module_findings(&self, path: &str, decls: &Vec<ForeignFn>, wrapped: &Vec<String>) -> (r: Vec<Smell>)
        ensures
            findings_are(
                r@,
                ffi_hits(decls@, names_of(wrapped@)),
                SmellCategory::Unsafe,
                "FFI Without Wrapper"@,
                Severity::Warning,
                path@,
                ffi_suggestion(),
            ),
    {
        let mut out: Vec<Smell> = Vec::new();
        let mut i: usize = 0;
        while i < decls.len()
            invariant
                i <= decls@.len(),
                findings_are(
                    out@,
                    ffi_hits(decls@.take(i as int), names_of(wrapped@)),
                    SmellCategory::Unsafe,
                    "FFI Without Wrapper"@,
                    Severity::Warning,
                    path@,
                    ffi_suggestion(),
                ),
            decreases decls@.len() - i,
        {
            assert(decls@.take(i + 1).drop_last() =~= decls@.take(i as int));
            let ghost before = ffi_hits(decls@.take(i as int), names_of(wrapped@));
            let d = &decls[i];
            if contains_name(wrapped, d.name.as_str()) {
                assert(before + Seq::<Hit>::empty() =~= before);
            } else {
                let mut msg: Vec<char> = Vec::new();
                extend_str(&mut msg, "No local safe caller was resolved for FFI function `");
                extend(&mut msg, &chars_of(d.name.as_str()));
                extend_str(&mut msg, "`; a wrapper may exist elsewhere");
                let message = string_of(msg.as_slice());
                let s = finding(
                    SmellCategory::Unsafe,
                    self.name(),
                    Severity::Warning,
                    FindingConfidence::Low,
                    path,
                    d.line,
                    d.line,
                    message.as_str(),
                    "Review callers and provide a safe wrapper that validates inputs when the API permits one.",
                );
                proof {
                    let h = (d.line, FindingConfidence::Low, ffi_message(d.name@));
                    lemma_findings_push(out@, before, s, h, SmellCategory::Unsafe, "FFI Without Wrapper"@,
                        Severity::Warning, path@, ffi_suggestion());
                    assert(before.push(h) =~= before + seq![h]);
                }
                out.push(s);
            }
            i = i + 1;
        }
        assert(decls@.take(decls@.len() as int) =~= decls@);
        out
    }

    /// Appends the findings of a module tree to `findings`, after those it
    /// holds, which stay as they are; see `ffi_findings`.
    pub fn inspect_module(&self, path: &str, m: &FfiModule, findings: &mut Vec<Smell>)
        ensures
            final(findings)@.len() >= old(findings)@.len(),
            final(findings)@.take(old(findings)@.len() as int) == old(findings)@,
            findings_are(
                final(findings)@.skip(old(findings)@.len() as int),
                module_ffi_hits(*m),
                SmellCategory::Unsafe,
                "FFI Without Wrapper"@,
                Severity::Warning,
                path@,
                ffi_suggestion(),
            ),
    {
        let ghost before = findings@;
        let mut found = self.ffi_findings(path, m);
        let ghost added = found@;
        findings.append(&mut found);
        assert(findings@.take(before.len() as int) =~= before);
        assert(findings@.skip(before.len() as int) =~= added);
    }

    /// The findings of a file's module tree: test-only modules are skipped,
    /// and each module's foreign functions are checked against the calls of
    /// its own safe functions.
    pub fn ffi_findings(&self, path: &str, m: &FfiModule) -> (r: Vec<Smell>)
        ensures
            findings_are(
                r@,
                module_ffi_hits(*m),
                SmellCategory::Unsafe,
                "FFI Without Wrapper"@,
                Severity::Warning,
                path@,
                ffi_suggestion(),
            ),
        decreases m,
    {
        let mut out: Vec<Smell> = Vec::new();
        let mut i: usize = 0;
        while i < m.children.len()
            invariant
                i <= m.children@.len(),
                findings_are(
                    out@,
                    children_ffi_hits(m.children@.take(i as int)),
                    SmellCategory::Unsafe,
                    "FFI Without Wrapper"@,
                    Severity::Warning,
                    path@,
                    ffi_suggestion(),
                ),
            decreases m.children@.len() - i,
        {
            assert(m.children@.take(i + 1).drop_last() =~= m.children@.take(i as int));
            let ghost before = children_ffi_hits(m.children@.take(i as int));
            let c = &m.children[i];
            if has_test_cfg(&c.cfgs) {
                assert(test_module(*c));
                assert(before + Seq::<Hit>::empty() =~= before);
            } else {
                assert(decreases_to!(m => m.children));
                assert(decreases_to!(m.children => m.children@));
                assert(decreases_to!(m.children@ => m.children@[i as int]));
                let mut more = self.ffi_findings(path, c);
                proof {
                    lemma_findings_concat(out@, before, more@, module_ffi_hits(*c), SmellCategory::Unsafe,
                        "FFI Without Wrapper"@, Severity::Warning, path@, ffi_suggestion());
                }
                out.append(&mut more);
            }
            i = i + 1;
        }
        assert(m.children@.take(m.children@.len() as int) =~= m.children@);
        let mut wrapped: Vec<String> = Vec::new();
        assert(names_of(wrapped@) =~= Seq::<Seq<char>>::empty());
        collect_all_wrapped(&m.functions, &mut wrapped);
        assert(names_of(wrapped@) =~= functions_wrapped(m.functions@));
        let own = self.module_findings(path, &m.decls, &wrapped);
        proof {
            lemma_findings_concat(out@, children_ffi_hits(m.children@), own@, ffi_hits(m.decls@, functions_wrapped(m.functions@)),
                SmellCategory::Unsafe, "FFI Without Wrapper"@, Severity::Warning, path@, ffi_suggestion());
        }
        let mut own = own;
        out.append(&mut own);
        out
    }
}

/// The marker trait a resolved path names: `Send` or `Sync`.
pub open spec fn marker_trait(p: Seq<char>) -> Option<Seq<char>> {
    if p == "Send"@ || p == "std::marker::Send"@ || p == "core::marker::Send"@ {
        Some("Send"@)
    } else if p == "Sync"@ || p == "std::marker::Sync"@ || p == "core::marker::Sync"@ {
        Some("Sync"@)
    } else {
        None
    }
}

fn marker_trait_exec(p: &str) -> (r: Option<&'static str>)
    ensures
        match r {
            Some(s) => marker_trait(p@) == Some(s@),
            None => marker_trait(p@) is None,
        },
{
    if str_eq(p, "Send") || str_eq(p, "std::marker::Send") || str_eq(p, "core::marker::Send") {
        Some("Send")
    } else if str_eq(p, "Sync") || str_eq(p, "std::marker::Sync") || str_eq(p, "core::marker::Sync") {
        Some("Sync")
    } else {
        None
    }
}

/// An `unsafe impl` item: the line of its `impl`, where its `unsafe` keyword
/// is, and its trait.
pub struct UnsafeImplModel {
    pub line: usize,
    pub unsafe_at: (usize, usize),
    pub trait_path: Option<PathModel>,
}

pub open spec fn unsafe_impl_hits(ctx: Context, impls: Seq<UnsafeImplModel>, documented: Seq<(usize, usize)>) -> Seq<Hit>
    decreases impls.len(),
{
    if impls.len() == 0 {
        Seq::empty()
    } else {
        let imp = impls.last();
        unsafe_impl_hits(ctx, impls.drop_last(), documented) + if documented.contains(imp.unsafe_at) {
            Seq::empty()
        } else {
            match imp.trait_path {
                Some(tp) => match marker_trait(ctx.spec_path(tp)) {
                    Some(t) => seq![(imp.line, FindingConfidence::High, "Unsafe `"@ + t + "` impl lacks a safety explanation"@)],
                    None => Seq::empty(),
                },
                None => Seq::empty(),
            }
        }
    }
}

fn contains_pos(v: &Vec<(usize, usize)>, p: (usize, usize)) -> (r: bool)
    ensures
        r == v@.contains(p),
{
    let mut i: usize = 0;
    while i < v.len()
        invariant
            i <= v@.len(),
            forall|j: int| 0 <= j < i ==> v@[j] != p,
        decreases v@.len() - i,
    {
        if v[i].0 == p.0 && v[i].1 == p.1 {
            assert(v@[i as int] == p);
            return true;
        }
        i = i + 1;
    }
    false
}

/// Unsafe `Send`/`Sync` impls without a safety explanation.
pub struct UnsafeImplSafetyDocsDetector;

impl UnsafeImplSafetyDocsDetector {
    pub fn name(&self) -> (r: &'static str)
        ensures
            r@ == "Unsafe Impl Missing Safety Docs"@,
    {
        "Unsafe Impl Missing Safety Docs"
    }

    /// `impls` are the file's top-level `unsafe impl` items in order;
    /// `documented` the positions of the `unsafe` keywords that a safety
    /// explanation covers.
    pub fn detect(&self, path: &str, ctx: &Context, impls: &Vec<UnsafeImplModel>, documented: &Vec<(usize, usize)>) -> (r: Vec<Smell>)
        requires
            ctx.wf(),
        ensures
            findings_are(
                r@,
                unsafe_impl_hits(*ctx, impls@, documented@),
                SmellCategory::Unsafe,
                "Unsafe Impl Missing Safety Docs"@,
                Severity::Critical,
                path@,
                "Add a SAFETY comment explaining why the impl upholds Send/Sync invariants."@,
            ),
    {
        let mut out: Vec<Smell> = Vec::new();
        let mut i: usize = 0;
        while i < impls.len()
            invariant
                ctx.wf(),
                i <= impls@.len(),
                findings_are(
                    out@,
                    unsafe_impl_hits(*ctx, impls@.take(i as int), documented@),
                    SmellCategory::Unsafe,
                    "Unsafe Impl Missing Safety Docs"@,
                    Severity::Critical,
                    path@,
                    "Add a SAFETY comment explaining why the impl upholds Send/Sync invariants."@,
                ),
            decreases impls@.len() - i,
        {
            assert(impls@.take(i + 1).drop_last() =~= impls@.take(i as int));
            let ghost before = unsafe_impl_hits(*ctx, impls@.take(i as int), documented@);
            let imp = &impls[i];
            let t: Option<&'static str> = if contains_pos(documented, imp.unsafe_at) {
                None
            } else {
                match &imp.trait_path {
                    Some(tp) => {
                        let p = ctx.path(tp);
                        marker_trait_exec(p.as_str())
                    },
                    None => None,
                }
            };
            match t {
                Some(name) => {
                    let mut msg: Vec<char> = Vec::new();
                    extend_str(&mut msg, "Unsafe `");
                    extend_str(&mut msg, name);
                    extend_str(&mut msg, "` impl lacks a safety explanation");
                    let message = string_of(msg.as_slice());
                    let s = finding(
                        SmellCategory::Unsafe,
                        self.name(),
                        Severity::Critical,
                        FindingConfidence::High,
                        path,
                        imp.line,
                        imp.line,
                        message.as_str(),
                        "Add a SAFETY comment explaining why the impl upholds Send/Sync invariants.",
                    );
                    proof {
                        let h = (imp.line, FindingConfidence::High, "Unsafe `"@ + name@ + "` impl lacks a safety explanation"@);
                        lemma_findings_push(out@, before, s, h, SmellCategory::Unsafe,
                            "Unsafe Impl Missing Safety Docs"@, Severity::Critical, path@,
                            "Add a SAFETY comment explaining why the impl upholds Send/Sync invariants."@);
                        assert(before.push(h) =~= before + seq![h]);
                    }
                    out.push(s);
                },
                None => {
                    assert(before + Seq::<Hit>::empty() =~= before);
                },
            }
            i = i + 1;
        }
        assert(impls@.take(impls@.len() as int) =~= impls@);
        out
    }
}

} // verus!
