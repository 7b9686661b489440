//! Implementation detectors: idiomaticity and performance findings decided on
//! the evidence of expressions, statements and function bodies.
use vstd::prelude::*;
use crate::detectors::{finding, findings_are, lemma_findings_push, smell_is, Hit};
use crate::domain::{FindingConfidence, Severity, Smell, SmellCategory};
use crate::detectors::{appended, is_test_path, push_hit, spec_is_test_path, FullHit};
use crate::evidence::{
    names_of, seg_idents, spec_value, ArgList, GenericArg, spec_get_ident, get_ident, spec_ident, ident, BinOpModel, Context, ExprList,
    ExprModel, Kind, LitModel, PathModel, SegList, TypeModel, expr_count, first_expr,
};
use crate::lifetimes::{elidable, spec_elidable, FnLifetimes};
use crate::domain::{SourceLocation};
use crate::detectors::perf::{int_lit, int_lit_value};
use crate::text::{
    chars_of, dec, extend, extend_str, find_from, push_decimal, slice_of, spec_find_from, str_eq,
    string_of,
};

verus! {

/// One hit per line, each with the same confidence and message.
pub open spec fn line_hits(lines: Seq<usize>, confidence: FindingConfidence, message: Seq<char>) -> Seq<
    Hit,
> {
    lines.map_values(|l: usize| (l, confidence, message))
}

/// One finding per line, in order.
pub fn line_findings(
    lines: &Vec<usize>,
    category: SmellCategory,
    name: &str,
    severity: Severity,
    confidence: FindingConfidence,
    path: &str,
    message: &str,
    suggestion: &str,
) -> (r: Vec<Smell>)
    ensures
        findings_are(
            r@,
            line_hits(lines@, confidence, message@),
            category,
            name@,
            severity,
            path@,
            suggestion@,
        ),
{
    let mut out: Vec<Smell> = Vec::new();
    let mut i: usize = 0;
    while i < lines.len()
        invariant
            i <= lines@.len(),
            findings_are(
                out@,
                line_hits(lines@.take(i as int), confidence, message@),
                category,
                name@,
                severity,
                path@,
                suggestion@,
            ),
        decreases lines@.len() - i,
    {
        let s = finding(category, name, severity, confidence, path, lines[i], lines[i], message, suggestion);
        proof {
            let h = (lines@[i as int], confidence, message@);
            lemma_findings_push(out@, line_hits(lines@.take(i as int), confidence, message@), s, h,
                category, name@, severity, path@, suggestion@);
            assert(line_hits(lines@.take(i + 1), confidence, message@) =~= line_hits(
                lines@.take(i as int),
                confidence,
                message@,
            ).push(h));
        }
        out.push(s);
        i = i + 1;
    }
    assert(lines@.take(lines@.len() as int) =~= lines@);
    out
}

/// An owned `Vec` sorted only to select one rank by index.
pub struct FullSortForSingleElementDetector;

impl FullSortForSingleElementDetector {
    pub fn name(&self) -> (r: &'static str)
        ensures
            r@ == "Full Sort for Single Element"@,
    {
        "Full Sort for Single Element"
    }

    /// `lines` are the lines of the confirmed indexed selections after a sort.
    pub fn detect(&self, path: &str, lines: &Vec<usize>) -> (r: Vec<Smell>)
        ensures
            findings_are(
                r@,
                line_hits(lines@, FindingConfidence::High, "An owned Vec is sorted only to select one rank"@),
                SmellCategory::Performance,
                "Full Sort for Single Element"@,
                Severity::Info,
                path@,
                "Consider select_nth_unstable when the remaining ordering is irrelevant."@,
            ),
    {
        line_findings(
            lines,
            SmellCategory::Performance,
            self.name(),
            Severity::Info,
            FindingConfidence::High,
            path,
            "An owned Vec is sorted only to select one rank",
            "Consider select_nth_unstable when the remaining ordering is irrelevant.",
        )
    }
}

/// An owned `Vec` sorted only to take its first or last element.
pub struct SortBeforeMinMaxDetector;

impl SortBeforeMinMaxDetector {
    pub fn name(&self) -> (r: &'static str)
        ensures
            r@ == "Sort Before Min or Max"@,
    {
        "Sort Before Min or Max"
    }

    /// `lines` are the lines of the confirmed `first()`/`last()` selections
    /// after a sort.
    pub fn detect(&self, path: &str, lines: &Vec<usize>) -> (r: Vec<Smell>)
        ensures
            findings_are(
                r@,
                line_hits(lines@, FindingConfidence::High, "An owned Vec is sorted only to select an extremum"@),
                SmellCategory::Performance,
                "Sort Before Min or Max"@,
                Severity::Warning,
                path@,
                "Use min/max when full ordering is unnecessary."@,
            ),
    {
        line_findings(
            lines,
            SmellCategory::Performance,
            self.name(),
            Severity::Warning,
            FindingConfidence::High,
            path,
            "An owned Vec is sorted only to select an extremum",
            "Use min/max when full ordering is unnecessary.",
        )
    }
}

/// An owned value cloned into a `Vec` on its final use.
pub struct CloneBeforeMoveIntoCollectionDetector;

impl CloneBeforeMoveIntoCollectionDetector {
    pub fn name(&self) -> (r: &'static str)
        ensures
            r@ == "Clone Before Move Into Collection"@,
    {
        "Clone Before Move Into Collection"
    }

    /// `lines` are the lines of the confirmed `clone` calls.
    pub fn detect(&self, path: &str, lines: &Vec<usize>) -> (r: Vec<Smell>)
        ensures
            findings_are(
                r@,
                line_hits(lines@, FindingConfidence::High, "An owned standard collection value is cloned on its final use"@),
                SmellCategory::Performance,
                "Clone Before Move Into Collection"@,
                Severity::Info,
                path@,
                "Move the owned value directly into the Vec."@,
            ),
    {
        line_findings(
            lines,
            SmellCategory::Performance,
            self.name(),
            Severity::Info,
            FindingConfidence::High,
            path,
            "An owned standard collection value is cloned on its final use",
            "Move the owned value directly into the Vec.",
        )
    }
}

/// The byte width of a scalar type that has `from_*_bytes` constructors.
pub open spec fn spec_scalar_width(name: Seq<char>) -> Option<usize> {
    if name == "u16"@ || name == "i16"@ {
        Some(2)
    } else if name == "u32"@ || name == "i32"@ || name == "f32"@ {
        Some(4)
    } else if name == "u64"@ || name == "i64"@ || name == "f64"@ {
        Some(8)
    } else if name == "u128"@ || name == "i128"@ {
        Some(16)
    } else {
        None
    }
}

pub fn scalar_width(name: &str) -> (r: Option<usize>)
    ensures
        r == spec_scalar_width(name@),
{
    if str_eq(name, "u16") || str_eq(name, "i16") {
        Some(2)
    } else if str_eq(name, "u32") || str_eq(name, "i32") || str_eq(name, "f32") {
        Some(4)
    } else if str_eq(name, "u64") || str_eq(name, "i64") || str_eq(name, "f64") {
        Some(8)
    } else if str_eq(name, "u128") || str_eq(name, "i128") {
        Some(16)
    } else {
        None
    }
}

/// A call `...::Regex::new("literal")`.
pub open spec fn spec_regex_literal_constructor(e: ExprModel) -> bool {
    match e {
        ExprModel::Call { func, args } => match *func {
            ExprModel::Path(p) => {
                let ids = seg_idents(p.segments);
                &&& ids.len() >= 2
                &&& ids[ids.len() - 1] == "new"@
                &&& ids[ids.len() - 2] == "Regex"@
                &&& first_expr(args) matches Some(ExprModel::Lit(LitModel::Str(_)))
            },
            _ => false,
        },
        _ => false,
    }
}

fn ends_with_regex_new(l: &SegList) -> (r: bool)
    ensures
        r == (seg_idents(*l).len() >= 2 && seg_idents(*l)[seg_idents(*l).len() - 1] == "new"@
            && seg_idents(*l)[seg_idents(*l).len() - 2] == "Regex"@),
    decreases l,
{
    proof {
        reveal_strlit("new");
        reveal_strlit("Regex");
    }
    match l {
        SegList::Nil => false,
        SegList::Cons(s, rest) => {
            let r = match &**rest {
                SegList::Nil => false,
                SegList::Cons(s2, rest2) => match &**rest2 {
                    SegList::Nil => {
                        proof {
                            reveal_with_fuel(seg_idents, 3);
                        }
                        str_eq(s.ident.as_str(), "Regex") && str_eq(s2.ident.as_str(), "new")
                    },
                    _ => ends_with_regex_new(rest),
                },
            };
            proof {
                let ids = seg_idents(*l);
                let tail = seg_idents(**rest);
                assert(ids =~= seq![s.ident@] + tail);
                if let SegList::Cons(s2, rest2) = &**rest {
                    assert(tail =~= seq![s2.ident@] + seg_idents(**rest2));
                    if let SegList::Cons(_, _) = &**rest2 {
                        assert(seg_idents(**rest2).len() > 0);
                    }
                } else {
                    assert(tail.len() == 0);
                }
            }
            r
        },
    }
}

pub fn is_regex_literal_constructor(e: &ExprModel) -> (r: bool)
    ensures
        r == spec_regex_literal_constructor(*e),
{
    match e {
        ExprModel::Call { func, args } => match &**func {
            ExprModel::Path(p) => ends_with_regex_new(&p.segments) && match args {
                ExprList::Cons(a, _) => matches!(&**a, ExprModel::Lit(LitModel::Str(_))),
                ExprList::Nil => false,
            },
            _ => false,
        },
        _ => false,
    }
}

/// A type that stores bytes: a `u8` slice or array, possibly behind references.
pub open spec fn spec_byte_storage(ctx: Context, ty: TypeModel) -> bool
    decreases ty,
{
    match ty {
        TypeModel::Reference(elem) => spec_byte_storage(ctx, *elem),
        TypeModel::Slice(elem) | TypeModel::Array(elem) => match *elem {
            TypeModel::Path { path, .. } => ctx.spec_path(path) == "u8"@,
            _ => false,
        },
        _ => false,
    }
}

pub fn byte_storage(ctx: &Context, ty: &TypeModel) -> (r: bool)
    requires
        ctx.wf(),
    ensures
        r == spec_byte_storage(*ctx, *ty),
    decreases ty,
{
    match ty {
        TypeModel::Reference(elem) => byte_storage(ctx, elem),
        TypeModel::Slice(elem) | TypeModel::Array(elem) => match &**elem {
            TypeModel::Path { path, .. } => {
                let p = ctx.path(path);
                str_eq(p.as_str(), "u8")
            },
            _ => false,
        },
        _ => false,
    }
}

/// An integer literal whose value fits a `usize`.
pub open spec fn spec_number(e: ExprModel) -> Option<usize> {
    match e {
        ExprModel::Lit(LitModel::Int(Some(v))) => if v <= usize::MAX {
            Some(v as usize)
        } else {
            None
        },
        _ => None,
    }
}

fn number(e: &ExprModel) -> (r: Option<usize>)
    ensures
        r == spec_number(*e),
{
    match e {
        ExprModel::Lit(LitModel::Int(Some(v))) => if *v <= usize::MAX as u128 {
            Some(*v as usize)
        } else {
            None
        },
        _ => None,
    }
}

/// A half-open range spanning exactly `width`: `a..b` with literals, or
/// `i..i + width`.
pub open spec fn spec_slice_width_matches(e: ExprModel, width: usize) -> bool {
    match e {
        ExprModel::Range { half_open: true, start: Some(start), end: Some(end) } => match (
            spec_number(*start),
            spec_number(*end),
        ) {
            (Some(a), Some(b)) => b >= a && b - a == width,
            _ => match *start {
                ExprModel::Path(sp) => match spec_get_ident(sp) {
                    Some(n) => match *end {
                        ExprModel::Binary { op: BinOpModel::Add, left, right } => match *left {
                            ExprModel::Path(lp) => spec_get_ident(lp) == Some(n) && spec_number(
                                *right,
                            ) == Some(width),
                            _ => false,
                        },
                        _ => false,
                    },
                    None => false,
                },
                _ => false,
            },
        },
        _ => false,
    }
}

pub fn slice_width_matches(e: &ExprModel, width: usize) -> (r: bool)
    ensures
        r == spec_slice_width_matches(*e, width),
{
    match e {
        ExprModel::Range { half_open, start: Some(start), end: Some(end) } => {
            if !*half_open {
                return false;
            }
            match (number(start), number(end)) {
                (Some(a), Some(b)) => return b >= a && b - a == width,
                _ => {},
            }
            match &**start {
                ExprModel::Path(sp) => match get_ident(sp) {
                    Some(n) => match &**end {
                        ExprModel::Binary { op: BinOpModel::Add, left, right } => match &**left {
                            ExprModel::Path(lp) => match get_ident(lp) {
                                Some(m) => str_eq(m.as_str(), n.as_str()) && number(right) == Some(
                                    width,
                                ),
                                None => false,
                            },
                            _ => false,
                        },
                        _ => false,
                    },
                    None => false,
                },
                _ => false,
            }
        },
        _ => false,
    }
}

/// The type written for the binding introduced at `at`: the last annotation
/// recorded there.
pub open spec fn type_at(types: Seq<((usize, usize), TypeModel)>, at: (usize, usize)) -> Option<TypeModel>
    decreases types.len(),
{
    if types.len() == 0 {
        None
    } else if types.last().0 == at {
        Some(types.last().1)
    } else {
        type_at(types.drop_last(), at)
    }
}

fn type_at_exec(types: &Vec<((usize, usize), TypeModel)>, at: (usize, usize)) -> (r: Option<&TypeModel>)
    ensures
        match r {
            Some(t) => type_at(types@, at) == Some(*t),
            None => type_at(types@, at) is None,
        },
{
    let mut i: usize = types.len();
    assert(types@.take(i as int) =~= types@);
    while i > 0
        invariant
            i <= types@.len(),
            type_at(types@, at) == type_at(types@.take(i as int), at),
        decreases i,
    {
        assert(types@.take(i as int).drop_last() =~= types@.take(i - 1));
        if types[i - 1].0.0 == at.0 && types[i - 1].0.1 == at.1 {
            return Some(&types[i - 1].1);
        }
        i = i - 1;
    }
    assert(types@.take(0) =~= Seq::<((usize, usize), TypeModel)>::empty());
    None
}

pub open spec fn is_unwrap(m: Seq<char>) -> bool {
    m == "unwrap"@ || m == "expect"@
}

/// `buf[range].try_into().unwrap()` on a byte slice or array whose range
/// spans exactly `width` bytes.
pub open spec fn spec_exact_array_conversion(
    ctx: Context,
    types: Seq<((usize, usize), TypeModel)>,
    e: ExprModel,
    width: usize,
) -> bool {
    match e {
        ExprModel::MethodCall { receiver, method, .. } => is_unwrap(method@) && match *receiver {
            ExprModel::MethodCall { receiver: convert, method: cm, args: ca, .. } => cm@
                == "try_into"@ && ca is Nil && match *convert {
                ExprModel::Index { expr, index } => match spec_ident(*expr) {
                    Some(n) => ctx.origins@.contains_key(n) && match type_at(types, ctx.origins@[n]) {
                        Some(ty) => spec_byte_storage(ctx, ty) && spec_slice_width_matches(*index, width),
                        None => false,
                    },
                    None => false,
                },
                _ => false,
            },
            _ => false,
        },
        _ => false,
    }
}

fn unwrap_method(m: &str) -> (r: bool)
    ensures
        r == is_unwrap(m@),
{
    str_eq(m, "unwrap") || str_eq(m, "expect")
}

pub fn exact_array_conversion(
    ctx: &Context,
    types: &Vec<((usize, usize), TypeModel)>,
    e: &ExprModel,
    width: usize,
) -> (r: bool)
    requires
        ctx.wf(),
    ensures
        r == spec_exact_array_conversion(*ctx, types@, *e, width),
{
    proof {
        reveal_strlit("try_into");
    }
    match e {
        ExprModel::MethodCall { receiver, method, .. } => {
            if !unwrap_method(method.as_str()) {
                return false;
            }
            match &**receiver {
                ExprModel::MethodCall { receiver: convert, method: cm, args: ca, .. } => {
                    if !str_eq(cm.as_str(), "try_into") || !matches!(ca, ExprList::Nil) {
                        return false;
                    }
                    match &**convert {
                        ExprModel::Index { expr, index } => match ctx.binding_origin(expr) {
                            Some(origin) => match type_at_exec(types, origin) {
                                Some(ty) => byte_storage(ctx, ty) && slice_width_matches(index, width),
                                None => false,
                            },
                            None => false,
                        },
                        _ => false,
                    }
                },
                _ => false,
            }
        },
        _ => false,
    }
}

/// The text before and after the first `::` of a path.
pub open spec fn split_colons(p: Seq<char>) -> Option<(Seq<char>, Seq<char>)> {
    match spec_find_from(p, "::"@, 0) {
        Some(k) => Some((p.subrange(0, k), p.subrange(k + 2, p.len() as int))),
        None => None,
    }
}

/// `u32::from_le_bytes(buf[..].try_into().unwrap())` and its siblings: the
/// argument converts exactly the scalar's width of bytes, so its unwrap
/// cannot fail.
pub open spec fn spec_scalar_conversion(
    ctx: Context,
    types: Seq<((usize, usize), TypeModel)>,
    e: ExprModel,
) -> bool {
    match e {
        ExprModel::Call { func, args } => match *func {
            ExprModel::Path(p) => match split_colons(ctx.spec_path(p)) {
                Some((scalar, method)) => (method == "from_le_bytes"@ || method == "from_be_bytes"@
                    || method == "from_ne_bytes"@) && match spec_scalar_width(scalar) {
                    Some(size) => match first_expr(args) {
                        Some(arg) => spec_exact_array_conversion(ctx, types, arg, size),
                        None => false,
                    },
                    None => false,
                },
                None => false,
            },
            _ => false,
        },
        _ => false,
    }
}

/// Whether the first argument of this call is an infallible byte-array
/// conversion whose unwrap does not count.
pub fn scalar_conversion(ctx: &Context, types: &Vec<((usize, usize), TypeModel)>, e: &ExprModel) -> (r: bool)
    requires
        ctx.wf(),
    ensures
        r == spec_scalar_conversion(*ctx, types@, *e),
{
    match e {
        ExprModel::Call { func, args } => match &**func {
            ExprModel::Path(p) => {
                let path = chars_of(ctx.path(p).as_str());
                let sep = chars_of("::");
                proof {
                    reveal_strlit("::");
                }
                assert(sep@.len() == 2);
                match find_from(&path, &sep, 0) {
                    Some(k) => {
                        let n = path.len();
                        assert(k + 2 <= n);
                        let scalar = string_of(slice_of(&path, 0, k).as_slice());
                        let method = string_of(slice_of(&path, k + 2, n).as_slice());
                        let m = method.as_str();
                        if !(str_eq(m, "from_le_bytes") || str_eq(m, "from_be_bytes") || str_eq(
                            m,
                            "from_ne_bytes",
                        )) {
                            return false;
                        }
                        match scalar_width(scalar.as_str()) {
                            Some(size) => match args {
                                ExprList::Cons(a, _) => exact_array_conversion(ctx, types, a, size),
                                ExprList::Nil => false,
                            },
                            None => false,
                        }
                    },
                    None => false,
                }
            },
            _ => false,
        },
        _ => false,
    }
}

/// What an `unwrap`/`expect` call's receiver establishes: `(fallible,
/// infallible)`. It is fallible when the receiver is a `Result`; infallible
/// when it builds a `CString` from a literal without NUL characters.
pub open spec fn spec_unwrap_evidence(ctx: Context, e: ExprModel) -> (bool, bool) {
    match e {
        ExprModel::MethodCall { receiver, method, .. } => if is_unwrap(method@) {
            (
                ctx.spec_expr(*receiver) is Result,
                match *receiver {
                    ExprModel::Call { func, args } => match *func {
                        ExprModel::Path(p) => (ctx.spec_path(p) == "std::ffi::CString::new"@
                            || ctx.spec_path(p) == "alloc::ffi::CString::new"@) && match first_expr(
                            args,
                        ) {
                            Some(ExprModel::Lit(LitModel::Str(s))) => !s@.contains('\0'),
                            _ => false,
                        },
                        _ => false,
                    },
                    _ => false,
                },
            )
        } else {
            (false, false)
        },
        _ => (false, false),
    }
}

fn has_nul(s: &str) -> (r: bool)
    ensures
        r == s@.contains('\0'),
{
    let v = chars_of(s);
    let mut i: usize = 0;
    while i < v.len()
        invariant
            v@ == s@,
            i <= v@.len(),
            forall|j: int| 0 <= j < i ==> v@[j] != '\0',
        decreases v@.len() - i,
    {
        if v[i] == '\0' {
            assert(v@[i as int] == '\0');
            return true;
        }
        i = i + 1;
    }
    false
}

pub fn unwrap_evidence(ctx: &Context, e: &ExprModel) -> (r: (bool, bool))
    requires
        ctx.wf(),
    ensures
        r == spec_unwrap_evidence(*ctx, *e),
{
    match e {
        ExprModel::MethodCall { receiver, method, .. } => {
            if !unwrap_method(method.as_str()) {
                return (false, false);
            }
            let fallible = matches!(ctx.expr(receiver), Kind::Result(_));
            let infallible = match &**receiver {
                ExprModel::Call { func, args } => match &**func {
                    ExprModel::Path(p) => {
                        let path = ctx.path(p);
                        (str_eq(path.as_str(), "std::ffi::CString::new") || str_eq(
                            path.as_str(),
                            "alloc::ffi::CString::new",
                        )) && match args {
                            ExprList::Cons(a, _) => match &**a {
                                ExprModel::Lit(LitModel::Str(s)) => !has_nul(s.as_str()),
                                _ => false,
                            },
                            ExprList::Nil => false,
                        }
                    },
                    _ => false,
                },
                _ => false,
            };
            (fallible, infallible)
        },
        _ => (false, false),
    }
}

/// A method call in a function body (outside closures, async blocks and
/// nested items), with what the whole-file evidence established for it.
pub struct UnwrapSite {
    pub method: String,
    pub receiver: ExprModel,
    pub infallible: bool,
    pub fallible: bool,
}

/// A function body's method calls, as the unwrap count reads it.
pub enum UnwrapNode {
    /// A method call, then the syntax inside it.
    Call(UnwrapSite, UnwrapList),
    /// A closure, async block or nested item: code that is not the body's own.
    Deferred(UnwrapList),
    /// Other syntax.
    Plain(UnwrapList),
}

pub enum UnwrapList {
    Nil,
    Cons(Box<UnwrapNode>, Box<UnwrapList>),
}

/// The method calls that belong to a body, in order: closures, async blocks
/// and nested items are left out.
pub open spec fn body_sites(n: UnwrapNode) -> Seq<UnwrapSite>
    decreases n,
{
    match n {
        UnwrapNode::Call(s, l) => seq![s] + list_sites(l),
        UnwrapNode::Deferred(_) => Seq::empty(),
        UnwrapNode::Plain(l) => list_sites(l),
    }
}

pub open spec fn list_sites(l: UnwrapList) -> Seq<UnwrapSite>
    decreases l,
{
    match l {
        UnwrapList::Nil => Seq::empty(),
        UnwrapList::Cons(n, rest) => body_sites(*n) + list_sites(*rest),
    }
}

fn push_body_sites(n: UnwrapNode, out: &mut Vec<UnwrapSite>)
    ensures
        final(out)@ == old(out)@ + body_sites(n),
    decreases n, 1int,
{
    let ghost whole = n;
    match n {
        UnwrapNode::Call(s, l) => {
            let ghost before = out@;
            out.push(s);
            push_list_sites(l, out);
            assert(out@ =~= before + body_sites(whole));
        },
        UnwrapNode::Deferred(_) => {
            assert(out@ =~= out@ + Seq::<UnwrapSite>::empty());
        },
        UnwrapNode::Plain(l) => {
            push_list_sites(l, out);
        },
    }
}

fn push_list_sites(l: UnwrapList, out: &mut Vec<UnwrapSite>)
    ensures
        final(out)@ == old(out)@ + list_sites(l),
    decreases l, 0int,
{
    let ghost whole = l;
    match l {
        UnwrapList::Nil => {
            assert(out@ =~= out@ + Seq::<UnwrapSite>::empty());
        },
        UnwrapList::Cons(n, rest) => {
            let ghost before = out@;
            push_body_sites(*n, out);
            push_list_sites(*rest, out);
            assert(out@ =~= before + list_sites(whole));
        },
    }
}

/// The method calls that belong to a function body, in order.
pub fn unwrap_sites(body: UnwrapNode) -> (r: Vec<UnwrapSite>)
    ensures
        r@ == body_sites(body),
{
    let mut out: Vec<UnwrapSite> = Vec::new();
    push_body_sites(body, &mut out);
    assert(out@ =~= body_sites(body));
    out
}

/// The sites that count as unwraps: `unwrap`/`expect` calls that are not on
/// a literal `Regex::new` and not known to be infallible.
pub open spec fn counts_as_unwrap(s: UnwrapSite) -> bool {
    is_unwrap(s.method@) && !spec_regex_literal_constructor(s.receiver) && !s.infallible
}

pub open spec fn unwrap_count(sites: Seq<UnwrapSite>) -> nat
    decreases sites.len(),
{
    if sites.len() == 0 {
        0
    } else {
        unwrap_count(sites.drop_last()) + if counts_as_unwrap(sites.last()) { 1nat } else { 0nat }
    }
}

pub open spec fn fallible_count(sites: Seq<UnwrapSite>) -> nat
    decreases sites.len(),
{
    if sites.len() == 0 {
        0
    } else {
        fallible_count(sites.drop_last()) + if counts_as_unwrap(sites.last())
            && sites.last().fallible {
            1nat
        } else {
            0nat
        }
    }
}

/// How many counted unwraps a function body has, and how many of them
/// unwrap a known `Result`.
pub fn count_unwraps(sites: &Vec<UnwrapSite>) -> (r: (usize, usize))
    ensures
        r.0 == unwrap_count(sites@),
        r.1 == fallible_count(sites@),
{
    let mut count: usize = 0;
    let mut fallible: usize = 0;
    let mut i: usize = 0;
    while i < sites.len()
        invariant
            i <= sites@.len(),
            count == unwrap_count(sites@.take(i as int)),
            fallible == fallible_count(sites@.take(i as int)),
            fallible <= count <= i,
        decreases sites@.len() - i,
    {
        assert(sites@.take(i + 1).drop_last() =~= sites@.take(i as int));
        let s = &sites[i];
        if unwrap_method(s.method.as_str()) && !is_regex_literal_constructor(&s.receiver)
            && !s.infallible {
            count = count + 1;
            if s.fallible {
                fallible = fallible + 1;
            }
        }
        i = i + 1;
    }
    assert(sites@.take(sites@.len() as int) =~= sites@);
    (count, fallible)
}

/// A top-level function: its name, the line of its `fn` keyword, and the
/// method calls of its body.
pub struct FnUnwraps {
    pub ident: String,
    pub line: usize,
    pub sites: Vec<UnwrapSite>,
}

pub open spec fn unwrap_message(f: Seq<char>, count: nat, threshold: nat) -> Seq<char> {
    "Function `"@ + f + "` has "@ + dec(count) + " unwrap/expect calls (threshold: "@ + dec(threshold)
        + ")"@
}

pub open spec fn unwrap_suggestion() -> Seq<char> {
    "Review fallible unwraps for error handling. Unresolved calls and documented invariants do not by themselves establish a reachable panic."@
}

pub open spec fn unwrap_hits(fns: Seq<FnUnwraps>, threshold: usize) -> Seq<Hit>
    decreases fns.len(),
{
    if fns.len() == 0 {
        Seq::empty()
    } else {
        let f = fns.last();
        unwrap_hits(fns.drop_last(), threshold) + if unwrap_count(f.sites@) > threshold {
            seq![(
                f.line,
                if fallible_count(f.sites@) > threshold {
                    FindingConfidence::High
                } else {
                    FindingConfidence::Low
                },
                unwrap_message(f.ident@, unwrap_count(f.sites@), threshold as nat),
            )]
        } else {
            Seq::empty()
        }
    }
}

/// Functions with more counted unwraps than the configured threshold.
pub struct ExcessiveUnwrapDetector;

impl ExcessiveUnwrapDetector {
    pub fn name(&self) -> (r: &'static str)
        ensures
            r@ == "Excessive Unwrap"@,
    {
        "Excessive Unwrap"
    }

    /// One finding per top-level function whose counted unwraps exceed
    /// `threshold`; high confidence when even its `Result` unwraps exceed
    /// it. Test paths are not analyzed.
    pub fn detect(&self, path: &str, test_markers: &Vec<String>, threshold: usize, fns: &Vec<FnUnwraps>) -> (r: Vec<Smell>)
        ensures
            spec_is_test_path(path@, names_of(test_markers@)) ==> r@.len() == 0,
            !spec_is_test_path(path@, names_of(test_markers@)) ==> findings_are(
                r@,
                unwrap_hits(fns@, threshold),
                SmellCategory::Idiomaticity,
                "Excessive Unwrap"@,
                Severity::Warning,
                path@,
                unwrap_suggestion(),
            ),
    {
        let mut out: Vec<Smell> = Vec::new();
        if is_test_path(path, test_markers) {
            return out;
        }
        let mut i: usize = 0;
        while i < fns.len()
            invariant
                i <= fns@.len(),
                findings_are(
                    out@,
                    unwrap_hits(fns@.take(i as int), threshold),
                    SmellCategory::Idiomaticity,
                    "Excessive Unwrap"@,
                    Severity::Warning,
                    path@,
                    unwrap_suggestion(),
                ),
            decreases fns@.len() - i,
        {
            assert(fns@.take(i + 1).drop_last() =~= fns@.take(i as int));
            let ghost before = unwrap_hits(fns@.take(i as int), threshold);
            let f = &fns[i];
            let (count, fallible) = count_unwraps(&f.sites);
            if count > threshold {
                let confidence = if fallible > threshold {
                    FindingConfidence::High
                } else {
                    FindingConfidence::Low
                };
                let mut msg: Vec<char> = Vec::new();
                extend_str(&mut msg, "Function `");
                extend(&mut msg, &chars_of(f.ident.as_str()));
                extend_str(&mut msg, "` has ");
                push_decimal(&mut msg, count as u128);
                extend_str(&mut msg, " unwrap/expect calls (threshold: ");
                push_decimal(&mut msg, threshold as u128);
                extend_str(&mut msg, ")");
                let message = string_of(msg.as_slice());
                let s = finding(
                    SmellCategory::Idiomaticity,
                    self.name(),
                    Severity::Warning,
                    confidence,
                    path,
                    f.line,
                    f.line,
                    message.as_str(),
                    "Review fallible unwraps for error handling. Unresolved calls and documented invariants do not by themselves establish a reachable panic.",
                );
                proof {
                    let h = (f.line, confidence, unwrap_message(f.ident@, count as nat, threshold as nat));
                    lemma_findings_push(out@, before, s, h, SmellCategory::Idiomaticity,
                        "Excessive Unwrap"@, Severity::Warning, path@, unwrap_suggestion());
                    assert(before.push(h) =~= before + seq![h]);
                }
                out.push(s);
            } else {
                assert(before + Seq::<Hit>::empty() =~= before);
            }
            i = i + 1;
        }
        assert(fns@.take(fns@.len() as int) =~= fns@);
        out
    }
}

/// `clone()` on a value established as a primitive `Copy` value.
pub struct CloneOnCopyDetector;

pub open spec fn clone_on_copy_hit(ctx: Context, e: ExprModel, method_line: usize) -> Option<FullHit> {
    match e {
        ExprModel::MethodCall { receiver, method, args, .. } => if method@ == "clone"@ && args is Nil
            && ctx.spec_expr(*receiver) == Kind::Copy {
            Some(
                (
                    method_line,
                    Severity::Info,
                    FindingConfidence::High,
                    "An established primitive Copy value is cloned"@,
                    "Use the Copy value directly."@,
                ),
            )
        } else {
            None
        },
        _ => None,
    }
}

impl CloneOnCopyDetector {
    pub fn name(&self) -> (r: &'static str)
        ensures
            r@ == "Clone on Copy"@,
    {
        "Clone on Copy"
    }

    /// Inspects one expression; `method_line` is the line of a method
    /// call's name.
    pub fn observe(&self, path: &str, ctx: &Context, e: &ExprModel, method_line: usize, out: &mut Vec<Smell>)
        requires
            ctx.wf(),
        ensures
            appended(old(out)@, final(out)@, clone_on_copy_hit(*ctx, *e, method_line),
                SmellCategory::Performance, "Clone on Copy"@, path@),
    {
        if let ExprModel::MethodCall { receiver, method, args, .. } = e {
            if str_eq(method.as_str(), "clone") && matches!(args, ExprList::Nil) && matches!(
                ctx.expr(receiver),
                Kind::Copy
            ) {
                let s = finding(
                    SmellCategory::Performance,
                    self.name(),
                    Severity::Info,
                    FindingConfidence::High,
                    path,
                    method_line,
                    method_line,
                    "An established primitive Copy value is cloned",
                    "Use the Copy value directly.",
                );
                push_hit(out, Ghost(clone_on_copy_hit(*ctx, *e, method_line)), s, SmellCategory::Performance,
                    Ghost("Clone on Copy"@), Ghost(path@));
            }
        }
    }
}

/// `contains` on a `Vec` inside a loop.
pub struct VecContainsInLoopDetector;

/// A binding introduced at or after the start of the loop being executed:
/// the collection is built afresh in the loop body.
pub open spec fn bound_in_loop(ctx: Context, receiver: ExprModel) -> bool {
    match spec_ident(receiver) {
        Some(n) => ctx.origins@.contains_key(n) && !(ctx.origins@[n].0 < ctx.loop_start.0 || (
        ctx.origins@[n].0 == ctx.loop_start.0 && ctx.origins@[n].1 < ctx.loop_start.1)),
        None => false,
    }
}

/// `contains` on a `Vec` inside a loop: high confidence, low when the `Vec`
/// is bound inside the loop body.
pub open spec fn vec_contains_hit(ctx: Context, e: ExprModel, method_line: usize) -> Option<FullHit> {
    match e {
        ExprModel::MethodCall { receiver, method, .. } => if ctx.loop_depth > 0 && method@
            == "contains"@ && spec_value(ctx.spec_expr(*receiver)) == Kind::Vec {
            Some(
                (
                    method_line,
                    Severity::Info,
                    if bound_in_loop(ctx, *receiver) {
                        FindingConfidence::Low
                    } else {
                        FindingConfidence::High
                    },
                    "Vec membership performs a linear scan inside a loop"@,
                    "Consider a set when repeated membership lookup dominates; retain Vec when ordering or small size justifies it."@,
                ),
            )
        } else {
            None
        },
        _ => None,
    }
}

impl VecContainsInLoopDetector {
    pub fn name(&self) -> (r: &'static str)
        ensures
            r@ == "Vec Contains in Loop"@,
    {
        "Vec Contains in Loop"
    }

    /// Inspects one expression; `method_line` is the line of a method
    /// call's name.
    pub fn observe(&self, path: &str, ctx: &Context, e: &ExprModel, method_line: usize, out: &mut Vec<Smell>)
        requires
            ctx.wf(),
        ensures
            appended(old(out)@, final(out)@, vec_contains_hit(*ctx, *e, method_line),
                SmellCategory::Performance, "Vec Contains in Loop"@, path@),
    {
        if ctx.loop_depth == 0 {
            return;
        }
        if let ExprModel::MethodCall { receiver, method, .. } = e {
            if str_eq(method.as_str(), "contains") {
                let k = ctx.expr(receiver);
                if matches!(k.value(), Kind::Vec) {
                    let fresh = match ctx.binding_origin(receiver) {
                        Some(o) => !(o.0 < ctx.loop_start.0 || (o.0 == ctx.loop_start.0 && o.1
                            < ctx.loop_start.1)),
                        None => false,
                    };
                    let s = finding(
                        SmellCategory::Performance,
                        self.name(),
                        Severity::Info,
                        if fresh {
                            FindingConfidence::Low
                        } else {
                            FindingConfidence::High
                        },
                        path,
                        method_line,
                        method_line,
                        "Vec membership performs a linear scan inside a loop",
                        "Consider a set when repeated membership lookup dominates; retain Vec when ordering or small size justifies it.",
                    );
                    push_hit(out, Ghost(vec_contains_hit(*ctx, *e, method_line)), s,
                        SmellCategory::Performance, Ghost("Vec Contains in Loop"@), Ghost(path@));
                }
            }
        }
    }
}

/// An input fixed at compile time: a literal, possibly referenced or
/// parenthesized.
pub open spec fn literal_input(e: ExprModel) -> bool
    decreases e,
{
    match e {
        ExprModel::Lit(_) => true,
        ExprModel::Reference { expr, .. } => literal_input(*expr),
        ExprModel::Paren(x) => literal_input(*x),
        _ => false,
    }
}

fn literal_input_exec(e: &ExprModel) -> (r: bool)
    ensures
        r == literal_input(*e),
    decreases e,
{
    match e {
        ExprModel::Lit(_) => true,
        ExprModel::Reference { expr, .. } => literal_input_exec(expr),
        ExprModel::Paren(x) => literal_input_exec(x),
        _ => false,
    }
}

/// Every argument is a fixed input.
pub open spec fn all_literal(l: ExprList) -> bool
    decreases l,
{
    match l {
        ExprList::Nil => true,
        ExprList::Cons(e, rest) => literal_input(*e) && all_literal(*rest),
    }
}

fn all_literal_exec(l: &ExprList) -> (r: bool)
    ensures
        r == all_literal(*l),
    decreases l,
{
    match l {
        ExprList::Nil => true,
        ExprList::Cons(e, rest) => literal_input_exec(e) && all_literal_exec(rest),
    }
}

/// How sure a constructor path is to do avoidable work when repeated.
pub open spec fn expensive_ctor(path: Seq<char>) -> Option<FindingConfidence> {
    if path == "url::Url::parse"@ || path == "glob::Pattern::new"@ || path == "globset::Glob::new"@
        || path == "scraper::Selector::parse"@ {
        Some(FindingConfidence::High)
    } else if path == "Url::parse"@ || path == "Selector::parse"@ || path == "PathBuf::from"@ || path
        == "std::path::PathBuf::from"@ {
        Some(FindingConfidence::Low)
    } else {
        None
    }
}

fn expensive_ctor_exec(path: &str) -> (r: Option<FindingConfidence>)
    ensures
        r == expensive_ctor(path@),
{
    if str_eq(path, "url::Url::parse") || str_eq(path, "glob::Pattern::new") || str_eq(
        path,
        "globset::Glob::new",
    ) || str_eq(path, "scraper::Selector::parse") {
        Some(FindingConfidence::High)
    } else if str_eq(path, "Url::parse") || str_eq(path, "Selector::parse") || str_eq(
        path,
        "PathBuf::from",
    ) || str_eq(path, "std::path::PathBuf::from") {
        Some(FindingConfidence::Low)
    } else {
        None
    }
}

pub open spec fn expensive_message(path: Seq<char>) -> Seq<char> {
    "`"@ + path + "` is constructed in a loop body from fixed input"@
}

pub open spec fn expensive_suggestion() -> Seq<char> {
    "Consider reusing the constructed value if ownership and mutation allow it; owned values stored each iteration may require separate construction."@
}

/// A known constructor called with fixed inputs in a loop body outside
/// constant contexts.
pub open spec fn expensive_hit(ctx: Context, e: ExprModel, line: usize) -> Option<FullHit> {
    if ctx.loop_depth == 0 || ctx.in_const {
        None
    } else {
        match e {
            ExprModel::Call { func, args } => match *func {
                ExprModel::Path(p) => match expensive_ctor(ctx.spec_path(p)) {
                    Some(c) => if !(args is Nil) && all_literal(args) {
                        Some(
                            (
                                line,
                                Severity::Info,
                                c,
                                expensive_message(ctx.spec_path(p)),
                                expensive_suggestion(),
                            ),
                        )
                    } else {
                        None
                    },
                    None => None,
                },
                _ => None,
            },
            _ => None,
        }
    }
}

/// Known constructors with fixed inputs in an executed loop body.
pub struct RepeatedExpensiveConstructionDetector;

impl RepeatedExpensiveConstructionDetector {
    pub fn name(&self) -> (r: &'static str)
        ensures
            r@ == "Repeated Expensive Construction in Loop"@,
    {
        "Repeated Expensive Construction in Loop"
    }

    /// Inspects one expression starting on `line`.
    pub fn observe(&self, path: &str, ctx: &Context, e: &ExprModel, line: usize, out: &mut Vec<Smell>)
        requires
            ctx.wf(),
        ensures
            appended(old(out)@, final(out)@, expensive_hit(*ctx, *e, line), SmellCategory::Performance,
                "Repeated Expensive Construction in Loop"@, path@),
    {
        if ctx.loop_depth == 0 || ctx.in_const {
            return;
        }
        if let ExprModel::Call { func, args } = e {
            if let ExprModel::Path(p) = &**func {
                let resolved = ctx.path(p);
                if let Some(c) = expensive_ctor_exec(resolved.as_str()) {
                    if !matches!(args, ExprList::Nil) && all_literal_exec(args) {
                        let mut msg: Vec<char> = Vec::new();
                        extend_str(&mut msg, "`");
                        extend(&mut msg, &chars_of(resolved.as_str()));
                        extend_str(&mut msg, "` is constructed in a loop body from fixed input");
                        let message = string_of(msg.as_slice());
                        let s = finding(
                            SmellCategory::Performance,
                            self.name(),
                            Severity::Info,
                            c,
                            path,
                            line,
                            line,
                            message.as_str(),
                            "Consider reusing the constructed value if ownership and mutation allow it; owned values stored each iteration may require separate construction.",
                        );
                        push_hit(out, Ghost(expensive_hit(*ctx, *e, line)), s, SmellCategory::Performance,
                            Ghost("Repeated Expensive Construction in Loop"@), Ghost(path@));
                    }
                }
            }
        }
    }
}

pub open spec fn is_query(m: Seq<char>) -> bool {
    m == "iter"@ || m == "into_iter"@ || m == "len"@ || m == "is_empty"@
}

/// What an iteration or query of an explicitly collected `Vec` is: `Some`
/// with high confidence when the collected iterator comes straight from a
/// `Vec`.
pub open spec fn collect_then_iterate(ctx: Context, e: ExprModel) -> Option<FindingConfidence> {
    match e {
        ExprModel::MethodCall { receiver, method, args, .. } => if is_query(method@) && args is Nil {
            match *receiver {
                ExprModel::MethodCall { receiver: source, method: cm, turbofish: Some(ArgList::Cons(GenericArg::Type(ty), _)), .. } =>
                    if cm@ == "collect"@ && ctx.spec_kind(*ty) == Kind::Vec {
                    Some(
                        if (match *source {
                            ExprModel::MethodCall { receiver: r, method: sm, .. } => (sm@ == "iter"@
                                || sm@ == "into_iter"@) && spec_value(ctx.spec_expr(*r)) == Kind::Vec,
                            _ => false,
                        }) {
                            FindingConfidence::High
                        } else {
                            FindingConfidence::Low
                        },
                    )
                } else {
                    None
                },
                _ => None,
            }
        } else {
            None
        },
        _ => None,
    }
}

/// A `Vec` collected with an explicit turbofish and immediately iterated or
/// queried.
pub struct CollectThenIterateDetector;

impl CollectThenIterateDetector {
    pub fn name(&self) -> (r: &'static str)
        ensures
            r@ == "Collect Then Iterate"@,
    {
        "Collect Then Iterate"
    }

    /// Inspects one expression spanning `line_start..=line_end`.
    pub fn observe(&self, path: &str, ctx: &Context, e: &ExprModel, line_start: usize, line_end: usize, out: &mut Vec<Smell>)
        requires
            ctx.wf(),
        ensures
            match collect_then_iterate(*ctx, *e) {
                Some(c) => final(out)@.len() == old(out)@.len() + 1 && final(out)@.take(old(out)@.len() as int)
                    == old(out)@ && smell_is(
                    final(out)@.last(),
                    SmellCategory::Performance,
                    "Collect Then Iterate"@,
                    Severity::Info,
                    c,
                    path@,
                    line_start,
                    line_end,
                    "An explicit Vec collection is immediately iterated or queried"@,
                    "Consider removing the intermediate Vec only if ownership, evaluation order, and iterator side effects remain equivalent."@,
                ),
                None => final(out)@ == old(out)@,
            },
    {
        proof {
            reveal_strlit("iter");
            reveal_strlit("into_iter");
            reveal_strlit("len");
            reveal_strlit("is_empty");
            reveal_strlit("collect");
        }
        if let ExprModel::MethodCall { receiver, method, args, .. } = e {
            let m = method.as_str();
            if !(str_eq(m, "iter") || str_eq(m, "into_iter") || str_eq(m, "len") || str_eq(m, "is_empty"))
                || !matches!(args, ExprList::Nil) {
                return;
            }
            if let ExprModel::MethodCall { receiver: source, method: cm, turbofish, .. } = &**receiver {
                if !str_eq(cm.as_str(), "collect") {
                    return;
                }
                let ty = match turbofish {
                    Some(ArgList::Cons(GenericArg::Type(t), _)) => t,
                    _ => return,
                };
                if !matches!(ctx.kind(ty), Kind::Vec) {
                    return;
                }
                let established = match &**source {
                    ExprModel::MethodCall { receiver: r, method: sm, .. } => (str_eq(sm.as_str(), "iter")
                        || str_eq(sm.as_str(), "into_iter")) && {
                        let k = ctx.expr(r);
                        matches!(k.value(), Kind::Vec)
                    },
                    _ => false,
                };
                let c = if established {
                    FindingConfidence::High
                } else {
                    FindingConfidence::Low
                };
                let s = finding(
                    SmellCategory::Performance,
                    self.name(),
                    Severity::Info,
                    c,
                    path,
                    line_start,
                    line_end,
                    "An explicit Vec collection is immediately iterated or queried",
                    "Consider removing the intermediate Vec only if ownership, evaluation order, and iterator side effects remain equivalent.",
                );
                let ghost before = out@;
                out.push(s);
                assert(out@.take(before.len() as int) =~= before);
            }
        }
    }
}

/// `s.chars().count()` on a value established as a `String`.
pub open spec fn string_character_count(ctx: Context, e: ExprModel) -> bool {
    match e {
        ExprModel::MethodCall { receiver, method, args, .. } => method@ == "count"@ && args is Nil
            && match *receiver {
            ExprModel::MethodCall { receiver: s, method: cm, args: ca, .. } => cm@ == "chars"@ && ca is Nil
                && spec_value(ctx.spec_expr(*s)) == Kind::String,
            _ => false,
        },
        _ => false,
    }
}

fn string_character_count_exec(ctx: &Context, e: &ExprModel) -> (r: bool)
    requires
        ctx.wf(),
    ensures
        r == string_character_count(*ctx, *e),
{
    match e {
        ExprModel::MethodCall { receiver, method, args, .. } => str_eq(method.as_str(), "count")
            && matches!(args, ExprList::Nil) && match &**receiver {
            ExprModel::MethodCall { receiver: s, method: cm, args: ca, .. } => str_eq(cm.as_str(), "chars")
                && matches!(ca, ExprList::Nil) && {
                let k = ctx.expr(s);
                matches!(k.value(), Kind::String)
            },
            _ => false,
        },
        _ => false,
    }
}

pub open spec fn comparison(op: BinOpModel) -> bool {
    op == BinOpModel::Eq || op == BinOpModel::Ne || op == BinOpModel::Lt || op == BinOpModel::Le || op
        == BinOpModel::Gt || op == BinOpModel::Ge
}

/// A comparison of a string's character count with an integer literal:
/// `Some(true)` when it only tests emptiness, `Some(false)` for other
/// nonzero limits; comparisons with zero that are no emptiness test (such
/// as `>= 0`) are not reported.
pub open spec fn spec_character_count_comparison(ctx: Context, e: ExprModel) -> Option<bool> {
    match e {
        ExprModel::Binary { op, left, right } => if !comparison(op) {
            None
        } else {
            let picked: Option<(ExprModel, u128, bool)> = match int_lit_value(*right) {
                Some(n) => Some((*left, n, false)),
                None => match int_lit_value(*left) {
                    Some(n) => Some((*right, n, true)),
                    None => None,
                },
            };
            match picked {
                Some((count, limit, reversed)) => if !string_character_count(ctx, count) {
                    None
                } else {
                    let emptiness = limit == 0 && (op == BinOpModel::Eq || op == BinOpModel::Ne || (
                    !reversed && op == BinOpModel::Gt) || (reversed && op == BinOpModel::Lt));
                    if limit == 0 && !emptiness {
                        None
                    } else {
                        Some(emptiness)
                    }
                },
                None => None,
            }
        },
        _ => None,
    }
}

pub fn character_count_comparison(ctx: &Context, e: &ExprModel) -> (r: Option<bool>)
    requires
        ctx.wf(),
    ensures
        r == spec_character_count_comparison(*ctx, *e),
{
    match e {
        ExprModel::Binary { op, left, right } => {
            if !(matches!(op, BinOpModel::Eq) || matches!(op, BinOpModel::Ne) || matches!(
                op,
                BinOpModel::Lt
            ) || matches!(op, BinOpModel::Le) || matches!(op, BinOpModel::Gt) || matches!(
                op,
                BinOpModel::Ge
            )) {
                return None;
            }
            let (count, limit, reversed): (&ExprModel, u128, bool) = match int_lit(right) {
                Some(n) => (left, n, false),
                None => match int_lit(left) {
                    Some(n) => (right, n, true),
                    None => return None,
                },
            };
            if !string_character_count_exec(ctx, count) {
                return None;
            }
            let emptiness = limit == 0 && (matches!(op, BinOpModel::Eq) || matches!(op, BinOpModel::Ne)
                || (!reversed && matches!(op, BinOpModel::Gt)) || (reversed && matches!(
                op,
                BinOpModel::Lt
            )));
            if limit == 0 && !emptiness {
                None
            } else {
                Some(emptiness)
            }
        },
        _ => None,
    }
}

pub open spec fn chars_message(emptiness: bool) -> Seq<char> {
    if emptiness {
        "String emptiness does not require counting Unicode scalar values"@
    } else {
        "This Unicode scalar-count comparison traverses the string"@
    }
}

pub open spec fn chars_suggestion(emptiness: bool) -> Seq<char> {
    if emptiness {
        "Use is_empty() or !is_empty(), preserving the comparison's meaning."@
    } else {
        "If this is a hot path, consider bounded character iteration. Byte length is not equivalent to Unicode scalar count."@
    }
}

/// `s.chars().count()` compared with a literal.
pub struct CharsCountLengthCheckDetector;

impl CharsCountLengthCheckDetector {
    pub fn name(&self) -> (r: &'static str)
        ensures
            r@ == "Chars Count Length Check"@,
    {
        "Chars Count Length Check"
    }

    /// The finding for one comparison spanning `line_start..=line_end` and
    /// starting at `column`, if it is one.
    pub fn character_count_finding(
        &self,
        path: &str,
        ctx: &Context,
        e: &ExprModel,
        line_start: usize,
        line_end: usize,
        column: usize,
    ) -> (r: Option<Smell>)
        requires
            ctx.wf(),
        ensures
            match spec_character_count_comparison(*ctx, *e) {
                Some(emptiness) => r matches Some(s) && {
                    &&& s.code@ == crate::domain::spec_code("Chars Count Length Check"@)
                    &&& s.category == SmellCategory::Performance
                    &&& s.name@ == "Chars Count Length Check"@
                    &&& s.severity == Severity::Info
                    &&& s.confidence == (if emptiness {
                        FindingConfidence::High
                    } else {
                        FindingConfidence::Low
                    })
                    &&& s.location.file@ == path@
                    &&& s.location.line_start == line_start
                    &&& s.location.line_end == line_end
                    &&& s.location.column == Some(column)
                    &&& s.message@ == chars_message(emptiness)
                    &&& s.suggestion@ == chars_suggestion(emptiness)
                },
                None => r is None,
            },
    {
        let emptiness = match character_count_comparison(ctx, e) {
            Some(b) => b,
            None => return None,
        };
        let c = if emptiness {
            FindingConfidence::High
        } else {
            FindingConfidence::Low
        };
        let message = if emptiness {
            "String emptiness does not require counting Unicode scalar values"
        } else {
            "This Unicode scalar-count comparison traverses the string"
        };
        let suggestion = if emptiness {
            "Use is_empty() or !is_empty(), preserving the comparison's meaning."
        } else {
            "If this is a hot path, consider bounded character iteration. Byte length is not equivalent to Unicode scalar count."
        };
        Some(
            Smell::new(
                SmellCategory::Performance,
                self.name(),
                Severity::Info,
                c,
                SourceLocation::new(crate::evidence::chars_to_string(path), line_start, line_end, Some(column)),
                message,
                suggestion,
            ),
        )
    }
}

/// A top-level function's lifetime evidence and the line of its `fn` keyword.
pub struct FnItemLifetimes {
    pub line: usize,
    pub lifetimes: FnLifetimes,
}

pub open spec fn lifetime_hits(fns: Seq<FnItemLifetimes>) -> Seq<Hit>
    decreases fns.len(),
{
    if fns.len() == 0 {
        Seq::empty()
    } else {
        lifetime_hits(fns.drop_last()) + if spec_elidable(fns.last().lifetimes) {
            seq![(
                fns.last().line,
                FindingConfidence::High,
                "The sole unbounded lifetime only relates a simple input reference to its output"@,
            )]
        } else {
            Seq::empty()
        }
    }
}

/// A sole explicit lifetime that input/output elision would give.
pub struct NeedlessExplicitLifetimeDetector;

impl NeedlessExplicitLifetimeDetector {
    pub fn name(&self) -> (r: &'static str)
        ensures
            r@ == "Needless Explicit Lifetime"@,
    {
        "Needless Explicit Lifetime"
    }

    /// One finding per top-level function whose lifetime is elidable.
    pub fn detect(&self, path: &str, fns: &Vec<FnItemLifetimes>) -> (r: Vec<Smell>)
        ensures
            findings_are(
                r@,
                lifetime_hits(fns@),
                SmellCategory::Idiomaticity,
                "Needless Explicit Lifetime"@,
                Severity::Info,
                path@,
                "Use Rust's input/output lifetime elision."@,
            ),
    {
        let mut out: Vec<Smell> = Vec::new();
        let mut i: usize = 0;
        while i < fns.len()
            invariant
                i <= fns@.len(),
                findings_are(
                    out@,
                    lifetime_hits(fns@.take(i as int)),
                    SmellCategory::Idiomaticity,
                    "Needless Explicit Lifetime"@,
                    Severity::Info,
                    path@,
                    "Use Rust's input/output lifetime elision."@,
                ),
            decreases fns@.len() - i,
        {
            assert(fns@.take(i + 1).drop_last() =~= fns@.take(i as int));
            let ghost before = lifetime_hits(fns@.take(i as int));
            if elidable(&fns[i].lifetimes) {
                let line = fns[i].line;
                let s = finding(
                    SmellCategory::Idiomaticity,
                    self.name(),
                    Severity::Info,
                    FindingConfidence::High,
                    path,
                    line,
                    line,
                    "The sole unbounded lifetime only relates a simple input reference to its output",
                    "Use Rust's input/output lifetime elision.",
                );
                proof {
                    let h = (line, FindingConfidence::High,
                        "The sole unbounded lifetime only relates a simple input reference to its output"@);
                    lemma_findings_push(out@, before, s, h, SmellCategory::Idiomaticity,
                        "Needless Explicit Lifetime"@, Severity::Info, path@, "Use Rust's input/output lifetime elision."@);
                    assert(before.push(h) =~= before + seq![h]);
                }
                out.push(s);
            } else {
                assert(before + Seq::<Hit>::empty() =~= before);
            }
            i = i + 1;
        }
        assert(fns@.take(fns@.len() as int) =~= fns@);
        out
    }
}

/// The `if` expressions of a function body, as a tree: what matters for
/// nesting depth. Closures, async blocks, const blocks and nested items are
/// left out.
pub enum IfTree {
    If { cond: IfForest, then_branch: IfForest, alt: IfAlt },
}

/// What follows an `if`'s then-block.
pub enum IfAlt {
    Nothing,
    /// `else if`: the same decision chain, on the same level.
    ElseIf(Box<IfTree>),
    /// `else { .. }`: the `if`s inside the block.
    Else(IfForest),
}

/// `if` trees side by side, in source order.
pub enum IfForest {
    Nil,
    Cons(Box<IfTree>, Box<IfForest>),
}

pub open spec fn max_nat(a: nat, b: nat) -> nat {
    if a >= b {
        a
    } else {
        b
    }
}

/// The deepest nesting level an `if` reaches, counting itself as level 1;
/// an `else if` stays on its chain's level.
pub open spec fn if_depth(t: IfTree) -> nat
    decreases t,
{
    match t {
        IfTree::If { cond, then_branch, alt } => max_nat(
            1 + max_nat(forest_depth(cond), forest_depth(then_branch)),
            match alt {
                IfAlt::Nothing => 0,
                IfAlt::ElseIf(next) => if_depth(*next),
                IfAlt::Else(f) => 1 + forest_depth(f),
            },
        ),
    }
}

pub open spec fn forest_depth(f: IfForest) -> nat
    decreases f,
{
    match f {
        IfForest::Nil => 0,
        IfForest::Cons(t, rest) => max_nat(if_depth(*t), forest_depth(*rest)),
    }
}

/// A depth, or `usize::MAX` when it does not fit.
pub open spec fn capped(n: nat) -> usize {
    if n < usize::MAX {
        n as usize
    } else {
        usize::MAX
    }
}

fn cap_inc(x: usize) -> (r: usize)
    ensures
        r == capped(if x == usize::MAX { usize::MAX as nat } else { x as nat + 1 }),
{
    if x < usize::MAX {
        x + 1
    } else {
        x
    }
}

/// The nesting depth of an `if` tree, capped at `usize::MAX`.
pub fn tree_depth(t: &IfTree) -> (r: usize)
    ensures
        r == capped(if_depth(*t)),
    decreases t,
{
    match t {
        IfTree::If { cond, then_branch, alt } => {
            let c = forest_max_depth(cond);
            let b = forest_max_depth(then_branch);
            let inner = if c >= b { c } else { b };
            let own = cap_inc(inner);
            let other = match alt {
                IfAlt::Nothing => 0,
                IfAlt::ElseIf(next) => tree_depth(next),
                IfAlt::Else(f) => cap_inc(forest_max_depth(f)),
            };
            if own >= other {
                own
            } else {
                other
            }
        },
    }
}

/// The deepest nesting among `if` trees, capped at `usize::MAX`.
pub fn forest_max_depth(f: &IfForest) -> (r: usize)
    ensures
        r == capped(forest_depth(*f)),
    decreases f,
{
    match f {
        IfForest::Nil => 0,
        IfForest::Cons(t, rest) => {
            let a = tree_depth(t);
            let b = forest_max_depth(rest);
            if a >= b {
                a
            } else {
                b
            }
        },
    }
}

/// A function, method or trait method with a body: its name, the line of
/// its `fn` keyword, and the `if`s of its body.
pub struct FnIfs {
    pub ident: String,
    pub line: usize,
    pub body: IfForest,
}

pub open spec fn if_depth_message(f: Seq<char>, depth: nat, threshold: nat) -> Seq<char> {
    "Function `"@ + f + "` has if/else nesting depth of "@ + dec(depth) + " (threshold: "@ + dec(
        threshold,
    ) + ")"@
}

pub open spec fn if_depth_suggestion() -> Seq<char> {
    "Use early returns, guard clauses, or extract nested conditions into helper functions."@
}

pub open spec fn if_depth_hits(fns: Seq<FnIfs>, threshold: usize) -> Seq<Hit>
    decreases fns.len(),
{
    if fns.len() == 0 {
        Seq::empty()
    } else {
        let f = fns.last();
        if_depth_hits(fns.drop_last(), threshold) + if capped(forest_depth(f.body)) > threshold {
            seq![(
                f.line,
                FindingConfidence::Medium,
                if_depth_message(f.ident@, capped(forest_depth(f.body)) as nat, threshold as nat),
            )]
        } else {
            Seq::empty()
        }
    }
}

/// The finding for a function nested `depth` levels deep.
fn if_depth_smell(path: &str, ident: &str, depth: usize, threshold: usize, line: usize) -> (r: Smell)
    ensures
        smell_is(r, SmellCategory::Implementation, "Deep If/Else Nesting"@, Severity::Warning,
            FindingConfidence::Medium, path@, line, line, if_depth_message(ident@, depth as nat, threshold as nat),
            if_depth_suggestion()),
{
    let mut msg: Vec<char> = Vec::new();
    extend_str(&mut msg, "Function `");
    extend(&mut msg, &chars_of(ident));
    extend_str(&mut msg, "` has if/else nesting depth of ");
    push_decimal(&mut msg, depth as u128);
    extend_str(&mut msg, " (threshold: ");
    push_decimal(&mut msg, threshold as u128);
    extend_str(&mut msg, ")");
    let message = string_of(msg.as_slice());
    finding(
        SmellCategory::Implementation,
        "Deep If/Else Nesting",
        Severity::Warning,
        FindingConfidence::Medium,
        path,
        line,
        line,
        message.as_str(),
        "Use early returns, guard clauses, or extract nested conditions into helper functions.",
    )
}

/// Deeply nested if/else chains.
pub struct DeepIfElseDetector;

impl DeepIfElseDetector {
    pub fn name(&self) -> (r: &'static str)
        ensures
            r@ == "Deep If/Else Nesting"@,
    {
        "Deep If/Else Nesting"
    }

    /// One finding per function whose nesting depth exceeds `threshold`.
    pub fn detect(&self, path: &str, threshold: usize, fns: &Vec<FnIfs>) -> (r: Vec<Smell>)
        ensures
            findings_are(
                r@,
                if_depth_hits(fns@, threshold),
                SmellCategory::Implementation,
                "Deep If/Else Nesting"@,
                Severity::Warning,
                path@,
                if_depth_suggestion(),
            ),
    {
        let mut out: Vec<Smell> = Vec::new();
        let mut i: usize = 0;
        while i < fns.len()
            invariant
                i <= fns@.len(),
                findings_are(
                    out@,
                    if_depth_hits(fns@.take(i as int), threshold),
                    SmellCategory::Implementation,
                    "Deep If/Else Nesting"@,
                    Severity::Warning,
                    path@,
                    if_depth_suggestion(),
                ),
            decreases fns@.len() - i,
        {
            assert(fns@.take(i + 1).drop_last() =~= fns@.take(i as int));
            let ghost before = if_depth_hits(fns@.take(i as int), threshold);
            let f = &fns[i];
            let depth = forest_max_depth(&f.body);
            if depth > threshold {
                let s = if_depth_smell(path, f.ident.as_str(), depth, threshold, f.line);
                proof {
                    let h = (f.line, FindingConfidence::Medium, if_depth_message(f.ident@, depth as nat, threshold as nat));
                    lemma_findings_push(out@, before, s, h, SmellCategory::Implementation,
                        "Deep If/Else Nesting"@, Severity::Warning, path@, if_depth_suggestion());
                    assert(before.push(h) =~= before + seq![h]);
                }
                out.push(s);
            } else {
                assert(before + Seq::<Hit>::empty() =~= before);
            }
            i = i + 1;
        }
        assert(fns@.take(fns@.len() as int) =~= fns@);
        out
    }
}

/// What an expression node is, as far as a predicate closure cares: work a
/// closure body could not hold, or anything else.
pub enum NodeKind {
    Await,
    Try,
    Return,
    Break,
    Continue,
    Yield,
    /// A macro, in expression position or any other.
    Macro,
    Other,
}

/// An expression's syntax as a tree of node kinds: each expression node and
/// each macro, with what a visit meets inside it, in order.
pub enum KindTree {
    Node(NodeKind, KindList),
}

pub enum KindList {
    Nil,
    Cons(Box<KindTree>, Box<KindList>),
}

/// The expression holds an await, `?`, `return`, `break`, `continue`,
/// `yield` or a macro, which a predicate closure could not hold.
pub open spec fn spec_boundary(t: KindTree) -> bool
    decreases t,
{
    match t {
        KindTree::Node(kind, parts) => !(kind is Other) || spec_boundary_in(parts),
    }
}

pub open spec fn spec_boundary_in(l: KindList) -> bool
    decreases l,
{
    match l {
        KindList::Nil => false,
        KindList::Cons(t, rest) => spec_boundary(*t) || spec_boundary_in(*rest),
    }
}

pub fn boundary(t: &KindTree) -> (r: bool)
    ensures
        r == spec_boundary(*t),
    decreases t,
{
    match t {
        KindTree::Node(kind, parts) => match kind {
            NodeKind::Other => boundary_in(parts),
            _ => true,
        },
    }
}

fn boundary_in(l: &KindList) -> (r: bool)
    ensures
        r == spec_boundary_in(*l),
    decreases l,
{
    match l {
        KindList::Nil => false,
        KindList::Cons(t, rest) => boundary(t) || boundary_in(rest),
    }
}

/// A `for` loop whose body is exactly one `if` without `else`.
pub struct ForIfModel {
    /// The line of the `for` keyword.
    pub line: usize,
    /// The `if` has an `else` branch.
    pub has_else: bool,
    /// The then-block's only statement, when it has exactly one and that is
    /// an expression.
    pub then_expr: Option<ExprModel>,
    /// The condition's syntax.
    pub cond: KindTree,
}

/// `return true;` or `return false;`.
pub open spec fn expr_is_bool_return(e: ExprModel) -> bool {
    match e {
        ExprModel::Return(Some(x)) => *x matches ExprModel::Lit(LitModel::Bool),
        _ => false,
    }
}

/// The loop only tests a predicate and returns a boolean early.
pub open spec fn direct_conditional_return(l: ForIfModel) -> bool {
    !l.has_else && !spec_boundary(l.cond) && match l.then_expr {
        Some(e) => expr_is_bool_return(e),
        None => false,
    }
}

fn direct_conditional_return_exec(l: &ForIfModel) -> (r: bool)
    ensures
        r == direct_conditional_return(*l),
{
    !l.has_else && !boundary(&l.cond) && match &l.then_expr {
        Some(ExprModel::Return(Some(x))) => matches!(&**x, ExprModel::Lit(LitModel::Bool)),
        _ => false,
    }
}

pub open spec fn find_loop_lines(loops: Seq<ForIfModel>) -> Seq<usize>
    decreases loops.len(),
{
    if loops.len() == 0 {
        Seq::empty()
    } else {
        find_loop_lines(loops.drop_last()) + if direct_conditional_return(loops.last()) {
            seq![loops.last().line]
        } else {
            Seq::empty()
        }
    }
}

/// Loops that hand-write `find`, `any`, `all` or `position`.
pub struct ManualFindLoopDetector;

impl ManualFindLoopDetector {
    pub fn name(&self) -> (r: &'static str)
        ensures
            r@ == "Manual Find/Any Loop"@,
    {
        "Manual Find/Any Loop"
    }

    /// `loops` are the file's `for` loops whose body is exactly one `if`
    /// expression statement, in source order.
    pub fn detect(&self, path: &str, loops: &Vec<ForIfModel>) -> (r: Vec<Smell>)
        ensures
            findings_are(
                r@,
                line_hits(find_loop_lines(loops@), FindingConfidence::High, "Loop returns early based on a predicate"@),
                SmellCategory::Idiomaticity,
                "Manual Find/Any Loop"@,
                Severity::Info,
                path@,
                "Consider iterator adapters such as find, any, all, or position."@,
            ),
    {
        let mut lines: Vec<usize> = Vec::new();
        let mut i: usize = 0;
        while i < loops.len()
            invariant
                i <= loops@.len(),
                lines@ == find_loop_lines(loops@.take(i as int)),
            decreases loops@.len() - i,
        {
            assert(loops@.take(i + 1).drop_last() =~= loops@.take(i as int));
            let ghost before = lines@;
            if direct_conditional_return_exec(&loops[i]) {
                lines.push(loops[i].line);
                assert(lines@ =~= before + seq![loops@[i as int].line]);
            } else {
                assert(lines@ =~= before + Seq::<usize>::empty());
            }
            i = i + 1;
        }
        assert(loops@.take(loops@.len() as int) =~= loops@);
        line_findings(
            &lines,
            SmellCategory::Idiomaticity,
            self.name(),
            Severity::Info,
            FindingConfidence::High,
            path,
            "Loop returns early based on a predicate",
            "Consider iterator adapters such as find, any, all, or position.",
        )
    }
}

/// An `Option` or `Result` variant.
#[derive(Clone, Copy, PartialEq, Eq, Structural, Debug)]
pub enum Variant {
    OptionSome,
    OptionNone,
    ResultOk,
    ResultErr,
}

pub open spec fn spec_variant(p: Seq<char>) -> Option<Variant> {
    if p == "Some"@ || p == "Option::Some"@ || p == "std::option::Option::Some"@ || p
        == "core::option::Option::Some"@ {
        Some(Variant::OptionSome)
    } else if p == "None"@ || p == "Option::None"@ || p == "std::option::Option::None"@ || p
        == "core::option::Option::None"@ {
        Some(Variant::OptionNone)
    } else if p == "Ok"@ || p == "Result::Ok"@ || p == "std::result::Result::Ok"@ || p
        == "core::result::Result::Ok"@ {
        Some(Variant::ResultOk)
    } else if p == "Err"@ || p == "Result::Err"@ || p == "std::result::Result::Err"@ || p
        == "core::result::Result::Err"@ {
        Some(Variant::ResultErr)
    } else {
        None
    }
}

pub fn variant(p: &str) -> (r: Option<Variant>)
    ensures
        r == spec_variant(p@),
{
    if str_eq(p, "Some") || str_eq(p, "Option::Some") || str_eq(p, "std::option::Option::Some")
        || str_eq(p, "core::option::Option::Some") {
        Some(Variant::OptionSome)
    } else if str_eq(p, "None") || str_eq(p, "Option::None") || str_eq(p, "std::option::Option::None")
        || str_eq(p, "core::option::Option::None") {
        Some(Variant::OptionNone)
    } else if str_eq(p, "Ok") || str_eq(p, "Result::Ok") || str_eq(p, "std::result::Result::Ok")
        || str_eq(p, "core::result::Result::Ok") {
        Some(Variant::ResultOk)
    } else if str_eq(p, "Err") || str_eq(p, "Result::Err") || str_eq(p, "std::result::Result::Err")
        || str_eq(p, "core::result::Result::Err") {
        Some(Variant::ResultErr)
    } else {
        None
    }
}

/// The pattern of a match arm, as far as mapping goes.
pub enum ArmPat {
    /// `Path(x)` with one element: a plain binding `x` (`Some(name)`) or `_`
    /// (`None`).
    TupleStruct { path: PathModel, binding: Option<String> },
    /// A bare path or plain identifier pattern, as a path.
    Bare(PathModel),
    /// Any other pattern.
    Other,
}

/// A match arm: its pattern, whether it has a guard, its body with blocks
/// of one expression, groups and parentheses looked through, and, when that
/// body is a call, the syntax of each of its arguments.
pub struct ArmModel {
    pub pat: ArmPat,
    pub guarded: bool,
    pub body: ExprModel,
    pub call_args: Vec<KindTree>,
}

/// The body's single call argument holds work a map closure could not hold.
pub open spec fn value_boundary(arm: ArmModel) -> bool {
    arm.call_args@.len() == 1 && spec_boundary(arm.call_args@[0])
}

fn value_boundary_exec(arm: &ArmModel) -> (r: bool)
    ensures
        r == value_boundary(*arm),
{
    arm.call_args.len() == 1 && boundary(&arm.call_args[0])
}

/// The variant an arm matches and maps back, and whether it maps the value
/// to itself: `None => None` counts as such. A guarded arm cannot become a
/// map closure.
pub open spec fn spec_arm_shape(ctx: Context, arm: ArmModel) -> Option<(Variant, bool)> {
    let pb: Option<(Variant, Option<String>)> = if arm.guarded {
        None
    } else {
        match arm.pat {
        ArmPat::TupleStruct { path, binding } => match spec_variant(ctx.spec_path(path)) {
            Some(v) => Some((v, binding)),
            None => None,
        },
        ArmPat::Bare(path) => match spec_variant(ctx.spec_path(path)) {
            Some(v) => Some((v, None)),
            None => None,
        },
        ArmPat::Other => None,
        }
    };
    match pb {
        Some((pattern, binding)) => if pattern == Variant::OptionNone {
            match arm.body {
                ExprModel::Path(p) => if spec_variant(ctx.spec_path(p)) == Some(Variant::OptionNone) {
                    Some((pattern, true))
                } else {
                    None
                },
                _ => None,
            }
        } else {
            match arm.body {
                ExprModel::Call { func, args } => match *func {
                    ExprModel::Path(fp) => if spec_variant(ctx.spec_path(fp)) == Some(pattern) && expr_count(args)
                        == 1 && !value_boundary(arm) {
                        Some(
                            (
                                pattern,
                                match (first_expr(args)->0, binding) {
                                    (ExprModel::Path(vp), Some(b)) => spec_get_ident(vp) == Some(b@),
                                    _ => false,
                                },
                            ),
                        )
                    } else {
                        None
                    },
                    _ => None,
                },
                _ => None,
            }
        },
        None => None,
    }
}

pub fn arm_shape(ctx: &Context, arm: &ArmModel) -> (r: Option<(Variant, bool)>)
    requires
        ctx.wf(),
    ensures
        r == spec_arm_shape(*ctx, *arm),
{
    if arm.guarded {
        return None;
    }
    let (pattern, binding): (Variant, Option<&String>) = match &arm.pat {
        ArmPat::TupleStruct { path, binding } => {
            let p = ctx.path(path);
            match variant(p.as_str()) {
                Some(v) => (v, match binding {
                    Some(b) => Some(b),
                    None => None,
                }),
                None => return None,
            }
        },
        ArmPat::Bare(path) => {
            let p = ctx.path(path);
            match variant(p.as_str()) {
                Some(v) => (v, None),
                None => return None,
            }
        },
        ArmPat::Other => return None,
    };
    if matches!(pattern, Variant::OptionNone) {
        return match &arm.body {
            ExprModel::Path(p) => {
                let t = ctx.path(p);
                if matches!(variant(t.as_str()), Some(Variant::OptionNone)) {
                    Some((pattern, true))
                } else {
                    None
                }
            },
            _ => None,
        };
    }
    match &arm.body {
        ExprModel::Call { func, args } => match &**func {
            ExprModel::Path(fp) => {
                let t = ctx.path(fp);
                let v = variant(t.as_str());
                let same = match v {
                    Some(x) => x == pattern,
                    None => false,
                };
                if !same || !crate::detectors::perf::count_one(args) || value_boundary_exec(arm) {
                    return None;
                }
                let identity = match args {
                    ExprList::Cons(a, _) => match (&**a, binding) {
                        (ExprModel::Path(vp), Some(b)) => match get_ident(vp) {
                            Some(n) => str_eq(n.as_str(), b.as_str()),
                            None => false,
                        },
                        _ => false,
                    },
                    ExprList::Nil => false,
                };
                Some((pattern, identity))
            },
            _ => None,
        },
        _ => None,
    }
}

pub open spec fn paired(a: Variant, b: Variant) -> bool {
    (a == Variant::OptionSome && b == Variant::OptionNone) || (a == Variant::OptionNone && b
        == Variant::OptionSome) || (a == Variant::ResultOk && b == Variant::ResultErr) || (a
        == Variant::ResultErr && b == Variant::ResultOk)
}

/// A two-arm match that rebuilds `Option` or `Result` variants: low
/// confidence when both `Result` arms transform their value.
pub open spec fn spec_mapping_confidence(ctx: Context, arms: Seq<ArmModel>) -> Option<FindingConfidence> {
    if ctx.in_const || arms.len() != 2 {
        None
    } else {
        match (spec_arm_shape(ctx, arms[0]), spec_arm_shape(ctx, arms[1])) {
            (Some(a), Some(b)) => if !paired(a.0, b.0) {
                None
            } else if (a.0 == Variant::ResultOk || a.0 == Variant::ResultErr) && !a.1 && !b.1 {
                Some(FindingConfidence::Low)
            } else {
                Some(FindingConfidence::High)
            },
            _ => None,
        }
    }
}

pub open spec fn mapping_hit(ctx: Context, arms: Seq<ArmModel>, line: usize) -> Option<FullHit> {
    match spec_mapping_confidence(ctx, arms) {
        Some(c) => Some(
            (
                line,
                Severity::Info,
                c,
                "Match expression manually maps Option or Result variants"@,
                "Consider map or map_err if closure captures and borrowing permit an equivalent transformation."@,
            ),
        ),
        None => None,
    }
}

/// Matches that `map` or `map_err` could replace.
pub struct ManualOptionResultMappingDetector;

impl ManualOptionResultMappingDetector {
    pub fn name(&self) -> (r: &'static str)
        ensures
            r@ == "Manual Option/Result Mapping"@,
    {
        "Manual Option/Result Mapping"
    }

    /// Inspects one `match` expression: its arms, and the line of its
    /// `match` keyword.
    pub fn observe(&self, path: &str, ctx: &Context, arms: &Vec<ArmModel>, line: usize, out: &mut Vec<Smell>)
        requires
            ctx.wf(),
        ensures
            appended(old(out)@, final(out)@, mapping_hit(*ctx, arms@, line), SmellCategory::Idiomaticity,
                "Manual Option/Result Mapping"@, path@),
    {
        if ctx.in_const || arms.len() != 2 {
            return;
        }
        let a = match arm_shape(ctx, &arms[0]) {
            Some(a) => a,
            None => return,
        };
        let b = match arm_shape(ctx, &arms[1]) {
            Some(b) => b,
            None => return,
        };
        let ok = match (a.0, b.0) {
            (Variant::OptionSome, Variant::OptionNone) | (Variant::OptionNone, Variant::OptionSome) | (
                Variant::ResultOk,
                Variant::ResultErr,
            ) | (Variant::ResultErr, Variant::ResultOk) => true,
            _ => false,
        };
        if !ok {
            return;
        }
        let c = if (matches!(a.0, Variant::ResultOk) || matches!(a.0, Variant::ResultErr)) && !a.1 && !b.1 {
            FindingConfidence::Low
        } else {
            FindingConfidence::High
        };
        let s = finding(
            SmellCategory::Idiomaticity,
            self.name(),
            Severity::Info,
            c,
            path,
            line,
            line,
            "Match expression manually maps Option or Result variants",
            "Consider map or map_err if closure captures and borrowing permit an equivalent transformation.",
        );
        push_hit(out, Ghost(mapping_hit(*ctx, arms@, line)), s, SmellCategory::Idiomaticity,
            Ghost("Manual Option/Result Mapping"@), Ghost(path@));
    }
}

pub open spec fn rsplit_last(p: Seq<char>) -> Seq<char>
    decreases p.len(),
{
    if p.len() >= 2 && p[p.len() - 2] == ':' && p[p.len() - 1] == ':' {
        Seq::empty()
    } else if p.len() == 0 {
        Seq::empty()
    } else {
        rsplit_last(p.drop_last()).push(p.last())
    }
}

fn last_component(p: &Vec<char>) -> (r: Vec<char>)
    ensures
        r@ == rsplit_last(p@),
{
    let mut j: usize = p.len();
    assert(p@.take(j as int) =~= p@);
    assert(p@.subrange(j as int, p@.len() as int) =~= Seq::<char>::empty());
    assert(rsplit_last(p@) =~= rsplit_last(p@.take(j as int)) + p@.subrange(j as int, p@.len() as int));
    while j > 0 && !(j >= 2 && p[j - 2] == ':' && p[j - 1] == ':')
        invariant
            j <= p@.len(),
            rsplit_last(p@) == rsplit_last(p@.take(j as int)) + p@.subrange(j as int, p@.len() as int),
        decreases j,
    {
        assert(p@.take(j as int).drop_last() =~= p@.take(j - 1));
        assert(p@.subrange(j - 1, p@.len() as int) =~= seq![p@[j - 1]] + p@.subrange(j as int, p@.len() as int));
        assert(rsplit_last(p@.take(j as int)) =~= rsplit_last(p@.take(j - 1)).push(p@[j - 1]));
        j = j - 1;
    }
    assert(rsplit_last(p@.take(j as int)) =~= Seq::<char>::empty());
    assert(p@.subrange(j as int, p@.len() as int) =~= rsplit_last(p@));
    slice_of(p, j, p.len())
}

pub open spec fn result_name(n: Seq<char>) -> bool {
    crate::detectors::design::starts_with_str(n, "try_"@) || crate::detectors::regex::ends_with(n, "_result"@)
}

fn result_name_exec(n: &str) -> (r: bool)
    ensures
        r == result_name(n@),
{
    let v = chars_of(n);
    let t = chars_of("try_");
    let rs = chars_of("_result");
    let starts = crate::evidence::has_prefix(&v, &t);
    let ends = if rs.len() <= v.len() {
        let at = v.len() - rs.len();
        let m = crate::text::matches_at(&v, at, &rs);
        proof {
            if m {
                assert(v@.subrange(at as int, v@.len() as int) =~= rs@);
            } else if v@.subrange(v@.len() - rs@.len(), v@.len() as int) == rs@ {
                assert(crate::text::spec_matches_at(v@, at as int, rs@));
            }
        }
        m
    } else {
        false
    };
    starts || ends
}

/// A discarded expression whose type is unresolved but which likely returns
/// a `Result`: a `try_*` or `*_result` call or method, an I/O method, or a
/// `write!`/`writeln!` whose target is not known to be a `String`.
/// `macro_first` is the first argument of a macro, when its body parses as
/// arguments.
pub open spec fn spec_heuristic_result(ctx: Context, e: ExprModel, macro_first: Option<ExprModel>) -> bool {
    match e {
        ExprModel::MethodCall { method, .. } => {
            let m = method@;
            if is_unwrap(m) || m == "send"@ {
                false
            } else {
                result_name(m) || m == "write"@ || m == "write_all"@ || m == "flush"@ || m == "read"@
                    || m == "read_to_end"@ || m == "read_to_string"@
            }
        },
        ExprModel::Call { func, .. } => match *func {
            ExprModel::Path(p) => result_name(rsplit_last(ctx.spec_path(p))),
            _ => false,
        },
        ExprModel::Macro(p) => if spec_get_ident(p) == Some("write"@) || spec_get_ident(p) == Some(
            "writeln"@,
        ) {
            !(match macro_first {
                Some(f) => spec_value(ctx.spec_expr(f)) == Kind::String,
                None => false,
            })
        } else {
            false
        },
        _ => false,
    }
}

pub fn heuristic_result(ctx: &Context, e: &ExprModel, macro_first: Option<&ExprModel>) -> (r: bool)
    requires
        ctx.wf(),
    ensures
        r == spec_heuristic_result(*ctx, *e, match macro_first {
            Some(f) => Some(*f),
            None => None,
        }),
{
    match e {
        ExprModel::MethodCall { method, .. } => {
            let m = method.as_str();
            if unwrap_method(m) || str_eq(m, "send") {
                false
            } else {
                result_name_exec(m) || str_eq(m, "write") || str_eq(m, "write_all") || str_eq(m, "flush")
                    || str_eq(m, "read") || str_eq(m, "read_to_end") || str_eq(m, "read_to_string")
            }
        },
        ExprModel::Call { func, .. } => match &**func {
            ExprModel::Path(p) => {
                let full = chars_of(ctx.path(p).as_str());
                let last = last_component(&full);
                result_name_exec(string_of(last.as_slice()).as_str())
            },
            _ => false,
        },
        ExprModel::Macro(p) => {
            let is_write = match get_ident(p) {
                Some(n) => str_eq(n.as_str(), "write") || str_eq(n.as_str(), "writeln"),
                None => false,
            };
            if !is_write {
                return false;
            }
            match macro_first {
                Some(f) => {
                    let k = ctx.expr(f);
                    !matches!(k.value(), Kind::String)
                },
                None => true,
            }
        },
        _ => false,
    }
}

/// How sure a discarded expression's `Result` is: high when its kind is a
/// `Result`, unless a note in scope (`noted`) says discarding there is
/// intentional, which keeps it visible at low confidence; low when its kind
/// is unknown but it looks like one.
pub open spec fn spec_unused_confidence(
    ctx: Context,
    e: ExprModel,
    macro_first: Option<ExprModel>,
    noted: bool,
) -> Option<FindingConfidence> {
    if ctx.spec_expr(e) is Result {
        Some(if noted { FindingConfidence::Low } else { FindingConfidence::High })
    } else if ctx.spec_expr(e) == Kind::Unknown && spec_heuristic_result(ctx, e, macro_first) {
        Some(FindingConfidence::Low)
    } else {
        None
    }
}

pub open spec fn unused_hit(
    ctx: Context,
    e: ExprModel,
    macro_first: Option<ExprModel>,
    noted: bool,
    line: usize,
) -> Option<FullHit> {
    match spec_unused_confidence(ctx, e, macro_first, noted) {
        Some(c) => Some(
            (
                line,
                Severity::Warning,
                c,
                if ctx.spec_expr(e) is Result {
                    "A Result is discarded without handling its error"@
                } else {
                    "This discarded expression may return a Result; its type is unresolved"@
                },
                "Handle the error or document why discarding it is intentional."@,
            ),
        ),
        None => None,
    }
}

/// `let _ = expr;` discarding a `Result`.
pub struct UnusedResultDetector;

impl UnusedResultDetector {
    pub fn name(&self) -> (r: &'static str)
        ensures
            r@ == "Unused Result Ignored"@,
    {
        "Unused Result Ignored"
    }

    /// Inspects the initializer of a `let _ = ..;` starting on `line`. Files
    /// on a test path (by `test_markers`) are not inspected. `noted` tells
    /// whether a note in scope says that discarding there is intentional
    /// (see `intentional_note`).
    pub fn observe(
        &self,
        path: &str,
        test_markers: &Vec<String>,
        ctx: &Context,
        e: &ExprModel,
        macro_first: Option<&ExprModel>,
        noted: bool,
        line: usize,
        out: &mut Vec<Smell>,
    )
        requires
            ctx.wf(),
        ensures
            crate::detectors::spec_is_test_path(path@, crate::evidence::names_of(test_markers@))
                ==> final(out)@ == old(out)@,
            !crate::detectors::spec_is_test_path(path@, crate::evidence::names_of(test_markers@))
                ==> appended(old(out)@, final(out)@, unused_hit(*ctx, *e, match macro_first {
                Some(f) => Some(*f),
                None => None,
            }, noted, line), SmellCategory::Idiomaticity, "Unused Result Ignored"@, path@),
    {
        if crate::detectors::is_test_path(path, test_markers) {
            return;
        }
        let k = ctx.expr(e);
        let is_result = matches!(k, Kind::Result(_));
        let c = if is_result {
            if noted {
                FindingConfidence::Low
            } else {
                FindingConfidence::High
            }
        } else if matches!(k, Kind::Unknown) && heuristic_result(ctx, e, macro_first) {
            FindingConfidence::Low
        } else {
            return;
        };
        let message = if is_result {
            "A Result is discarded without handling its error"
        } else {
            "This discarded expression may return a Result; its type is unresolved"
        };
        let s = finding(
            SmellCategory::Idiomaticity,
            self.name(),
            Severity::Warning,
            c,
            path,
            line,
            line,
            message,
            "Handle the error or document why discarding it is intentional.",
        );
        push_hit(out, Ghost(unused_hit(*ctx, *e, match macro_first {
            Some(f) => Some(*f),
            None => None,
        }, noted, line)), s, SmellCategory::Idiomaticity, Ghost("Unused Result Ignored"@), Ghost(path@));
    }
}

} // verus!
