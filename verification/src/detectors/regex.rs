//! Regex construction at run time, outside lazily initialized statics.
use vstd::prelude::*;
use crate::detectors::{finding, findings_match, lemma_match_push, smell_is, FullHit};
use crate::domain::{FindingConfidence, Severity, Smell, SmellCategory};
use crate::evidence::{push_rest, rest_joined, Context, ExprList, ExprModel, LitModel, SegList};
use crate::text::{chars_of, extend, str_eq, string_of};

verus! {

/// The identifiers of a path's segments joined by `::`, as written.
pub open spec fn written_path(l: SegList) -> Seq<char> {
    match l {
        SegList::Nil => Seq::empty(),
        SegList::Cons(s, rest) => s.ident@ + rest_joined(*rest),
    }
}

pub fn written_path_of(l: &SegList) -> (r: String)
    ensures
        r@ == written_path(*l),
{
    let mut out: Vec<char> = Vec::new();
    match l {
        SegList::Nil => {},
        SegList::Cons(s, rest) => {
            extend(&mut out, &chars_of(s.ident.as_str()));
            push_rest(&mut out, rest);
        },
    }
    string_of(out.as_slice())
}

pub open spec fn ends_with(s: Seq<char>, suffix: Seq<char>) -> bool {
    s.len() >= suffix.len() && s.subrange(s.len() - suffix.len(), s.len() as int) == suffix
}

fn ends_with_exec(s: &Vec<char>, suffix: &str) -> (r: bool)
    ensures
        r == ends_with(s@, suffix@),
{
    let t = chars_of(suffix);
    if t.len() > s.len() {
        return false;
    }
    let at = s.len() - t.len();
    let r = crate::text::matches_at(s, at, &t);
    proof {
        if r {
            assert(s@.subrange(at as int, s@.len() as int) =~= t@);
        } else if s@.subrange(s@.len() - t@.len(), s@.len() as int) == t@ {
            assert(crate::text::spec_matches_at(s@, at as int, t@));
        }
    }
    r
}

/// A call path that builds a lazily initialized value.
pub open spec fn spec_is_lazy_initializer(p: Seq<char>) -> bool {
    ||| p == "LazyLock::new"@
    ||| p == "OnceLock::new"@
    ||| p == "Lazy::new"@
    ||| p == "OnceCell::new"@
    ||| ends_with(p, "::LazyLock::new"@)
    ||| ends_with(p, "::OnceLock::new"@)
    ||| ends_with(p, "::Lazy::new"@)
    ||| ends_with(p, "::OnceCell::new"@)
}

pub fn is_lazy_initializer(path: &str) -> (r: bool)
    ensures
        r == spec_is_lazy_initializer(path@),
{
    let p = chars_of(path);
    str_eq(path, "LazyLock::new") || str_eq(path, "OnceLock::new") || str_eq(path, "Lazy::new")
        || str_eq(path, "OnceCell::new") || ends_with_exec(&p, "::LazyLock::new") || ends_with_exec(
        &p,
        "::OnceLock::new",
    ) || ends_with_exec(&p, "::Lazy::new") || ends_with_exec(&p, "::OnceCell::new")
}

/// A method that initializes a lazily initialized value.
pub open spec fn spec_is_lazy_initializer_method(m: Seq<char>) -> bool {
    m == "get_or_init"@ || m == "get_or_try_init"@
}

pub fn is_lazy_initializer_method(method: &str) -> (r: bool)
    ensures
        r == spec_is_lazy_initializer_method(method@),
{
    str_eq(method, "get_or_init") || str_eq(method, "get_or_try_init")
}

pub open spec fn known_regex_ctor(p: Seq<char>) -> bool {
    p == "regex::Regex::new"@ || p == "regex::bytes::Regex::new"@ || p == "regex_lite::Regex::new"@
}

/// What a call that builds a regex is: whether it runs in a loop, and high
/// confidence when a known regex crate compiles a string literal.
pub open spec fn spec_regex_candidate(ctx: Context, e: ExprModel) -> Option<(bool, FindingConfidence)> {
    match e {
        ExprModel::Call { func, args } => match *func {
            ExprModel::Path(p) => {
                let resolved = ctx.spec_path(p);
                if !known_regex_ctor(resolved) && resolved != "Regex::new"@ {
                    None
                } else {
                    let literal = first_is_str(args);
                    Some(
                        (
                            ctx.loop_depth > 0,
                            if known_regex_ctor(resolved) && literal {
                                FindingConfidence::High
                            } else {
                                FindingConfidence::Low
                            },
                        ),
                    )
                }
            },
            _ => None,
        },
        _ => None,
    }
}

pub open spec fn first_is_str(args: ExprList) -> bool {
    match args {
        ExprList::Cons(a, _) => *a matches ExprModel::Lit(LitModel::Str(_)),
        ExprList::Nil => false,
    }
}

pub fn regex_candidate(ctx: &Context, e: &ExprModel) -> (r: Option<(bool, FindingConfidence)>)
    requires
        ctx.wf(),
    ensures
        r == spec_regex_candidate(*ctx, *e),
{
    match e {
        ExprModel::Call { func, args } => match &**func {
            ExprModel::Path(p) => {
                let resolved = ctx.path(p);
                let t = resolved.as_str();
                let known = str_eq(t, "regex::Regex::new") || str_eq(t, "regex::bytes::Regex::new")
                    || str_eq(t, "regex_lite::Regex::new");
                if !known && !str_eq(t, "Regex::new") {
                    return None;
                }
                let literal = match args {
                    ExprList::Cons(a, _) => matches!(&**a, ExprModel::Lit(LitModel::Str(_))),
                    ExprList::Nil => false,
                };
                Some(
                    (
                        ctx.loop_depth > 0,
                        if known && literal {
                            FindingConfidence::High
                        } else {
                            FindingConfidence::Low
                        },
                    ),
                )
            },
            _ => None,
        },
        _ => None,
    }
}

/// A call with a path callee met in source order outside skipped lazy
/// initializer callees: the line of its last segment, what the candidate
/// evidence said of it, and how many lazy initializer closures enclose it.
pub struct RegexCallSite {
    pub line: usize,
    pub candidate: Option<(bool, FindingConfidence)>,
    pub lazy_depth: usize,
}

/// The calls of a file as the regex check reads them, in the order a visit
/// reaches them.
pub enum RegexNode {
    /// A call by a path: the path as written, the line of its last segment,
    /// its regex candidacy, and its arguments (each marked when it is a
    /// closure).
    PathCall {
        path: SegList,
        line: usize,
        candidate: Option<(bool, FindingConfidence)>,
        args: RegexArgs,
    },
    /// A method call: its name, receiver and arguments.
    MethodCall { method: String, receiver: RegexList, args: RegexArgs },
    /// Other syntax.
    Plain(RegexList),
}

pub enum RegexList {
    Nil,
    Cons(Box<RegexNode>, Box<RegexList>),
}

/// Arguments, each marked when it is a closure.
pub enum RegexArgs {
    Nil,
    Cons(bool, Box<RegexList>, Box<RegexArgs>),
}

pub open spec fn deeper_lazy(d: usize) -> usize {
    if d < usize::MAX {
        (d + 1) as usize
    } else {
        d
    }
}

/// The call sites under a node, `lazy` lazy-initializer closures deep: a
/// closure handed to a lazy initializer (`LazyLock::new`, `get_or_init`, ..)
/// runs once, so its calls are one closure deeper.
pub open spec fn regex_sites_in(n: RegexNode, lazy: usize) -> Seq<RegexCallSite>
    decreases n,
{
    match n {
        RegexNode::PathCall { path, line, candidate, args } => if spec_is_lazy_initializer(written_path(path)) {
            args_sites(args, lazy, true)
        } else {
            seq![RegexCallSite { line, candidate, lazy_depth: lazy }] + args_sites(args, lazy, false)
        },
        RegexNode::MethodCall { method, receiver, args } => if spec_is_lazy_initializer_method(method@) {
            args_sites(args, lazy, true)
        } else {
            list_regex_sites(receiver, lazy) + args_sites(args, lazy, false)
        },
        RegexNode::Plain(l) => list_regex_sites(l, lazy),
    }
}

pub open spec fn list_regex_sites(l: RegexList, lazy: usize) -> Seq<RegexCallSite>
    decreases l,
{
    match l {
        RegexList::Nil => Seq::empty(),
        RegexList::Cons(n, rest) => regex_sites_in(*n, lazy) + list_regex_sites(*rest, lazy),
    }
}

/// Arguments' sites; under a lazy initializer a closure argument is one
/// lazy level deeper.
pub open spec fn args_sites(a: RegexArgs, lazy: usize, initializer: bool) -> Seq<RegexCallSite>
    decreases a,
{
    match a {
        RegexArgs::Nil => Seq::empty(),
        RegexArgs::Cons(closure, l, rest) => list_regex_sites(
            *l,
            if initializer && closure {
                deeper_lazy(lazy)
            } else {
                lazy
            },
        ) + args_sites(*rest, lazy, initializer),
    }
}

fn push_regex_sites(n: RegexNode, lazy: usize, out: &mut Vec<RegexCallSite>)
    ensures
        final(out)@ == old(out)@ + regex_sites_in(n, lazy),
    decreases n, 2int,
{
    let ghost whole = n;
    let ghost before = out@;
    match n {
        RegexNode::PathCall { path, line, candidate, args } => {
            let written = written_path_of(&path);
            if is_lazy_initializer(written.as_str()) {
                push_args_sites(args, lazy, true, out);
            } else {
                out.push(RegexCallSite { line, candidate, lazy_depth: lazy });
                push_args_sites(args, lazy, false, out);
                assert(out@ =~= before + regex_sites_in(whole, lazy));
            }
        },
        RegexNode::MethodCall { method, receiver, args } => {
            if is_lazy_initializer_method(method.as_str()) {
                push_args_sites(args, lazy, true, out);
            } else {
                push_list_regex_sites(receiver, lazy, out);
                push_args_sites(args, lazy, false, out);
                assert(out@ =~= before + regex_sites_in(whole, lazy));
            }
        },
        RegexNode::Plain(l) => push_list_regex_sites(l, lazy, out),
    }
}

fn push_list_regex_sites(l: RegexList, lazy: usize, out: &mut Vec<RegexCallSite>)
    ensures
        final(out)@ == old(out)@ + list_regex_sites(l, lazy),
    decreases l, 1int,
{
    let ghost whole = l;
    let ghost before = out@;
    match l {
        RegexList::Nil => {
            assert(out@ =~= before + list_regex_sites(whole, lazy));
        },
        RegexList::Cons(n, rest) => {
            push_regex_sites(*n, lazy, out);
            push_list_regex_sites(*rest, lazy, out);
            assert(out@ =~= before + list_regex_sites(whole, lazy));
        },
    }
}

fn push_args_sites(a: RegexArgs, lazy: usize, initializer: bool, out: &mut Vec<RegexCallSite>)
    ensures
        final(out)@ == old(out)@ + args_sites(a, lazy, initializer),
    decreases a, 0int,
{
    let ghost whole = a;
    let ghost before = out@;
    match a {
        RegexArgs::Nil => {
            assert(out@ =~= before + args_sites(whole, lazy, initializer));
        },
        RegexArgs::Cons(closure, l, rest) => {
            let depth = if initializer && closure {
                if lazy < usize::MAX {
                    lazy + 1
                } else {
                    lazy
                }
            } else {
                lazy
            };
            push_list_regex_sites(*l, depth, out);
            push_args_sites(*rest, lazy, initializer, out);
            assert(out@ =~= before + args_sites(whole, lazy, initializer));
        },
    }
}

/// The call sites of a file's calls, each with how many lazy-initializer
/// closures enclose it.
pub fn regex_sites(file: RegexNode) -> (r: Vec<RegexCallSite>)
    ensures
        r@ == regex_sites_in(file, 0),
{
    let mut out: Vec<RegexCallSite> = Vec::new();
    push_regex_sites(file, 0, &mut out);
    assert(out@ =~= regex_sites_in(file, 0));
    out
}

pub open spec fn regex_message(c: FindingConfidence) -> Seq<char> {
    if c == FindingConfidence::High {
        "A fixed regex pattern is compiled at runtime"@
    } else {
        "Regex construction may be repeated; pattern reuse is unproven"@
    }
}

pub open spec fn regex_suggestion(c: FindingConfidence) -> Seq<char> {
    if c == FindingConfidence::High {
        "If reused, cache this fixed pattern in LazyLock or OnceLock."@
    } else {
        "For reused dynamic patterns, consider query-scoped or keyed caching; a single static regex may change behavior."@
    }
}

/// One hit per candidate call outside every lazy initializer closure: a
/// warning inside a loop, information elsewhere.
pub open spec fn regex_hits(sites: Seq<RegexCallSite>) -> Seq<FullHit>
    decreases sites.len(),
{
    if sites.len() == 0 {
        Seq::empty()
    } else {
        let s = sites.last();
        regex_hits(sites.drop_last()) + match s.candidate {
            Some((in_loop, c)) => if s.lazy_depth == 0 {
                seq![(
                    s.line,
                    if in_loop { Severity::Warning } else { Severity::Info },
                    c,
                    regex_message(c),
                    regex_suggestion(c),
                )]
            } else {
                Seq::empty()
            },
            None => Seq::empty(),
        }
    }
}

/// Regex construction in functions and loops.
pub struct RepeatedRegexConstructionDetector;

impl RepeatedRegexConstructionDetector {
    pub fn name(&self) -> (r: &'static str)
        ensures
            r@ == "Repeated Regex Construction"@,
    {
        "Repeated Regex Construction"
    }

    pub fn detect(&self, path: &str, sites: &Vec<RegexCallSite>) -> (r: Vec<Smell>)
        ensures
            findings_match(r@, regex_hits(sites@), SmellCategory::Performance, "Repeated Regex Construction"@, path@),
    {
        let mut out: Vec<Smell> = Vec::new();
        let mut i: usize = 0;
        while i < sites.len()
            invariant
                i <= sites@.len(),
                findings_match(out@, regex_hits(sites@.take(i as int)), SmellCategory::Performance,
                    "Repeated Regex Construction"@, path@),
            decreases sites@.len() - i,
        {
            assert(sites@.take(i + 1).drop_last() =~= sites@.take(i as int));
            let ghost before = regex_hits(sites@.take(i as int));
            let site = &sites[i];
            match site.candidate {
                Some((in_loop, c)) => {
                    if site.lazy_depth == 0 {
                        let high = matches!(c, FindingConfidence::High);
                        let message = if high {
                            "A fixed regex pattern is compiled at runtime"
                        } else {
                            "Regex construction may be repeated; pattern reuse is unproven"
                        };
                        let suggestion = if high {
                            "If reused, cache this fixed pattern in LazyLock or OnceLock."
                        } else {
                            "For reused dynamic patterns, consider query-scoped or keyed caching; a single static regex may change behavior."
                        };
                        let severity = if in_loop { Severity::Warning } else { Severity::Info };
                        let s = finding(SmellCategory::Performance, self.name(), severity, c, path,
                            site.line, site.line, message, suggestion);
                        proof {
                            let h = (site.line, severity, c, regex_message(c), regex_suggestion(c));
                            lemma_match_push(out@, before, s, h, SmellCategory::Performance,
                                "Repeated Regex Construction"@, path@);
                            assert(before.push(h) =~= before + seq![h]);
                        }
                        out.push(s);
                    } else {
                        assert(before + Seq::<FullHit>::empty() =~= before);
                    }
                },
                None => {
                    assert(before + Seq::<FullHit>::empty() =~= before);
                },
            }
            i = i + 1;
        }
        assert(sites@.take(sites@.len() as int) =~= sites@);
        out
    }
}

} // verus!
