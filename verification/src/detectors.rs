//! The built-in detectors: their names and the decisions they make on the
//! evidence that the syntax models and the scope context carry.
use vstd::prelude::*;
use crate::domain::{FindingConfidence, Severity, Smell, SmellCategory, SourceLocation, spec_code};

pub mod architecture;
pub mod concurrency;
pub mod design;
pub mod implementation;
pub mod perf;
pub mod local_lock;
pub mod derivable;
pub mod regex;
pub mod unsafe_code;
pub mod destructors;

verus! {

/// A finding with exactly these fields, located on lines `line_start..=line_end`.
pub open spec fn smell_is(
    s: Smell,
    category: SmellCategory,
    name: Seq<char>,
    severity: Severity,
    confidence: FindingConfidence,
    file: Seq<char>,
    line_start: usize,
    line_end: usize,
    message: Seq<char>,
    suggestion: Seq<char>,
) -> bool {
    &&& s.code@ == spec_code(name)
    &&& s.category == category
    &&& s.name@ == name
    &&& s.severity == severity
    &&& s.confidence == confidence
    &&& s.location.file@ == file
    &&& s.location.line_start == line_start
    &&& s.location.line_end == line_end
    &&& s.location.column is None
    &&& s.message@ == message
    &&& s.suggestion@ == suggestion
}

/// A finding located on `line_start..=line_end` of `file`.
pub fn finding(
    category: SmellCategory,
    name: &str,
    severity: Severity,
    confidence: FindingConfidence,
    file: &str,
    line_start: usize,
    line_end: usize,
    message: &str,
    suggestion: &str,
) -> (r: Smell)
    ensures
        smell_is(r, category, name@, severity, confidence, file@, line_start, line_end, message@, suggestion@),
{
    Smell::new(
        category,
        name,
        severity,
        confidence,
        SourceLocation::new(crate::evidence::chars_to_string(file), line_start, line_end, None),
        message,
        suggestion,
    )
}

pub open spec fn path_separator(c: char) -> bool {
    c == '/' || c == '\\'
}

/// `m` is a whole component of path `p` at position `i`.
pub open spec fn component_at(p: Seq<char>, i: int, m: Seq<char>) -> bool {
    &&& m.len() > 0
    &&& 0 <= i
    &&& i + m.len() <= p.len()
    &&& (i == 0 || path_separator(p[i - 1]))
    &&& crate::text::spec_matches_at(p, i, m)
    &&& (i + m.len() == p.len() || path_separator(p[i + m.len()]))
}

/// A source path is a test path when one of its components is one of the
/// configured test-path markers (such as `tests`).
pub open spec fn spec_is_test_path(p: Seq<char>, markers: Seq<Seq<char>>) -> bool {
    exists|k: int, i: int| 0 <= k < markers.len() && #[trigger] component_at(p, i, markers[k])
}

fn component_at_exec(p: &Vec<char>, i: usize, m: &Vec<char>) -> (r: bool)
    ensures
        r == component_at(p@, i as int, m@),
{
    if m.len() == 0 || i > p.len() || m.len() > p.len() - i {
        return false;
    }
    let before = i == 0 || p[i - 1] == '/' || p[i - 1] == '\\';
    let end = i + m.len();
    let after = end == p.len() || p[end] == '/' || p[end] == '\\';
    before && after && crate::text::matches_at(p, i, m)
}

/// Whether a source path is a test path under the configured markers.
pub fn is_test_path(path: &str, markers: &Vec<String>) -> (r: bool)
    ensures
        r == spec_is_test_path(path@, crate::evidence::names_of(markers@)),
{
    let p = crate::text::chars_of(path);
    let ghost ms = crate::evidence::names_of(markers@);
    let mut k: usize = 0;
    while k < markers.len()
        invariant
            k <= markers@.len(),
            ms == crate::evidence::names_of(markers@),
            p@ == path@,
            forall|a: int, i: int| 0 <= a < k ==> !#[trigger] component_at(p@, i, ms[a]),
        decreases markers@.len() - k,
    {
        let m = crate::text::chars_of(markers[k].as_str());
        let mut i: usize = 0;
        while i < p.len()
            invariant
                k < markers@.len(),
                ms == crate::evidence::names_of(markers@),
                p@ == path@,
                i <= p@.len(),
                m@ == ms[k as int],
                forall|j: int| 0 <= j < i ==> !#[trigger] component_at(p@, j, m@),
            decreases p@.len() - i,
        {
            if component_at_exec(&p, i, &m) {
                assert(component_at(path@, i as int, ms[k as int]));
                assert(spec_is_test_path(path@, ms));
                return true;
            }
            i = i + 1;
        }
        assert forall|j: int| !#[trigger] component_at(p@, j, ms[k as int]) by {
            if 0 <= j < i {
            }
        }
        k = k + 1;
    }
    false
}

/// A `cfg` condition.
pub enum CfgModel {
    Test,
    Not(Box<CfgModel>),
    All(CfgList),
    Any(CfgList),
    /// A feature, target or other condition that production builds can meet.
    Other,
}

/// `cfg` conditions, in order.
pub enum CfgList {
    Nil,
    Cons(Box<CfgModel>, Box<CfgList>),
}

/// A condition that only test builds meet: `test`, an `all(..)` with such a
/// member, or a nonempty `any(..)` of such members. `not(test)` and
/// `any(test, feature = "..")` stay eligible for production.
pub open spec fn requires_test(c: CfgModel) -> bool
    decreases c,
{
    match c {
        CfgModel::Test => true,
        CfgModel::Not(_) => false,
        CfgModel::All(l) => some_requires_test(l),
        CfgModel::Any(l) => !(l is Nil) && all_require_test(l),
        CfgModel::Other => false,
    }
}

pub open spec fn some_requires_test(l: CfgList) -> bool
    decreases l,
{
    match l {
        CfgList::Nil => false,
        CfgList::Cons(c, rest) => requires_test(*c) || some_requires_test(*rest),
    }
}

pub open spec fn all_require_test(l: CfgList) -> bool
    decreases l,
{
    match l {
        CfgList::Nil => true,
        CfgList::Cons(c, rest) => requires_test(*c) && all_require_test(*rest),
    }
}

pub fn cfg_requires_test(c: &CfgModel) -> (r: bool)
    ensures
        r == requires_test(*c),
    decreases c,
{
    match c {
        CfgModel::Test => true,
        CfgModel::Not(_) => false,
        CfgModel::All(l) => list_some_requires_test(l),
        CfgModel::Any(l) => !matches!(l, CfgList::Nil) && list_all_require_test(l),
        CfgModel::Other => false,
    }
}

fn list_some_requires_test(l: &CfgList) -> (r: bool)
    ensures
        r == some_requires_test(*l),
    decreases l,
{
    match l {
        CfgList::Nil => false,
        CfgList::Cons(c, rest) => cfg_requires_test(c) || list_some_requires_test(rest),
    }
}

fn list_all_require_test(l: &CfgList) -> (r: bool)
    ensures
        r == all_require_test(*l),
    decreases l,
{
    match l {
        CfgList::Nil => true,
        CfgList::Cons(c, rest) => cfg_requires_test(c) && list_all_require_test(rest),
    }
}

/// Whether an item's `cfg` attributes confine it to test builds.
pub fn has_test_cfg(cfgs: &Vec<CfgModel>) -> (r: bool)
    ensures
        r == exists|i: int| 0 <= i < cfgs@.len() && #[trigger] requires_test(cfgs@[i]),
{
    let mut i: usize = 0;
    while i < cfgs.len()
        invariant
            i <= cfgs@.len(),
            forall|j: int| 0 <= j < i ==> !#[trigger] requires_test(cfgs@[j]),
        decreases cfgs@.len() - i,
    {
        if cfg_requires_test(&cfgs[i]) {
            return true;
        }
        i = i + 1;
    }
    false
}

/// What one finding on a single line says: its line, confidence and message.
pub type Hit = (usize, FindingConfidence, Seq<char>);

/// `r` holds one finding per hit, in order, each on its hit's line.
pub open spec fn findings_are(
    r: Seq<Smell>,
    hits: Seq<Hit>,
    category: SmellCategory,
    name: Seq<char>,
    severity: Severity,
    file: Seq<char>,
    suggestion: Seq<char>,
) -> bool {
    &&& r.len() == hits.len()
    &&& forall|i: int|
        0 <= i < r.len() ==> #[trigger] smell_is(
            r[i],
            category,
            name,
            severity,
            hits[i].1,
            file,
            hits[i].0,
            hits[i].0,
            hits[i].2,
            suggestion,
        )
}

pub proof fn lemma_findings_concat(
    a: Seq<Smell>,
    ha: Seq<Hit>,
    b: Seq<Smell>,
    hb: Seq<Hit>,
    category: SmellCategory,
    name: Seq<char>,
    severity: Severity,
    file: Seq<char>,
    suggestion: Seq<char>,
)
    requires
        findings_are(a, ha, category, name, severity, file, suggestion),
        findings_are(b, hb, category, name, severity, file, suggestion),
    ensures
        findings_are(a + b, ha + hb, category, name, severity, file, suggestion),
{
    assert forall|i: int| 0 <= i < (a + b).len() implies #[trigger] smell_is(
        (a + b)[i],
        category,
        name,
        severity,
        (ha + hb)[i].1,
        file,
        (ha + hb)[i].0,
        (ha + hb)[i].0,
        (ha + hb)[i].2,
        suggestion,
    ) by {
        if i < a.len() {
            assert((a + b)[i] == a[i]);
            assert((ha + hb)[i] == ha[i]);
        } else {
            assert((a + b)[i] == b[i - a.len()]);
            assert((ha + hb)[i] == hb[i - a.len()]);
        }
    }
}

pub proof fn lemma_findings_push(
    a: Seq<Smell>,
    ha: Seq<Hit>,
    s: Smell,
    h: Hit,
    category: SmellCategory,
    name: Seq<char>,
    severity: Severity,
    file: Seq<char>,
    suggestion: Seq<char>,
)
    requires
        findings_are(a, ha, category, name, severity, file, suggestion),
        smell_is(s, category, name, severity, h.1, file, h.0, h.0, h.2, suggestion),
    ensures
        findings_are(a.push(s), ha.push(h), category, name, severity, file, suggestion),
{
    assert forall|i: int| 0 <= i < a.push(s).len() implies #[trigger] smell_is(
        a.push(s)[i],
        category,
        name,
        severity,
        ha.push(h)[i].1,
        file,
        ha.push(h)[i].0,
        ha.push(h)[i].0,
        ha.push(h)[i].2,
        suggestion,
    ) by {
        if i < a.len() {
            assert(a.push(s)[i] == a[i]);
            assert(ha.push(h)[i] == ha[i]);
        }
    }
}

/// Everything a single-line finding says besides its detector and file:
/// line, severity, confidence, message and suggestion.
pub type FullHit = (usize, Severity, FindingConfidence, Seq<char>, Seq<char>);

/// `r` holds one finding per hit, in order.
pub open spec fn findings_match(
    r: Seq<Smell>,
    hits: Seq<FullHit>,
    category: SmellCategory,
    name: Seq<char>,
    file: Seq<char>,
) -> bool {
    &&& r.len() == hits.len()
    &&& forall|i: int|
        0 <= i < r.len() ==> #[trigger] smell_is(
            r[i],
            category,
            name,
            hits[i].1,
            hits[i].2,
            file,
            hits[i].0,
            hits[i].0,
            hits[i].3,
            hits[i].4,
        )
}

pub proof fn lemma_match_push(
    a: Seq<Smell>,
    ha: Seq<FullHit>,
    s: Smell,
    h: FullHit,
    category: SmellCategory,
    name: Seq<char>,
    file: Seq<char>,
)
    requires
        findings_match(a, ha, category, name, file),
        smell_is(s, category, name, h.1, h.2, file, h.0, h.0, h.3, h.4),
    ensures
        findings_match(a.push(s), ha.push(h), category, name, file),
{
    assert forall|i: int| 0 <= i < a.push(s).len() implies #[trigger] smell_is(
        a.push(s)[i],
        category,
        name,
        ha.push(h)[i].1,
        ha.push(h)[i].2,
        file,
        ha.push(h)[i].0,
        ha.push(h)[i].0,
        ha.push(h)[i].3,
        ha.push(h)[i].4,
    ) by {
        if i < a.len() {
            assert(a.push(s)[i] == a[i]);
            assert(ha.push(h)[i] == ha[i]);
        }
    }
}

/// `after` is `before` with one more finding for the hit, or unchanged when
/// there is none.
pub open spec fn appended(
    before: Seq<Smell>,
    after: Seq<Smell>,
    hit: Option<FullHit>,
    category: SmellCategory,
    name: Seq<char>,
    file: Seq<char>,
) -> bool {
    match hit {
        Some(h) => {
            &&& after.len() == before.len() + 1
            &&& after.take(before.len() as int) == before
            &&& smell_is(after.last(), category, name, h.1, h.2, file, h.0, h.0, h.3, h.4)
        },
        None => after == before,
    }
}

/// Appends the finding for a hit.
pub(crate) fn push_hit(
    out: &mut Vec<Smell>,
    hit: Ghost<Option<FullHit>>,
    s: Smell,
    category: SmellCategory,
    name: Ghost<Seq<char>>,
    file: Ghost<Seq<char>>,
)
    requires
        hit@ matches Some(h) && smell_is(s, category, name@, h.1, h.2, file@, h.0, h.0, h.3, h.4),
    ensures
        appended(old(out)@, final(out)@, hit@, category, name@, file@),
{
    let ghost before = out@;
    out.push(s);
    assert(out@.take(before.len() as int) =~= before);
}

} // verus!
