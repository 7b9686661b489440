//! Which findings a report keeps: the precision mode's confidence levels,
//! the minimum severity and the category filter, and whether what is kept
//! fails the run.
use vstd::prelude::*;
use crate::domain::{FindingConfidence, Severity, Smell, SmellCategory};
use crate::text::str_eq;

verus! {

/// How much evidence a reported finding needs.
#[derive(Clone, Copy, Debug, PartialEq, Eq, Structural)]
pub enum Precision {
    /// High confidence only; the default.
    Conservative,
    /// High and medium confidence.
    Balanced,
    /// Every confidence level.
    Exploratory,
}

/// The filters a report applies to findings.
#[derive(Clone, Copy, Debug, PartialEq, Eq, Structural)]
pub struct ReportFilter {
    pub precision: Precision,
    pub min_severity: Severity,
    pub category: Option<SmellCategory>,
}

/// Whether a precision mode reports findings of a confidence level.
pub open spec fn spec_reports_confidence(p: Precision, c: FindingConfidence) -> bool {
    match p {
        Precision::Conservative => c == FindingConfidence::High,
        Precision::Balanced => c != FindingConfidence::Low,
        Precision::Exploratory => true,
    }
}

pub open spec fn severity_rank(s: Severity) -> int {
    match s {
        Severity::Info => 0,
        Severity::Warning => 1,
        Severity::Critical => 2,
    }
}

/// Whether a report with these filters keeps a finding.
pub open spec fn spec_keeps(f: ReportFilter, s: Smell) -> bool {
    &&& spec_reports_confidence(f.precision, s.confidence)
    &&& severity_rank(s.severity) >= severity_rank(f.min_severity)
    &&& (f.category matches Some(c) ==> s.category == c)
}

/// The findings a report keeps, in order.
pub open spec fn kept(f: ReportFilter, s: Seq<Smell>) -> Seq<Smell>
    decreases s.len(),
{
    if s.len() == 0 {
        seq![]
    } else if spec_keeps(f, s.last()) {
        kept(f, s.drop_last()).push(s.last())
    } else {
        kept(f, s.drop_last())
    }
}

/// Whether a list of reported findings fails the run: it holds a critical one.
pub open spec fn spec_fails_run(s: Seq<Smell>) -> bool {
    exists|i: int| 0 <= i < s.len() && (#[trigger] s[i]).severity == Severity::Critical
}

pub fn reports_confidence(p: Precision, c: FindingConfidence) -> (r: bool)
    ensures
        r == spec_reports_confidence(p, c),
{
    match p {
        Precision::Conservative => matches!(c, FindingConfidence::High),
        Precision::Balanced => !matches!(c, FindingConfidence::Low),
        Precision::Exploratory => true,
    }
}

fn rank(s: Severity) -> (r: u8)
    ensures
        r == severity_rank(s),
{
    match s {
        Severity::Info => 0,
        Severity::Warning => 1,
        Severity::Critical => 2,
    }
}

impl ReportFilter {
    /// The default filters: conservative precision, every severity and
    /// category.
    pub fn default_filter() -> (r: Self)
        ensures
            r.precision == Precision::Conservative,
            r.min_severity == Severity::Info,
            r.category is None,
    {
        ReportFilter { precision: Precision::Conservative, min_severity: Severity::Info, category: None }
    }

    pub fn keeps(&self, s: &Smell) -> (r: bool)
        ensures
            r == spec_keeps(*self, *s),
    {
        let category_ok = match self.category {
            Some(c) => c == s.category,
            None => true,
        };
        reports_confidence(self.precision, s.confidence) && rank(s.severity) >= rank(self.min_severity)
            && category_ok
    }

    /// The findings the report keeps, in their order.
    pub fn apply(&self, smells: Vec<Smell>) -> (r: Vec<Smell>)
        ensures
            r@ == kept(*self, smells@),
    {
        let ghost all = smells@;
        let n = smells.len();
        let mut rest = smells;
        let mut reversed: Vec<Smell> = Vec::new();
        while rest.len() > 0
            invariant
                all.len() == n,
                rest.len() + reversed.len() == n,
                rest@ == all.subrange(0, rest.len() as int),
                forall|j: int| 0 <= j < reversed.len() ==> reversed@[j] == all[n - 1 - j],
            decreases rest.len(),
        {
            let s = rest.pop().unwrap();
            reversed.push(s);
        }
        let mut out: Vec<Smell> = Vec::new();
        let mut k: usize = 0;
        while reversed.len() > 0
            invariant
                all.len() == n,
                k + reversed.len() == n,
                forall|j: int| 0 <= j < reversed.len() ==> reversed@[j] == all[n - 1 - j],
                out@ == kept(*self, all.subrange(0, k as int)),
            decreases reversed.len(),
        {
            let s = reversed.pop().unwrap();
            assert(s == all[k as int]);
            assert(all.subrange(0, k + 1).drop_last() =~= all.subrange(0, k as int));
            if self.keeps(&s) {
                out.push(s);
            }
            k = k + 1;
        }
        assert(all.subrange(0, n as int) =~= all);
        out
    }
}

/// Whether the reported findings fail the run.
pub fn fails_run(smells: &Vec<Smell>) -> (r: bool)
    ensures
        r == spec_fails_run(smells@),
{
    let mut i: usize = 0;
    while i < smells.len()
        invariant
            i <= smells@.len(),
            forall|j: int| 0 <= j < i ==> smells@[j].severity != Severity::Critical,
        decreases smells@.len() - i,
    {
        if matches!(smells[i].severity, Severity::Critical) {
            assert(smells@[i as int].severity == Severity::Critical);
            return true;
        }
        i = i + 1;
    }
    false
}

/// A precision mode by its command-line name.
pub fn parse_precision(s: &str) -> (r: Option<Precision>)
    ensures
        r == (if s@ == "conservative"@ {
            Some(Precision::Conservative)
        } else if s@ == "balanced"@ {
            Some(Precision::Balanced)
        } else if s@ == "exploratory"@ {
            Some(Precision::Exploratory)
        } else {
            None::<Precision>
        }),
{
    if str_eq(s, "conservative") {
        Some(Precision::Conservative)
    } else if str_eq(s, "balanced") {
        Some(Precision::Balanced)
    } else if str_eq(s, "exploratory") {
        Some(Precision::Exploratory)
    } else {
        None
    }
}

/// A severity by its command-line name.
pub fn parse_severity(s: &str) -> (r: Option<Severity>)
    ensures
        r == (if s@ == "info"@ {
            Some(Severity::Info)
        } else if s@ == "warning"@ {
            Some(Severity::Warning)
        } else if s@ == "critical"@ {
            Some(Severity::Critical)
        } else {
            None::<Severity>
        }),
{
    if str_eq(s, "info") {
        Some(Severity::Info)
    } else if str_eq(s, "warning") {
        Some(Severity::Warning)
    } else if str_eq(s, "critical") {
        Some(Severity::Critical)
    } else {
        None
    }
}

pub open spec fn spec_category_named(s: Seq<char>) -> Option<SmellCategory> {
    if s == "architecture"@ {
        Some(SmellCategory::Architecture)
    } else if s == "design"@ {
        Some(SmellCategory::Design)
    } else if s == "implementation"@ {
        Some(SmellCategory::Implementation)
    } else if s == "performance"@ {
        Some(SmellCategory::Performance)
    } else if s == "idiomaticity"@ {
        Some(SmellCategory::Idiomaticity)
    } else if s == "concurrency"@ {
        Some(SmellCategory::Concurrency)
    } else if s == "unsafe"@ {
        Some(SmellCategory::Unsafe)
    } else {
        None
    }
}

/// A category by its command-line name.
pub fn parse_category(s: &str) -> (r: Option<SmellCategory>)
    ensures
        r == spec_category_named(s@),
{
    if str_eq(s, "architecture") {
        Some(SmellCategory::Architecture)
    } else if str_eq(s, "design") {
        Some(SmellCategory::Design)
    } else if str_eq(s, "implementation") {
        Some(SmellCategory::Implementation)
    } else if str_eq(s, "performance") {
        Some(SmellCategory::Performance)
    } else if str_eq(s, "idiomaticity") {
        Some(SmellCategory::Idiomaticity)
    } else if str_eq(s, "concurrency") {
        Some(SmellCategory::Concurrency)
    } else if str_eq(s, "unsafe") {
        Some(SmellCategory::Unsafe)
    } else {
        None
    }
}

} // verus!
