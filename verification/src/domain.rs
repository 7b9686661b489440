//! Findings: categories, severities, confidence, locations and finding codes.
use vstd::prelude::*;
use crate::text::str_eq;
use vstd::string::*;

verus! {

#[derive(Clone, Copy, Debug, PartialEq, Eq, Structural)]
pub enum SmellCategory {
    Architecture,
    Design,
    Implementation,
    Performance,
    Idiomaticity,
    Concurrency,
    Unsafe,
}

#[derive(Clone, Copy, Debug, PartialEq, Eq, Structural)]
pub enum Severity {
    Info,
    Warning,
    Critical,
}

#[derive(Clone, Copy, Debug, PartialEq, Eq, Structural)]
pub enum FindingConfidence {
    Low,
    Medium,
    High,
}

pub struct SourceLocation {
    pub file: String,
    pub line_start: usize,
    pub line_end: usize,
    pub column: Option<usize>,
}

impl SourceLocation {
    pub fn new(file: String, line_start: usize, line_end: usize, column: Option<usize>) -> (r: Self)
        ensures
            r.file@ == file@,
            r.line_start == line_start,
            r.line_end == line_end,
            r.column == column,
    {
        SourceLocation { file, line_start, line_end, column }
    }
}

pub struct Smell {
    pub code: String,
    pub category: SmellCategory,
    pub name: String,
    pub severity: Severity,
    pub confidence: FindingConfidence,
    pub location: SourceLocation,
    pub message: String,
    pub suggestion: String,
}

impl Smell {
    /// A finding whose code comes from the built-in name registry.
    pub fn new(
        category: SmellCategory,
        name: &str,
        severity: Severity,
        confidence: FindingConfidence,
        location: SourceLocation,
        message: &str,
        suggestion: &str,
    ) -> (r: Self)
        ensures
            r.code@ == spec_code(name@),
            r.category == category,
            r.name@ == name@,
            r.severity == severity,
            r.confidence == confidence,
            r.location == location,
            r.message@ == message@,
            r.suggestion@ == suggestion@,
    {
        Smell {
            code: smell_code(name),
            category,
            name: name.to_owned(),
            severity,
            confidence,
            location,
            message: message.to_owned(),
            suggestion: suggestion.to_owned(),
        }
    }
}

pub open spec fn spec_code_0(name: Seq<char>) -> Seq<char> {
    if name == "God Module"@ {
        "Q0001"@
    } else if name == "Public API Explosion"@ {
        "Q0002"@
    } else if name == "Feature Concentration"@ {
        "Q0003"@
    } else if name == "Cyclic Crate Dependency"@ {
        "Q0004"@
    } else if name == "Layer Violation"@ {
        "Q0005"@
    } else if name == "Unstable Dependency"@ {
        "Q0006"@
    } else if name == "Leaky Error Abstraction"@ {
        "Q0007"@
    } else if name == "Hidden Global State"@ {
        "Q0008"@
    } else if name == "Public API Leak"@ {
        "Q0009"@
    } else if name == "Test-only Dependency in Production"@ {
        "Q0010"@
    } else if name == "Duplicate Dependency Versions"@ {
        "Q0011"@
    } else if name == "Feature Flag Sprawl"@ {
        "Q0012"@
    } else if name == "Circular Module Dependency"@ {
        "Q0013"@
    } else if name == "Large Trait"@ {
        "Q0014"@
    } else {
        spec_code_1(name)
    }
}

pub open spec fn spec_code_1(name: Seq<char>) -> Seq<char> {
    if name == "Excessive Generics"@ {
        "Q0015"@
    } else if name == "Anemic Struct"@ {
        "Q0016"@
    } else if name == "Wide Hierarchy"@ {
        "Q0017"@
    } else if name == "Trait Impl Leakage"@ {
        "Q0018"@
    } else if name == "Feature Envy"@ {
        "Q0019"@
    } else if name == "Broken Constructor"@ {
        "Q0020"@
    } else if name == "Rebellious Impl"@ {
        "Q0021"@
    } else if name == "Fat Impl"@ {
        "Q0022"@
    } else if name == "Primitive Obsession"@ {
        "Q0023"@
    } else if name == "Data Clumps"@ {
        "Q0024"@
    } else if name == "Multiple Impl Blocks"@ {
        "Q0025"@
    } else if name == "God Struct"@ {
        "Q0026"@
    } else if name == "Boolean Flag Argument"@ {
        "Q0027"@
    } else if name == "Stringly Typed Domain"@ {
        "Q0028"@
    } else {
        spec_code_2(name)
    }
}

pub open spec fn spec_code_2(name: Seq<char>) -> Seq<char> {
    if name == "Large Error Enum"@ {
        "Q0029"@
    } else if name == "Long Function"@ {
        "Q0030"@
    } else if name == "Too Many Arguments"@ {
        "Q0031"@
    } else if name == "Deep Match Nesting"@ {
        "Q0032"@
    } else if name == "Magic Numbers"@ {
        "Q0033"@
    } else if name == "Large Enum"@ {
        "Q0034"@
    } else if name == "High Cyclomatic Complexity"@ {
        "Q0035"@
    } else if name == "Deep If/Else Nesting"@ {
        "Q0036"@
    } else if name == "Long Method Chain"@ {
        "Q0037"@
    } else if name == "Unsafe Block Overuse"@ {
        "Q0038"@
    } else if name == "Lifetime Explosion"@ {
        "Q0039"@
    } else if name == "Deeply Nested Type"@ {
        "Q0040"@
    } else if name == "Duplicate Match Arms"@ {
        "Q0041"@
    } else if name == "Long Closure"@ {
        "Q0042"@
    } else {
        spec_code_3(name)
    }
}

pub open spec fn spec_code_3(name: Seq<char>) -> Seq<char> {
    if name == "Deep Closure Nesting"@ {
        "Q0043"@
    } else if name == "Excessive Clone"@ {
        "Q0044"@
    } else if name == "Arc Mutex Overuse"@ {
        "Q0045"@
    } else if name == "Large Future"@ {
        "Q0046"@
    } else if name == "Async Trait Overhead"@ {
        "Q0047"@
    } else if name == "Interior Mutability Abuse"@ {
        "Q0048"@
    } else if name == "Unnecessary Allocation in Loop"@ {
        "Q0049"@
    } else if name == "Collect Then Iterate"@ {
        "Q0050"@
    } else if name == "Repeated Regex Construction"@ {
        "Q0051"@
    } else if name == "Missing Collection Preallocation"@ {
        "Q0052"@
    } else if name == "Repeated String Conversion in Hot Path"@ {
        "Q0053"@
    } else if name == "Needless Intermediate String Formatting"@ {
        "Q0054"@
    } else if name == "Vec Contains in Loop"@ {
        "Q0055"@
    } else if name == "Sort Before Min or Max"@ {
        "Q0056"@
    } else {
        spec_code_4(name)
    }
}

pub open spec fn spec_code_4(name: Seq<char>) -> Seq<char> {
    if name == "Full Sort for Single Element"@ {
        "Q0057"@
    } else if name == "Clone Before Move Into Collection"@ {
        "Q0058"@
    } else if name == "Inefficient Iterator Step"@ {
        "Q0059"@
    } else if name == "Chars Count Length Check"@ {
        "Q0060"@
    } else if name == "Repeated Expensive Construction in Loop"@ {
        "Q0061"@
    } else if name == "Needless Dynamic Dispatch"@ {
        "Q0062"@
    } else if name == "Local Lock in Single-Threaded Scope"@ {
        "Q0063"@
    } else if name == "Clone on Copy"@ {
        "Q0064"@
    } else if name == "Large Value Passed By Value"@ {
        "Q0065"@
    } else if name == "Inline Candidate"@ {
        "Q0066"@
    } else if name == "Excessive Unwrap"@ {
        "Q0067"@
    } else if name == "Unused Result Ignored"@ {
        "Q0068"@
    } else if name == "Panic in Library"@ {
        "Q0069"@
    } else if name == "Copy + Drop Conflict"@ {
        "Q0070"@
    } else {
        spec_code_5(name)
    }
}

pub open spec fn spec_code_5(name: Seq<char>) -> Seq<char> {
    if name == "Deref Abuse"@ {
        "Q0071"@
    } else if name == "Manual Drop"@ {
        "Q0072"@
    } else if name == "Manual Default Constructor"@ {
        "Q0073"@
    } else if name == "Manual Option/Result Mapping"@ {
        "Q0074"@
    } else if name == "Manual Find/Any Loop"@ {
        "Q0075"@
    } else if name == "Needless Explicit Lifetime"@ {
        "Q0076"@
    } else if name == "Derivable Impl"@ {
        "Q0077"@
    } else if name == "Blocking in Async"@ {
        "Q0078"@
    } else if name == "Deadlock Risk"@ {
        "Q0079"@
    } else if name == "Spawn Without Join"@ {
        "Q0080"@
    } else if name == "Missing Send Bound"@ {
        "Q0081"@
    } else if name == "Sync Drop Blocking"@ {
        "Q0082"@
    } else if name == "Std Mutex in Async"@ {
        "Q0083"@
    } else if name == "Blocking Channel in Async"@ {
        "Q0084"@
    } else {
        spec_code_6(name)
    }
}

pub open spec fn spec_code_6(name: Seq<char>) -> Seq<char> {
    if name == "Holding Lock Across Await"@ {
        "Q0085"@
    } else if name == "Dropped JoinHandle"@ {
        "Q0086"@
    } else if name == "Unsafe Without Comment"@ {
        "Q0087"@
    } else if name == "Transmute Usage"@ {
        "Q0088"@
    } else if name == "Raw Pointer Arithmetic"@ {
        "Q0089"@
    } else if name == "Multi Mut Ref Unsafe"@ {
        "Q0090"@
    } else if name == "FFI Without Wrapper"@ {
        "Q0091"@
    } else if name == "Inline Assembly"@ {
        "Q0092"@
    } else if name == "Unsafe Fn Missing Safety Docs"@ {
        "Q0093"@
    } else if name == "Unsafe Impl Missing Safety Docs"@ {
        "Q0094"@
    } else if name == "Large Unsafe Block"@ {
        "Q0095"@
    } else if name == "FFI Type Not repr(C)"@ {
        "Q0096"@
    } else if name == "Sync Drop Blocking (Async Hazard)"@ {
        "Q0082"@
    } else {
        "Q0000"@
    }
}

/// The finding code registered for a detector name; unknown names get `Q0000`.
pub open spec fn spec_code(name: Seq<char>) -> Seq<char> {
    spec_code_0(name)
}

fn code_0(name: &str) -> (r: String)
    ensures
        r@ == spec_code_0(name@),
{
    if str_eq(name, "God Module") {
        String::from_str("Q0001")
    } else if str_eq(name, "Public API Explosion") {
        String::from_str("Q0002")
    } else if str_eq(name, "Feature Concentration") {
        String::from_str("Q0003")
    } else if str_eq(name, "Cyclic Crate Dependency") {
        String::from_str("Q0004")
    } else if str_eq(name, "Layer Violation") {
        String::from_str("Q0005")
    } else if str_eq(name, "Unstable Dependency") {
        String::from_str("Q0006")
    } else if str_eq(name, "Leaky Error Abstraction") {
        String::from_str("Q0007")
    } else if str_eq(name, "Hidden Global State") {
        String::from_str("Q0008")
    } else if str_eq(name, "Public API Leak") {
        String::from_str("Q0009")
    } else if str_eq(name, "Test-only Dependency in Production") {
        String::from_str("Q0010")
    } else if str_eq(name, "Duplicate Dependency Versions") {
        String::from_str("Q0011")
    } else if str_eq(name, "Feature Flag Sprawl") {
        String::from_str("Q0012")
    } else if str_eq(name, "Circular Module Dependency") {
        String::from_str("Q0013")
    } else if str_eq(name, "Large Trait") {
        String::from_str("Q0014")
    } else {
        code_1(name)
    }
}

fn code_1(name: &str) -> (r: String)
    ensures
        r@ == spec_code_1(name@),
{
    if str_eq(name, "Excessive Generics") {
        String::from_str("Q0015")
    } else if str_eq(name, "Anemic Struct") {
        String::from_str("Q0016")
    } else if str_eq(name, "Wide Hierarchy") {
        String::from_str("Q0017")
    } else if str_eq(name, "Trait Impl Leakage") {
        String::from_str("Q0018")
    } else if str_eq(name, "Feature Envy") {
        String::from_str("Q0019")
    } else if str_eq(name, "Broken Constructor") {
        String::from_str("Q0020")
    } else if str_eq(name, "Rebellious Impl") {
        String::from_str("Q0021")
    } else if str_eq(name, "Fat Impl") {
        String::from_str("Q0022")
    } else if str_eq(name, "Primitive Obsession") {
        String::from_str("Q0023")
    } else if str_eq(name, "Data Clumps") {
        String::from_str("Q0024")
    } else if str_eq(name, "Multiple Impl Blocks") {
        String::from_str("Q0025")
    } else if str_eq(name, "God Struct") {
        String::from_str("Q0026")
    } else if str_eq(name, "Boolean Flag Argument") {
        String::from_str("Q0027")
    } else if str_eq(name, "Stringly Typed Domain") {
        String::from_str("Q0028")
    } else {
        code_2(name)
    }
}

fn code_2(name: &str) -> (r: String)
    ensures
        r@ == spec_code_2(name@),
{
    if str_eq(name, "Large Error Enum") {
        String::from_str("Q0029")
    } else if str_eq(name, "Long Function") {
        String::from_str("Q0030")
    } else if str_eq(name, "Too Many Arguments") {
        String::from_str("Q0031")
    } else if str_eq(name, "Deep Match Nesting") {
        String::from_str("Q0032")
    } else if str_eq(name, "Magic Numbers") {
        String::from_str("Q0033")
    } else if str_eq(name, "Large Enum") {
        String::from_str("Q0034")
    } else if str_eq(name, "High Cyclomatic Complexity") {
        String::from_str("Q0035")
    } else if str_eq(name, "Deep If/Else Nesting") {
        String::from_str("Q0036")
    } else if str_eq(name, "Long Method Chain") {
        String::from_str("Q0037")
    } else if str_eq(name, "Unsafe Block Overuse") {
        String::from_str("Q0038")
    } else if str_eq(name, "Lifetime Explosion") {
        String::from_str("Q0039")
    } else if str_eq(name, "Deeply Nested Type") {
        String::from_str("Q0040")
    } else if str_eq(name, "Duplicate Match Arms") {
        String::from_str("Q0041")
    } else if str_eq(name, "Long Closure") {
        String::from_str("Q0042")
    } else {
        code_3(name)
    }
}

fn code_3(name: &str) -> (r: String)
    ensures
        r@ == spec_code_3(name@),
{
    if str_eq(name, "Deep Closure Nesting") {
        String::from_str("Q0043")
    } else if str_eq(name, "Excessive Clone") {
        String::from_str("Q0044")
    } else if str_eq(name, "Arc Mutex Overuse") {
        String::from_str("Q0045")
    } else if str_eq(name, "Large Future") {
        String::from_str("Q0046")
    } else if str_eq(name, "Async Trait Overhead") {
        String::from_str("Q0047")
    } else if str_eq(name, "Interior Mutability Abuse") {
        String::from_str("Q0048")
    } else if str_eq(name, "Unnecessary Allocation in Loop") {
        String::from_str("Q0049")
    } else if str_eq(name, "Collect Then Iterate") {
        String::from_str("Q0050")
    } else if str_eq(name, "Repeated Regex Construction") {
        String::from_str("Q0051")
    } else if str_eq(name, "Missing Collection Preallocation") {
        String::from_str("Q0052")
    } else if str_eq(name, "Repeated String Conversion in Hot Path") {
        String::from_str("Q0053")
    } else if str_eq(name, "Needless Intermediate String Formatting") {
        String::from_str("Q0054")
    } else if str_eq(name, "Vec Contains in Loop") {
        String::from_str("Q0055")
    } else if str_eq(name, "Sort Before Min or Max") {
        String::from_str("Q0056")
    } else {
        code_4(name)
    }
}

fn code_4(name: &str) -> (r: String)
    ensures
        r@ == spec_code_4(name@),
{
    if str_eq(name, "Full Sort for Single Element") {
        String::from_str("Q0057")
    } else if str_eq(name, "Clone Before Move Into Collection") {
        String::from_str("Q0058")
    } else if str_eq(name, "Inefficient Iterator Step") {
        String::from_str("Q0059")
    } else if str_eq(name, "Chars Count Length Check") {
        String::from_str("Q0060")
    } else if str_eq(name, "Repeated Expensive Construction in Loop") {
        String::from_str("Q0061")
    } else if str_eq(name, "Needless Dynamic Dispatch") {
        String::from_str("Q0062")
    } else if str_eq(name, "Local Lock in Single-Threaded Scope") {
        String::from_str("Q0063")
    } else if str_eq(name, "Clone on Copy") {
        String::from_str("Q0064")
    } else if str_eq(name, "Large Value Passed By Value") {
        String::from_str("Q0065")
    } else if str_eq(name, "Inline Candidate") {
        String::from_str("Q0066")
    } else if str_eq(name, "Excessive Unwrap") {
        String::from_str("Q0067")
    } else if str_eq(name, "Unused Result Ignored") {
        String::from_str("Q0068")
    } else if str_eq(name, "Panic in Library") {
        String::from_str("Q0069")
    } else if str_eq(name, "Copy + Drop Conflict") {
        String::from_str("Q0070")
    } else {
        code_5(name)
    }
}

fn code_5(name: &str) -> (r: String)
    ensures
        r@ == spec_code_5(name@),
{
    if str_eq(name, "Deref Abuse") {
        String::from_str("Q0071")
    } else if str_eq(name, "Manual Drop") {
        String::from_str("Q0072")
    } else if str_eq(name, "Manual Default Constructor") {
        String::from_str("Q0073")
    } else if str_eq(name, "Manual Option/Result Mapping") {
        String::from_str("Q0074")
    } else if str_eq(name, "Manual Find/Any Loop") {
        String::from_str("Q0075")
    } else if str_eq(name, "Needless Explicit Lifetime") {
        String::from_str("Q0076")
    } else if str_eq(name, "Derivable Impl") {
        String::from_str("Q0077")
    } else if str_eq(name, "Blocking in Async") {
        String::from_str("Q0078")
    } else if str_eq(name, "Deadlock Risk") {
        String::from_str("Q0079")
    } else if str_eq(name, "Spawn Without Join") {
        String::from_str("Q0080")
    } else if str_eq(name, "Missing Send Bound") {
        String::from_str("Q0081")
    } else if str_eq(name, "Sync Drop Blocking") {
        String::from_str("Q0082")
    } else if str_eq(name, "Std Mutex in Async") {
        String::from_str("Q0083")
    } else if str_eq(name, "Blocking Channel in Async") {
        String::from_str("Q0084")
    } else {
        code_6(name)
    }
}

fn code_6(name: &str) -> (r: String)
    ensures
        r@ == spec_code_6(name@),
{
    if str_eq(name, "Holding Lock Across Await") {
        String::from_str("Q0085")
    } else if str_eq(name, "Dropped JoinHandle") {
        String::from_str("Q0086")
    } else if str_eq(name, "Unsafe Without Comment") {
        String::from_str("Q0087")
    } else if str_eq(name, "Transmute Usage") {
        String::from_str("Q0088")
    } else if str_eq(name, "Raw Pointer Arithmetic") {
        String::from_str("Q0089")
    } else if str_eq(name, "Multi Mut Ref Unsafe") {
        String::from_str("Q0090")
    } else if str_eq(name, "FFI Without Wrapper") {
        String::from_str("Q0091")
    } else if str_eq(name, "Inline Assembly") {
        String::from_str("Q0092")
    } else if str_eq(name, "Unsafe Fn Missing Safety Docs") {
        String::from_str("Q0093")
    } else if str_eq(name, "Unsafe Impl Missing Safety Docs") {
        String::from_str("Q0094")
    } else if str_eq(name, "Large Unsafe Block") {
        String::from_str("Q0095")
    } else if str_eq(name, "FFI Type Not repr(C)") {
        String::from_str("Q0096")
    } else if str_eq(name, "Sync Drop Blocking (Async Hazard)") {
        String::from_str("Q0082")
    } else {
        String::from_str("Q0000")
    }
}

/// Looks up the code of a detector name in the built-in registry.
pub fn smell_code(name: &str) -> (r: String)
    ensures
        r@ == spec_code(name@),
{
    code_0(name)
}

} // verus!
