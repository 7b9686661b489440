use qualirs::domain::{FindingConfidence, Severity, Smell, SmellCategory, SourceLocation};
use qualirs::report::{fails_run, parse_category, parse_precision, parse_severity, Precision, ReportFilter};

fn smell(name: &str, category: SmellCategory, severity: Severity, confidence: FindingConfidence) -> Smell {
    Smell::new(
        category,
        name,
        severity,
        confidence,
        SourceLocation::new("src/lib.rs".to_string(), 1, 1, None),
        "message",
        "suggestion",
    )
}

fn mixed() -> Vec<Smell> {
    vec![
        smell("Excessive Unwrap", SmellCategory::Idiomaticity, Severity::Warning, FindingConfidence::High),
        smell("Too Many Arguments", SmellCategory::Design, Severity::Warning, FindingConfidence::Medium),
        smell("Magic Numbers", SmellCategory::Implementation, Severity::Info, FindingConfidence::Low),
        smell("Long Function", SmellCategory::Implementation, Severity::Critical, FindingConfidence::High),
    ]
}

fn names(smells: &[Smell]) -> Vec<&str> {
    smells.iter().map(|s| s.name.as_str()).collect()
}

fn filter(precision: Precision, min_severity: Severity, category: Option<SmellCategory>) -> ReportFilter {
    ReportFilter { precision, min_severity, category }
}

#[test]
fn precision_modes_report_high_then_medium_then_low_confidence() {
    let conservative = filter(Precision::Conservative, Severity::Info, None).apply(mixed());
    assert_eq!(names(&conservative), vec!["Excessive Unwrap", "Long Function"]);
    let balanced = filter(Precision::Balanced, Severity::Info, None).apply(mixed());
    assert_eq!(names(&balanced), vec!["Excessive Unwrap", "Too Many Arguments", "Long Function"]);
    let exploratory = filter(Precision::Exploratory, Severity::Info, None).apply(mixed());
    assert_eq!(names(&exploratory), vec!["Excessive Unwrap", "Too Many Arguments", "Magic Numbers", "Long Function"]);
}

#[test]
fn the_default_report_is_conservative_and_keeps_every_severity_and_category() {
    let f = ReportFilter::default_filter();
    assert_eq!(f.precision, Precision::Conservative);
    assert_eq!(f.min_severity, Severity::Info);
    assert_eq!(f.category, None);
}

#[test]
fn min_severity_and_category_filter_findings() {
    let warning = filter(Precision::Exploratory, Severity::Warning, None).apply(mixed());
    assert_eq!(names(&warning), vec!["Excessive Unwrap", "Too Many Arguments", "Long Function"]);
    let critical = filter(Precision::Exploratory, Severity::Critical, None).apply(mixed());
    assert_eq!(names(&critical), vec!["Long Function"]);
    let implementation =
        filter(Precision::Exploratory, Severity::Info, Some(SmellCategory::Implementation)).apply(mixed());
    assert_eq!(names(&implementation), vec!["Magic Numbers", "Long Function"]);
    let none = filter(Precision::Conservative, Severity::Info, Some(SmellCategory::Unsafe)).apply(mixed());
    assert!(none.is_empty());
}

#[test]
fn only_retained_critical_findings_fail_the_run() {
    assert!(fails_run(&mixed()));
    let warnings = filter(Precision::Exploratory, Severity::Info, Some(SmellCategory::Design)).apply(mixed());
    assert!(!fails_run(&warnings));
    assert!(!fails_run(&Vec::new()));
}

#[test]
fn command_line_names_of_modes_severities_and_categories() {
    assert_eq!(parse_precision("balanced"), Some(Precision::Balanced));
    assert_eq!(parse_precision("Balanced"), None);
    assert_eq!(parse_severity("warning"), Some(Severity::Warning));
    assert_eq!(parse_severity("error"), None);
    assert_eq!(parse_category("performance"), Some(SmellCategory::Performance));
    assert_eq!(parse_category("unsafe"), Some(SmellCategory::Unsafe));
    assert_eq!(parse_category("style"), None);
}
