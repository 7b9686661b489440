use qualirs::domain::{FindingConfidence, Severity, Smell, SmellCategory, SourceLocation};
use qualirs::signature::line_function;
use qualirs::lifetimes::TypeShape;
use qualirs::suggested_code::{line_syntax, suggested_line_for};

fn smell(name: &str) -> Smell {
    Smell::new(
        SmellCategory::Implementation,
        name,
        Severity::Info,
        FindingConfidence::High,
        SourceLocation::new("src/lib.rs".to_string(), 1, 1, None),
        "message",
        "suggestion",
    )
}

#[test]
fn removes_clone_from_copy_values() {
    let smell = smell("Clone on Copy");
    assert_eq!(
        suggested_line_for(&smell, "    count.clone()").as_deref(),
        Some("    count")
    );
}

#[test]
fn omits_iterator_rewrite_without_type_evidence() {
    let smell = smell("Inefficient Iterator Step");
    assert_eq!(
        suggested_line_for(&smell, "    values.skip(3).next()").as_deref(),
        None
    );
}

#[test]
fn rewrites_chars_count_zero_check_to_is_empty() {
    let smell = smell("Chars Count Length Check");
    assert_eq!(
        suggested_line_for(&smell, "    value.chars().count() == 0").as_deref(),
        Some("    value.is_empty()")
    );
}

#[test]
fn omits_formatting_rewrite_without_borrow_evidence() {
    let smell = smell("Needless Intermediate String Formatting");
    assert_eq!(
        suggested_line_for(&smell, r#"    line.push_str(&format!("id={id}"));"#).as_deref(),
        None
    );
}

#[test]
fn elides_simple_named_lifetime() {
    let smell = smell("Needless Explicit Lifetime");
    assert_eq!(
        suggested_line_for(
            &smell,
            "fn needless_lifetime<'a>(value: &'a str) -> &'a str {"
        )
        .as_deref(),
        Some("fn needless_lifetime(value: &str) -> &str {")
    );
}

#[test]
fn omits_ambiguous_or_semantically_different_rewrites() {
    let chars = smell("Chars Count Length Check");
    for line in [
        "s.chars().count() == 2",
        "s.chars().count() + 1",
        "s.chars().count() == 0usize",
        "(a.chars().count() == 0, b.chars().count() == 0)",
        "\"s.chars().count() == 0\"",
    ] {
        assert_eq!(suggested_line_for(&chars, line), None, "{line}");
    }
    assert_eq!(
        suggested_line_for(&smell("Clone on Copy"), "(a.clone(), b.clone())"),
        None
    );
    assert_eq!(
        suggested_line_for(
            &smell("Needless Explicit Lifetime"),
            "fn f<'a: 'static>(x: &'a str) -> &'static str { x }"
        ),
        None
    );
    let mut uncertain = chars;
    uncertain.confidence = FindingConfidence::Low;
    assert_eq!(
        suggested_line_for(&uncertain, "s.chars().count() == 0"),
        None
    );
}

#[test]
fn rewrites_nonempty_check_and_identity_lifetime() {
    let chars = smell("Chars Count Length Check");
    assert_eq!(
        suggested_line_for(&chars, "s.chars().count() > 0").as_deref(),
        Some("!s.is_empty()")
    );
    assert_eq!(
        suggested_line_for(&smell("Clone on Copy"), "value.clone()").as_deref(),
        Some("value")
    );
    assert_eq!(
        suggested_line_for(
            &smell("Needless Explicit Lifetime"),
            "fn identity<'a>(s: &'a str) -> &'a str { s }"
        )
        .as_deref(),
        Some("fn identity(s: &str) -> &str { s }")
    );
}

#[test]
fn line_syntax_counts_calls_in_parsed_code_only() {
    let syntax = line_syntax("(a.clone(), b.clone(), s.chars().count(), s.chars(), v.count(), x.clone(1))");
    assert_eq!(syntax.clone_calls, Some(2));
    assert_eq!(syntax.chars_count_calls, Some(1));
    // Macro input and attributes are not parsed as code; `..` is no method dot.
    let syntax = line_syntax("println!(\"{}\", a.clone()); let r = 0..clone(); !(b.clone()); if !(c.clone()) {}");
    assert_eq!(syntax.clone_calls, Some(2));
    let syntax = line_syntax("x.clone ( ).chars().count()");
    assert_eq!(syntax.clone_calls, Some(1));
    assert_eq!(syntax.chars_count_calls, Some(1));
    // A line that is no block body has no counts.
    let unparsed = line_syntax("} else {");
    assert_eq!(unparsed.clone_calls, None);
    assert_eq!(unparsed.chars_count_calls, None);
}

#[test]
fn lines_read_as_function_items_or_signatures() {
    // A whole item.
    let f = line_function("fn identity<'a>(s: &'a str) -> &'a str { s }").unwrap();
    assert_eq!(f.generic_params, 1);
    assert_eq!(f.inputs, 1);
    assert_eq!(f.first_lifetime, Some(("a".to_string(), false)));
    assert!(matches!(&f.first_input, Some(TypeShape::Reference { lifetime: Some(l), simple_elem: true }) if l == "a"));
    assert!(!f.body_has_lifetime);
    // A signature line opening its body.
    let f = line_function("    fn needless_lifetime<'a>(value: &'a str) -> &'a str {").unwrap();
    assert_eq!(f.body_tokens, "{ }");
    // A bounded lifetime, a generic output and a lifetime in the body.
    let f = line_function("fn f<'a: 'static>(x: &'a str) -> Vec<u8> { let y: &'a str = x; todo!() }").unwrap();
    assert_eq!(f.first_lifetime, Some(("a".to_string(), true)));
    assert!(matches!(f.output, Some(TypeShape::Other)));
    assert!(f.body_has_lifetime);
    // A lifetime inside macro input does not count as parsed code.
    let f = line_function("fn f<'a>(x: &'a str) -> () { check!('b) }").unwrap();
    assert!(matches!(f.output, Some(TypeShape::Simple)));
    assert!(!f.body_has_lifetime);
    // A line that is neither.
    assert!(line_function("let x = 1;").is_none());
}

#[test]
fn turbofish_clone_calls_count_as_clone_calls() {
    let syntax = line_syntax("let a = x.clone::<u8>(); let b = y.clone();");
    assert_eq!(syntax.clone_calls, Some(2));
    let syntax = line_syntax("let a = x.clone::<Vec<fn() -> u8>>();");
    assert_eq!(syntax.clone_calls, Some(1));
    assert_eq!(
        suggested_line_for(&smell("Clone on Copy"), "let a = x.clone::<u8>(); let b = y.clone();"),
        None
    );
}
