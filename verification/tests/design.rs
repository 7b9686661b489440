use qualirs::detectors::design::{BrokenConstructorDetector, ImplShape, StructShape};
use qualirs::evidence::{PathArgs, PathModel, SegList, Segment, TypeModel};

fn path(parts: &[&str]) -> PathModel {
    let mut segments = SegList::Nil;
    for p in parts.iter().rev() {
        segments = SegList::Cons(Segment { ident: p.to_string(), args: PathArgs::Bare }, Box::new(segments));
    }
    PathModel { leading_colon: false, segments }
}

fn ty(parts: &[&str]) -> TypeModel {
    TypeModel::Path { qself: false, path: path(parts) }
}

/// `struct <name> { pub a: u8, .. }` with `fields` public fields, at line 3.
fn shape(name: &str, fields: usize, derives: Vec<PathModel>) -> StructShape {
    StructShape {
        name: name.to_string(),
        line: 3,
        unit: false,
        fields: (0..fields).map(|_| (true, ty(&["u8"]))).collect(),
        derives,
    }
}

fn broken(path_text: &str, structs: Vec<StructShape>, impls: Vec<ImplShape>) -> Vec<(usize, String)> {
    BrokenConstructorDetector
        .detect(path_text, &vec!["tests".to_string()], &vec!["Dto".to_string()], &structs, &impls)
        .iter()
        .map(|f| (f.location.line_start, f.message.clone()))
        .collect()
}

#[test]
fn public_structs_without_constructors_are_reported() {
    assert_eq!(
        broken("src/config.rs", vec![shape("Config", 3, vec![])], vec![]),
        vec![(3, "Struct `Config` has 3 public fields but no `new()` constructor".to_string())]
    );
    // `#[derive(Default)]` gives a way to build it; a qualified `Default` path does not count.
    assert!(broken("src/config.rs", vec![shape("Config", 3, vec![path(&["Default"])])], vec![]).is_empty());
    assert_eq!(broken("src/config.rs", vec![shape("Config", 3, vec![path(&["std", "default", "Default"])])], vec![]).len(), 1);
    // impl Config { fn new() -> Self { .. } }
    let ctor = ImplShape { self_ty: ty(&["Config"]), trait_path: None, methods: vec!["new".to_string()] };
    assert!(broken("src/config.rs", vec![shape("Config", 3, vec![])], vec![ctor]).is_empty());
    // Two public fields, a data carrier, or a test path: nothing to report.
    assert!(broken("src/config.rs", vec![shape("Config", 2, vec![])], vec![]).is_empty());
    assert!(broken("src/config.rs", vec![shape("ConfigDto", 3, vec![])], vec![]).is_empty());
    assert!(broken("tests/config.rs", vec![shape("Config", 3, vec![])], vec![]).is_empty());
}
