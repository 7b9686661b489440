use qualirs::detectors::architecture::{
    EnumModel, LeakyErrorAbstractionDetector, TestOnlyDependencyInProductionDetector, UseItemModel,
    VariantModel,
};
use qualirs::detectors::concurrency::{
    blocking_method_confidence, overlapping_lock_hint, DeadlockRiskDetector,
    HoldingLockAcrossAwaitDetector, StdMutexInAsyncDetector,
};
use qualirs::detectors::implementation::{
    scalar_width, CharsCountLengthCheckDetector, DeepIfElseDetector, ExcessiveUnwrapDetector,
    FnIfs, FnUnwraps, IfAlt, IfForest, IfTree, UnwrapSite,
};
use qualirs::detectors::is_test_path;
use qualirs::detectors::perf::macro_tokens_mention_ident;
use qualirs::detectors::regex::{is_lazy_initializer, is_lazy_initializer_method};
use qualirs::domain::{FindingConfidence, Severity, Smell, SmellCategory, SourceLocation};
use qualirs::evidence::{
    is_fs_result, is_spawn, BinOpModel, Context, ExprList, ExprModel, Kind, LitModel, PatModel,
    PathArgs, PathModel, SegList, Segment, TypeModel, UseList, UseTree,
};
use qualirs::manifest::{dev_dependencies, entry_paths};
use qualirs::source_notes::{closure_call_documented, mentions_safety, SourceNotes};

fn path(parts: &[&str]) -> PathModel {
    let mut segments = SegList::Nil;
    for p in parts.iter().rev() {
        segments = SegList::Cons(
            Segment { ident: p.to_string(), args: PathArgs::Bare },
            Box::new(segments),
        );
    }
    PathModel { leading_colon: false, segments }
}

fn var(name: &str) -> ExprModel {
    ExprModel::Path(path(&[name]))
}

fn method(receiver: ExprModel, name: &str) -> ExprModel {
    ExprModel::MethodCall {
        receiver: Box::new(receiver),
        method: name.to_string(),
        turbofish: None,
        args: ExprList::Nil,
    }
}

fn ty(parts: &[&str]) -> TypeModel {
    TypeModel::Path { qself: false, path: path(parts) }
}

fn function_context(bindings: &[(&str, TypeModel)]) -> Context {
    let mut ctx = Context::new(&Vec::new());
    ctx.start_function(false, false, (1, 3), &Vec::new());
    for (i, (name, t)) in bindings.iter().enumerate() {
        let pat = PatModel::Typed {
            pat: Box::new(PatModel::Ident { name: name.to_string(), by_ref: false, line: 1, column: i }),
            ty: match t {
                TypeModel::Path { qself, path } => TypeModel::Path {
                    qself: *qself,
                    path: qualirs::evidence::path_clone(path),
                },
                _ => TypeModel::Other,
            },
        };
        ctx.bind(&pat, Kind::Unknown);
    }
    ctx
}

#[test]
fn unknown_detector_names_get_the_placeholder_code() {
    let s = Smell::new(
        SmellCategory::Implementation,
        "File Length Review",
        Severity::Info,
        FindingConfidence::Medium,
        SourceLocation::new("src/lib.rs".to_string(), 1, 1, None),
        "File has 2001 lines",
        "Review",
    );
    assert_eq!(s.code, "Q0000");
    let known = Smell::new(
        SmellCategory::Idiomaticity,
        "Unused Result Ignored",
        Severity::Warning,
        FindingConfidence::High,
        SourceLocation::new("example.rs".to_string(), 3, 3, None),
        "A Result is discarded without handling its error",
        "Handle the error or document why discarding it is intentional.",
    );
    assert_eq!(known.code, "Q0068");
}

#[test]
fn value_looks_through_references() {
    let k = Kind::Reference(Box::new(Kind::Reference(Box::new(Kind::Vec))));
    assert!(matches!(k.value(), Kind::Vec));
    assert!(matches!(Kind::Copy.value(), Kind::Copy));
}

#[test]
fn bound_names_read_back_their_kind() {
    let ctx = function_context(&[("v", ty(&["Vec"])), ("s", ty(&["String"]))]);
    assert!(matches!(ctx.expr(&var("v")), Kind::Vec));
    assert!(matches!(ctx.expr(&var("s")), Kind::String));
    assert!(matches!(ctx.expr(&var("missing")), Kind::Unknown));
    assert_eq!(ctx.binding_origin(&var("s")), Some((1, 1)));
}

#[test]
fn fs_and_spawn_paths_are_recognized() {
    assert!(is_fs_result("std::fs::read_to_string"));
    assert!(!is_fs_result("std::fs::Metadata"));
    assert!(is_spawn("std::thread::spawn"));
    assert!(is_spawn("tokio::spawn"));
    assert!(!is_spawn("my::spawn_helper"));
}

#[test]
fn test_paths_are_found_by_component() {
    let markers = vec!["tests".to_string()];
    assert!(is_test_path("/tmp/x/tests/risky.rs", &markers));
    assert!(!is_test_path("/tmp/x/src/contests.rs", &markers));
    assert!(!is_test_path("/tmp/x/src/lib.rs", &markers));
}

#[test]
fn macro_tokens_mention_whole_words_only() {
    assert!(macro_tokens_mention_ident("\"{}\" , lock", "lock"));
    assert!(!macro_tokens_mention_ident("locked , unlock", "lock"));
    assert!(macro_tokens_mention_ident("lock_a . lock ()", "lock"));
}

#[test]
fn scalar_widths_cover_from_bytes_types() {
    assert_eq!(scalar_width("u16"), Some(2));
    assert_eq!(scalar_width("f32"), Some(4));
    assert_eq!(scalar_width("i64"), Some(8));
    assert_eq!(scalar_width("u128"), Some(16));
    assert_eq!(scalar_width("u8"), None);
}

#[test]
fn lazy_initializers_are_recognized() {
    assert!(is_lazy_initializer("LazyLock::new"));
    assert!(is_lazy_initializer("std::sync::OnceLock::new"));
    assert!(!is_lazy_initializer("Regex::new"));
    assert!(is_lazy_initializer_method("get_or_init"));
    assert!(!is_lazy_initializer_method("get"));
}

#[test]
fn blocking_method_confidence_depends_on_receiver() {
    assert_eq!(blocking_method_confidence(&Kind::Writer, "flush"), Some(FindingConfidence::High));
    assert_eq!(blocking_method_confidence(&Kind::Unknown, "flush"), Some(FindingConfidence::Low));
    assert_eq!(blocking_method_confidence(&Kind::SyncReceiver, "recv"), Some(FindingConfidence::High));
    assert_eq!(blocking_method_confidence(&Kind::Unknown, "len"), None);
}

#[test]
fn leaky_error_reports_each_library_field() {
    let e = EnumModel {
        public: true,
        ident: "ApiError".to_string(),
        variants: vec![
            VariantModel { ident: "Http".to_string(), line: 3, unnamed_fields: Some(vec![ty(&["reqwest", "Error"])]) },
            VariantModel { ident: "Own".to_string(), line: 4, unnamed_fields: Some(vec![ty(&["String"])]) },
            VariantModel { ident: "Unit".to_string(), line: 5, unnamed_fields: None },
        ],
    };
    let private = EnumModel {
        public: false,
        ident: "InnerError".to_string(),
        variants: vec![VariantModel { ident: "Db".to_string(), line: 9, unnamed_fields: Some(vec![ty(&["sqlx", "Error"])]) }],
    };
    let r = LeakyErrorAbstractionDetector.detect("src/error.rs", &vec![e, private]);
    assert_eq!(r.len(), 1);
    assert_eq!(r[0].code, "Q0007");
    assert_eq!(r[0].location.line_start, 3);
    assert_eq!(r[0].message, "Public enum `ApiError` contains variant `Http` wrapping `reqwest`");
}

#[test]
fn dev_only_dependencies_come_from_the_manifest() {
    let manifest = r#"
[package]
name = "demo"

[dependencies]
serde = "1"

[dev-dependencies]
pretty-assertions = "1"
serde = "1"

[target.'cfg(unix)'.dev-dependencies]
tempfile = "3"
"#;
    let mut dev = dev_dependencies(manifest);
    dev.sort();
    assert_eq!(dev, vec!["pretty_assertions".to_string(), "tempfile".to_string()]);
    assert!(dev_dependencies("not = [valid").is_empty());
}

#[test]
fn test_only_dependency_in_production_source() {
    let manifest = "[dev-dependencies]\nproptest = \"1\"\n";
    let uses = vec![
        UseItemModel {
            line: 2,
            tree: UseTree::Path { ident: "proptest".to_string(), tree: Box::new(UseTree::Glob) },
        },
        UseItemModel { line: 3, tree: UseTree::Name("std".to_string()) },
        UseItemModel {
            line: 4,
            tree: UseTree::Group(UseList::Cons(
                Box::new(UseTree::Name("proptest".to_string())),
                Box::new(UseList::Nil),
            )),
        },
    ];
    let markers = vec!["tests".to_string()];
    let d = TestOnlyDependencyInProductionDetector;
    let r = d.detect("/p/src/lib.rs", &markers, Some(manifest), true, &uses);
    assert_eq!(r.len(), 2);
    assert_eq!(r[0].confidence, FindingConfidence::Medium);
    assert_eq!(r[0].message, "A crate entry point imports dev-only dependency `proptest`");
    assert_eq!(r[1].location.line_start, 4);
    let other = d.detect("/p/src/util.rs", &markers, Some(manifest), false, &uses);
    assert_eq!(other[0].confidence, FindingConfidence::Low);
    assert!(d.detect("/p/tests/it.rs", &markers, Some(manifest), false, &uses).is_empty());
    assert!(d.detect("/p/src/lib.rs", &markers, None, true, &uses).is_empty());
}

#[test]
fn excessive_unwrap_counts_only_fallible_sites() {
    let site = |m: &str, fallible: bool, infallible: bool| UnwrapSite {
        method: m.to_string(),
        receiver: var("x"),
        infallible,
        fallible,
    };
    let f = FnUnwraps {
        ident: "risky".to_string(),
        line: 2,
        sites: vec![
            site("unwrap", true, false),
            site("expect", true, false),
            site("unwrap", false, false),
            site("unwrap", false, false),
            site("unwrap", false, true),
            site("len", false, false),
        ],
    };
    let r = ExcessiveUnwrapDetector.detect("src/lib.rs", &vec!["tests".to_string()], 3, &vec![f]);
    assert_eq!(r.len(), 1);
    assert_eq!(r[0].confidence, FindingConfidence::Low);
    assert_eq!(r[0].message, "Function `risky` has 4 unwrap/expect calls (threshold: 3)");
}

#[test]
fn else_if_ladders_do_not_nest() {
    fn leaf(alt: IfAlt) -> IfTree {
        IfTree::If { cond: IfForest::Nil, then_branch: IfForest::Nil, alt }
    }
    let ladder = leaf(IfAlt::ElseIf(Box::new(leaf(IfAlt::ElseIf(Box::new(leaf(IfAlt::Else(IfForest::Nil))))))));
    let nested = IfTree::If {
        cond: IfForest::Nil,
        then_branch: IfForest::Cons(
            Box::new(IfTree::If {
                cond: IfForest::Nil,
                then_branch: IfForest::Cons(Box::new(leaf(IfAlt::Nothing)), Box::new(IfForest::Nil)),
                alt: IfAlt::Nothing,
            }),
            Box::new(IfForest::Nil),
        ),
        alt: IfAlt::Nothing,
    };
    let fns = vec![
        FnIfs { ident: "flat".to_string(), line: 1, body: IfForest::Cons(Box::new(ladder), Box::new(IfForest::Nil)) },
        FnIfs { ident: "deep".to_string(), line: 9, body: IfForest::Cons(Box::new(nested), Box::new(IfForest::Nil)) },
    ];
    let r = DeepIfElseDetector.detect("src/lib.rs", 2, &fns);
    assert_eq!(r.len(), 1);
    assert_eq!(r[0].message, "Function `deep` has if/else nesting depth of 3 (threshold: 2)");
    assert_eq!(r[0].location.line_start, 9);
}

#[test]
fn chars_count_comparisons_with_zero_test_emptiness() {
    let ctx = function_context(&[("s", ty(&["String"]))]);
    let count = method(method(var("s"), "chars"), "count");
    let compare = |op: BinOpModel, n: u128| ExprModel::Binary {
        op,
        left: Box::new(method(method(var("s"), "chars"), "count")),
        right: Box::new(ExprModel::Lit(LitModel::Int(Some(n)))),
    };
    let d = CharsCountLengthCheckDetector;
    let empty = d.character_count_finding("a.rs", &ctx, &compare(BinOpModel::Eq, 0), 4, 4, 8).unwrap();
    assert_eq!(empty.confidence, FindingConfidence::High);
    assert_eq!(empty.location.column, Some(8));
    let bounded = d.character_count_finding("a.rs", &ctx, &compare(BinOpModel::Lt, 5), 4, 4, 8).unwrap();
    assert_eq!(bounded.confidence, FindingConfidence::Low);
    assert!(d.character_count_finding("a.rs", &ctx, &compare(BinOpModel::Ge, 0), 4, 4, 8).is_none());
    assert!(d.character_count_finding("a.rs", &ctx, &count, 4, 4, 8).is_none());
}

#[test]
fn lock_hints_require_a_live_guard() {
    let mut ctx = function_context(&[("m", ty(&["std", "sync", "Mutex"]))]);
    let call = method(var("m"), "lock");
    let mut out = Vec::new();
    DeadlockRiskDetector.observe("a.rs", &ctx, &call, 5, &mut out);
    assert!(out.is_empty());
    ctx.bind(&PatModel::Ident { name: "g".to_string(), by_ref: false, line: 4, column: 8 }, Kind::Guard);
    DeadlockRiskDetector.observe("a.rs", &ctx, &call, 5, &mut out);
    assert_eq!(out.len(), 1);
    assert_eq!(out[0].severity, Severity::Critical);
    let hint = overlapping_lock_hint("a.rs", "m", 5);
    assert_eq!(hint.message, out[0].message);
    let mut awaits = Vec::new();
    HoldingLockAcrossAwaitDetector.observe("a.rs", &ctx, &ExprModel::Await(Box::new(var("f"))), 6, &mut awaits);
    assert!(awaits.is_empty());
}

#[test]
fn std_mutex_lines_are_sorted_and_distinct() {
    let mut ctx = Context::new(&Vec::new());
    ctx.start_function(true, false, (1, 9), &Vec::new());
    ctx.bind(
        &PatModel::Typed {
            pat: Box::new(PatModel::Ident { name: "m".to_string(), by_ref: false, line: 1, column: 20 }),
            ty: ty(&["std", "sync", "Mutex"]),
        },
        Kind::Unknown,
    );
    let mut lines = Vec::new();
    let d = StdMutexInAsyncDetector;
    for line in [7, 3, 7, 5] {
        d.observe(&ctx, &var("m"), line, &mut lines);
    }
    assert_eq!(lines, vec![3, 5, 7]);
    let r = d.detect("a.rs", &lines);
    assert_eq!(r.len(), 3);
}

#[test]
fn safety_notes_need_a_reason() {
    assert!(mentions_safety("// SAFETY: the pointer is valid"));
    assert!(mentions_safety("this is safe because the buffer outlives the call"));
    assert!(mentions_safety("the value is checked above, so it is safe"));
    assert!(!mentions_safety("this is safe"));
    assert!(!mentions_safety("unsafe code follows"));
}

#[test]
fn leading_gap_skips_a_trailing_comment_of_the_previous_statement() {
    let code = "let a = 1; // about a\n// SAFETY: b is fine\nlet b = 2;\n";
    let ends = vec![(1, 3), (1, 5), (1, 7), (1, 9), (1, 10), (3, 3), (3, 5), (3, 7), (3, 9), (3, 10)];
    let notes = SourceNotes::new(code, &ends);
    assert_eq!(notes.leading(3, 0), "// SAFETY: b is fine\n");
}

#[test]
fn crate_entries_include_declared_lib_and_bin_paths() {
    assert_eq!(entry_paths(None), vec!["src/lib.rs".to_string(), "src/main.rs".to_string()]);
    let manifest = "[package]\nname = \"x\"\n[lib]\npath = \"lib/root.rs\"\n[[bin]]\nname = \"a\"\npath = \"bin/a.rs\"\n[[bin]]\nname = \"b\"\n";
    assert_eq!(
        entry_paths(Some(manifest)),
        vec!["src/lib.rs", "src/main.rs", "lib/root.rs", "bin/a.rs"]
    );
    assert_eq!(entry_paths(Some("not [ toml")), vec!["src/lib.rs", "src/main.rs"]);
}

#[test]
fn closure_notes_need_a_condition_and_the_called_name() {
    let note = "// SAFETY: the pointer is valid for `cast` here.";
    assert!(closure_call_documented(note, 1, Some("cast")));
    assert!(!closure_call_documented(note, 2, Some("cast")));
    assert!(!closure_call_documented(note, 1, Some("unrelated")));
    assert!(!closure_call_documented(note, 1, None));
    assert!(!closure_call_documented("// SAFETY: we call `cast` here.", 1, Some("cast")));
    assert!(!closure_call_documented("// the pointer is valid for cast", 1, Some("cast")));
    assert!(!closure_call_documented("// SAFETY: the pointer is valid for castle", 1, Some("cast")));
}
