use qualirs::detectors::unsafe_code::{UnsafeImplModel, UnsafeImplSafetyDocsDetector};
use qualirs::domain::{FindingConfidence, Smell};
use qualirs::evidence::{Context, ItemModel, PathArgs, PathModel, SegList, Segment};
use qualirs::safety_docs::{NoteList, NoteNode, NoteSite};
use qualirs::source_notes::SafetyDocs;

fn path(parts: &[&str]) -> PathModel {
    let mut segments = SegList::Nil;
    for p in parts.iter().rev() {
        segments = SegList::Cons(Segment { ident: p.to_string(), args: PathArgs::Bare }, Box::new(segments));
    }
    PathModel { leading_colon: false, segments }
}

fn list(nodes: Vec<NoteNode>) -> NoteList {
    nodes.into_iter().rev().fold(NoteList::Nil, |rest, n| NoteList::Cons(Box::new(n), Box::new(rest)))
}

/// `struct <name>;` on line 1 and, on `impl_line`, `unsafe impl <trait_name>
/// for <name> {}`, preceded by `#[allow(unsafe_code)]` at the start of
/// `attr_line` when there is one: the findings on the impl's safety docs.
fn impl_docs(code: &str, name: &str, trait_name: &str, attr_line: Option<usize>, impl_line: usize) -> Vec<Smell> {
    impl_docs_between(code, name, trait_name, attr_line, impl_line, Vec::new())
}

/// As `impl_docs`, with other items between the struct and the impl.
fn impl_docs_between(
    code: &str,
    name: &str,
    trait_name: &str,
    attr_line: Option<usize>,
    impl_line: usize,
    between: Vec<NoteNode>,
) -> Vec<Smell> {
    let record = NoteNode::Item { impl_site: None, marker: None, unsafe_impl: None, parts: NoteList::Nil };
    let site = NoteSite {
        at: (attr_line.unwrap_or(impl_line), 0),
        docs: Vec::new(),
        attr_ends: attr_line.map(|l| vec![(l, 21)]).unwrap_or_default(),
    };
    let imp = NoteNode::Item {
        impl_site: Some(site),
        marker: Some(name.to_string()),
        unsafe_impl: Some((impl_line, 0)),
        parts: NoteList::Nil,
    };
    let mut items = vec![record];
    items.extend(between);
    items.push(imp);
    let docs = SafetyDocs::new(code, &NoteNode::Plain(list(items)));
    let ctx = Context::new(&vec![ItemModel::Declared(name.to_string()), ItemModel::Other]);
    let impls = vec![UnsafeImplModel { line: impl_line, unsafe_at: (impl_line, 0), trait_path: Some(path(&[trait_name])) }];
    UnsafeImplSafetyDocsDetector.detect("src/lib.rs", &ctx, &impls, &docs.found)
}

#[test]
fn diesel_send_sync_explanations_do_not_require_a_safety_label() {
    // Seven audited impls: MysqlLikeConnection, mysql Statement, PgConnection,
    // ConnectionManager, SqliteConnection, OwnedSqliteValue, sqlite Statement.
    let invariant = "// This relies on the invariant that RawConnection or Statement are never\n// leaked. If a reference to one of those was held on a different thread, this\n// would not be thread safe.\n#[allow(unsafe_code)]";
    for (name, note, trait_name) in [
        (
            "MysqlLikeConnection",
            "// mysql connection can be shared between threads according to libmysqlclients documentation\n#[allow(unsafe_code)]",
            "Send",
        ),
        (
            "MysqlStatement",
            "// mysql connection can be shared between threads according to libmysqlclients documentation\n#[allow(unsafe_code)]",
            "Send",
        ),
        (
            "PgConnection",
            "// according to libpq documentation a connection can be transferred to other threads\n#[allow(unsafe_code)]",
            "Send",
        ),
        ("ConnectionManager", "#[allow(unsafe_code)] // we do not actually hold a reference to T", "Sync"),
        ("SqliteConnection", invariant, "Send"),
        (
            "OwnedSqliteValue",
            "// Unsafe Send impl safe since sqlite3_value is built with sqlite3_value_dup\n// see https://www.sqlite.org/c3ref/value.html",
            "Send",
        ),
        ("SqliteStatement", invariant, "Send"),
    ] {
        let code = format!("struct {name};\n{note}\nunsafe impl {trait_name} for {name} {{}}");
        let note_lines = note.lines().count();
        let impl_line = 2 + note_lines;
        // The attribute starts the last note line, when there is one.
        let attr_line = note
            .lines()
            .enumerate()
            .find(|(_, l)| l.starts_with("#[allow(unsafe_code)]"))
            .map(|(i, _)| 2 + i);
        assert!(impl_docs(&code, name, trait_name, attr_line, impl_line).is_empty(), "{code}");
    }
}

#[test]
fn natural_explanations_stay_attached_to_their_syntax() {
    // struct A;\n// TODO: review thread handling.\nunsafe impl Send for A {}
    let code = "struct A;\n// TODO: review thread handling.\nunsafe impl Send for A {}";
    let found = impl_docs(code, "A", "Send", None, 3);
    assert_eq!(found.len(), 1);
    assert_eq!(found[0].confidence, FindingConfidence::High);
    assert_eq!(found[0].location.line_start, 3);
    // struct A;\n#[allow(unsafe_code)] // use of unsafe\nunsafe impl Send for A {}
    let code = "struct A;\n#[allow(unsafe_code)] // use of unsafe\nunsafe impl Send for A {}";
    assert_eq!(impl_docs(code, "A", "Send", Some(2), 3).len(), 1);
}

fn plain_item() -> NoteNode {
    NoteNode::Item { impl_site: None, marker: None, unsafe_impl: None, parts: NoteList::Nil }
}

#[test]
fn unrelated_or_missing_rationales_still_report_marker_impls() {
    for note in [
        "",
        "// This is safe.",
        "// This is unsafe because access is not synchronized.",
        "// Safe here since",
        "// So this is safe",
        "// We construct a safe wrapper.",
        "const TEXT: &str = \"Wasm has no threads, so this is safe\";",
        "// Wasm has no threads, so this is safe\nfn unrelated() {}",
    ] {
        let source = format!("struct Provider;\n{note}\nunsafe impl Sync for Provider {{}}");
        let impl_line = source.lines().count();
        let between = if note.starts_with("const") {
            vec![plain_item()]
        } else if note.contains("fn unrelated") {
            let function = NoteNode::Function {
                site: NoteSite { at: (3, 0), docs: Vec::new(), attr_ends: Vec::new() },
                unsafe_fn: None,
                preamble: Vec::new(),
                parts: list(vec![NoteNode::Block(qualirs::safety_docs::StmtList::Nil)]),
            };
            vec![NoteNode::Item { impl_site: None, marker: None, unsafe_impl: None, parts: list(vec![function]) }]
        } else {
            Vec::new()
        };
        assert_eq!(impl_docs_between(&source, "Provider", "Sync", None, impl_line, between).len(), 1, "{source}");
    }
}

/// Structs declared first, then each `unsafe impl <trait> for <name> {}` on
/// its own line with no attribute: the findings on the impls' safety docs.
fn marker_impls(code: &str, structs: &[&str], impls: &[(&str, &str, usize)]) -> Vec<Smell> {
    let placed: Vec<MarkerImpl> = impls.iter().map(|(n, t, l)| (*n, *t, (*l, 0), None)).collect();
    placed_marker_impls(code, structs, &placed)
}

/// A marker impl: its type, trait, where its `unsafe` keyword is, and the
/// line of an `#[allow(unsafe_code)]` attribute at a line start before it.
type MarkerImpl<'a> = (&'a str, &'a str, (usize, usize), Option<usize>);

fn placed_marker_impls(code: &str, structs: &[&str], impls: &[MarkerImpl]) -> Vec<Smell> {
    let mut items: Vec<NoteNode> = structs.iter().map(|_| plain_item()).collect();
    for (name, _, at, attr) in impls {
        let site = NoteSite {
            at: attr.map(|l| (l, 0)).unwrap_or(*at),
            docs: Vec::new(),
            attr_ends: attr.map(|l| vec![(l, 21)]).unwrap_or_default(),
        };
        items.push(NoteNode::Item {
            impl_site: Some(site),
            marker: Some(name.to_string()),
            unsafe_impl: Some(*at),
            parts: NoteList::Nil,
        });
    }
    let docs = SafetyDocs::new(code, &NoteNode::Plain(list(items)));
    let mut declared: Vec<ItemModel> = structs.iter().map(|s| ItemModel::Declared(s.to_string())).collect();
    declared.extend(impls.iter().map(|_| ItemModel::Other));
    let ctx = Context::new(&declared);
    let models: Vec<UnsafeImplModel> = impls
        .iter()
        .map(|(_, t, at, _)| UnsafeImplModel { line: at.0, unsafe_at: *at, trait_path: Some(path(&[t])) })
        .collect();
    UnsafeImplSafetyDocsDetector.detect("src/lib.rs", &ctx, &models, &docs.found)
}

#[test]
fn wasm_threading_rationales_document_marker_impls() {
    for note in [
        "// Wasm does not support threads, so this is safe; qed.",
        "// This is safe here since we are single-threaded in WASM",
        "// NOTE: Safe only in wasm (guarded above) because there's only one thread.",
        "// The lock serializes all access; therefore sharing is safe.",
    ] {
        let source = format!(
            "struct Provider;\n{note}\nunsafe impl Send for Provider {{}}\nunsafe impl Sync for Provider {{}}"
        );
        let impls = [("Provider", "Send", 3), ("Provider", "Sync", 4)];
        assert!(marker_impls(&source, &["Provider"], &impls).is_empty(), "{source}");
    }
}

#[test]
fn safety_rationales_do_not_leak_into_other_types_or_execution_contexts() {
    let source = "struct A; struct B;\n// This is safe here since the runtime is single-threaded.\nunsafe impl Send for A {}\nunsafe impl Sync for B {}";
    let found = marker_impls(source, &["A", "B"], &[("A", "Send", 3), ("B", "Sync", 4)]);
    assert_eq!(found.len(), 1);
    assert_eq!(found[0].location.line_start, 4);
}

#[test]
fn function_body_preconditions_and_adjacent_marker_impls_are_documented() {
    let source = "struct Chunk;\n// SAFETY: contains no shared mutable state.\nunsafe impl Send for Chunk {}\nunsafe impl Sync for Chunk {}\n";
    assert!(marker_impls(source, &["Chunk"], &[("Chunk", "Send", 3), ("Chunk", "Sync", 4)]).is_empty());
    let source = "struct Model;\n// SAFETY: synchronization protects state.\n// All access respects this invariant.\n// More detail here.\n#[allow(unsafe_code)]\nunsafe impl Send for Model {}\n#[allow(unsafe_code)]\nunsafe impl Sync for Model {}";
    let impls = [("Model", "Send", (6, 0), Some(5)), ("Model", "Sync", (8, 0), Some(7))];
    assert!(placed_marker_impls(source, &["Model"], &impls).is_empty());
    let found = placed_marker_impls(
        "struct Raw(*mut u8); unsafe impl Send for Raw {}",
        &["Raw"],
        &[("Raw", "Send", (1, 21), None)],
    );
    assert!(!found.is_empty() && found.iter().all(|f| f.confidence == FindingConfidence::High));
}

#[test]
fn safety_notes_do_not_leak_into_unrelated_code_or_execution_contexts() {
    let source = "struct A; struct B;\n// SAFETY: A is thread safe.\nunsafe impl Send for A {}\nunsafe impl Sync for B {}";
    assert_eq!(marker_impls(source, &["A", "B"], &[("A", "Send", 3), ("B", "Sync", 4)]).len(), 1);
}
