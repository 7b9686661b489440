use qualirs::detectors::derivable::{DerivableImplDetector, ImplModel, StructModel};
use qualirs::detectors::concurrency::{BlockingChannelInAsyncDetector, BlockingInAsyncDetector, StdMutexInAsyncDetector};
use qualirs::detectors::implementation::{
    scalar_conversion, unwrap_sites, CharsCountLengthCheckDetector, UnwrapList, UnwrapNode, CloneOnCopyDetector, unwrap_evidence, ExcessiveUnwrapDetector, FnUnwraps, UnusedResultDetector,
    UnwrapSite, VecContainsInLoopDetector,
};
use qualirs::detectors::regex::{
    regex_candidate, regex_sites, RegexArgs, RegexCallSite, RegexList, RegexNode, RepeatedRegexConstructionDetector,
};
use qualirs::detectors::unsafe_code::{
    FfiFunction, FfiModule, FfiWithoutWrapperDetector, ForeignFn, RawPointerArithmeticDetector, TransmuteUsageDetector,
};
use qualirs::detectors::CfgModel;
use qualirs::domain::{FindingConfidence, Smell};
use qualirs::evidence::{
    ArgList, BinOpModel, TypeList, Context, ExprList, ExprModel, GenericArg, ItemModel, Kind, LitModel, PatModel, PathArgs,
    PathModel, SegList, Segment, TypeModel, UseTree,
};
use qualirs::discard_notes::{noted_discards, DiscardList, DiscardNode, DiscardStmts};
use qualirs::safety_docs::{
    closure_unsafe_calls, unsafe_call, NoteList, NoteNode, NoteSite, NoteStmt, PathCall, StmtList, UnsafeSite, UnsafeSites,
};
use qualirs::source_notes::{intentional_note, SafetyDocs};

fn path(parts: &[&str]) -> PathModel {
    let mut segments = SegList::Nil;
    for p in parts.iter().rev() {
        segments = SegList::Cons(Segment { ident: p.to_string(), args: PathArgs::Bare }, Box::new(segments));
    }
    PathModel { leading_colon: false, segments }
}

fn ty(parts: &[&str]) -> TypeModel {
    TypeModel::Path { qself: false, path: path(parts) }
}

/// `name<arg>`.
fn generic(name: &str, arg: TypeModel) -> TypeModel {
    let args = ArgList::Cons(GenericArg::Type(Box::new(arg)), Box::new(ArgList::Nil));
    let seg = Segment { ident: name.to_string(), args: PathArgs::Angle(args) };
    TypeModel::Path {
        qself: false,
        path: PathModel { leading_colon: false, segments: SegList::Cons(seg, Box::new(SegList::Nil)) },
    }
}

fn var(name: &str) -> ExprModel {
    ExprModel::Path(path(&[name]))
}

fn args(list: Vec<ExprModel>) -> ExprList {
    let mut l = ExprList::Nil;
    for e in list.into_iter().rev() {
        l = ExprList::Cons(Box::new(e), Box::new(l));
    }
    l
}

fn call(func: &[&str], a: Vec<ExprModel>) -> ExprModel {
    ExprModel::Call { func: Box::new(ExprModel::Path(path(func))), args: args(a) }
}

fn method(receiver: ExprModel, name: &str, a: Vec<ExprModel>) -> ExprModel {
    ExprModel::MethodCall { receiver: Box::new(receiver), method: name.to_string(), turbofish: None, args: args(a) }
}

fn text(s: &str) -> ExprModel {
    ExprModel::Lit(LitModel::Str(s.to_string()))
}

fn int_lit(v: u128) -> ExprModel {
    ExprModel::Lit(LitModel::Int(Some(v)))
}

fn ident(name: &str, line: usize, column: usize) -> PatModel {
    PatModel::Ident { name: name.to_string(), by_ref: false, line, column }
}

fn tuple_struct(name: &str, fields: Vec<TypeModel>) -> StructModel {
    StructModel {
        ident: name.to_string(),
        generic: false,
        has_params: false,
        derives: Vec::new(),
        cfg: false,
        field_attrs: false,
        field_count: fields.len(),
        named: None,
        field_types: fields,
    }
}

fn eq_impl(name: &str, generic: bool) -> ImplModel {
    ImplModel {
        line: 1,
        generic,
        has_params: generic,
        attrs: false,
        trait_path: Some(path(&["Eq"])),
        self_ty: ty(&[name]),
        items: Vec::new(),
    }
}

fn eq_findings(items: Vec<ItemModel>, s: StructModel, imp: ImplModel) -> Vec<Smell> {
    let ctx = Context::new(&items);
    DerivableImplDetector.detect("src/lib.rs", &ctx, &vec![s], &vec![imp])
}

fn all_have(findings: &[Smell], expected: FindingConfidence) -> bool {
    !findings.is_empty() && findings.iter().all(|f| f.confidence == expected)
}

#[test]
fn all_audited_eq_suggestions_respect_field_requirements() {
    let value = || ty(&["Value"]);
    for (name, fields) in [
        ("OrderedFloat64", vec![ty(&["f64"])]),
        ("HashableValue", vec![value()]),
        ("HeapEntry", vec![generic("Vec", value()), generic("Vec", ty(&["SortKey"]))]),
        ("Neighbor", vec![ty(&["u64"]), ty(&["f32"])]),
        ("FurthestCandidate", vec![ty(&["u64"]), ty(&["f32"])]),
    ] {
        let items = vec![ItemModel::Declared(name.to_string()), ItemModel::Other];
        assert!(eq_findings(items, tuple_struct(name, fields), eq_impl(name, false)).is_empty(), "{name}");
    }
    // type Scalar = f64; struct Key(Scalar); impl Eq for Key {}
    let items = vec![
        ItemModel::TypeAlias { ident: "Scalar".to_string(), generic: false, ty: ty(&["f64"]) },
        ItemModel::Declared("Key".to_string()),
        ItemModel::Other,
    ];
    assert!(eq_findings(items, tuple_struct("Key", vec![ty(&["Scalar"])]), eq_impl("Key", false)).is_empty());
    // struct String; struct Key(String); impl Eq for Key {}
    let items = vec![
        ItemModel::Declared("String".to_string()),
        ItemModel::Declared("Key".to_string()),
        ItemModel::Other,
    ];
    assert!(eq_findings(items, tuple_struct("Key", vec![ty(&["String"])]), eq_impl("Key", false)).is_empty());
    // struct Key<T>(T); impl<T> Eq for Key<T> {}
    let mut s = tuple_struct("Key", vec![ty(&["T"])]);
    s.generic = true;
    s.has_params = true;
    let items = vec![ItemModel::Declared("Key".to_string()), ItemModel::Other];
    assert!(eq_findings(items, s, eq_impl("Key", true)).is_empty());
    // type Id = u64; struct Key(Vec<Id>, String, [u8; 4]); impl Eq for Key {}
    let items = vec![
        ItemModel::TypeAlias { ident: "Id".to_string(), generic: false, ty: ty(&["u64"]) },
        ItemModel::Declared("Key".to_string()),
        ItemModel::Other,
    ];
    let fields = vec![generic("Vec", ty(&["Id"])), ty(&["String"]), TypeModel::Array(Box::new(ty(&["u8"])))];
    let found = eq_findings(items, tuple_struct("Key", fields), eq_impl("Key", false));
    assert!(all_have(&found, FindingConfidence::High));
}

fn regex_findings(items: Vec<ItemModel>, e: ExprModel, lazy_depth: usize) -> Vec<Smell> {
    let mut ctx = Context::new(&items);
    ctx.start_function(false, false, (1, 0), &Vec::new());
    let site = RegexCallSite { line: 1, candidate: regex_candidate(&ctx, &e), lazy_depth };
    RepeatedRegexConstructionDetector.detect("src/lib.rs", &vec![site])
}

/// `v.contains(&x)` in `for x in 0..10`, with `v` a `Vec` bound at
/// `origin`; the loop starts at (1, 20).
fn contains_in_loop(origin_in_loop: bool) -> Vec<Smell> {
    let mut ctx = Context::new(&Vec::new());
    ctx.start_function(false, false, (1, 0), &Vec::new());
    ctx.bind(&ident("v", 1, 5), Kind::Vec);
    ctx.enter_loop((1, 20));
    ctx.push_scope();
    if origin_in_loop {
        ctx.bind(&ident("v", 1, 40), Kind::Vec);
    }
    let e = method(var("v"), "contains", vec![ExprModel::Reference { mutable: false, expr: Box::new(var("x")) }]);
    let mut out = Vec::new();
    VecContainsInLoopDetector.observe("src/lib.rs", &ctx, &e, 1, &mut out);
    out
}

#[test]
fn regex_reuse_and_collection_lifetime_control_confidence() {
    // use regex::Regex as R; fn f() { R::new("abc"); }
    let renamed = ItemModel::Use {
        leading_colon: false,
        tree: UseTree::Path {
            ident: "regex".to_string(),
            tree: Box::new(UseTree::Rename { ident: "Regex".to_string(), rename: "R".to_string() }),
        },
    };
    let found = regex_findings(vec![renamed], call(&["R", "new"], vec![text("abc")]), 0);
    assert!(all_have(&found, FindingConfidence::High));
    // use regex::Regex; fn f(pattern: &str) { Regex::new(pattern); }
    let imported = || ItemModel::Use {
        leading_colon: false,
        tree: UseTree::Path { ident: "regex".to_string(), tree: Box::new(UseTree::Name("Regex".to_string())) },
    };
    let found = regex_findings(vec![imported()], call(&["Regex", "new"], vec![var("pattern")]), 0);
    assert!(all_have(&found, FindingConfidence::Low));
    // struct Regex; fn f() { Regex::new("abc"); }
    let local = vec![ItemModel::Declared("Regex".to_string())];
    assert!(regex_findings(local, call(&["Regex", "new"], vec![text("abc")]), 0).is_empty());
    // static R: LazyLock<Regex> = LazyLock::new(|| Regex::new("abc").unwrap());
    let mut ctx = Context::new(&vec![imported()]);
    ctx.enter_const();
    let inner = call(&["Regex", "new"], vec![text("abc")]);
    let construct = RegexNode::PathCall {
        path: path(&["Regex", "new"]).segments,
        line: 1,
        candidate: regex_candidate(&ctx, &inner),
        args: RegexArgs::Nil,
    };
    assert!(construct_candidate_is_high(&construct));
    let unwrap = RegexNode::MethodCall {
        method: "unwrap".to_string(),
        receiver: RegexList::Cons(Box::new(construct), Box::new(RegexList::Nil)),
        args: RegexArgs::Nil,
    };
    let closure = RegexList::Cons(Box::new(unwrap), Box::new(RegexList::Nil));
    let init = RegexNode::PathCall {
        path: path(&["LazyLock", "new"]).segments,
        line: 1,
        candidate: None,
        args: RegexArgs::Cons(true, Box::new(closure), Box::new(RegexArgs::Nil)),
    };
    let sites = regex_sites(init);
    assert_eq!(sites.len(), 1);
    assert_eq!(sites[0].lazy_depth, 1);
    assert!(RepeatedRegexConstructionDetector.detect("src/lib.rs", &sites).is_empty());

    // fn f(values: Vec<u8>) { for x in 0..10 { values.contains(&x); } }
    assert!(all_have(&contains_in_loop(false), FindingConfidence::High));
    // fn f(v: Vec<u8>) { for x in 0..10 { let v: Vec<u8> = vec![]; v.contains(&x); } }
    assert!(all_have(&contains_in_loop(true), FindingConfidence::Low));
}

fn unwrap_site(ctx: &Context, e: ExprModel, infallible_arg: bool) -> UnwrapSite {
    let (fallible, infallible) = unwrap_evidence(ctx, &e);
    match e {
        ExprModel::MethodCall { receiver, method, .. } => {
            UnwrapSite { method, receiver: *receiver, infallible: infallible || infallible_arg, fallible }
        }
        _ => unreachable!(),
    }
}

fn unwrap_findings(sites: Vec<UnwrapSite>) -> Vec<Smell> {
    let f = FnUnwraps { ident: "f".to_string(), line: 1, sites };
    ExcessiveUnwrapDetector.detect("src/lib.rs", &vec!["tests".to_string()], 3, &vec![f])
}

#[test]
fn unwraps_distinguish_infallible_conversions_from_unknown_and_fallible_calls() {
    // fn f(data: &[u8]) { ... u32::from_le_bytes(data[0..4].try_into().unwrap()); ... }
    let mut ctx = Context::new(&Vec::new());
    ctx.start_function(false, false, (1, 0), &Vec::new());
    ctx.bind(&ident("data", 1, 5), Kind::Unknown);
    let types = vec![((1usize, 5usize), TypeModel::Reference(Box::new(TypeModel::Slice(Box::new(ty(&["u8"]))))))];
    let mut sites = Vec::new();
    for start in [0u128, 4, 8, 12] {
        let slice = || ExprModel::Index {
            expr: Box::new(var("data")),
            index: Box::new(ExprModel::Range {
                half_open: true,
                start: Some(Box::new(int_lit(start))),
                end: Some(Box::new(int_lit(start + 4))),
            }),
        };
        let unwrap = || method(method(slice(), "try_into", vec![]), "unwrap", vec![]);
        let conversion = call(&["u32", "from_le_bytes"], vec![unwrap()]);
        let exact = scalar_conversion(&ctx, &types, &conversion);
        sites.push(unwrap_site(&ctx, unwrap(), exact));
    }
    assert!(unwrap_findings(sites).is_empty());

    // use std::ffi::CString as C; C::new("nodes").expect("literal"); C::new("edges").unwrap(); ...
    let cstring = ItemModel::Use {
        leading_colon: false,
        tree: UseTree::Path {
            ident: "std".to_string(),
            tree: Box::new(UseTree::Path {
                ident: "ffi".to_string(),
                tree: Box::new(UseTree::Rename { ident: "CString".to_string(), rename: "C".to_string() }),
            }),
        },
    };
    let mut ctx = Context::new(&vec![cstring]);
    ctx.start_function(false, false, (1, 0), &Vec::new());
    let mut sites = vec![unwrap_site(&ctx, method(call(&["C", "new"], vec![text("nodes")]), "expect", vec![text("literal")]), false)];
    for name in ["edges", "value", "count"] {
        sites.push(unwrap_site(&ctx, method(call(&["C", "new"], vec![text(name)]), "unwrap", vec![]), false));
    }
    assert!(unwrap_findings(sites).is_empty());

    // fn f() { let future = async { a.unwrap(); ... }; }: the deferred body's
    // unwraps are not the function's sites.
    let mut ctx = Context::new(&Vec::new());
    ctx.start_function(false, false, (1, 0), &Vec::new());
    let mut calls = UnwrapList::Nil;
    for n in ["a", "b", "c", "d"] {
        let site = unwrap_site(&ctx, method(var(n), "unwrap", vec![]), false);
        calls = UnwrapList::Cons(Box::new(UnwrapNode::Call(site, UnwrapList::Nil)), Box::new(calls));
    }
    let body = UnwrapNode::Plain(UnwrapList::Cons(Box::new(UnwrapNode::Deferred(calls)), Box::new(UnwrapList::Nil)));
    let sites = unwrap_sites(body);
    assert!(sites.is_empty());
    assert!(unwrap_findings(sites).is_empty());

    // fn f() { a.unwrap(); b.unwrap(); c.unwrap(); d.unwrap(); }
    let mut ctx = Context::new(&Vec::new());
    ctx.start_function(false, false, (1, 0), &Vec::new());
    let sites = ["a", "b", "c", "d"].iter().map(|n| unwrap_site(&ctx, method(var(n), "unwrap", vec![]), false)).collect();
    assert!(all_have(&unwrap_findings(sites), FindingConfidence::Low));

    // fn f() { std::fs::read("a").unwrap(); ... }
    let sites = ["a", "b", "c", "d"]
        .iter()
        .map(|n| unwrap_site(&ctx, method(call(&["std", "fs", "read"], vec![text(n)]), "unwrap", vec![]), false))
        .collect();
    assert!(all_have(&unwrap_findings(sites), FindingConfidence::High));
}

fn discard(note: &str) -> Vec<Smell> {
    let mut ctx = Context::new(&Vec::new());
    ctx.start_function(false, false, (1, 0), &Vec::new());
    let e = call(&["std", "fs", "write"], vec![text("output"), text("x")]);
    let mut out = Vec::new();
    UnusedResultDetector.observe("src/lib.rs", &vec!["tests".to_string()], &ctx, &e, None, intentional_note(note), 1, &mut out);
    out
}

#[test]
fn intentional_results_remain_visible_without_claiming_unhandled_application_errors() {
    // fn f() {\n// Best-effort cleanup; non-fatal.\nlet _ = std::fs::remove_file("stale");\n}
    assert!(all_have(&discard("\n// Best-effort cleanup; non-fatal.\n"), FindingConfidence::Low));
    // /// Swallows errors on a closed pipe.\nfn print() { let _ = std::fs::write("output", b"x"); }
    assert!(all_have(&discard(" Swallows errors on a closed pipe."), FindingConfidence::Low));
    // fn f() { let message = "best-effort"; let _ = ...; }: the literal is no note.
    assert!(all_have(&discard(" "), FindingConfidence::High));
    // An async body or a destructor starts without a note.
    assert!(all_have(&discard(""), FindingConfidence::High));
}

#[test]
fn cleanup_loop_notes_are_scoped_and_keep_errors_exploratory() {
    let note = "\n        // This is best-effort cleanup, so ignore any errors.\n        ";
    let findings: Vec<FindingConfidence> = [note, note, "\n        "]
        .iter()
        .flat_map(|n| discard(n))
        .map(|f| f.confidence)
        .collect();
    assert_eq!(findings, vec![FindingConfidence::Low, FindingConfidence::Low, FindingConfidence::High]);
    assert!(intentional_note("\n// Best-effort cleanup\n"));
}

fn ffi_fn(cfgs: Vec<CfgModel>, unsafe_fn: bool, calls: &[&str], nested: Vec<FfiFunction>) -> FfiFunction {
    FfiFunction { cfgs, unsafe_fn, calls: calls.iter().map(|c| c.to_string()).collect(), nested }
}

fn safe_fn(calls: &[&str]) -> FfiFunction {
    ffi_fn(vec![], false, calls, vec![])
}

fn ffi_module(decls: &[(&str, usize)], functions: Vec<FfiFunction>) -> FfiModule {
    FfiModule {
        cfgs: vec![],
        decls: decls.iter().map(|(n, l)| ForeignFn { name: n.to_string(), line: *l }).collect(),
        functions,
        children: vec![],
    }
}

#[test]
fn ffi_wrapper_evidence_comes_from_calls_in_safe_functions_and_methods() {
    let lines = |m: FfiModule| -> Vec<usize> {
        FfiWithoutWrapperDetector.ffi_findings("src/lib.rs", &m).iter().map(|f| f.location.line_start).collect()
    };
    // fn safe_operation() { execute(|| unsafe { free_library(); }); }: a call in a
    // closure of a safe function is wrapper evidence.
    assert!(lines(ffi_module(&[("free_library", 1)], vec![safe_fn(&["execute", "free_library"])])).is_empty());
    // unsafe fn wrapper() { raw(); }
    assert_eq!(lines(ffi_module(&[("raw", 1)], vec![ffi_fn(vec![], true, &["raw"], vec![])])), vec![1]);
    // fn wrapper(raw: fn()) { raw(); }: the call resolves to the binding.
    assert_eq!(lines(ffi_module(&[("raw", 1)], vec![safe_fn(&["<binding>"])])), vec![1]);
    // mod inner { fn wrapper() { raw(); } }: the child module's functions do not count.
    let mut m = ffi_module(&[("raw", 1)], vec![]);
    m.children.push(ffi_module(&[], vec![safe_fn(&["raw"])]));
    assert_eq!(lines(m), vec![1]);
    // fn wrapper() { unsafe fn nested() { raw(); } }: an unsafe nested function is no safe caller.
    let outer = ffi_fn(vec![], false, &[], vec![ffi_fn(vec![], true, &["raw"], vec![])]);
    assert_eq!(lines(ffi_module(&[("raw", 1)], vec![outer])), vec![1]);
    // #[cfg(test)] fn wrapper() { raw(); }
    assert_eq!(lines(ffi_module(&[("raw", 1)], vec![ffi_fn(vec![CfgModel::Test], false, &["raw"], vec![])])), vec![1]);
    // fn safe() { fn helper() { raw(); } }: a safe nested function is.
    let outer = ffi_fn(vec![], false, &[], vec![safe_fn(&["raw"])]);
    assert!(lines(ffi_module(&[("raw", 1)], vec![outer])).is_empty());
}

#[test]
fn ffi_findings_follow_the_module_tree_and_skip_test_modules() {
    let module = |cfgs: Vec<CfgModel>, decls: &[(&str, usize)], wrapped: &[&str], children: Vec<FfiModule>| FfiModule {
        cfgs,
        decls: decls.iter().map(|(n, l)| ForeignFn { name: n.to_string(), line: *l }).collect(),
        functions: vec![safe_fn(wrapped)],
        children,
    };
    let root = module(
        vec![],
        &[("raw", 1), ("wrapped", 2)],
        &["wrapped"],
        vec![
            module(vec![], &[("inner", 4)], &[], vec![]),
            module(vec![CfgModel::Test], &[("fixture", 6)], &[], vec![]),
            module(vec![], &[("covered", 8)], &["covered"], vec![]),
        ],
    );
    let found = FfiWithoutWrapperDetector.ffi_findings("src/lib.rs", &root);
    let lines: Vec<usize> = found.iter().map(|f| f.location.line_start).collect();
    assert_eq!(lines, vec![4, 1]);
    assert!(found.iter().all(|f| f.confidence == FindingConfidence::Low));
}

#[test]
fn inspecting_a_module_appends_its_findings_after_those_held() {
    let mut findings = FfiWithoutWrapperDetector.ffi_findings("src/a.rs", &ffi_module(&[("first", 3)], vec![]));
    assert_eq!(findings.len(), 1);
    FfiWithoutWrapperDetector.inspect_module("src/b.rs", &ffi_module(&[("raw", 1), ("wrapped", 2)], vec![safe_fn(&["wrapped"])]), &mut findings);
    let places: Vec<(String, usize)> = findings.iter().map(|f| (f.location.file.clone(), f.location.line_start)).collect();
    assert_eq!(places, vec![("src/a.rs".to_string(), 3), ("src/b.rs".to_string(), 1)]);
    FfiWithoutWrapperDetector.inspect_module("src/c.rs", &ffi_module(&[], vec![]), &mut findings);
    assert_eq!(findings.len(), 2);
}

/// `fn f(p: *const u8) {` `<note>` `let x = unsafe { *p };` `}`, as the
/// syntax nodes that explanations attach to.
fn unsafe_let_file() -> NoteNode {
    let site = |line: usize, column: usize| NoteSite { at: (line, column), docs: Vec::new(), attr_ends: Vec::new() };
    let unsafe_block = NoteNode::Unsafe { site: site(3, 8), at: (3, 8), parts: NoteList::Nil };
    let local = NoteNode::Local {
        site: site(3, 0),
        parts: NoteList::Cons(Box::new(unsafe_block), Box::new(NoteList::Nil)),
    };
    let stmt = NoteStmt {
        at: (3, 0),
        unsafe_sites: UnsafeSites::Cons(
            Box::new(UnsafeSite::Block { at: (3, 8), call: None }),
            Box::new(UnsafeSites::Nil),
        ),
        local_init: Some((Some(ExprModel::Other), false)),
        node: NoteNode::Plain(NoteList::Cons(Box::new(local), Box::new(NoteList::Nil))),
    };
    let block = NoteNode::Block(StmtList::Cons(Box::new(stmt), Box::new(StmtList::Nil)));
    let function = NoteNode::Function {
        site: site(1, 0),
        unsafe_fn: None,
        preamble: vec![((3, 0), false)],
        parts: NoteList::Cons(Box::new(block), Box::new(NoteList::Nil)),
    };
    let item = NoteNode::Item {
        impl_site: None,
        marker: None,
        unsafe_impl: None,
        parts: NoteList::Cons(Box::new(function), Box::new(NoteList::Nil)),
    };
    NoteNode::Plain(NoteList::Cons(Box::new(item), Box::new(NoteList::Nil)))
}

#[test]
fn explained_unsafe_blocks_are_found_through_the_note_tree() {
    let explained = "fn f(p: *const u8) {\n// SAFETY: p is valid because the caller checked it.\nlet x = unsafe { *p };\n}";
    assert!(SafetyDocs::new(explained, &unsafe_let_file()).contains((3, 8)));
    let ordinary = "fn f(p: *const u8) {\n// ordinary comment\nlet x = unsafe { *p };\n}";
    assert!(!SafetyDocs::new(ordinary, &unsafe_let_file()).contains((3, 8)));
}

fn use_item(tree: UseTree) -> ItemModel {
    ItemModel::Use { leading_colon: false, tree }
}

fn use_path(parts: &[&str], last: UseTree) -> UseTree {
    let mut tree = last;
    for p in parts.iter().rev() {
        tree = UseTree::Path { ident: p.to_string(), tree: Box::new(tree) };
    }
    tree
}

/// `name::<u32, f32>` as the last segment of a path.
fn turbofish(parts: &[&str]) -> PathModel {
    let mut segments = SegList::Nil;
    for (i, p) in parts.iter().enumerate().rev() {
        let args = if i + 1 == parts.len() {
            PathArgs::Angle(ArgList::Cons(
                GenericArg::Type(Box::new(ty(&["u32"]))),
                Box::new(ArgList::Cons(GenericArg::Type(Box::new(ty(&["f32"]))), Box::new(ArgList::Nil))),
            ))
        } else {
            PathArgs::Bare
        };
        segments = SegList::Cons(Segment { ident: p.to_string(), args }, Box::new(segments));
    }
    PathModel { leading_colon: false, segments }
}

/// The findings for one call inside a function whose parameters are bound
/// with the kinds their types give.
fn transmutes(items: Vec<ItemModel>, params: &[(&str, TypeModel)], func: PathModel) -> Vec<Smell> {
    let mut ctx = Context::new(&items);
    ctx.start_function(false, false, (1, 0), &Vec::new());
    for (i, (name, t)) in params.iter().enumerate() {
        let k = ctx.kind(t);
        ctx.bind(&ident(name, 1, 10 + i), k);
    }
    let e = ExprModel::Call { func: Box::new(ExprModel::Path(func)), args: args(vec![var("x")]) };
    let mut out = Vec::new();
    TransmuteUsageDetector.observe("src/lib.rs", &ctx, &e, 1, &mut out);
    out
}

fn fn_item(name: &str) -> ItemModel {
    ItemModel::Fn { ident: name.to_string(), asyncness: false, type_generics: Vec::new(), output: None }
}

#[test]
fn transmute_requires_exact_resolved_api() {
    // fn transmute_label() {} fn f() { transmute_label(); }
    let items = vec![fn_item("transmute_label"), fn_item("f")];
    assert!(transmutes(items, &[], path(&["transmute_label"])).is_empty());
    // fn transmute(x: i32) -> i32 { x } fn f() { transmute(1); }
    let items = vec![fn_item("transmute"), fn_item("f")];
    assert!(transmutes(items, &[], path(&["transmute"])).is_empty());
    // mod std {} fn f() { std::mem::transmute(1); }
    let items = vec![ItemModel::Declared("std".to_string()), fn_item("f")];
    assert!(transmutes(items, &[], path(&["std", "mem", "transmute"])).is_empty());
    // use core::mem::transmute as cast; fn f(cast: fn(i32)) { cast(1); }
    let rename = || UseTree::Rename { ident: "transmute".to_string(), rename: "cast".to_string() };
    let items = vec![use_item(use_path(&["core", "mem"], rename())), fn_item("f")];
    assert!(transmutes(items, &[("cast", TypeModel::Other)], path(&["cast"])).is_empty());
    // use core::mem::{transmute as cast}; unsafe fn f(x:u32) { cast::<u32,f32>(x); }
    let group = UseTree::Group(qualirs::evidence::UseList::Cons(
        Box::new(rename()),
        Box::new(qualirs::evidence::UseList::Nil),
    ));
    let items = vec![use_item(use_path(&["core", "mem"], group)), fn_item("f")];
    let found = transmutes(items, &[("x", ty(&["u32"]))], turbofish(&["cast"]));
    assert!(all_have(&found, FindingConfidence::High));
    // mod nested { use std::mem; unsafe fn f(x:u32) { mem::transmute::<u32,f32>(x); } }
    let items = vec![use_item(use_path(&["std"], UseTree::Name("mem".to_string()))), fn_item("f")];
    let found = transmutes(items, &[("x", ty(&["u32"]))], turbofish(&["mem", "transmute"]));
    assert!(all_have(&found, FindingConfidence::High));
}

/// `receiver.method(1)` inside a function with the given parameters, after
/// binding `locals` in order.
fn pointer_steps(params: &[(&str, TypeModel)], locals: &[(&str, TypeModel)], receiver: ExprModel, m: &str) -> Vec<Smell> {
    let mut ctx = Context::new(&vec![fn_item("f")]);
    ctx.start_function(false, false, (1, 0), &Vec::new());
    for (i, (name, t)) in params.iter().enumerate() {
        let k = ctx.kind(t);
        ctx.bind(&ident(name, 1, 10 + i), k);
    }
    for (i, (name, t)) in locals.iter().enumerate() {
        let pat = PatModel::Typed { pat: Box::new(ident(name, 1, 40 + i)), ty: qualirs::evidence::type_clone(t) };
        let k = ctx.kind(t);
        ctx.finish_let(&pat, k, Some(&int_lit(1)));
    }
    let e = method(receiver, m, vec![int_lit(1)]);
    let mut out = Vec::new();
    RawPointerArithmeticDetector.observe("src/lib.rs", &ctx, &e, 1, &mut out);
    out
}

#[test]
fn raw_pointer_arithmetic_requires_pointer_type() {
    let pointer = || TypeModel::Ptr;
    // fn f(raw: usize) -> usize { raw.wrapping_add(1) }
    assert!(pointer_steps(&[("raw", ty(&["usize"]))], &[], var("raw"), "wrapping_add").is_empty());
    // fn f(ptr: *const i32) { let ptr: usize = 1; ptr.wrapping_add(1); }
    assert!(pointer_steps(&[("ptr", pointer())], &[("ptr", ty(&["usize"]))], var("ptr"), "wrapping_add").is_empty());
    // fn f(p: *const i32) { unsafe { p.add(1); } }
    assert!(all_have(&pointer_steps(&[("p", pointer())], &[], var("p"), "add"), FindingConfidence::High));
    // fn f(x: usize) { unsafe { (x as *const i32).add(1); } }
    let cast = ExprModel::Paren(Box::new(ExprModel::Cast(Box::new(var("x")), pointer())));
    assert!(all_have(&pointer_steps(&[("x", ty(&["usize"]))], &[], cast, "add"), FindingConfidence::High));
}

/// `name<a, b>`.
fn generic2(name: &str, a: TypeModel, b: TypeModel) -> TypeModel {
    let args = ArgList::Cons(
        GenericArg::Type(Box::new(a)),
        Box::new(ArgList::Cons(GenericArg::Type(Box::new(b)), Box::new(ArgList::Nil))),
    );
    let seg = Segment { ident: name.to_string(), args: PathArgs::Angle(args) };
    TypeModel::Path {
        qself: false,
        path: PathModel { leading_colon: false, segments: SegList::Cons(seg, Box::new(SegList::Nil)) },
    }
}

/// `path<arg>` with a multi-segment path.
fn generic_path(parts: &[&str], arg: TypeModel) -> TypeModel {
    let (last, front) = parts.split_last().unwrap();
    let args = PathArgs::Angle(ArgList::Cons(GenericArg::Type(Box::new(arg)), Box::new(ArgList::Nil)));
    let mut segments = SegList::Cons(Segment { ident: last.to_string(), args }, Box::new(SegList::Nil));
    for p in front.iter().rev() {
        segments = SegList::Cons(Segment { ident: p.to_string(), args: PathArgs::Bare }, Box::new(segments));
    }
    TypeModel::Path { qself: false, path: PathModel { leading_colon: false, segments } }
}

fn receives(items: Vec<ItemModel>, param: (&str, TypeModel)) -> Vec<Smell> {
    let mut ctx = Context::new(&items);
    ctx.start_function(true, false, (1, 0), &Vec::new());
    let k = ctx.kind(&param.1);
    ctx.bind(&ident(param.0, 1, 10), k);
    let mut out = Vec::new();
    BlockingChannelInAsyncDetector.observe("src/lib.rs", &ctx, &method(var(param.0), "recv", vec![]), 1, &mut out);
    out
}

#[test]
fn channel_receive_requires_synchronous_type() {
    // async fn f(mut rx: tokio::sync::mpsc::Receiver<i32>) { let pending=rx.recv(); pending.await; }
    let tokio = generic_path(&["tokio", "sync", "mpsc", "Receiver"], ty(&["i32"]));
    assert!(receives(vec![fn_item("f")], ("rx", tokio)).is_empty());
    // async fn f(custom: Custom) { custom.recv(); }
    assert!(receives(vec![fn_item("f")], ("custom", ty(&["Custom"]))).is_empty());
    // use std::sync::mpsc::Receiver as R; async fn f(rx:R<i32>) { rx.recv(); }
    let rename = UseTree::Rename { ident: "Receiver".to_string(), rename: "R".to_string() };
    let items = vec![use_item(use_path(&["std", "sync", "mpsc"], rename)), fn_item("f")];
    let found = receives(items, ("rx", generic("R", ty(&["i32"]))));
    assert!(all_have(&found, FindingConfidence::High));
}

fn typed_fn(name: &str, asyncness: bool, output: Option<TypeModel>) -> ItemModel {
    ItemModel::Fn { ident: name.to_string(), asyncness, type_generics: Vec::new(), output }
}

fn discarded(items: Vec<ItemModel>, in_async: bool, e: ExprModel) -> Vec<Smell> {
    let mut ctx = Context::new(&items);
    ctx.start_function(in_async, false, (1, 0), &Vec::new());
    let mut out = Vec::new();
    UnusedResultDetector.observe("src/lib.rs", &vec!["tests".to_string()], &ctx, &e, None, false, 1, &mut out);
    out
}

#[test]
fn handled_and_non_result_values_are_not_discarded_errors() {
    let read = || call(&["std", "fs", "read"], vec![text("x")]);
    // fn f() { let _ = std::fs::read("x").unwrap(); }
    assert!(discarded(vec![fn_item("f")], false, method(read(), "unwrap", vec![])).is_empty());
    // fn f() -> std::io::Result<()> { let _ = std::fs::read("x")?; Ok(()) }
    assert!(discarded(vec![fn_item("f")], false, ExprModel::Try(Box::new(read()))).is_empty());
    // async fn tick() {} async fn f() { let _ = tick().await; }
    let items = vec![typed_fn("tick", true, None), typed_fn("f", true, None)];
    assert!(discarded(items, true, ExprModel::Await(Box::new(call(&["tick"], vec![])))).is_empty());
    // fn try_number() -> u32 { 1 } fn f() { let _ = try_number(); }
    let items = vec![typed_fn("try_number", false, Some(ty(&["u32"]))), fn_item("f")];
    assert!(discarded(items, false, call(&["try_number"], vec![])).is_empty());
    // fn f() { let _ = std::fs::read("x"); }
    assert!(all_have(&discarded(vec![fn_item("f")], false, read()), FindingConfidence::High));
    // async fn result() -> Result<(), Error> { todo!() } async fn f() { let _=result().await; }
    let unit = || TypeModel::Tuple(TypeList::Nil);
    let result_ty = || generic2("Result", unit(), ty(&["Error"]));
    let items = vec![typed_fn("result", true, Some(result_ty())), typed_fn("f", true, None)];
    let found = discarded(items, true, ExprModel::Await(Box::new(call(&["result"], vec![]))));
    assert!(all_have(&found, FindingConfidence::High));
    // fn nested() -> Result<Result<(), Error>, Error> { todo!() } fn f() { let _=nested().unwrap(); }
    let items = vec![typed_fn("nested", false, Some(generic2("Result", result_ty(), ty(&["Error"])))), fn_item("f")];
    let found = discarded(items, false, method(call(&["nested"], vec![]), "unwrap", vec![]));
    assert!(all_have(&found, FindingConfidence::High));
}

fn counts(e: ExprModel) -> Option<Smell> {
    let mut ctx = Context::new(&vec![fn_item("f")]);
    ctx.start_function(false, false, (1, 0), &Vec::new());
    let k = ctx.kind(&TypeModel::Reference(Box::new(ty(&["str"]))));
    ctx.bind(&ident("s", 1, 5), k);
    CharsCountLengthCheckDetector.character_count_finding("src/lib.rs", &ctx, &e, 1, 1, 20)
}

#[test]
fn unicode_counting_and_arithmetic_are_preserved() {
    let count = || method(method(var("s"), "chars", vec![]), "count", vec![]);
    let binary = |op: BinOpModel, l: ExprModel, r: ExprModel| ExprModel::Binary { op, left: Box::new(l), right: Box::new(r) };
    // s.chars().count()+1, s.chars().count()*2: no comparison
    assert!(counts(binary(BinOpModel::Add, count(), int_lit(1))).is_none());
    assert!(counts(binary(BinOpModel::Other, count(), int_lit(2))).is_none());
    assert!(counts(count()).is_none());
    // s.chars().count()==2
    let found = counts(binary(BinOpModel::Eq, count(), int_lit(2))).unwrap();
    assert_eq!(found.confidence, FindingConfidence::Low);
    // s.chars().count()==0, 0<s.chars().count()
    assert_eq!(counts(binary(BinOpModel::Eq, count(), int_lit(0))).unwrap().confidence, FindingConfidence::High);
    assert_eq!(counts(binary(BinOpModel::Lt, int_lit(0), count())).unwrap().confidence, FindingConfidence::High);
}

fn clones(ctx: &Context, e: ExprModel) -> Vec<Smell> {
    let mut out = Vec::new();
    CloneOnCopyDetector.observe("src/lib.rs", ctx, &e, 1, &mut out);
    out
}

/// A function's context with its parameters bound by their types.
fn function_with(items: Vec<ItemModel>, params: &[(&str, TypeModel)]) -> Context {
    let mut ctx = Context::new(&items);
    ctx.start_function(false, false, (1, 0), &Vec::new());
    for (i, (name, t)) in params.iter().enumerate() {
        let k = ctx.kind(t);
        ctx.bind(&ident(name, 1, 10 + i), k);
    }
    ctx
}

fn typed_let(ctx: &mut Context, name: &str, t: TypeModel, column: usize) {
    let k = ctx.kind(&t);
    let pat = PatModel::Typed { pat: Box::new(ident(name, 1, column)), ty: t };
    ctx.finish_let(&pat, k, Some(&int_lit(0)));
}

fn inferred_let(ctx: &mut Context, name: &str, init: ExprModel, column: usize) {
    let k = ctx.expr(&init);
    ctx.finish_let(&ident(name, 1, column), k, Some(&init));
}

#[test]
fn copy_evidence_obeys_shadowing_and_scopes() {
    let clone_value = || method(var("value"), "clone", vec![]);
    // fn a() { let value:u32=0; } fn b(value:String) { let _=value.clone(); }
    let ctx = function_with(vec![fn_item("a"), fn_item("b")], &[("value", ty(&["String"]))]);
    assert!(clones(&ctx, clone_value()).is_empty());
    // fn a() { let value:u32=0; let value=String::new(); let _=value.clone(); }
    let mut ctx = function_with(vec![fn_item("a")], &[]);
    typed_let(&mut ctx, "value", ty(&["u32"]), 13);
    inferred_let(&mut ctx, "value", call(&["String", "new"], vec![]), 33);
    assert!(clones(&ctx, clone_value()).is_empty());
    // fn a(value:u32) { let f=|value:String| value.clone(); }
    let mut ctx = function_with(vec![fn_item("a")], &[("value", ty(&["u32"]))]);
    ctx.enter_closure(false, (1, 24));
    ctx.bind(&ident("value", 1, 25), Kind::Unknown);
    assert!(clones(&ctx, clone_value()).is_empty());
    // fn a(value:u32) { match v { Some(value) => value.clone(), None => todo!() }; }
    let mut ctx = function_with(vec![fn_item("a")], &[("value", ty(&["u32"]))]);
    ctx.push_scope();
    ctx.bind(&PatModel::Other { names: vec!["value".to_string()] }, Kind::Unknown);
    assert!(clones(&ctx, clone_value()).is_empty());
    // fn a(value:u32, obj:Obj) { obj.value.clone(); }
    let ctx = function_with(vec![fn_item("a")], &[("value", ty(&["u32"])), ("obj", ty(&["Obj"]))]);
    let field = ExprModel::Field {
        base: Box::new(var("obj")),
        member: qualirs::evidence::MemberModel::Named("value".to_string()),
    };
    assert!(clones(&ctx, method(field, "clone", vec![])).is_empty());
    // fn f(value:u32) { value.clone(); }
    let ctx = function_with(vec![fn_item("f")], &[("value", ty(&["u32"]))]);
    assert!(all_have(&clones(&ctx, clone_value()), FindingConfidence::High));
    // type Count=u32; fn f(value:Count) { value.clone(); }
    let alias = || ItemModel::TypeAlias { ident: "Count".to_string(), generic: false, ty: ty(&["u32"]) };
    let ctx = function_with(vec![alias(), fn_item("f")], &[("value", ty(&["Count"]))]);
    assert!(all_have(&clones(&ctx, clone_value()), FindingConfidence::High));
    // type Count=u32; fn f(value:Count) { struct Count; fn inner(value:Count) { value.clone(); } }
    let mut ctx = function_with(vec![alias(), fn_item("f")], &[("value", ty(&["Count"]))]);
    ctx.enter_block((1, 35), &vec![ItemModel::Declared("Count".to_string()), fn_item("inner")]);
    ctx.start_function(false, false, (1, 50), &Vec::new());
    let k = ctx.kind(&ty(&["Count"]));
    ctx.bind(&ident("value", 1, 60), k);
    assert!(clones(&ctx, clone_value()).is_empty());
    // fn f() { let value:u32=0; { let value=String::new(); value.clone(); } value.clone(); }
    let mut ctx = function_with(vec![fn_item("f")], &[]);
    typed_let(&mut ctx, "value", ty(&["u32"]), 13);
    let saved = ctx.snapshot();
    ctx.enter_block((1, 27), &Vec::new());
    inferred_let(&mut ctx, "value", call(&["String", "new"], vec![]), 33);
    let inner = clones(&ctx, clone_value());
    ctx.pop_scope();
    ctx.items = saved.items;
    ctx.origins = saved.origins;
    ctx.block = saved.block;
    let outer = clones(&ctx, clone_value());
    assert!(inner.is_empty());
    assert!(all_have(&outer, FindingConfidence::High));
}

/// The std-mutex findings for `m` and `m.lock()` in an async function whose
/// parameter `m` has the given type.
fn mutex_uses(items: Vec<ItemModel>, m: TypeModel) -> Vec<Smell> {
    let mut ctx = Context::new(&items);
    ctx.start_function(true, false, (1, 0), &Vec::new());
    let k = ctx.kind(&m);
    ctx.bind(&ident("m", 1, 10), k);
    let mut lines = Vec::new();
    StdMutexInAsyncDetector.observe(&ctx, &var("m"), 1, &mut lines);
    StdMutexInAsyncDetector.observe(&ctx, &method(var("m"), "lock", vec![]), 1, &mut lines);
    StdMutexInAsyncDetector.detect("src/lib.rs", &lines)
}

fn blocking(ctx: &Context, e: ExprModel) -> Vec<Smell> {
    let mut out = Vec::new();
    BlockingInAsyncDetector.observe("src/lib.rs", ctx, &e, 1, &mut out);
    out
}

#[test]
fn async_lock_types_and_execution_boundaries() {
    // async fn f(m: tokio::sync::Mutex<i32>) {}
    let tokio = generic_path(&["tokio", "sync", "Mutex"], ty(&["i32"]));
    assert!(mutex_uses(vec![fn_item("f")], tokio).is_empty());
    // use tokio::sync::Mutex as M; async fn f(m: M<i32>) { let g=m.lock().await; }
    let rename = |root: &str| {
        use_item(use_path(&[root, "sync"], UseTree::Rename { ident: "Mutex".to_string(), rename: "M".to_string() }))
    };
    assert!(mutex_uses(vec![rename("tokio"), fn_item("f")], generic("M", ty(&["i32"]))).is_empty());
    // use std::sync::Mutex as M; async fn f(m: M<i32>) { let g=m.lock(); }
    let found = mutex_uses(vec![rename("std"), fn_item("f")], generic("M", ty(&["i32"])));
    assert!(all_have(&found, FindingConfidence::Low));

    let read = || call(&["std", "fs", "read"], vec![text("x")]);
    let async_fn = |items: Vec<ItemModel>| {
        let mut ctx = Context::new(&items);
        ctx.start_function(true, false, (1, 0), &Vec::new());
        ctx
    };
    // async fn f() { tokio::task::spawn_blocking(|| std::fs::read("x")).await; }
    let mut ctx = async_fn(vec![fn_item("f")]);
    let closure = ExprModel::Other;
    assert!(blocking(&ctx, call(&["tokio", "task", "spawn_blocking"], vec![closure])).is_empty());
    ctx.enter_closure(false, (1, 40));
    assert!(blocking(&ctx, read()).is_empty());
    // async fn f() { let worker = || std::thread::sleep(duration()); }
    let mut ctx = async_fn(vec![fn_item("f")]);
    ctx.enter_closure(false, (1, 28));
    assert!(blocking(&ctx, call(&["std", "thread", "sleep"], vec![call(&["duration"], vec![])])).is_empty());
    // async fn f() { fn worker() { std::fs::read("x"); } }
    let mut ctx = async_fn(vec![fn_item("f")]);
    ctx.enter_block((1, 15), &vec![fn_item("worker")]);
    ctx.start_function(false, false, (1, 20), &Vec::new());
    assert!(blocking(&ctx, read()).is_empty());
    // async fn f() { let handle = std::thread::spawn(|| {}); let out = std::io::stdout(); }
    let ctx = async_fn(vec![fn_item("f")]);
    assert!(blocking(&ctx, call(&["std", "thread", "spawn"], vec![ExprModel::Other])).is_empty());
    assert!(blocking(&ctx, call(&["std", "io", "stdout"], vec![])).is_empty());
    // use std::fs::read as read_file; async fn f() { read_file("x"); }
    let alias = use_item(use_path(&["std", "fs"], UseTree::Rename { ident: "read".to_string(), rename: "read_file".to_string() }));
    let ctx = async_fn(vec![alias, fn_item("f")]);
    assert!(all_have(&blocking(&ctx, call(&["read_file"], vec![text("x")])), FindingConfidence::High));
    // struct S; impl S { async fn f(&self) { std::fs::read("x"); } }
    let ctx = async_fn(vec![ItemModel::Declared("S".to_string()), ItemModel::Other]);
    assert!(all_have(&blocking(&ctx, read()), FindingConfidence::High));
    // fn f() { let task = async { std::fs::read("x"); }; }
    let mut ctx = Context::new(&vec![fn_item("f")]);
    ctx.start_function(false, false, (1, 0), &Vec::new());
    ctx.enter_async_block((1, 20));
    assert!(all_have(&blocking(&ctx, read()), FindingConfidence::High));
}

#[test]
fn discarded_results_in_test_files_are_not_reported() {
    let mut ctx = Context::new(&vec![fn_item("f")]);
    ctx.start_function(false, false, (1, 0), &Vec::new());
    let e = call(&["std", "fs", "read"], vec![text("x")]);
    let markers = vec!["tests".to_string()];
    let mut out = Vec::new();
    UnusedResultDetector.observe("tests/io.rs", &markers, &ctx, &e, None, false, 1, &mut out);
    assert!(out.is_empty());
    UnusedResultDetector.observe("src/io.rs", &markers, &ctx, &e, None, false, 1, &mut out);
    assert_eq!(out.len(), 1);
}

fn d_list(nodes: Vec<DiscardNode>) -> DiscardList {
    let mut l = DiscardList::Nil;
    for n in nodes.into_iter().rev() {
        l = DiscardList::Cons(Box::new(n), Box::new(l));
    }
    l
}

fn d_block(stmts: Vec<((usize, usize), DiscardNode)>) -> DiscardNode {
    let mut l = DiscardStmts::Nil;
    for (at, n) in stmts.into_iter().rev() {
        l = DiscardStmts::Cons(at, Box::new(n), Box::new(l));
    }
    DiscardNode::Block(l)
}

fn d_discard(id: usize) -> DiscardNode {
    DiscardNode::Plain(d_list(vec![DiscardNode::Discard { id, parts: DiscardList::Nil }]))
}

fn d_function(docs: &[&str], body: DiscardNode) -> DiscardNode {
    DiscardNode::Plain(d_list(vec![DiscardNode::Function {
        docs: docs.iter().map(|d| d.to_string()).collect(),
        parts: d_list(vec![body]),
    }]))
}

#[test]
fn loop_notes_cover_only_the_loop_and_deferred_bodies_start_without_one() {
    let code = "fn clean(paths: Vec<&str>) {\n// This is best-effort cleanup, so ignore any errors.\nfor path in paths {\nif is_dir(path) { let _ = std::fs::remove_dir_all(path); }\nelse { let _ = std::fs::remove_file(path); }\n}\nlet _ = std::fs::write(\"state\", b\"data\");\n}";
    let branches = DiscardNode::Plain(d_list(vec![d_block(vec![((4, 18), d_discard(0))]), d_block(vec![((5, 7), d_discard(1))])]));
    let lp = DiscardNode::Plain(d_list(vec![d_block(vec![((4, 0), branches)])]));
    let file = d_function(&[], d_block(vec![((3, 0), lp), ((7, 0), d_discard(2))]));
    assert_eq!(noted_discards(code, &file), vec![0, 1]);

    let code = "/// Swallows errors on a closed pipe.\nfn print() { let _ = std::fs::write(\"output\", b\"x\"); }";
    let file = d_function(&[" Swallows errors on a closed pipe."], d_block(vec![((2, 13), d_discard(0))]));
    assert_eq!(noted_discards(code, &file), vec![0]);

    let code = "/// Best-effort outer operation.\nfn f() { let later = async { let _ = std::fs::write(\"output\", b\"x\"); }; }";
    let deferred = DiscardNode::Deferred(d_list(vec![d_block(vec![((2, 29), d_discard(0))])]));
    let file = d_function(&[" Best-effort outer operation."], d_block(vec![((2, 9), DiscardNode::Plain(d_list(vec![deferred])))]));
    assert!(noted_discards(code, &file).is_empty());
}

fn construct_candidate_is_high(n: &RegexNode) -> bool {
    matches!(n, RegexNode::PathCall { candidate: Some((_, FindingConfidence::High)), .. })
}

fn sites(items: Vec<UnsafeSite>) -> UnsafeSites {
    items.into_iter().rev().fold(UnsafeSites::Nil, |rest, s| UnsafeSites::Cons(Box::new(s), Box::new(rest)))
}

fn path_call(path: &str, first_arg: Option<&str>) -> PathCall {
    let segments: Vec<&str> = path.split(" :: ").collect();
    PathCall {
        segments: segments.len(),
        last: segments.last().unwrap().to_string(),
        path: path.to_string(),
        first_arg: first_arg.map(|a| a.to_string()),
    }
}

#[test]
fn one_qualified_unsafe_call_is_named_by_path_and_first_argument() {
    // `let x = unsafe { ffi :: read(ctx, 1) };`
    let one = sites(vec![UnsafeSite::Block { at: (1, 8), call: Some(path_call("ffi :: read", Some("ctx"))) }]);
    assert_eq!(unsafe_call(&one), Some("ffi :: read:ctx".to_string()));
    // An unqualified callee, or a call without arguments, names nothing.
    let plain = sites(vec![UnsafeSite::Block { at: (1, 8), call: Some(path_call("read", Some("ctx"))) }]);
    assert_eq!(unsafe_call(&plain), None);
    let bare = sites(vec![UnsafeSite::Block { at: (1, 8), call: Some(path_call("ffi :: init", None)) }]);
    assert_eq!(unsafe_call(&bare), None);
    // Two such blocks name nothing; one inside a closure does not count.
    let two = sites(vec![
        UnsafeSite::Block { at: (1, 8), call: Some(path_call("ffi :: read", Some("ctx"))) },
        UnsafeSite::Block { at: (1, 40), call: Some(path_call("ffi :: read", Some("ctx"))) },
    ]);
    assert_eq!(unsafe_call(&two), None);
    let closure = sites(vec![
        UnsafeSite::Block { at: (1, 8), call: Some(path_call("ffi :: read", Some("ctx"))) },
        UnsafeSite::Closure {
            is_async: false,
            body: sites(vec![UnsafeSite::Block { at: (1, 50), call: Some(path_call("ffi :: free", Some("p"))) }]),
        },
    ]);
    assert_eq!(unsafe_call(&closure), Some("ffi :: read:ctx".to_string()));
}

#[test]
fn unsafe_blocks_in_closures_are_counted_and_the_last_call_named() {
    // `v.iter().map(|p| unsafe { cast(p) })`
    let closure = sites(vec![UnsafeSite::Closure {
        is_async: false,
        body: sites(vec![UnsafeSite::Block { at: (2, 20), call: Some(path_call("cast", Some("p"))) }]),
    }]);
    let found = closure_unsafe_calls(&closure);
    assert_eq!(found.unsafe_blocks, 1);
    assert_eq!(found.call, Some(("cast".to_string(), (2, 20))));
    // Async closures, closures in closures, async blocks and items are not looked into.
    let hidden = sites(vec![
        UnsafeSite::Closure {
            is_async: true,
            body: sites(vec![UnsafeSite::Block { at: (2, 20), call: Some(path_call("cast", Some("p"))) }]),
        },
        UnsafeSite::Closure {
            is_async: false,
            body: sites(vec![UnsafeSite::Closure {
                is_async: false,
                body: sites(vec![UnsafeSite::Block { at: (3, 20), call: Some(path_call("cast", Some("p"))) }]),
            }]),
        },
        UnsafeSite::Skipped,
    ]);
    let found = closure_unsafe_calls(&hidden);
    assert_eq!(found.unsafe_blocks, 0);
    assert_eq!(found.call, None);
    // Blocks outside closures count but name nothing.
    let outside = sites(vec![
        UnsafeSite::Block { at: (1, 8), call: Some(path_call("ffi :: read", Some("ctx"))) },
        UnsafeSite::Closure {
            is_async: false,
            body: sites(vec![
                UnsafeSite::Block { at: (2, 4), call: Some(path_call("first", Some("p"))) },
                UnsafeSite::Block { at: (2, 30), call: Some(path_call("second", Some("p"))) },
            ]),
        },
    ]);
    let found = closure_unsafe_calls(&outside);
    assert_eq!(found.unsafe_blocks, 3);
    assert_eq!(found.call, Some(("second".to_string(), (2, 30))));
}
