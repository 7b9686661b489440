use qualirs::detectors::implementation::{
    ArmModel, ArmPat, KindList, KindTree, ManualOptionResultMappingDetector, NodeKind,
};
use qualirs::domain::{FindingConfidence, Smell};
use qualirs::evidence::{
    BinOpModel, Context, ExprList, ExprModel, ItemModel, LitModel, PathArgs, PathModel, SegList, Segment, UseList,
    UseTree,
};

fn path(parts: &[&str]) -> PathModel {
    let mut segments = SegList::Nil;
    for p in parts.iter().rev() {
        segments = SegList::Cons(Segment { ident: p.to_string(), args: PathArgs::Bare }, Box::new(segments));
    }
    PathModel { leading_colon: false, segments }
}

fn var(name: &str) -> ExprModel {
    ExprModel::Path(path(&[name]))
}

fn node(kind: NodeKind, parts: Vec<KindTree>) -> KindTree {
    KindTree::Node(kind, parts.into_iter().rev().fold(KindList::Nil, |rest, t| KindList::Cons(Box::new(t), Box::new(rest))))
}

fn wrap(variant: &[&str], value: ExprModel) -> ExprModel {
    ExprModel::Call { func: Box::new(ExprModel::Path(path(variant))), args: ExprList::Cons(Box::new(value), Box::new(ExprList::Nil)) }
}

fn plus_one(name: &str) -> ExprModel {
    ExprModel::Binary { op: BinOpModel::Add, left: Box::new(var(name)), right: Box::new(ExprModel::Lit(LitModel::Int(Some(1)))) }
}

/// `<some>(<binding>) => <some>(<value>), <none> => <none>`.
fn arms(some: &[&str], none: &[&str], binding: &str, value: ExprModel, boundary: bool) -> Vec<ArmModel> {
    vec![
        ArmModel {
            pat: ArmPat::TupleStruct { path: path(some), binding: Some(binding.to_string()) },
            guarded: false,
            body: wrap(some, value),
            call_args: vec![if boundary { node(NodeKind::Try, vec![node(NodeKind::Other, vec![])]) } else { node(NodeKind::Other, vec![]) }],
        },
        ArmModel { pat: ArmPat::Bare(path(none)), guarded: false, body: ExprModel::Path(path(none)), call_args: vec![] },
    ]
}

fn function(items: Vec<ItemModel>, in_async: bool, in_const: bool) -> Context {
    let mut ctx = Context::new(&items);
    ctx.start_function(in_async, in_const, (1, 3), &Vec::new());
    ctx
}

fn fn_item(name: &str) -> ItemModel {
    ItemModel::Fn { ident: name.to_string(), asyncness: false, type_generics: Vec::new(), output: None }
}

fn mapping(ctx: &Context, arms: &Vec<ArmModel>) -> Vec<Smell> {
    let mut out = Vec::new();
    ManualOptionResultMappingDetector.observe("src/lib.rs", ctx, arms, 1, &mut out);
    out
}

#[test]
fn codex_async_and_fallible_match_arms_cannot_become_sync_map_closures() {
    // async fn f(input: Option<Input>) { match input { Some(value) => Some(<value>), None => None }; }
    // where <value> awaits or uses `?` (twelve audited sites).
    let ctx = function(vec![fn_item("f")], true, false);
    for value in [
        ExprModel::Await(Box::new(var("value"))),
        ExprModel::Try(Box::new(ExprModel::Await(Box::new(var("value"))))),
        ExprModel::Try(Box::new(ExprModel::Other)),
        ExprModel::Other,
    ] {
        assert!(mapping(&ctx, &arms(&["Some"], &["None"], "value", value, true)).is_empty());
    }
    // fn f(input: Option<i32>) { 'outer: loop { match input { Some(value) => Some(<value>), None => None }; } }
    // with `{ return None; 1 }`, `{ break 'outer; 1 }`, `{ continue; 1 }`, `maybe_return!(value)`.
    let mut ctx = function(vec![fn_item("f")], false, false);
    ctx.enter_loop((1, 40));
    for value in [ExprModel::Other, ExprModel::Macro(path(&["maybe_return"]))] {
        assert!(mapping(&ctx, &arms(&["Some"], &["None"], "value", value, true)).is_empty());
    }
    // async fn f() { match next().await { Some(x) => Some(x + 1), None => None }; }
    let ctx = function(vec![fn_item("f")], true, false);
    let found = mapping(&ctx, &arms(&["Some"], &["None"], "x", plus_one("x"), false));
    assert_eq!(found.len(), 1);
    assert_eq!(found[0].confidence, FindingConfidence::High);
}

#[test]
fn mapping_respects_const_contexts_patterns_guards_and_custom_variants() {
    let some_x = || arms(&["Some"], &["None"], "x", plus_one("x"), false);
    // struct Version(u32); impl Version { pub const fn new(value: Option<u32>) -> Option<Self> {
    //     match value { Some(value) => Some(Self(value)), None => None } } }
    let ctx = function(vec![ItemModel::Declared("Version".to_string()), ItemModel::Other], false, true);
    let to_self = arms(&["Some"], &["None"], "value", wrap(&["Self"], var("value")), false);
    assert!(mapping(&ctx, &to_self).is_empty());
    // const X / static X: Option<i32> = { match Some(1) { Some(x) => Some(x + 1), None => None } };
    // fn f() { let _ = const { .. }; }, and associated consts of impls and traits.
    let mut ctx = Context::new(&vec![fn_item("f")]);
    ctx.enter_const();
    assert!(mapping(&ctx, &some_x()).is_empty());
    let mut ctx = function(vec![fn_item("f")], false, false);
    ctx.enter_const();
    assert!(mapping(&ctx, &some_x()).is_empty());
    // fn f(input: Option<i32>) { match input { <pattern> => Some(1), None => None }; }
    // for `Some(x @ State::Only)`, `Some(1)`, `Some(ref x)`; and `Some(x) if ready()`.
    let ctx = function(vec![fn_item("f")], false, false);
    let one = || ExprModel::Lit(LitModel::Int(Some(1)));
    let other_pattern = vec![
        ArmModel { pat: ArmPat::Other, guarded: false, body: wrap(&["Some"], one()), call_args: vec![node(NodeKind::Other, vec![])] },
        ArmModel { pat: ArmPat::Bare(path(&["None"])), guarded: false, body: var("None"), call_args: vec![] },
    ];
    assert!(mapping(&ctx, &other_pattern).is_empty());
    let mut guarded = arms(&["Some"], &["None"], "x", one(), false);
    guarded[0].guarded = true;
    assert!(mapping(&ctx, &guarded).is_empty());
    // enum Custom { Some(i32), None } use Custom::{Some, None}; fn f(x: Custom) { match x { .. } }
    let group = UseTree::Group(UseList::Cons(
        Box::new(UseTree::Name("Some".to_string())),
        Box::new(UseList::Cons(Box::new(UseTree::Name("None".to_string())), Box::new(UseList::Nil))),
    ));
    let custom = vec![
        ItemModel::Declared("Custom".to_string()),
        ItemModel::Use { leading_colon: false, tree: UseTree::Path { ident: "Custom".to_string(), tree: Box::new(group) } },
        fn_item("f"),
    ];
    assert!(mapping(&function(custom, false, false), &some_x()).is_empty());
    // fn f(x: Custom) { match x { custom::Some(x) => custom::Some(x+1), custom::None => custom::None }; }
    let ctx = function(vec![fn_item("f")], false, false);
    assert!(mapping(&ctx, &arms(&["custom", "Some"], &["custom", "None"], "x", plus_one("x"), false)).is_empty());
    // use std::option::Option::{Some as Present, None as Absent};
    // fn f(x: Option<i32>) { match x { Present(x) => Present(x+1), Absent => Absent }; }
    let renamed = UseTree::Group(UseList::Cons(
        Box::new(UseTree::Rename { ident: "Some".to_string(), rename: "Present".to_string() }),
        Box::new(UseList::Cons(
            Box::new(UseTree::Rename { ident: "None".to_string(), rename: "Absent".to_string() }),
            Box::new(UseList::Nil),
        )),
    ));
    let mut tree = renamed;
    for p in ["Option", "option", "std"] {
        tree = UseTree::Path { ident: p.to_string(), tree: Box::new(tree) };
    }
    let ctx = function(vec![ItemModel::Use { leading_colon: false, tree }, fn_item("f")], false, false);
    assert_eq!(mapping(&ctx, &arms(&["Present"], &["Absent"], "x", plus_one("x"), false)).len(), 1);
    // const fn outer() { fn inner(x: Option<i32>) { match x { Some(x) => Some(x+1), None => None }; } }
    let mut ctx = function(vec![fn_item("outer")], false, true);
    ctx.start_function(false, false, (1, 25), &Vec::new());
    assert_eq!(mapping(&ctx, &some_x()).len(), 1);
    // fn f(x: Result<i32,i32>) { match x { Ok(x) => Ok(x+1), Err(e) => Err(e+1) }; }
    let ctx = function(vec![fn_item("f")], false, false);
    let result = vec![
        ArmModel {
            pat: ArmPat::TupleStruct { path: path(&["Ok"]), binding: Some("x".to_string()) },
            guarded: false,
            body: wrap(&["Ok"], plus_one("x")),
            call_args: vec![node(NodeKind::Other, vec![node(NodeKind::Other, vec![]), node(NodeKind::Other, vec![])])],
        },
        ArmModel {
            pat: ArmPat::TupleStruct { path: path(&["Err"]), binding: Some("e".to_string()) },
            guarded: false,
            body: wrap(&["Err"], plus_one("e")),
            call_args: vec![node(NodeKind::Other, vec![node(NodeKind::Other, vec![]), node(NodeKind::Other, vec![])])],
        },
    ];
    let found = mapping(&ctx, &result);
    assert_eq!(found.len(), 1);
    assert_eq!(found[0].confidence, FindingConfidence::Low);
}
