use qualirs::detectors::implementation::RepeatedExpensiveConstructionDetector;
use qualirs::domain::{FindingConfidence, Smell};
use qualirs::evidence::{
    Context, ExprList, ExprModel, ItemModel, LitModel, PathArgs, PathModel, SegList, Segment, UseTree,
};

fn path(parts: &[&str]) -> PathModel {
    let mut segments = SegList::Nil;
    for p in parts.iter().rev() {
        segments = SegList::Cons(Segment { ident: p.to_string(), args: PathArgs::Bare }, Box::new(segments));
    }
    PathModel { leading_colon: false, segments }
}

fn call(func: &[&str], arg: ExprModel) -> ExprModel {
    ExprModel::Call {
        func: Box::new(ExprModel::Path(path(func))),
        args: ExprList::Cons(Box::new(arg), Box::new(ExprList::Nil)),
    }
}

fn text(s: &str) -> ExprModel {
    ExprModel::Lit(LitModel::Str(s.to_string()))
}

fn url_parse() -> ExprModel {
    call(&["url", "Url", "parse"], text("https://example.com"))
}

fn fn_item(name: &str) -> ItemModel {
    ItemModel::Fn { ident: name.to_string(), asyncness: false, type_generics: Vec::new(), output: None }
}

fn use_item(parts: &[&str], last: UseTree) -> ItemModel {
    let mut tree = last;
    for p in parts.iter().rev() {
        tree = UseTree::Path { ident: p.to_string(), tree: Box::new(tree) };
    }
    ItemModel::Use { leading_colon: false, tree }
}

/// The body of `fn f()` under the given items.
fn body(items: Vec<ItemModel>) -> Context {
    let mut ctx = Context::new(&items);
    ctx.start_function(false, false, (1, 3), &Vec::new());
    ctx.enter_block((1, 10), &Vec::new());
    ctx
}

/// `ctx` inside the body of a loop starting at `at`.
fn in_loop(mut ctx: Context, at: (usize, usize)) -> Context {
    ctx.enter_loop(at);
    ctx.enter_block((at.0, at.1 + 10), &Vec::new());
    ctx
}

fn findings(ctx: &Context, e: &ExprModel) -> Vec<Smell> {
    let mut out = Vec::new();
    RepeatedExpensiveConstructionDetector.observe("src/lib.rs", ctx, e, 1, &mut out);
    out
}

#[test]
fn constructors_need_executed_loop_and_resolved_constant_input() {
    // use std::path::PathBuf; fn f() { for p in [PathBuf::from("C:/"), PathBuf::from("C:/Windows")] { consume(p); } }
    let pathbuf = || use_item(&["std", "path"], UseTree::Name("PathBuf".to_string()));
    let ctx = body(vec![pathbuf(), fn_item("f")]);
    for dir in ["C:/", "C:/Windows"] {
        assert!(findings(&ctx, &call(&["PathBuf", "from"], text(dir))).is_empty());
    }
    // fn f(mut input: &str) { for _ in 0..10 { <body> } }
    let looped = || in_loop(body(vec![fn_item("f")]), (1, 25));
    // let work = || url::Url::parse("https://example.com");
    let mut ctx = looped();
    ctx.enter_closure(false, (1, 50));
    assert!(findings(&ctx, &url_parse()).is_empty());
    // let work = async { url::Url::parse("https://example.com") };
    let mut ctx = looped();
    ctx.enter_async_block((1, 50));
    assert!(findings(&ctx, &url_parse()).is_empty());
    // fn later() { url::Url::parse("https://example.com"); }
    let mut ctx = looped();
    ctx.start_function(false, false, (1, 45), &Vec::new());
    assert!(findings(&ctx, &url_parse()).is_empty());
    // const X: () = { PathBuf::from("root"); };
    let mut ctx = looped();
    ctx.enter_const();
    assert!(findings(&ctx, &call(&["PathBuf", "from"], text("root"))).is_empty());
    // url::Url::parse(next()); / url::Url::parse(input); input = next(); / let input = next(); url::Url::parse(input);
    let ctx = looped();
    let next = ExprModel::Call { func: Box::new(ExprModel::Path(path(&["next"]))), args: ExprList::Nil };
    assert!(findings(&ctx, &call(&["url", "Url", "parse"], next)).is_empty());
    assert!(findings(&ctx, &call(&["url", "Url", "parse"], ExprModel::Path(path(&["input"])))).is_empty());
    // struct Url; impl Url { fn parse(_: &str) {} } fn f() { loop { Url::parse("abc"); } }
    let ctx = in_loop(body(vec![ItemModel::Declared("Url".to_string()), ItemModel::Other, fn_item("f")]), (1, 50));
    assert!(findings(&ctx, &call(&["Url", "parse"], text("abc"))).is_empty());
    // mod url { pub struct Url; } fn f() { loop { url::Url::parse("abc"); } }
    let ctx = in_loop(body(vec![ItemModel::Declared("url".to_string()), fn_item("f")]), (1, 40));
    assert!(findings(&ctx, &call(&["url", "Url", "parse"], text("abc"))).is_empty());

    // fn f() { for _ in 0..10 { url::Url::parse("https://example.com"); } }
    // fn f() { for _ in 0..10 { for x in [url::Url::parse("https://example.com")] {} } }
    // fn f() { while url::Url::parse("https://example.com").is_ok() {} }
    let mut positives = vec![in_loop(body(vec![fn_item("f")]), (1, 10)), in_loop(body(vec![fn_item("f")]), (1, 10))];
    let mut while_cond = body(vec![fn_item("f")]);
    while_cond.enter_loop((1, 10));
    positives.push(while_cond);
    // fn f() { loop { use url::Url as Address; Address::parse("https://example.com"); } }
    let mut aliased = body(vec![fn_item("f")]);
    aliased.enter_loop((1, 10));
    let alias = use_item(&["url"], UseTree::Rename { ident: "Url".to_string(), rename: "Address".to_string() });
    aliased.enter_block((1, 15), &vec![alias]);
    for ctx in &positives {
        let found = findings(ctx, &url_parse());
        assert_eq!(found.len(), 1);
        assert_eq!(found[0].confidence, FindingConfidence::High);
    }
    let found = findings(&aliased, &call(&["Address", "parse"], text("https://example.com")));
    assert_eq!(found.len(), 1);
    assert_eq!(found[0].confidence, FindingConfidence::High);
    // use std::path::PathBuf; fn f() { for item in items { issues.push(Issue { path: PathBuf::from("<invalid config>") }); } }
    let ctx = in_loop(body(vec![pathbuf(), fn_item("f")]), (1, 35));
    let found = findings(&ctx, &call(&["PathBuf", "from"], text("<invalid config>")));
    assert_eq!(found.len(), 1);
    assert_eq!(found[0].confidence, FindingConfidence::Low);
}
