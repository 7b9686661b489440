use qualirs::detectors::perf::{movable_clone_candidates, sort_candidates, Mentions, StmtModel};
use qualirs::evidence::{BinOpModel, ExprList, ExprModel, LitModel, PathArgs, PathModel, SegList, Segment};

fn var(name: &str) -> ExprModel {
    ExprModel::Path(PathModel {
        leading_colon: false,
        segments: SegList::Cons(Segment { ident: name.to_string(), args: PathArgs::Bare }, Box::new(SegList::Nil)),
    })
}

fn call(receiver: ExprModel, method: &str, args: Vec<ExprModel>) -> ExprModel {
    let args = args.into_iter().rev().fold(ExprList::Nil, |rest, a| ExprList::Cons(Box::new(a), Box::new(rest)));
    ExprModel::MethodCall { receiver: Box::new(receiver), method: method.to_string(), turbofish: None, args }
}

fn names(paths: &[&str]) -> Mentions {
    Mentions { paths: paths.iter().map(|p| p.to_string()).collect(), macros: Vec::new() }
}

/// `<expr>;`, mentioning `paths`, with the receiver of a method call mentioning `receiver`.
fn expr_stmt(expr: ExprModel, receiver: &[&str], paths: &[&str]) -> StmtModel {
    StmtModel::Expr { expr, semi: true, receiver_mentions: names(receiver), mentions: names(paths) }
}

/// `let <name> = <init>;`
fn let_stmt(name: &str, init: ExprModel, paths: &[&str]) -> StmtModel {
    StmtModel::Local { name: Some(name.to_string()), init: Some(init), init_mentions: names(paths), mentions: names(paths) }
}

#[test]
fn a_sort_then_one_selection_is_a_candidate() {
    // v.sort(); let low = v.first().copied();
    let block = vec![
        expr_stmt(call(var("v"), "sort", vec![]), &["v"], &["v"]),
        let_stmt("low", call(call(var("v"), "first", vec![]), "copied", vec![]), &["v"]),
    ];
    assert_eq!(sort_candidates(&block, false), vec![(1, 1)]);
    assert!(sort_candidates(&block, true).is_empty());
    // v.sort_unstable(); let top = v[v.len() - 1];
    let last = ExprModel::Binary {
        op: BinOpModel::Other,
        left: Box::new(call(var("v"), "len", vec![])),
        right: Box::new(ExprModel::Lit(LitModel::Int(Some(1)))),
    };
    let block = vec![
        expr_stmt(call(var("v"), "sort_unstable", vec![]), &["v"], &["v"]),
        let_stmt("top", ExprModel::Index { expr: Box::new(var("v")), index: Box::new(last) }, &["v"]),
    ];
    assert_eq!(sort_candidates(&block, true), vec![(1, 0)]);
    // v[0] is no rank selection, and a later use of `v` keeps the sort.
    let block = vec![
        expr_stmt(call(var("v"), "sort", vec![]), &["v"], &["v"]),
        let_stmt("low", call(var("v"), "first", vec![]), &["v"]),
        expr_stmt(call(var("v"), "clear", vec![]), &["v"], &["v"]),
    ];
    assert!(sort_candidates(&block, false).is_empty());
}

#[test]
fn a_clone_pushed_on_its_last_use_is_a_candidate() {
    // let s = name(); out.push(s.clone());
    let block = vec![
        let_stmt("s", ExprModel::Call { func: Box::new(var("name")), args: ExprList::Nil }, &["name"]),
        expr_stmt(call(var("out"), "push", vec![call(var("s"), "clone", vec![])]), &["out"], &["out", "s"]),
    ];
    assert_eq!(movable_clone_candidates(&block), vec![1]);
    // A later use of `s`, or a target that mentions it, keeps the clone.
    let mut later = block;
    later.push(expr_stmt(call(var("log"), "push", vec![var("s")]), &["log"], &["log", "s"]));
    assert!(movable_clone_candidates(&later).is_empty());
    let block = vec![expr_stmt(
        call(ExprModel::Index { expr: Box::new(var("groups")), index: Box::new(var("s")) }, "push", vec![call(var("s"), "clone", vec![])]),
        &["groups", "s"],
        &["groups", "s"],
    )];
    assert!(movable_clone_candidates(&block).is_empty());
}
