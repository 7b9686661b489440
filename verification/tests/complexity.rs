use qualirs::detectors::implementation::{DeepIfElseDetector, FnIfs, IfAlt, IfForest, IfTree};

fn forest(trees: Vec<IfTree>) -> IfForest {
    trees.into_iter().rev().fold(IfForest::Nil, |rest, t| IfForest::Cons(Box::new(t), Box::new(rest)))
}

/// `if c { <then_branch> } <alt>` with a condition holding no `if`.
fn if_tree(then_branch: IfForest, alt: IfAlt) -> IfTree {
    IfTree::If { cond: IfForest::Nil, then_branch, alt }
}

/// `if x == 0 { .. } else if x == 1 { .. } ... ` with `n` branches.
fn ladder(n: usize) -> IfTree {
    let mut t = if_tree(IfForest::Nil, IfAlt::Nothing);
    for _ in 1..n {
        t = if_tree(IfForest::Nil, IfAlt::ElseIf(Box::new(t)));
    }
    t
}

/// `if flag { if flag { ... touch(); } }`, `n` deep.
fn nested(n: usize) -> IfTree {
    let mut t = if_tree(IfForest::Nil, IfAlt::Nothing);
    for _ in 1..n {
        t = if_tree(forest(vec![t]), IfAlt::Nothing);
    }
    t
}

const THRESHOLD: usize = 3;

#[test]
fn else_if_ladders_are_not_nested_conditionals() {
    // fn f(x: u32) { if x == 0 { touch(); } else if x == 1 { touch(); } ... }
    let f = FnIfs { ident: "f".to_string(), line: 1, body: forest(vec![ladder(10)]) };
    assert!(DeepIfElseDetector.detect("src/lib.rs", THRESHOLD, &vec![f]).is_empty());
    // fn outer() { fn inner(flag: bool) { if flag { if flag { ... } } } }: the
    // nested function is measured on its own, the outer one has no `if`.
    let outer = FnIfs { ident: "outer".to_string(), line: 1, body: IfForest::Nil };
    let inner = FnIfs { ident: "inner".to_string(), line: 1, body: forest(vec![nested(5)]) };
    let findings = DeepIfElseDetector.detect("src/lib.rs", THRESHOLD, &vec![outer, inner]);
    assert_eq!(findings.len(), 1);
    assert!(findings[0].message.contains("`inner`"));
    assert!(findings[0].message.contains("depth of 5"));
    // fn outer() { let work = || { .. }; } (and async or const blocks): the
    // deferred body belongs to no function's own nesting.
    let outer = FnIfs { ident: "outer".to_string(), line: 1, body: IfForest::Nil };
    assert!(DeepIfElseDetector.detect("src/lib.rs", THRESHOLD, &vec![outer]).is_empty());
}

#[test]
fn an_if_in_an_else_block_nests_one_level_deeper() {
    // fn g() { if a { } else { if b { if c { if d { } } } } }
    let inner = nested(3);
    let t = if_tree(IfForest::Nil, IfAlt::Else(forest(vec![inner])));
    let g = FnIfs { ident: "g".to_string(), line: 4, body: forest(vec![t]) };
    let findings = DeepIfElseDetector.detect("src/lib.rs", THRESHOLD, &vec![g]);
    assert_eq!(findings.len(), 1);
    assert!(findings[0].message.contains("depth of 4"));
    assert_eq!(findings[0].location.line_start, 4);
}

use qualirs::detectors::implementation::{boundary, ForIfModel, KindList, KindTree, ManualFindLoopDetector, NodeKind};
use qualirs::evidence::{ExprModel, LitModel};

fn node(kind: NodeKind, parts: Vec<KindTree>) -> KindTree {
    KindTree::Node(kind, parts.into_iter().rev().fold(KindList::Nil, |rest, t| KindList::Cons(Box::new(t), Box::new(rest))))
}

/// A condition whose syntax holds nothing a closure could not.
fn plain() -> KindTree {
    node(NodeKind::Other, vec![node(NodeKind::Other, vec![]), node(NodeKind::Other, vec![])])
}

fn bool_return() -> Option<ExprModel> {
    Some(ExprModel::Return(Some(Box::new(ExprModel::Lit(LitModel::Bool)))))
}

#[test]
fn manual_search_preserves_async_and_conditional_branch_work() {
    // async fn check(items: Vec<u32>) -> bool { for item in items { <body> } false }
    let cases = [
        // if !known(item) { log_unknown(item); modify_reputation(item).await; return false; }
        ForIfModel { line: 1, has_else: false, then_expr: None, cond: plain() },
        // if !known(item) { metrics.record(); return false; }
        ForIfModel { line: 1, has_else: false, then_expr: None, cond: plain() },
        // if predicate(item).await { return true; }
        ForIfModel { line: 1, has_else: false, then_expr: bool_return(), cond: node(NodeKind::Await, vec![node(NodeKind::Other, vec![node(NodeKind::Other, vec![]), node(NodeKind::Other, vec![])])]) },
        // if predicate(item)? { return true; }
        ForIfModel { line: 1, has_else: false, then_expr: bool_return(), cond: node(NodeKind::Try, vec![node(NodeKind::Other, vec![node(NodeKind::Other, vec![]), node(NodeKind::Other, vec![])])]) },
        // if { if item == 0 { return false; } item > 1 } { return true; }
        ForIfModel { line: 1, has_else: false, then_expr: bool_return(), cond: node(NodeKind::Other, vec![node(NodeKind::Other, vec![node(NodeKind::Other, vec![]), node(NodeKind::Return, vec![node(NodeKind::Other, vec![])])]), node(NodeKind::Other, vec![])]) },
        // if predicate!(item) { return true; }
        ForIfModel { line: 1, has_else: false, then_expr: bool_return(), cond: node(NodeKind::Macro, vec![node(NodeKind::Macro, vec![])]) },
        // if known(item) { return true; } else { update(item); }
        ForIfModel { line: 1, has_else: true, then_expr: bool_return(), cond: plain() },
    ];
    for (n, case) in cases.into_iter().enumerate() {
        assert!(ManualFindLoopDetector.detect("src/lib.rs", &vec![case]).is_empty(), "case {n}");
    }
    // fn check(items: &[u32]) -> bool { for item in items { if *item > 2 { return true; } } false }
    let search = ForIfModel { line: 1, has_else: false, then_expr: bool_return(), cond: plain() };
    assert_eq!(ManualFindLoopDetector.detect("src/lib.rs", &vec![search]).len(), 1);
}

#[test]
fn closure_boundaries_are_found_at_any_depth() {
    assert!(!boundary(&plain()));
    // `a + f(b)?`
    let nested = node(NodeKind::Other, vec![node(NodeKind::Other, vec![]), node(NodeKind::Try, vec![plain()])]);
    assert!(boundary(&nested));
    for kind in [NodeKind::Await, NodeKind::Return, NodeKind::Break, NodeKind::Continue, NodeKind::Yield, NodeKind::Macro] {
        let deep = node(NodeKind::Other, vec![node(NodeKind::Other, vec![node(kind, vec![])])]);
        assert!(boundary(&deep));
    }
}
