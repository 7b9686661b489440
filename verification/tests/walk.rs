use qualirs::evidence::{
    ArgList, Context, ExprList, ExprModel, GenericArg, ItemModel, PatModel, PathArgs, PathModel, SegList, Segment,
    TypeModel, UseTree,
};
use qualirs::detectors::concurrency::{discarded_spawns, Discard, ShownExpr, SpawnWithoutJoinDetector};
use qualirs::detectors::local_lock::{track_locks, LocalLockInSingleThreadedScopeDetector, LockShown};
use qualirs::walk::{observations, Entry, ScanArm, ScanArms, ScanList, ScanNode, ScanStmts};

fn path(parts: &[&str]) -> PathModel {
    let mut segments = SegList::Nil;
    for p in parts.iter().rev() {
        segments = SegList::Cons(Segment { ident: p.to_string(), args: PathArgs::Bare }, Box::new(segments));
    }
    PathModel { leading_colon: false, segments }
}

fn var(name: &str) -> ExprModel {
    ExprModel::Path(path(&[name]))
}

fn list(nodes: Vec<ScanNode>) -> Box<ScanList> {
    Box::new(nodes.into_iter().rev().fold(ScanList::Nil, |rest, n| ScanList::Cons(Box::new(n), Box::new(rest))))
}

fn shown(id: usize) -> ScanNode {
    ScanNode::Expr { id, parts: list(vec![]), releases: None }
}

fn block(stmts: Vec<(bool, ScanNode)>) -> ScanNode {
    let stmts = stmts
        .into_iter()
        .rev()
        .fold(ScanStmts::Nil, |rest, (exits, s)| ScanStmts::Cons { exits, stmt: Box::new(s), rest: Box::new(rest) });
    ScanNode::Block { at: (1, 20), items: Vec::new(), stmts: Box::new(stmts) }
}

fn ident(name: &str, column: usize) -> PatModel {
    PatModel::Ident { name: name.to_string(), by_ref: false, line: 1, column }
}

/// `fn f(m: &std::sync::Mutex<i32>) { <body> }` under `use std::sync::Mutex;`.
fn function(body: ScanNode) -> (Context, ScanNode) {
    let import = ItemModel::Use {
        leading_colon: false,
        tree: UseTree::Path {
            ident: "std".to_string(),
            tree: Box::new(UseTree::Path { ident: "sync".to_string(), tree: Box::new(UseTree::Name("Mutex".to_string())) }),
        },
    };
    let ctx = Context::new(&vec![import]);
    let i32_ty = TypeModel::Path { qself: false, path: path(&["i32"]) };
    let mutex = TypeModel::Path {
        qself: false,
        path: PathModel {
            leading_colon: false,
            segments: SegList::Cons(
                Segment {
                    ident: "Mutex".to_string(),
                    args: PathArgs::Angle(ArgList::Cons(GenericArg::Type(Box::new(i32_ty)), Box::new(ArgList::Nil))),
                },
                Box::new(SegList::Nil),
            ),
        },
    };
    let entry = Entry::Function {
        in_async: false,
        in_const: false,
        at: (1, 3),
        generics: Vec::new(),
        params: vec![(ident("m", 5), TypeModel::Reference(Box::new(mutex)))],
    };
    (ctx, ScanNode::Scoped { skip: false, entry, body: Box::new(body), used: None })
}

/// `let g = m.lock().unwrap();`
fn guard_let() -> ScanNode {
    let lock = ExprModel::MethodCall { receiver: Box::new(var("m")), method: "lock".to_string(), turbofish: None, args: ExprList::Nil };
    let unwrap = ExprModel::MethodCall { receiver: Box::new(lock), method: "unwrap".to_string(), turbofish: None, args: ExprList::Nil };
    ScanNode::Local { pat: ident("g", 30), init: Some(unwrap), parts: list(vec![]) }
}

#[test]
fn expressions_are_shown_in_order_and_blocks_stop_after_an_exit() {
    let ctx = Context::new(&Vec::new());
    // { a; return b; c; } then an await of d: the future first, then the await.
    let root = ScanNode::Plain(list(vec![
        block(vec![(false, shown(0)), (true, shown(1)), (false, shown(2))]),
        ScanNode::Await { id: 4, base: Box::new(shown(3)) },
    ]));
    let ids: Vec<usize> = observations(&ctx, &root).into_iter().map(|(id, _)| id).collect();
    assert_eq!(ids, vec![0, 1, 3, 4]);
}

#[test]
fn closures_and_test_only_items_are_scoped() {
    // A closure at (2, 8) inside a loop: its body runs in its own execution scope.
    let ctx = Context::new(&Vec::new());
    let closure = ScanNode::Scoped {
        skip: false,
        entry: Entry::Closure { in_async: true, at: (2, 8), params: vec![ident("x", 9)] },
        body: Box::new(shown(1)),
        used: Some(vec!["x".to_string()]),
    };
    let arm = ScanArm {
        fresh: false,
        loop_at: Some((1, 0)),
        push: false,
        pre: list(vec![]),
        pat: None,
        body: list(vec![shown(0), closure]),
    };
    let root = ScanNode::Branching { head: list(vec![]), arms: Box::new(ScanArms::Cons(Box::new(arm), Box::new(ScanArms::Nil))) };
    let obs = observations(&ctx, &root);
    assert_eq!(obs.len(), 2);
    assert_eq!(obs[0].1.loop_depth, 1);
    assert_eq!(obs[1].1.execution, (2, 8));
    assert_eq!(obs[1].1.loop_depth, 0);
    assert!(obs[1].1.in_async);
    // A function compiled only for tests is not walked.
    let skipped = ScanNode::Scoped { skip: true, entry: Entry::Const, body: Box::new(shown(0)), used: None };
    assert!(observations(&ctx, &skipped).is_empty());
}

#[test]
fn guards_live_until_their_scope_ends_or_they_are_moved() {
    // fn f(m: &Mutex<i32>) { let g = m.lock().unwrap(); a; drop(g); b; }
    let drop_g = ScanNode::Expr {
        id: 1,
        parts: list(vec![]),
        releases: Some(ExprList::Cons(Box::new(var("g")), Box::new(ExprList::Nil))),
    };
    let body = block(vec![(false, guard_let()), (false, shown(0)), (false, drop_g), (false, shown(2))]);
    let (ctx, root) = function(body);
    let obs = observations(&ctx, &root);
    assert_eq!(obs.len(), 3);
    assert!(obs[0].1.has_guard());
    assert!(!obs[2].1.has_guard());
    // fn f(m: &Mutex<i32>) { if c { let g = m.lock().unwrap(); a; } b; }
    let then = ScanArm {
        fresh: false,
        loop_at: None,
        push: true,
        pre: list(vec![]),
        pat: None,
        body: list(vec![block(vec![(false, guard_let()), (false, shown(0))])]),
    };
    let branch = ScanNode::Branching { head: list(vec![]), arms: Box::new(ScanArms::Cons(Box::new(then), Box::new(ScanArms::Nil))) };
    let (ctx, root) = function(block(vec![(false, branch), (false, shown(1))]));
    let obs = observations(&ctx, &root);
    assert_eq!(obs.len(), 2);
    assert!(obs[0].1.has_guard());
    assert!(!obs[1].1.has_guard());
}

fn spawn_call() -> ExprModel {
    ExprModel::Call { func: Box::new(ExprModel::Path(path(&["std", "thread", "spawn"]))), args: ExprList::Nil }
}

#[test]
fn thrown_away_spawns_are_found_and_statements_only_add_lines() {
    // fn f(m: ..) { std::thread::spawn(..); let _ = std::thread::spawn(..); helper(); }
    let body = block(vec![(false, shown(0)), (false, shown(1)), (false, shown(2))]);
    let (ctx, root) = function(body);
    let exprs = vec![
        ShownExpr { model: spawn_call(), line: 2, discard: Some(Discard::Statement) },
        ShownExpr { model: spawn_call(), line: 3, discard: Some(Discard::Wildcard) },
        ShownExpr {
            model: ExprModel::Call { func: Box::new(var("helper")), args: ExprList::Nil },
            line: 4,
            discard: Some(Discard::Statement),
        },
    ];
    let lines = discarded_spawns(&ctx, &root, &exprs, true);
    assert_eq!(lines, vec![2, 3]);
    let found = SpawnWithoutJoinDetector.detect("src/lib.rs", &lines);
    let reported: Vec<(usize, &str)> = found.iter().map(|f| (f.location.line_start, f.message.as_str())).collect();
    assert_eq!(
        reported,
        vec![
            (2, "A known task/thread spawn call discards its JoinHandle"),
            (3, "A known task/thread spawn call discards its JoinHandle"),
        ]
    );
    assert_eq!(discarded_spawns(&ctx, &root, &exprs, false), vec![3]);
    // A spawn that is kept is never reported.
    let kept = vec![
        ShownExpr { model: spawn_call(), line: 2, discard: None },
        ShownExpr { model: spawn_call(), line: 3, discard: None },
        ShownExpr { model: spawn_call(), line: 4, discard: None },
    ];
    assert!(discarded_spawns(&ctx, &root, &kept, true).is_empty());
}

#[test]
fn locks_tracked_over_the_walk_are_reported_at_their_first_lock_call() {
    // fn f(m: ..) { let l = std::sync::Mutex::new(0); l.lock(); }
    let ctor = || ExprModel::Call { func: Box::new(ExprModel::Path(path(&["std", "sync", "Mutex", "new"]))), args: ExprList::Nil };
    let lock = ExprModel::MethodCall { receiver: Box::new(var("l")), method: "lock".to_string(), turbofish: None, args: ExprList::Nil };
    let local = ScanNode::Local { pat: ident("l", 20), init: Some(ctor()), parts: list(vec![shown(0)]) };
    let call = ScanNode::Expr { id: 1, parts: list(vec![shown(2)]), releases: None };
    let (ctx, root) = function(block(vec![(false, local), (false, call)]));
    let exprs = vec![
        LockShown { model: ctor(), local: Some(((1, 20), "l".to_string())), method_line: 2, tokens: String::new() },
        LockShown { model: lock, local: None, method_line: 3, tokens: String::new() },
        LockShown { model: var("l"), local: None, method_line: 3, tokens: String::new() },
    ];
    let tracker = track_locks(&ctx, &root, &exprs);
    let found = LocalLockInSingleThreadedScopeDetector.detect("src/lib.rs", &tracker);
    assert_eq!(found.len(), 1);
    assert_eq!(found[0].location.line_start, 3);
    // Shown nothing, the tracker holds no lock.
    let none = track_locks(&ctx, &root, &Vec::new());
    assert!(LocalLockInSingleThreadedScopeDetector.detect("src/lib.rs", &none).is_empty());
}
