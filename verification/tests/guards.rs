//! Lock guard evidence, driven through the context the way a traversal of
//! the source would: expressions are shown before their operands, a `let`
//! is finished after its initializer, blocks and branches restore scope.
use qualirs::detectors::concurrency::{DeadlockRiskDetector, HoldingLockAcrossAwaitDetector};
use qualirs::domain::{FindingConfidence, Smell};
use qualirs::evidence::{
    ArgList, Context, ExprList, ExprModel, GenericArg, ItemModel, PatModel, PathArgs, PathModel, SegList, Segment,
    TypeModel, UseList, UseTree, type_clone,
};

fn path(parts: &[&str]) -> PathModel {
    let mut segments = SegList::Nil;
    for p in parts.iter().rev() {
        segments = SegList::Cons(Segment { ident: p.to_string(), args: PathArgs::Bare }, Box::new(segments));
    }
    PathModel { leading_colon: false, segments }
}

fn var(name: &str) -> ExprModel {
    ExprModel::Path(path(&[name]))
}

fn list(items: Vec<ExprModel>) -> ExprList {
    items.into_iter().rev().fold(ExprList::Nil, |rest, e| ExprList::Cons(Box::new(e), Box::new(rest)))
}

fn call(func: &str, args: Vec<ExprModel>) -> ExprModel {
    ExprModel::Call { func: Box::new(var(func)), args: list(args) }
}

fn method(receiver: ExprModel, name: &str) -> ExprModel {
    ExprModel::MethodCall { receiver: Box::new(receiver), method: name.to_string(), turbofish: None, args: ExprList::Nil }
}

/// `<receiver>.lock().unwrap()`.
fn locked(receiver: &str) -> ExprModel {
    method(method(var(receiver), "lock"), "unwrap")
}

fn ident(name: &str, line: usize, column: usize) -> PatModel {
    PatModel::Ident { name: name.to_string(), by_ref: false, line, column }
}

/// `&<name>` or `&<name><i32>`.
fn ref_to(name: &str, generic: bool) -> TypeModel {
    let args = if generic {
        let i32_ty = TypeModel::Path { qself: false, path: path(&["i32"]) };
        PathArgs::Angle(ArgList::Cons(GenericArg::Type(Box::new(i32_ty)), Box::new(ArgList::Nil)))
    } else {
        PathArgs::Bare
    };
    let segments = SegList::Cons(Segment { ident: name.to_string(), args }, Box::new(SegList::Nil));
    TypeModel::Reference(Box::new(TypeModel::Path { qself: false, path: PathModel { leading_colon: false, segments } }))
}

fn use_item(parts: &[&str], last: UseTree) -> ItemModel {
    let mut tree = last;
    for p in parts.iter().rev() {
        tree = UseTree::Path { ident: p.to_string(), tree: Box::new(tree) };
    }
    ItemModel::Use { leading_colon: false, tree }
}

fn fn_item(name: &str) -> ItemModel {
    ItemModel::Fn { ident: name.to_string(), asyncness: false, type_generics: Vec::new(), output: None }
}

/// A function body being walked, with the findings of both guard checks.
struct Walk {
    ctx: Context,
    deadlocks: Vec<Smell>,
    awaits: Vec<Smell>,
}

impl Walk {
    /// `fn f(<params>) {` with the body block open.
    fn function(items: Vec<ItemModel>, in_async: bool, params: &[(&str, TypeModel)]) -> Walk {
        let mut ctx = Context::new(&items);
        ctx.start_function(in_async, false, (1, 3), &Vec::new());
        for (i, (name, ty)) in params.iter().enumerate() {
            let k = ctx.kind(ty);
            ctx.bind(&ident(name, 1, 10 + i), k);
        }
        ctx.enter_block((1, 60), &Vec::new());
        Walk { ctx, deadlocks: Vec::new(), awaits: Vec::new() }
    }

    /// An expression and its operands, each shown before what it contains.
    fn expr(&mut self, e: &ExprModel, line: usize) {
        if let ExprModel::Await(base) = e {
            // An await is met after the future it waits for.
            self.expr(base, line);
            self.observe(e, line);
            return;
        }
        self.observe(e, line);
        match e {
            ExprModel::MethodCall { receiver, args, .. } => {
                self.expr(receiver, line);
                self.args(args, line);
            },
            ExprModel::Call { func, args } => {
                self.expr(func, line);
                self.args(args, line);
                self.ctx.release_moved_guards(args);
            },
            ExprModel::Paren(inner) | ExprModel::Try(inner) => self.expr(inner, line),
            _ => {},
        }
    }

    fn observe(&mut self, e: &ExprModel, line: usize) {
        DeadlockRiskDetector.observe("src/lib.rs", &self.ctx, e, line, &mut self.deadlocks);
        HoldingLockAcrossAwaitDetector.observe("src/lib.rs", &self.ctx, e, line, &mut self.awaits);
    }

    fn args(&mut self, args: &ExprList, line: usize) {
        if let ExprList::Cons(e, rest) = args {
            self.expr(e, line);
            self.args(rest, line);
        }
    }

    /// `let <pat> = <init>;`
    fn let_(&mut self, pat: PatModel, init: ExprModel, line: usize) {
        let kind = self.ctx.expr(&init);
        self.expr(&init, line);
        self.ctx.finish_let(&pat, kind, Some(&init));
    }

    /// A block: its statements run in a scope of their own.
    fn block(&mut self, at: (usize, usize), body: impl FnOnce(&mut Walk)) {
        let saved = self.ctx.snapshot();
        self.ctx.enter_block(at, &Vec::new());
        body(self);
        self.ctx.pop_scope();
        self.ctx.items = saved.items;
        self.ctx.origins = saved.origins;
        self.ctx.block = saved.block;
    }

    /// `if <cond> { <then> } else { <other> }`.
    fn if_else(&mut self, cond: ExprModel, then: impl FnOnce(&mut Walk), other: impl FnOnce(&mut Walk)) {
        self.expr(&cond, 1);
        let prev = self.ctx.snapshot();
        self.ctx.push_scope();
        self.block((1, 70), then);
        self.ctx = prev.snapshot();
        self.block((1, 90), other);
        self.ctx = prev;
        self.ctx.forget_guards();
    }

    /// A deferred body: a closure, or an async block when `is_async`.
    fn deferred(&mut self, is_async: bool, used: &[&str], body: impl FnOnce(&mut Walk)) {
        let prev = self.ctx.snapshot();
        if is_async {
            self.ctx.enter_async_block((1, 100));
            self.block((1, 106), body);
        } else {
            self.ctx.enter_closure(false, (1, 100));
            body(self);
        }
        self.ctx = prev;
        self.ctx.forget_captured_guards(&used.iter().map(|s| s.to_string()).collect());
    }
}

fn std_mutex() -> Vec<ItemModel> {
    vec![use_item(&["std", "sync"], UseTree::Name("Mutex".to_string())), fn_item("f")]
}

/// `fn f(a: &Mutex<i32>, b: &Mutex<i32>, flag: bool) {` under `use std::sync::Mutex;`.
fn two_locks() -> Walk {
    Walk::function(
        std_mutex(),
        false,
        &[("a", ref_to("Mutex", true)), ("b", ref_to("Mutex", true)), ("flag", ref_to("bool", false))],
    )
}

#[test]
fn deadlock_hints_require_a_live_guard_and_known_blocking_acquisition() {
    // if flag { let first = a.lock().unwrap(); } else { let second = b.lock().unwrap(); }
    let mut w = two_locks();
    w.if_else(
        var("flag"),
        |w| w.let_(ident("first", 1, 80), locked("a"), 1),
        |w| w.let_(ident("second", 1, 95), locked("b"), 1),
    );
    assert!(w.deadlocks.is_empty());
    // { let first = a.lock().unwrap(); } let second = b.lock().unwrap();
    let mut w = two_locks();
    w.block((1, 62), |w| w.let_(ident("first", 1, 68), locked("a"), 1));
    w.let_(ident("second", 1, 100), locked("b"), 1);
    assert!(w.deadlocks.is_empty());
    // let first = a.lock().unwrap(); drop(first); / consume(first); let second = b.lock().unwrap();
    for release in ["drop", "consume"] {
        let mut w = two_locks();
        w.let_(ident("first", 1, 66), locked("a"), 1);
        w.expr(&call(release, vec![var("first")]), 1);
        w.let_(ident("second", 1, 110), locked("b"), 1);
        assert!(w.deadlocks.is_empty(), "{release}");
    }
    // let first = a.lock().unwrap(); let moved = first; drop(moved); let second = b.lock().unwrap();
    let mut w = two_locks();
    w.let_(ident("first", 1, 66), locked("a"), 1);
    w.let_(ident("moved", 1, 100), var("first"), 1);
    w.expr(&call("drop", vec![var("moved")]), 1);
    w.let_(ident("second", 1, 130), locked("b"), 1);
    assert!(w.deadlocks.is_empty());
    // let first = a.lock().unwrap(); let second = b.try_lock();
    let mut w = two_locks();
    w.let_(ident("first", 1, 66), locked("a"), 1);
    w.let_(ident("second", 1, 100), method(var("b"), "try_lock"), 1);
    assert!(w.deadlocks.is_empty());
    // a.lock().unwrap(); b.lock().unwrap();
    let mut w = two_locks();
    w.expr(&locked("a"), 1);
    w.expr(&locked("b"), 1);
    assert!(w.deadlocks.is_empty());
    // let first = a.lock().unwrap(); let f = || b.lock().unwrap(); / async { b.lock().unwrap() }
    for is_async in [false, true] {
        let mut w = two_locks();
        w.let_(ident("first", 1, 66), locked("a"), 1);
        w.deferred(is_async, &["b"], |w| w.expr(&locked("b"), 1));
        assert!(w.deadlocks.is_empty(), "async: {is_async}");
    }
    // let first = a.lock().unwrap(); fn child(b: &Mutex<i32>) { let second = b.lock().unwrap(); }
    let mut w = two_locks();
    w.let_(ident("first", 1, 66), locked("a"), 1);
    let prev = w.ctx.snapshot();
    w.ctx.start_function(false, false, (1, 100), &Vec::new());
    let k = w.ctx.kind(&ref_to("Mutex", true));
    w.ctx.bind(&ident("b", 1, 106), k);
    w.block((1, 120), |w| w.let_(ident("second", 1, 126), locked("b"), 1));
    w.ctx = prev;
    assert!(w.deadlocks.is_empty());
    // let first = a.lock().unwrap(); let b = Custom; b.lock();
    let mut w = two_locks();
    w.let_(ident("first", 1, 66), locked("a"), 1);
    w.let_(ident("b", 1, 100), var("Custom"), 1);
    w.expr(&method(var("b"), "lock"), 1);
    assert!(w.deadlocks.is_empty());
    // let first = a.lock().unwrap(); ({ drop(first); b }).lock().unwrap();
    let mut w = two_locks();
    w.let_(ident("first", 1, 66), locked("a"), 1);
    w.expr(&method(method(ExprModel::Paren(Box::new(ExprModel::Other)), "lock"), "unwrap"), 1);
    assert!(w.deadlocks.is_empty());

    // <prefix> fn f(a: &Mutex, b: &Mutex) { let x = a.lock().unwrap(); let y = b.lock().unwrap(); }
    let prefixes = vec![
        vec![fn_item("f")],
        vec![use_item(&["tokio", "sync"], UseTree::Name("Mutex".to_string())), fn_item("f")],
        vec![ItemModel::Declared("Mutex".to_string()), fn_item("f")],
        vec![use_item(&["custom"], UseTree::Name("Mutex".to_string())), fn_item("f")],
    ];
    for items in prefixes {
        let mut w = Walk::function(items, false, &[("a", ref_to("Mutex", false)), ("b", ref_to("Mutex", false))]);
        w.let_(ident("x", 1, 40), locked("a"), 1);
        w.let_(ident("y", 1, 70), locked("b"), 1);
        assert!(w.deadlocks.is_empty());
    }
    // fn write(a: &mut File, b: &mut File) { a.write(bytes); b.write(bytes); }
    let file = TypeModel::Reference(Box::new(TypeModel::Path { qself: false, path: path(&["File"]) }));
    let mut w = Walk::function(vec![fn_item("write")], false, &[("a", type_clone(&file)), ("b", file)]);
    w.expr(&ExprModel::MethodCall {
        receiver: Box::new(var("a")),
        method: "write".to_string(),
        turbofish: None,
        args: list(vec![var("bytes")]),
    }, 1);
    w.expr(&ExprModel::MethodCall {
        receiver: Box::new(var("b")),
        method: "write".to_string(),
        turbofish: None,
        args: list(vec![var("bytes")]),
    }, 1);
    assert!(w.deadlocks.is_empty());
}

#[test]
fn overlapping_standard_guards_remain_exploratory_at_the_second_acquisition() {
    // use std::sync::Mutex as Lock;
    // fn f(a: &Lock<i32>, b: &Lock<i32>) {
    //     let first = a.lock().unwrap();
    //     let second = b.lock().unwrap();
    // }
    for wildcard in [false, true] {
        let items = vec![
            use_item(&["std", "sync"], UseTree::Rename { ident: "Mutex".to_string(), rename: "Lock".to_string() }),
            fn_item("f"),
        ];
        let mut w = Walk::function(items, false, &[("a", ref_to("Lock", true)), ("b", ref_to("Lock", true))]);
        w.let_(ident("first", 3, 8), locked("a"), 3);
        if wildcard {
            // A wildcard binding does not move or drop an existing guard.
            w.let_(PatModel::Other { names: Vec::new() }, var("first"), 4);
        }
        w.let_(ident("second", 4, 8), locked("b"), 4);
        assert_eq!(w.deadlocks.len(), 1);
        assert_eq!(w.deadlocks[0].location.line_start, 4);
        assert_eq!(w.deadlocks[0].confidence, FindingConfidence::Low);
        assert!(w.deadlocks[0].message.contains("unproven"));
    }
}

#[test]
fn guard_move_and_drop_also_updates_await_evidence() {
    // use std::sync::Mutex; async fn f(lock: &Mutex<i32>) {
    //     let guard = lock.lock().unwrap(); let moved = guard; drop(moved); pending().await;
    // }
    for dropped in [true, false] {
        let mut w = Walk::function(std_mutex(), true, &[("lock", ref_to("Mutex", true))]);
        w.let_(ident("guard", 2, 12), locked("lock"), 2);
        w.let_(ident("moved", 2, 50), var("guard"), 2);
        if dropped {
            w.expr(&call("drop", vec![var("moved")]), 2);
        }
        w.expr(&ExprModel::Await(Box::new(call("pending", vec![]))), 2);
        assert_eq!(w.awaits.len(), if dropped { 0 } else { 1 });
    }
}

fn call_path(func: &[&str], args: Vec<ExprModel>) -> ExprModel {
    ExprModel::Call { func: Box::new(ExprModel::Path(path(func))), args: list(args) }
}

/// `async fn f(m: &std::sync::Mutex<i32>) {` with the body block open.
fn async_with_std_mutex() -> Walk {
    let std_ref = TypeModel::Reference(Box::new(TypeModel::Path {
        qself: false,
        path: PathModel {
            leading_colon: false,
            segments: SegList::Cons(
                Segment { ident: "std".to_string(), args: PathArgs::Bare },
                Box::new(SegList::Cons(
                    Segment { ident: "sync".to_string(), args: PathArgs::Bare },
                    Box::new(SegList::Cons(
                        Segment {
                            ident: "Mutex".to_string(),
                            args: PathArgs::Angle(ArgList::Cons(
                                GenericArg::Type(Box::new(TypeModel::Path { qself: false, path: path(&["i32"]) })),
                                Box::new(ArgList::Nil),
                            )),
                        },
                        Box::new(SegList::Nil),
                    )),
                )),
            ),
        },
    }));
    Walk::function(vec![fn_item("f")], true, &[("m", std_ref)])
}

fn work_await() -> ExprModel {
    ExprModel::Await(Box::new(call("work", vec![])))
}

#[test]
fn guard_must_be_live_at_executed_await() {
    // let g=m.lock().unwrap(); let fut=async { work().await }; drop(g); fut.await;
    let mut w = async_with_std_mutex();
    w.let_(ident("g", 1, 45), locked("m"), 1);
    let kind = w.ctx.expr(&ExprModel::Other);
    w.observe(&ExprModel::Other, 1);
    w.deferred(true, &["work"], |w| w.expr(&work_await(), 1));
    w.ctx.finish_let(&ident("fut", 1, 70), kind, Some(&ExprModel::Other));
    w.expr(&call("drop", vec![var("g")]), 1);
    w.expr(&ExprModel::Await(Box::new(var("fut"))), 1);
    assert!(w.awaits.is_empty());
    // let g=m.lock().unwrap(); { std::mem::drop(g); } work().await;
    let mut w = async_with_std_mutex();
    w.let_(ident("g", 1, 45), locked("m"), 1);
    w.block((1, 70), |w| w.expr(&call_path(&["std", "mem", "drop"], vec![var("g")]), 1));
    w.expr(&work_await(), 1);
    assert!(w.awaits.is_empty());
    // { let g=m.lock().unwrap(); } work().await;
    let mut w = async_with_std_mutex();
    w.block((1, 42), |w| w.let_(ident("g", 1, 48), locked("m"), 1));
    w.expr(&work_await(), 1);
    assert!(w.awaits.is_empty());
    // let g=m.lock().unwrap(); { drop(g); work() }.await;
    let mut w = async_with_std_mutex();
    w.let_(ident("g", 1, 45), locked("m"), 1);
    w.block((1, 70), |w| {
        w.expr(&call("drop", vec![var("g")]), 1);
        w.expr(&call("work", vec![]), 1);
    });
    w.observe(&ExprModel::Await(Box::new(ExprModel::Other)), 1);
    assert!(w.awaits.is_empty());
    // async fn f(reader: Reader) { let count=reader.read(); work().await; }
    let reader = TypeModel::Path { qself: false, path: path(&["Reader"]) };
    let mut w = Walk::function(vec![fn_item("f")], true, &[("reader", reader)]);
    w.let_(ident("count", 1, 35), method(var("reader"), "read"), 1);
    w.expr(&work_await(), 1);
    assert!(w.awaits.is_empty());
    // async fn f(m: tokio::sync::Mutex<i32>) { let g=m.lock().await; work().await; }
    let tokio = TypeModel::Path {
        qself: false,
        path: PathModel {
            leading_colon: false,
            segments: SegList::Cons(
                Segment { ident: "tokio".to_string(), args: PathArgs::Bare },
                Box::new(SegList::Cons(
                    Segment { ident: "sync".to_string(), args: PathArgs::Bare },
                    Box::new(SegList::Cons(Segment { ident: "Mutex".to_string(), args: PathArgs::Bare }, Box::new(SegList::Nil))),
                )),
            ),
        },
    };
    let mut w = Walk::function(vec![fn_item("f")], true, &[("m", tokio)]);
    w.let_(ident("g", 1, 45), ExprModel::Await(Box::new(method(var("m"), "lock"))), 1);
    w.expr(&work_await(), 1);
    assert!(w.awaits.is_empty());
    // use std::sync::Mutex; async fn f(m:&Mutex<i32>) { let g=m.lock().unwrap(); work().await; drop(g); }
    let mut w = Walk::function(std_mutex(), true, &[("m", ref_to("Mutex", true))]);
    w.let_(ident("g", 1, 50), locked("m"), 1);
    w.expr(&work_await(), 1);
    w.expr(&call("drop", vec![var("g")]), 1);
    assert!(!w.awaits.is_empty());
    assert!(w.awaits.iter().all(|s| s.confidence == FindingConfidence::High));
}

#[test]
fn exclusive_output_branches_do_not_imply_deadlock() {
    // use std::io::{self, Write}; fn emit(json: bool, text: &[u8]) -> io::Result<()> {
    //     if json { io::stdout().flush()?; io::stderr().lock().write_all(text) }
    //     else { io::stdout().lock().write_all(text) }
    // }
    let group = UseTree::Group(UseList::Cons(
        Box::new(UseTree::Name("self".to_string())),
        Box::new(UseList::Cons(Box::new(UseTree::Name("Write".to_string())), Box::new(UseList::Nil))),
    ));
    let items = vec![use_item(&["std", "io"], group), fn_item("emit")];
    let mut w = Walk::function(items, false, &[("json", ref_to("bool", false)), ("text", ref_to("u8", false))]);
    let write_all = |stream: &str| ExprModel::MethodCall {
        receiver: Box::new(method(call_path(&["io", stream], vec![]), "lock")),
        method: "write_all".to_string(),
        turbofish: None,
        args: list(vec![var("text")]),
    };
    w.if_else(
        var("json"),
        |w| {
            w.expr(&ExprModel::Try(Box::new(method(call_path(&["io", "stdout"], vec![]), "flush"))), 2);
            w.expr(&write_all("stderr"), 2);
        },
        |w| w.expr(&write_all("stdout"), 3),
    );
    assert!(w.deadlocks.is_empty());
}
