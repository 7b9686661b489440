use qualirs::detectors::local_lock::{LocalLockInSingleThreadedScopeDetector, LocalLockTracker};
use qualirs::domain::{FindingConfidence, Smell};
use qualirs::evidence::{
    Context, ExprList, ExprModel, ItemModel, LitModel, MemberModel, PatModel, PathArgs, PathModel, SegList, Segment,
    TypeModel, UseTree,
};

fn path(parts: &[&str]) -> PathModel {
    let mut segments = SegList::Nil;
    for p in parts.iter().rev() {
        segments = SegList::Cons(Segment { ident: p.to_string(), args: PathArgs::Bare }, Box::new(segments));
    }
    PathModel { leading_colon: false, segments }
}

fn var(name: &str) -> ExprModel {
    ExprModel::Path(path(&[name]))
}

fn call(func: &[&str], arg: ExprModel) -> ExprModel {
    ExprModel::Call {
        func: Box::new(ExprModel::Path(path(func))),
        args: ExprList::Cons(Box::new(arg), Box::new(ExprList::Nil)),
    }
}

fn method(receiver: ExprModel, name: &str) -> ExprModel {
    ExprModel::MethodCall { receiver: Box::new(receiver), method: name.to_string(), turbofish: None, args: ExprList::Nil }
}

fn use_item(parts: &[&str], last: UseTree) -> ItemModel {
    let mut tree = last;
    for p in parts.iter().rev() {
        tree = UseTree::Path { ident: p.to_string(), tree: Box::new(tree) };
    }
    ItemModel::Use { leading_colon: false, tree }
}

fn fn_item(name: &str) -> ItemModel {
    ItemModel::Fn { ident: name.to_string(), asyncness: false, type_generics: Vec::new(), output: None }
}

/// `fn f() { let lock = <ctor>(arg); lock.<locking>(); }` on one line, the
/// binding at column 30: the expressions in the order the traversal meets
/// them, then the detector's findings.
fn single_use(items: Vec<ItemModel>, ctor: &[&str], locking: &str) -> Vec<Smell> {
    let mut ctx = Context::new(&items);
    ctx.start_function(false, false, (1, 3), &Vec::new());
    let mut tracker = LocalLockTracker::new();
    let init = call(ctor, ExprModel::Lit(LitModel::Int(Some(0))));
    tracker.observe(&ctx, &init, Some(((1, 30), "lock".to_string())), 1, "");
    let kind = ctx.expr(&init);
    ctx.bind(&PatModel::Ident { name: "lock".to_string(), by_ref: false, line: 1, column: 30 }, kind);
    tracker.observe(&ctx, &method(var("lock"), locking), None, 1, "");
    tracker.observe(&ctx, &var("lock"), None, 1, "");
    LocalLockInSingleThreadedScopeDetector.detect("src/lib.rs", &tracker)
}

#[test]
fn file_locks_and_custom_names_are_not_standard_memory_locks() {
    // use fd_lock::RwLock; / tokio::sync::RwLock / custom::RwLock;
    // fn f() { let mut lock = RwLock::new(open_file()?); let _ = lock.write()?; }
    for root in [vec!["fd_lock"], vec!["tokio", "sync"], vec!["custom"]] {
        let import = use_item(&root, UseTree::Name("RwLock".to_string()));
        assert!(single_use(vec![import, fn_item("f")], &["RwLock", "new"], "write").is_empty());
    }
    // fn f() { let lock = fd_lock::RwLock::new(file); lock.write(); }
    assert!(single_use(vec![fn_item("f")], &["fd_lock", "RwLock", "new"], "write").is_empty());
    // struct Mutex; fn f() { let lock = Mutex::new(0); lock.lock(); }
    let local = ItemModel::Declared("Mutex".to_string());
    assert!(single_use(vec![local, fn_item("f")], &["Mutex", "new"], "lock").is_empty());
    // fn f() { let lock = Mutex::new(0); lock.lock(); }
    assert!(single_use(vec![fn_item("f")], &["Mutex", "new"], "lock").is_empty());
    // mod std { pub mod sync { pub struct Mutex; } } fn f() { let lock = std::sync::Mutex::new(0); lock.lock(); }
    let shadow = ItemModel::Declared("std".to_string());
    assert!(single_use(vec![shadow, fn_item("f")], &["std", "sync", "Mutex", "new"], "lock").is_empty());
    // use std::sync::Mutex; fn f() { let lock = Mutex::new(0); lock.lock(); }
    let import = use_item(&["std", "sync"], UseTree::Name("Mutex".to_string()));
    let found = single_use(vec![import, fn_item("f")], &["Mutex", "new"], "lock");
    assert_eq!(found.len(), 1);
    assert_eq!(found[0].confidence, FindingConfidence::High);
    // use std::sync::Mutex as Gate; fn f() { let lock = Gate::new(0); lock.lock(); }
    let renamed = use_item(&["std", "sync"], UseTree::Rename { ident: "Mutex".to_string(), rename: "Gate".to_string() });
    let found = single_use(vec![renamed, fn_item("f")], &["Gate", "new"], "lock");
    assert_eq!(found.len(), 1);
    assert_eq!(found[0].confidence, FindingConfidence::High);
    // fn f() { let lock = std::sync::RwLock::new(0); lock.write(); }
    let found = single_use(vec![fn_item("f")], &["std", "sync", "RwLock", "new"], "write");
    assert_eq!(found.len(), 1);
    assert_eq!(found[0].confidence, FindingConfidence::High);
}

#[test]
fn only_standard_constructors_start_tracking_a_lock() {
    // A tracker shown only unresolved constructors and lock calls holds no lock.
    let mut ctx = Context::new(&vec![fn_item("f")]);
    ctx.start_function(false, false, (1, 3), &Vec::new());
    let mut tracker = LocalLockTracker::new();
    tracker.observe(&ctx, &call(&["Mutex", "new"], var("x")), Some(((1, 30), "lock".to_string())), 1, "");
    tracker.observe(&ctx, &method(var("lock"), "lock"), None, 1, "");
    assert!(tracker.locks().is_empty());
    // The standard constructor starts one, under the binding's origin and name.
    tracker.observe(&ctx, &call(&["std", "sync", "Mutex", "new"], var("x")), Some(((2, 30), "gate".to_string())), 2, "");
    assert_eq!(tracker.locks().len(), 1);
    assert_eq!(tracker.locks()[0].origin, (2, 30));
    assert_eq!(tracker.locks()[0].name, "gate");
    assert_eq!(tracker.locks()[0].uses, 0);
}

/// A function body walked for the lock tracker: expressions are shown
/// before their operands, a `let` is finished after its initializer.
struct LockWalk {
    ctx: Context,
    tracker: LocalLockTracker,
}

impl LockWalk {
    /// `fn <name>() {` on `line`, under `use std::sync::Mutex;`.
    fn function(tracker: LocalLockTracker, line: usize) -> LockWalk {
        let import = use_item(&["std", "sync"], UseTree::Name("Mutex".to_string()));
        let mut ctx = Context::new(&vec![import, fn_item("f"), fn_item("g")]);
        ctx.start_function(false, false, (line, 3), &Vec::new());
        LockWalk { ctx, tracker }
    }

    fn expr(&mut self, e: &ExprModel, line: usize) {
        self.observe(e, None, line, "");
        self.operands(e, line);
    }

    fn observe(&mut self, e: &ExprModel, local: Option<((usize, usize), String)>, line: usize, tokens: &str) {
        self.tracker.observe(&self.ctx, e, local, line, tokens);
    }

    fn operands(&mut self, e: &ExprModel, line: usize) {
        match e {
            ExprModel::MethodCall { receiver, args, .. } => {
                self.expr(receiver, line);
                self.list(args, line);
            },
            ExprModel::Call { func, args } => {
                self.expr(func, line);
                self.list(args, line);
            },
            ExprModel::Reference { expr, .. } => self.expr(expr, line),
            ExprModel::Field { base, .. } => self.expr(base, line),
            _ => {},
        }
    }

    fn list(&mut self, args: &ExprList, line: usize) {
        if let ExprList::Cons(e, rest) = args {
            self.expr(e, line);
            self.list(rest, line);
        }
    }

    /// `let <name> = <init>;` with the name at `at`.
    fn let_(&mut self, name: &str, at: (usize, usize), init: ExprModel) {
        let kind = self.ctx.expr(&init);
        self.observe(&init, Some((at, name.to_string())), at.0, "");
        self.operands(&init, at.0);
        let pat = PatModel::Ident { name: name.to_string(), by_ref: false, line: at.0, column: at.1 };
        self.ctx.finish_let(&pat, kind, Some(&init));
    }

    /// `let lock = Mutex::new(0); lock.lock();` at the start of the body.
    fn locked_once(&mut self, line: usize) {
        self.let_("lock", (line, 30), call(&["Mutex", "new"], ExprModel::Lit(LitModel::Int(Some(0)))));
        self.expr(&method(var("lock"), "lock"), line);
    }

    fn findings(&self) -> Vec<Smell> {
        LocalLockInSingleThreadedScopeDetector.detect("src/lib.rs", &self.tracker)
    }
}

fn args(list: Vec<ExprModel>) -> ExprList {
    list.into_iter().rev().fold(ExprList::Nil, |rest, e| ExprList::Cons(Box::new(e), Box::new(rest)))
}

fn call_with(func: &[&str], list: Vec<ExprModel>) -> ExprModel {
    ExprModel::Call { func: Box::new(ExprModel::Path(path(func))), args: args(list) }
}

#[test]
fn lock_usage_accounts_for_later_sharing_shadowing_and_execution_scopes() {
    // use std::sync::Mutex; fn f() { let lock = Mutex::new(0); lock.lock(); <later> }
    let later: Vec<Box<dyn Fn(&mut LockWalk)>> = vec![
        // let shared = std::sync::Arc::new(lock);
        Box::new(|w| w.let_("shared", (1, 80), call_with(&["std", "sync", "Arc", "new"], vec![var("lock")]))),
        // send(&lock);
        Box::new(|w| {
            w.expr(&call_with(&["send"], vec![ExprModel::Reference { mutable: false, expr: Box::new(var("lock")) }]), 1)
        }),
        // store(lock);
        Box::new(|w| w.expr(&call_with(&["store"], vec![var("lock")]), 1)),
        // let borrowed = &lock;
        Box::new(|w| w.let_("borrowed", (1, 80), ExprModel::Reference { mutable: false, expr: Box::new(var("lock")) })),
        // let work = || { lock.lock(); };
        Box::new(|w| {
            let prev = w.ctx.snapshot();
            w.ctx.enter_closure(false, (1, 91));
            w.expr(&method(var("lock"), "lock"), 1);
            w.ctx = prev;
        }),
        // let work = async { lock.lock(); };
        Box::new(|w| {
            let prev = w.ctx.snapshot();
            w.ctx.enter_async_block((1, 91));
            w.expr(&method(var("lock"), "lock"), 1);
            w.ctx = prev;
        }),
        // observe!(lock);
        Box::new(|w| w.observe(&ExprModel::Macro(path(&["observe"])), None, 1, "lock")),
        // lock.get_mut();
        Box::new(|w| w.expr(&method(var("lock"), "get_mut"), 1)),
    ];
    for (n, step) in later.iter().enumerate() {
        let mut w = LockWalk::function(LocalLockTracker::new(), 1);
        w.locked_once(1);
        step(&mut w);
        assert!(w.findings().is_empty(), "case {n}");
    }
    // fn f() { let lock = Mutex::new(0); let lock = other(); lock.lock(); }
    let mut w = LockWalk::function(LocalLockTracker::new(), 1);
    w.let_("lock", (1, 30), call(&["Mutex", "new"], ExprModel::Lit(LitModel::Int(Some(0)))));
    w.let_("lock", (1, 60), call_with(&["other"], vec![]));
    w.expr(&method(var("lock"), "lock"), 1);
    assert!(w.findings().is_empty());
    // fn f() { let lock = Mutex::new(0); self.lock.lock(); }
    let mut w = LockWalk::function(LocalLockTracker::new(), 1);
    w.let_("lock", (1, 30), call(&["Mutex", "new"], ExprModel::Lit(LitModel::Int(Some(0)))));
    let field = ExprModel::Field { base: Box::new(var("self")), member: MemberModel::Named("lock".to_string()) };
    w.expr(&method(field, "lock"), 1);
    assert!(w.findings().is_empty());
    // fn f() { let lock = Mutex::new(0); fn g(lock: Other) { lock.lock(); } }
    let mut w = LockWalk::function(LocalLockTracker::new(), 1);
    w.let_("lock", (1, 30), call(&["Mutex", "new"], ExprModel::Lit(LitModel::Int(Some(0)))));
    let prev = w.ctx.snapshot();
    w.ctx.start_function(false, false, (1, 60), &Vec::new());
    let other = TypeModel::Path { qself: false, path: path(&["Other"]) };
    let k = w.ctx.kind(&other);
    w.ctx.bind(&PatModel::Ident { name: "lock".to_string(), by_ref: false, line: 1, column: 62 }, k);
    w.expr(&method(var("lock"), "lock"), 1);
    w.ctx = prev;
    assert!(w.findings().is_empty());
    // use std::sync::Mutex;
    // fn f() { let lock = Mutex::new(0); lock.lock(); }
    // fn g() { let lock = Mutex::new(0); lock.lock(); }
    let mut w = LockWalk::function(LocalLockTracker::new(), 2);
    w.locked_once(2);
    let mut w = LockWalk::function(w.tracker, 3);
    w.locked_once(3);
    let found = w.findings();
    assert_eq!(found.len(), 2);
    assert_eq!(found.iter().map(|f| f.location.line_start).collect::<Vec<_>>(), vec![2, 3]);
    // fn f() { let lock = Mutex::new(0); { let lock = other(); consume(lock); } lock.lock(); }
    let mut w = LockWalk::function(LocalLockTracker::new(), 1);
    w.let_("lock", (1, 30), call(&["Mutex", "new"], ExprModel::Lit(LitModel::Int(Some(0)))));
    let saved = w.ctx.snapshot();
    w.ctx.enter_block((1, 50), &Vec::new());
    w.let_("lock", (1, 56), call_with(&["other"], vec![]));
    w.expr(&call_with(&["consume"], vec![var("lock")]), 1);
    w.ctx.pop_scope();
    w.ctx.items = saved.items;
    w.ctx.origins = saved.origins;
    w.ctx.block = saved.block;
    w.expr(&method(var("lock"), "lock"), 1);
    assert_eq!(w.findings().len(), 1);
}
