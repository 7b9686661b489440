use qualirs::detectors::concurrency::SyncDropBlockingDetector;
use qualirs::detectors::destructors::{drop_scopes, DropItem, DropItems};
use qualirs::domain::{FindingConfidence, Severity, Smell};
use qualirs::evidence::{
    ArgList, Context, ExprList, ExprModel, GenericArg, ItemModel, MemberModel, PathArgs, PathModel, SegList, Segment,
    TypeModel, UseTree,
};

fn path(parts: &[&str]) -> PathModel {
    let mut segments = SegList::Nil;
    for p in parts.iter().rev() {
        segments = SegList::Cons(Segment { ident: p.to_string(), args: PathArgs::Bare }, Box::new(segments));
    }
    PathModel { leading_colon: false, segments }
}

fn list(items: Vec<DropItem>) -> DropItems {
    items.into_iter().rev().fold(DropItems::Nil, |rest, item| DropItems::Cons(Box::new(item), Box::new(rest)))
}

fn file_struct(name: &str) -> DropItem {
    DropItem::Struct {
        ident: name.to_string(),
        fields: vec![(
            MemberModel::Named("file".to_string()),
            TypeModel::Path { qself: false, path: path(&["std", "fs", "File"]) },
        )],
    }
}

fn impl_of(trait_path: &[&str], self_ident: &str, methods: &[(&str, (usize, usize))]) -> DropItem {
    DropItem::TraitImpl {
        trait_path: path(trait_path),
        self_ident: Some(self_ident.to_string()),
        methods: methods.iter().map(|(n, p)| (n.to_string(), *p)).collect(),
    }
}

#[test]
fn drop_methods_of_drop_impls_carry_their_struct_fields() {
    // struct Log { file: std::fs::File }
    // impl Drop for Log { fn flush(&mut self) {} fn drop(&mut self) {} }
    // impl Clone for Log { fn drop(&self) {} }
    let file = list(vec![
        file_struct("Log"),
        impl_of(&["Drop"], "Log", &[("flush", (2, 22)), ("drop", (2, 45))]),
        impl_of(&["Clone"], "Log", &[("drop", (3, 26))]),
    ]);
    let scopes = drop_scopes(&vec![], &file);
    assert_eq!(scopes.len(), 1);
    assert_eq!(scopes[0].position, (2, 45));
    assert_eq!(scopes[0].fields.len(), 1);
    assert!(matches!(&scopes[0].fields[0].0, MemberModel::Named(n) if n == "file"));
}

#[test]
fn drop_trait_is_resolved_through_the_module_imports() {
    // use std::ops::Drop as Cleanup; impl Cleanup for Gone { fn drop(&mut self) {} }
    let import = ItemModel::Use {
        leading_colon: false,
        tree: UseTree::Path {
            ident: "std".to_string(),
            tree: Box::new(UseTree::Path {
                ident: "ops".to_string(),
                tree: Box::new(UseTree::Rename { ident: "Drop".to_string(), rename: "Cleanup".to_string() }),
            }),
        },
    };
    let file = list(vec![impl_of(&["Cleanup"], "Gone", &[("drop", (1, 60))])]);
    let scopes = drop_scopes(&vec![import], &file);
    assert_eq!(scopes.len(), 1);
    assert_eq!(scopes[0].position, (1, 60));
    // Without a struct named `Gone` in the module, the destructor has no fields.
    assert!(scopes[0].fields.is_empty());
    let unresolved = list(vec![impl_of(&["Cleanup"], "Gone", &[("drop", (1, 60))])]);
    assert!(drop_scopes(&vec![], &unresolved).is_empty());
}

#[test]
fn modules_look_up_their_own_structs_and_nested_impls_the_enclosing_ones() {
    // struct Log { file: File }
    // mod inner { struct Log; impl Drop for Log { fn drop(&mut self) {} } }
    // fn f() { impl Drop for Log { fn drop(&mut self) {} } }
    let inner = DropItem::Module {
        items: vec![ItemModel::Declared("Log".to_string())],
        content: Box::new(list(vec![
            DropItem::Struct { ident: "Log".to_string(), fields: vec![] },
            impl_of(&["Drop"], "Log", &[("drop", (3, 50))]),
        ])),
    };
    let nested = DropItem::Nested(Box::new(list(vec![impl_of(&["std", "ops", "Drop"], "Log", &[("drop", (4, 40))])])));
    let file = list(vec![file_struct("Log"), inner, nested]);
    let scopes = drop_scopes(&vec![], &file);
    assert_eq!(scopes.len(), 2);
    assert_eq!(scopes[0].position, (3, 50));
    assert!(scopes[0].fields.is_empty());
    assert_eq!(scopes[1].position, (4, 40));
    assert_eq!(scopes[1].fields.len(), 1);
}

fn generic_path(parts: &[&str], arg: TypeModel) -> TypeModel {
    let (last, front) = parts.split_last().unwrap();
    let args = PathArgs::Angle(ArgList::Cons(GenericArg::Type(Box::new(arg)), Box::new(ArgList::Nil)));
    let mut segments = SegList::Cons(Segment { ident: last.to_string(), args }, Box::new(SegList::Nil));
    for p in front.iter().rev() {
        segments = SegList::Cons(Segment { ident: p.to_string(), args: PathArgs::Bare }, Box::new(segments));
    }
    TypeModel::Path { qself: false, path: PathModel { leading_colon: false, segments } }
}

fn ty(parts: &[&str]) -> TypeModel {
    TypeModel::Path { qself: false, path: path(parts) }
}

fn call(func: &[&str]) -> ExprModel {
    ExprModel::Call { func: Box::new(ExprModel::Path(path(func))), args: ExprList::Nil }
}

/// `self.<field>.<name>()`, or `self.<name>()` without a field.
fn self_call(field: Option<&str>, name: &str) -> ExprModel {
    let this = ExprModel::Path(path(&["self"]));
    let receiver = match field {
        Some(f) => ExprModel::Field { base: Box::new(this), member: MemberModel::Named(f.to_string()) },
        None => this,
    };
    ExprModel::MethodCall { receiver: Box::new(receiver), method: name.to_string(), turbofish: None, args: ExprList::Nil }
}

/// One struct `name` with the given fields and a `Drop` impl whose `drop`
/// name is at (1, 60); the findings for expressions evaluated in it.
struct DropCase {
    items: Vec<ItemModel>,
    scopes: Vec<qualirs::detectors::concurrency::DropScope>,
}

impl DropCase {
    fn new(items: Vec<ItemModel>, name: &str, fields: Vec<(&str, TypeModel)>) -> DropCase {
        let record = DropItem::Struct {
            ident: name.to_string(),
            fields: fields.into_iter().map(|(f, t)| (MemberModel::Named(f.to_string()), t)).collect(),
        };
        let tree = list(vec![record, impl_of(&["Drop"], name, &[("drop", (1, 60))])]);
        let scopes = drop_scopes(&items, &tree);
        DropCase { items, scopes }
    }

    /// A context inside the body of `drop`.
    fn body(&self) -> Context {
        let mut ctx = Context::new(&self.items);
        ctx.start_function(false, false, (1, 60), &Vec::new());
        ctx
    }

    fn findings(&self, ctx: &Context, e: ExprModel) -> Vec<Smell> {
        let mut out = Vec::new();
        SyncDropBlockingDetector.observe("src/lib.rs", ctx, &self.scopes, &e, 1, &mut out);
        out
    }
}

#[test]
fn drop_requires_blocking_evidence_and_executed_work() {
    // type Lock = std::sync::Mutex<u8>; struct D { lock: Lock }
    // impl Drop for D { fn drop(&mut self) { self.lock.lock(); } }
    let alias = ItemModel::TypeAlias {
        ident: "Lock".to_string(),
        generic: false,
        ty: generic_path(&["std", "sync", "Mutex"], ty(&["u8"])),
    };
    let d = DropCase::new(vec![alias, ItemModel::Declared("D".to_string())], "D", vec![("lock", ty(&["Lock"]))]);
    assert!(d.findings(&d.body(), self_call(Some("lock"), "lock")).is_empty());
    // struct Owned { lock: <primitive><u32> } impl Drop for Owned { fn drop(&mut self) { self.lock.lock(); } }
    for primitive in [["std", "sync", "Mutex"], ["parking_lot", "Mutex", ""], ["tokio", "sync", "Mutex"]] {
        let parts: Vec<&str> = primitive.iter().copied().filter(|p| !p.is_empty()).collect();
        let d = DropCase::new(
            vec![ItemModel::Declared("Owned".to_string())],
            "Owned",
            vec![("lock", generic_path(&parts, ty(&["u32"])))],
        );
        assert!(d.findings(&d.body(), self_call(Some("lock"), "lock")).is_empty(), "{parts:?}");
    }
    // struct D; impl Drop for D { fn drop(&mut self) { let later = async { std::thread::park(); };
    //   let callback = || std::thread::park(); fn nested() { std::thread::park(); } } }
    let d = DropCase::new(vec![ItemModel::Declared("D".to_string())], "D", vec![]);
    let mut in_async = d.body();
    in_async.enter_async_block((1, 90));
    assert!(d.findings(&in_async, call(&["std", "thread", "park"])).is_empty());
    let mut in_closure = d.body();
    in_closure.enter_closure(false, (1, 140));
    assert!(d.findings(&in_closure, call(&["std", "thread", "park"])).is_empty());
    let mut in_nested = d.body();
    in_nested.enter_block((1, 75), &vec![ItemModel::Fn {
        ident: "nested".to_string(),
        asyncness: false,
        type_generics: Vec::new(),
        output: None,
    }]);
    in_nested.start_function(false, false, (1, 170), &Vec::new());
    assert!(d.findings(&in_nested, call(&["std", "thread", "park"])).is_empty());
    // fn sleep() {} struct D; impl Drop for D { fn drop(&mut self) { sleep(); } }
    let sleep = ItemModel::Fn { ident: "sleep".to_string(), asyncness: false, type_generics: Vec::new(), output: None };
    let d = DropCase::new(vec![sleep, ItemModel::Declared("D".to_string())], "D", vec![]);
    assert!(d.findings(&d.body(), call(&["sleep"])).is_empty());
    // struct D; impl Drop for D { fn drop(&mut self) { self.flush(); } }
    let d = DropCase::new(vec![ItemModel::Declared("D".to_string())], "D", vec![]);
    let found = d.findings(&d.body(), self_call(None, "flush"));
    assert!(!found.is_empty() && found.iter().all(|f| f.confidence == FindingConfidence::Low));
    // use std::thread::park as pause; struct D; impl Drop for D { fn drop(&mut self) { pause(); } }
    let pause = ItemModel::Use {
        leading_colon: false,
        tree: UseTree::Path {
            ident: "std".to_string(),
            tree: Box::new(UseTree::Path {
                ident: "thread".to_string(),
                tree: Box::new(UseTree::Rename { ident: "park".to_string(), rename: "pause".to_string() }),
            }),
        },
    };
    let d = DropCase::new(vec![pause, ItemModel::Declared("D".to_string())], "D", vec![]);
    let found = d.findings(&d.body(), call(&["pause"]));
    assert!(!found.is_empty() && found.iter().all(|f| f.confidence == FindingConfidence::High));
    // struct D { file: std::fs::File } impl Drop for D { fn drop(&mut self) { self.file.sync_all(); } }
    let d = DropCase::new(vec![ItemModel::Declared("D".to_string())], "D", vec![("file", ty(&["std", "fs", "File"]))]);
    let found = d.findings(&d.body(), self_call(Some("file"), "sync_all"));
    assert_eq!(found.len(), 1);
    assert_eq!(found[0].confidence, FindingConfidence::High);
    assert_eq!(found[0].severity, Severity::Warning);
    // The same call outside any destructor is not reported.
    let mut elsewhere = Context::new(&d.items);
    elsewhere.start_function(false, false, (9, 3), &Vec::new());
    assert!(d.findings(&elsewhere, self_call(Some("file"), "sync_all")).is_empty());
}
