use qualirs::detectors::derivable::{DerivableImplDetector, FieldInit, ImplFnModel, ImplModel, StructLitModel, StructModel};
use qualirs::detectors::implementation::{FnItemLifetimes, NeedlessExplicitLifetimeDetector};
use qualirs::domain::{FindingConfidence, Smell};
use qualirs::evidence::{
    BinOpModel, Context, ExprList, ExprModel, LitModel, MemberModel, PathArgs, PathModel, SegList, Segment, TypeModel,
};
use qualirs::lifetimes::{FnLifetimes, TypeShape};

fn path(parts: &[&str]) -> PathModel {
    let mut segments = SegList::Nil;
    for p in parts.iter().rev() {
        segments = SegList::Cons(Segment { ident: p.to_string(), args: PathArgs::Bare }, Box::new(segments));
    }
    PathModel { leading_colon: false, segments }
}

fn ty(parts: &[&str]) -> TypeModel {
    TypeModel::Path { qself: false, path: path(parts) }
}

fn record(name: &str, generic: bool, fields: Vec<(&str, TypeModel)>) -> StructModel {
    let types: Vec<TypeModel> = fields.iter().map(|(_, t)| qualirs::evidence::type_clone(t)).collect();
    StructModel {
        ident: name.to_string(),
        generic,
        has_params: generic,
        derives: Vec::new(),
        cfg: false,
        field_attrs: false,
        field_count: fields.len(),
        named: Some(fields.into_iter().map(|(n, t)| (n.to_string(), t)).collect()),
        field_types: types,
    }
}

/// `impl <trait_path> for <self_ty> { fn <ident>(..) -> <output> { <body> } }`.
fn one_method_impl(
    trait_path: &[&str],
    self_ty: TypeModel,
    generic: bool,
    ident: &str,
    inputs: usize,
    output: TypeModel,
    body: Option<StructLitModel>,
) -> ImplModel {
    ImplModel {
        line: 1,
        generic,
        has_params: generic,
        attrs: false,
        trait_path: Some(path(trait_path)),
        self_ty,
        items: vec![Some(ImplFnModel {
            line: 1,
            attrs: false,
            generic: false,
            has_params: false,
            is_const: false,
            ident: ident.to_string(),
            input_count: inputs,
            output: Some(output),
            body,
        })],
    }
}

/// `Self { x: <value> }`.
fn self_x(value: ExprModel) -> Option<StructLitModel> {
    Some(StructLitModel { path: path(&["Self"]), rest: false, fields: vec![FieldInit { member: Some("x".to_string()), value }] })
}

fn self_field_x() -> ExprModel {
    ExprModel::Field { base: Box::new(ExprModel::Path(path(&["self"]))), member: MemberModel::Named("x".to_string()) }
}

fn derivable(s: StructModel, imp: ImplModel) -> Vec<Smell> {
    let ctx = Context::new(&Vec::new());
    DerivableImplDetector.detect("src/lib.rs", &ctx, &vec![s], &vec![imp])
}

fn positive(found: &[Smell]) -> bool {
    !found.is_empty() && found.iter().all(|s| s.confidence == FindingConfidence::High)
}

/// `fn f<'a..>(x: &'a str ..) -> ..`, one generic lifetime `'a`.
fn lifetimes(bounded: bool, inputs: usize, output: TypeShape, body_has_lifetime: bool, body_tokens: &str) -> FnItemLifetimes {
    FnItemLifetimes {
        line: 1,
        lifetimes: FnLifetimes {
            generic_params: 1,
            has_where_clause: false,
            inputs,
            first_lifetime: Some(("a".to_string(), bounded)),
            first_input: Some(TypeShape::Reference { lifetime: Some("a".to_string()), simple_elem: true }),
            output: Some(output),
            body_has_lifetime,
            body_tokens: body_tokens.to_string(),
        },
    }
}

fn str_ref(lifetime: &str) -> TypeShape {
    TypeShape::Reference { lifetime: Some(lifetime.to_string()), simple_elem: true }
}

#[test]
fn custom_derives_and_lifetime_bounds_are_preserved() {
    // struct Secret(String); impl std::fmt::Debug for Secret {
    //     fn fmt(&self, f: &mut std::fmt::Formatter<'_>) -> std::fmt::Result { f.write_str("REDACTED") } }
    let secret = StructModel {
        ident: "Secret".to_string(),
        generic: false,
        has_params: false,
        derives: Vec::new(),
        cfg: false,
        field_attrs: false,
        field_count: 1,
        named: None,
        field_types: vec![ty(&["String"])],
    };
    let debug = one_method_impl(&["std", "fmt", "Debug"], ty(&["Secret"]), false, "fmt", 2, ty(&["std", "fmt", "Result"]), None);
    assert!(derivable(secret, debug).is_empty());
    // struct S { x:u32 } impl Clone for S { fn clone(&self)->Self { Self {x:self.x+1} } }
    let plus_one = ExprModel::Binary {
        op: BinOpModel::Add,
        left: Box::new(self_field_x()),
        right: Box::new(ExprModel::Lit(LitModel::Int(Some(1)))),
    };
    let clone = one_method_impl(&["Clone"], ty(&["S"]), false, "clone", 1, ty(&["Self"]), self_x(plus_one));
    assert!(derivable(record("S", false, vec![("x", ty(&["u32"]))]), clone).is_empty());
    // struct S<T> { x:T } impl<T> Default for S<T> { fn default()->Self { Self {x:Default::default()} } }
    let default_call = ExprModel::Call { func: Box::new(ExprModel::Path(path(&["Default", "default"]))), args: ExprList::Nil };
    let generic = one_method_impl(&["Default"], ty(&["S"]), true, "default", 0, ty(&["Self"]), self_x(default_call));
    assert!(derivable(record("S", true, vec![("x", ty(&["T"]))]), generic).is_empty());
    // struct S { x:String } impl Default for S { fn default()->Self { Self {x:String::new()} } }
    let new_string = ExprModel::Call { func: Box::new(ExprModel::Path(path(&["String", "new"]))), args: ExprList::Nil };
    let default = one_method_impl(&["Default"], ty(&["S"]), false, "default", 0, ty(&["Self"]), self_x(new_string));
    assert!(positive(&derivable(record("S", false, vec![("x", ty(&["String"]))]), default)));
    // struct S { x:String } impl Clone for S { fn clone(&self)->Self { Self {x:self.x.clone()} } }
    let cloned = ExprModel::MethodCall {
        receiver: Box::new(self_field_x()),
        method: "clone".to_string(),
        turbofish: None,
        args: ExprList::Nil,
    };
    let clone = one_method_impl(&["Clone"], ty(&["S"]), false, "clone", 1, ty(&["Self"]), self_x(cloned));
    assert!(positive(&derivable(record("S", false, vec![("x", ty(&["String"]))]), clone)));

    let d = NeedlessExplicitLifetimeDetector;
    // fn f<'a:'static>(x:&'a str)->&'static str { x }
    assert!(d.detect("src/lib.rs", &vec![lifetimes(true, 1, str_ref("static"), false, "{ x }")]).is_empty());
    // fn f<'a>(x:&'a str,y:Holder<'a>)->&'a str { x }
    assert!(d.detect("src/lib.rs", &vec![lifetimes(false, 2, str_ref("a"), false, "{ x }")]).is_empty());
    // fn f<'a>(x:&'a str)->&'a str { let y:&'a str=x; y }
    let typed = lifetimes(false, 1, str_ref("a"), true, "{ let y : & 'a str = x ; y }");
    assert!(d.detect("src/lib.rs", &vec![typed]).is_empty());
    // fn f<'a>(x:&'a str)->&'a str { x }
    assert!(positive(&d.detect("src/lib.rs", &vec![lifetimes(false, 1, str_ref("a"), false, "{ x }")])));
}

fn pair(a: TypeModel, b: TypeModel) -> TypeModel {
    TypeModel::Tuple(qualirs::evidence::TypeList::Cons(
        Box::new(a),
        Box::new(qualirs::evidence::TypeList::Cons(Box::new(b), Box::new(qualirs::evidence::TypeList::Nil))),
    ))
}

#[test]
fn eq_is_proven_through_references_slices_arrays_and_pairs() {
    let ctx = Context::new(&Vec::new());
    let proven = || ty(&["u32"]);
    let unknown = || ty(&["Custom"]);
    assert!(ctx.proves_eq(&proven()));
    assert!(!ctx.proves_eq(&unknown()));
    assert!(ctx.proves_eq(&TypeModel::Reference(Box::new(proven()))));
    assert!(ctx.proves_eq(&TypeModel::Array(Box::new(proven()))));
    assert!(ctx.proves_eq(&TypeModel::Slice(Box::new(proven()))));
    assert!(!ctx.proves_eq(&TypeModel::Slice(Box::new(unknown()))));
    assert!(ctx.proves_eq(&pair(proven(), proven())));
    assert!(!ctx.proves_eq(&pair(proven(), unknown())));
    // A type nested more than 16 levels deep is never proven.
    let mut deep = proven();
    for _ in 0..17 {
        deep = TypeModel::Reference(Box::new(deep));
    }
    assert!(!ctx.proves_eq(&deep));
    let mut shallow = proven();
    for _ in 0..16 {
        shallow = TypeModel::Reference(Box::new(shallow));
    }
    assert!(ctx.proves_eq(&shallow));
}

use qualirs::detectors::derivable::ManualDefaultConstructorDetector;
use qualirs::evidence::{ArgList, GenericArg, ItemModel, UseTree};

fn generic1(name: &str, arg: TypeModel) -> TypeModel {
    let args = PathArgs::Angle(ArgList::Cons(GenericArg::Type(Box::new(arg)), Box::new(ArgList::Nil)));
    TypeModel::Path {
        qself: false,
        path: PathModel { leading_colon: false, segments: SegList::Cons(Segment { ident: name.to_string(), args }, Box::new(SegList::Nil)) },
    }
}

/// `impl <name> { [const] fn new() -> Self { <body> } }`.
fn inherent_new(name: &str, is_const: bool, body: Option<StructLitModel>) -> ImplModel {
    ImplModel {
        line: 1,
        generic: false,
        has_params: false,
        attrs: false,
        trait_path: None,
        self_ty: ty(&[name]),
        items: vec![Some(ImplFnModel {
            line: 1,
            attrs: false,
            generic: false,
            has_params: false,
            is_const,
            ident: "new".to_string(),
            input_count: 0,
            output: Some(ty(&["Self"])),
            body,
        })],
    }
}

/// `Self { values: <ctor>() }`.
fn values_from(ctor: &[&str]) -> Option<StructLitModel> {
    let call = ExprModel::Call { func: Box::new(ExprModel::Path(path(ctor))), args: ExprList::Nil };
    Some(StructLitModel { path: path(&["Self"]), rest: false, fields: vec![FieldInit { member: Some("values".to_string()), value: call }] })
}

fn manual_default(items: Vec<ItemModel>, s: StructModel, impls: Vec<ImplModel>) -> Vec<Smell> {
    let ctx = Context::new(&items);
    ManualDefaultConstructorDetector.detect("src/lib.rs", &ctx, &vec![s], &impls)
}

#[test]
fn all_audited_default_delegations_are_already_idiomatic() {
    let vec_u8 = || generic1("Vec", ty(&["u8"]));
    // #[derive(Default)] struct <name> { values: Vec<u8> } impl <name> { fn new() -> Self { Self::default() } }
    for name in [
        "CompactStoreBuilder",
        "ZoneMap",
        "ProjectionSpec",
        "Statistics",
        "RdfStatistics",
        "RdfStatisticsCollector",
        "EmbeddingOptions",
    ] {
        let mut s = record(name, false, vec![("values", vec_u8())]);
        s.derives = vec![path(&["Default"])];
        let imp = inherent_new(name, false, None);
        assert!(manual_default(vec![ItemModel::Declared(name.to_string())], s, vec![imp]).is_empty(), "{name}");
    }
    // struct Bag { values: Vec<u8> } impl Bag { fn new() -> Self { Self { values: Vec::new() } } }
    // impl Default for Bag { fn default() -> Self { Self::new() } }
    let delegating = one_method_impl(&["Default"], ty(&["Bag"]), false, "default", 0, ty(&["Self"]), None);
    let found = manual_default(
        vec![ItemModel::Declared("Bag".to_string())],
        record("Bag", false, vec![("values", vec_u8())]),
        vec![inherent_new("Bag", false, values_from(&["Vec", "new"])), delegating],
    );
    assert!(found.is_empty());
    // struct Bag { values: Vec<u8> } impl Bag { const fn new() -> Self { Self { values: Vec::new() } } }
    let found = manual_default(
        vec![ItemModel::Declared("Bag".to_string())],
        record("Bag", false, vec![("values", vec_u8())]),
        vec![inherent_new("Bag", true, values_from(&["Vec", "new"]))],
    );
    assert!(found.is_empty());
    // struct Vec; struct Bag { values: Vec } impl Bag { fn new() -> Self { Self { values: Vec::new() } } }
    let found = manual_default(
        vec![ItemModel::Declared("Vec".to_string()), ItemModel::Declared("Bag".to_string())],
        record("Bag", false, vec![("values", ty(&["Vec"]))]),
        vec![inherent_new("Bag", false, values_from(&["Vec", "new"]))],
    );
    assert!(found.is_empty());
    // use std::vec::Vec as List; struct Bag { values: List<u8> } impl Bag { fn new() -> Self { Self { values: List::new() } } }
    let list = ItemModel::Use {
        leading_colon: false,
        tree: UseTree::Path {
            ident: "std".to_string(),
            tree: Box::new(UseTree::Path {
                ident: "vec".to_string(),
                tree: Box::new(UseTree::Rename { ident: "Vec".to_string(), rename: "List".to_string() }),
            }),
        },
    };
    let found = manual_default(
        vec![list, ItemModel::Declared("Bag".to_string())],
        record("Bag", false, vec![("values", generic1("List", ty(&["u8"])))]),
        vec![inherent_new("Bag", false, values_from(&["List", "new"]))],
    );
    assert!(positive(&found));
}
