//! Manual `Default`, `Clone` and `Eq` impls that a derive would reproduce.
use vstd::prelude::*;
use crate::detectors::{finding, smell_is};
use crate::domain::{FindingConfidence, Severity, Smell, SmellCategory};
use crate::evidence::{
    spec_get_ident, get_ident, Context, ExprList, ExprModel, Kind, MemberModel, PathModel, TypeModel,
};
use crate::text::{chars_of, extend, extend_str, str_eq, string_of};

verus! {

/// A struct item as the detector reads it.
pub struct StructModel {
    pub ident: String,
    /// It has generic parameters or a `where` clause.
    pub generic: bool,
    /// It has generic parameters.
    pub has_params: bool,
    /// The paths its `#[derive(..)]` attributes list.
    pub derives: Vec<PathModel>,
    /// It has a `cfg` or `cfg_attr` attribute.
    pub cfg: bool,
    /// One of its fields has an attribute.
    pub field_attrs: bool,
    pub field_count: usize,
    /// Its named fields with their types; `None` for tuple and unit structs.
    pub named: Option<Vec<(String, TypeModel)>>,
    /// The types of all its fields, named or not, in order.
    pub field_types: Vec<TypeModel>,
}

/// A field of a struct literal: its name (`None` for a tuple index) and value.
pub struct FieldInit {
    pub member: Option<String>,
    pub value: ExprModel,
}

/// A struct literal `Path { fields, ..rest }`.
pub struct StructLitModel {
    pub path: PathModel,
    pub rest: bool,
    pub fields: Vec<FieldInit>,
}

/// A method of an impl block.
pub struct ImplFnModel {
    /// The line of its `fn` keyword.
    pub line: usize,
    /// It has attributes.
    pub attrs: bool,
    /// It has generic parameters or a `where` clause.
    pub generic: bool,
    /// It has generic parameters.
    pub has_params: bool,
    /// It is a `const fn`.
    pub is_const: bool,
    pub ident: String,
    pub input_count: usize,
    pub output: Option<TypeModel>,
    /// Its body when that body is exactly one struct literal expression.
    pub body: Option<StructLitModel>,
}

/// An impl block as the detector reads it.
pub struct ImplModel {
    pub line: usize,
    /// It has generic parameters or a `where` clause.
    pub generic: bool,
    /// It has generic parameters.
    pub has_params: bool,
    pub attrs: bool,
    pub trait_path: Option<PathModel>,
    pub self_ty: TypeModel,
    /// Its items; `None` for an item that is not a method.
    pub items: Vec<Option<ImplFnModel>>,
}

/// The derivable standard trait that a resolved trait path names.
pub open spec fn standard_of(t: Seq<char>) -> Option<Seq<char>> {
    if t == "Default"@ || t == "std::default::Default"@ || t == "core::default::Default"@ {
        Some("Default"@)
    } else if t == "Clone"@ || t == "std::clone::Clone"@ || t == "core::clone::Clone"@ {
        Some("Clone"@)
    } else if t == "Eq"@ || t == "std::cmp::Eq"@ || t == "core::cmp::Eq"@ {
        Some("Eq"@)
    } else {
        None
    }
}

fn standard(t: &str) -> (r: Option<&'static str>)
    ensures
        match r {
            Some(s) => standard_of(t@) == Some(s@),
            None => standard_of(t@) is None,
        },
{
    if str_eq(t, "Default") || str_eq(t, "std::default::Default") || str_eq(t, "core::default::Default") {
        Some("Default")
    } else if str_eq(t, "Clone") || str_eq(t, "std::clone::Clone") || str_eq(t, "core::clone::Clone") {
        Some("Clone")
    } else if str_eq(t, "Eq") || str_eq(t, "std::cmp::Eq") || str_eq(t, "core::cmp::Eq") {
        Some("Eq")
    } else {
        None
    }
}

/// The first struct of the file with this name.
pub open spec fn find_struct(structs: Seq<StructModel>, name: Seq<char>) -> Option<StructModel>
    decreases structs.len(),
{
    if structs.len() == 0 {
        None
    } else if structs[0].ident@ == name {
        Some(structs[0])
    } else {
        find_struct(structs.drop_first(), name)
    }
}

fn find_struct_exec<'a>(structs: &'a Vec<StructModel>, name: &str) -> (r: Option<&'a StructModel>)
    ensures
        match r {
            Some(s) => find_struct(structs@, name@) == Some(*s),
            None => find_struct(structs@, name@) is None,
        },
{
    let mut i: usize = 0;
    assert(structs@.skip(0) =~= structs@);
    while i < structs.len()
        invariant
            i <= structs@.len(),
            find_struct(structs@, name@) == find_struct(structs@.skip(i as int), name@),
        decreases structs@.len() - i,
    {
        assert(structs@.skip(i as int).drop_first() =~= structs@.skip(i + 1));
        assert(structs@.skip(i as int)[0] == structs@[i as int]);
        if str_eq(structs[i].ident.as_str(), name) {
            return Some(&structs[i]);
        }
        i = i + 1;
    }
    assert(structs@.skip(i as int) =~= Seq::<StructModel>::empty());
    None
}

/// The value the first field initializer for `name` gives.
pub open spec fn field_value(inits: Seq<FieldInit>, name: Seq<char>) -> Option<ExprModel>
    decreases inits.len(),
{
    if inits.len() == 0 {
        None
    } else if inits[0].member matches Some(m) && m@ == name {
        Some(inits[0].value)
    } else {
        field_value(inits.drop_first(), name)
    }
}

fn field_value_exec<'a>(inits: &'a Vec<FieldInit>, name: &str) -> (r: Option<&'a ExprModel>)
    ensures
        match r {
            Some(v) => field_value(inits@, name@) == Some(*v),
            None => field_value(inits@, name@) is None,
        },
{
    let mut i: usize = 0;
    assert(inits@.skip(0) =~= inits@);
    while i < inits.len()
        invariant
            i <= inits@.len(),
            field_value(inits@, name@) == field_value(inits@.skip(i as int), name@),
        decreases inits@.len() - i,
    {
        assert(inits@.skip(i as int).drop_first() =~= inits@.skip(i + 1));
        assert(inits@.skip(i as int)[0] == inits@[i as int]);
        if let Some(m) = &inits[i].member {
            if str_eq(m.as_str(), name) {
                return Some(&inits[i].value);
            }
        }
        i = i + 1;
    }
    assert(inits@.skip(i as int) =~= Seq::<FieldInit>::empty());
    None
}

pub open spec fn is_ident_path(p: PathModel, name: Seq<char>) -> bool {
    spec_get_ident(p) == Some(name)
}

fn is_ident_path_exec(p: &PathModel, name: &str) -> (r: bool)
    ensures
        r == is_ident_path(*p, name@),
{
    match get_ident(p) {
        Some(n) => str_eq(n.as_str(), name),
        None => false,
    }
}

pub open spec fn is_default_call(t: Seq<char>) -> bool {
    t == "Default::default"@ || t == "std::default::Default::default"@
        || t == "core::default::Default::default"@
}

/// A field value that the derive would produce: `self.name.clone()` for
/// `Clone`; for `Default`, `Default::default()`, or the empty constructor of
/// a field typed `String` or `Vec`.
pub open spec fn field_equivalent(ctx: Context, standard: Seq<char>, ty: TypeModel, name: Seq<char>, value: ExprModel) -> bool {
    if standard == "Clone"@ {
        match value {
            ExprModel::MethodCall { receiver, method, args, .. } => method@ == "clone"@ && args is Nil
                && match *receiver {
                ExprModel::Field { base, member: MemberModel::Named(n) } => n@ == name && match *base {
                    ExprModel::Path(p) => is_ident_path(p, "self"@),
                    _ => false,
                },
                _ => false,
            },
            _ => false,
        }
    } else {
        match value {
            ExprModel::Call { func, args } => args is Nil && match *func {
                ExprModel::Path(p) => {
                    let t = ctx.spec_path(p);
                    ||| is_default_call(t)
                    ||| ctx.spec_kind(ty) == Kind::String && (t == "String::new"@ || t
                        == "std::string::String::new"@)
                    ||| ctx.spec_kind(ty) == Kind::Vec && (t == "Vec::new"@ || t == "std::vec::Vec::new"@)
                },
                _ => false,
            },
            _ => false,
        }
    }
}

fn field_equivalent_exec(ctx: &Context, standard: &str, ty: &TypeModel, name: &str, value: &ExprModel) -> (r: bool)
    requires
        ctx.wf(),
    ensures
        r == field_equivalent(*ctx, standard@, *ty, name@, *value),
{
    proof {
        reveal_strlit("Clone");
        reveal_strlit("clone");
        reveal_strlit("self");
    }
    if str_eq(standard, "Clone") {
        match value {
            ExprModel::MethodCall { receiver, method, args, .. } => str_eq(method.as_str(), "clone")
                && matches!(args, ExprList::Nil) && match &**receiver {
                ExprModel::Field { base, member: MemberModel::Named(n) } => str_eq(n.as_str(), name)
                    && match &**base {
                    ExprModel::Path(p) => is_ident_path_exec(p, "self"),
                    _ => false,
                },
                _ => false,
            },
            _ => false,
        }
    } else {
        match value {
            ExprModel::Call { func, args } => matches!(args, ExprList::Nil) && match &**func {
                ExprModel::Path(p) => {
                    let path = ctx.path(p);
                    let t = path.as_str();
                    if str_eq(t, "Default::default") || str_eq(t, "std::default::Default::default")
                        || str_eq(t, "core::default::Default::default") {
                        true
                    } else {
                        let k = ctx.kind(ty);
                        (matches!(k, Kind::String) && (str_eq(t, "String::new") || str_eq(
                            t,
                            "std::string::String::new",
                        ))) || (matches!(k, Kind::Vec) && (str_eq(t, "Vec::new") || str_eq(
                            t,
                            "std::vec::Vec::new",
                        )))
                    }
                },
                _ => false,
            },
            _ => false,
        }
    }
}

/// Every named field of the struct gets the value the derive would give.
pub open spec fn all_fields_equivalent(
    ctx: Context,
    standard: Seq<char>,
    fields: Seq<(String, TypeModel)>,
    inits: Seq<FieldInit>,
) -> bool {
    forall|i: int| 0 <= i < fields.len() ==> #[trigger] field_ok(ctx, standard, fields[i], inits)
}

/// The initializer of one named field gives the derive's value.
pub open spec fn field_ok(ctx: Context, standard: Seq<char>, field: (String, TypeModel), inits: Seq<FieldInit>) -> bool {
    match field_value(inits, field.0@) {
        Some(v) => field_equivalent(ctx, standard, field.1, field.0@, v),
        None => false,
    }
}

/// The impl's single method builds `Self { .. }` field by field exactly as
/// the derive of `standard` would.
pub open spec fn spec_fieldwise(ctx: Context, imp: ImplModel, s: StructModel, standard: Seq<char>) -> bool {
    &&& imp.items@.len() == 1
    &&& imp.items@[0] matches Some(f) && {
        &&& !f.attrs
        &&& !f.generic
        &&& !(standard == "Default"@ && (f.ident@ != "default"@ || f.input_count != 0))
        &&& !(standard == "Clone"@ && (f.ident@ != "clone"@ || f.input_count != 1))
        &&& f.output matches Some(TypeModel::Path { path, .. }) && is_ident_path(path, "Self"@)
        &&& f.body matches Some(body) && {
            &&& is_ident_path(body.path, "Self"@) || is_ident_path(body.path, s.ident@)
            &&& !body.rest
            &&& body.fields@.len() == s.field_count
            &&& s.named matches Some(fields) && all_fields_equivalent(ctx, standard, fields@, body.fields@)
        }
    }
}

fn fieldwise(ctx: &Context, imp: &ImplModel, s: &StructModel, standard: &str) -> (r: bool)
    requires
        ctx.wf(),
    ensures
        r == spec_fieldwise(*ctx, *imp, *s, standard@),
{
    proof {
        reveal_strlit("Default");
        reveal_strlit("Clone");
        reveal_strlit("default");
        reveal_strlit("clone");
        reveal_strlit("Self");
    }
    if imp.items.len() != 1 {
        return false;
    }
    let f = match &imp.items[0] {
        Some(f) => f,
        None => return false,
    };
    if f.attrs || f.generic {
        return false;
    }
    if str_eq(standard, "Default") && (!str_eq(f.ident.as_str(), "default") || f.input_count != 0) {
        return false;
    }
    if str_eq(standard, "Clone") && (!str_eq(f.ident.as_str(), "clone") || f.input_count != 1) {
        return false;
    }
    match &f.output {
        Some(TypeModel::Path { path, .. }) => {
            if !is_ident_path_exec(path, "Self") {
                return false;
            }
        },
        _ => return false,
    }
    let body = match &f.body {
        Some(b) => b,
        None => return false,
    };
    if !(is_ident_path_exec(&body.path, "Self") || is_ident_path_exec(&body.path, s.ident.as_str()))
        || body.rest || body.fields.len() != s.field_count {
        return false;
    }
    let fields = match &s.named {
        Some(fs) => fs,
        None => return false,
    };
    assert(spec_fieldwise(*ctx, *imp, *s, standard@) == all_fields_equivalent(*ctx, standard@, fields@, body.fields@));
    let mut i: usize = 0;
    while i < fields.len()
        invariant
            ctx.wf(),
            i <= fields@.len(),
            spec_fieldwise(*ctx, *imp, *s, standard@) == all_fields_equivalent(*ctx, standard@, fields@, body.fields@),
            forall|j: int| 0 <= j < i ==> #[trigger] field_ok(*ctx, standard@, fields@[j], body.fields@),
        decreases fields@.len() - i,
    {
        let ok = match field_value_exec(&body.fields, fields[i].0.as_str()) {
            Some(v) => field_equivalent_exec(ctx, standard, &fields[i].1, fields[i].0.as_str(), v),
            None => false,
        };
        assert(ok == field_ok(*ctx, standard@, fields@[i as int], body.fields@));
        if !ok {
            assert(!field_ok(*ctx, standard@, fields@[i as int], body.fields@));
            assert(!all_fields_equivalent(*ctx, standard@, fields@, body.fields@));
            return false;
        }
        i = i + 1;
    }
    true
}

/// Every field type is proven to implement `Eq`, as deriving `Eq` requires.
pub open spec fn fields_proven_eq(ctx: Context, types: Seq<TypeModel>) -> bool {
    forall|i: int| 0 <= i < types.len() ==> #[trigger] ctx.spec_proves_eq(types[i])
}

fn all_fields_proven_eq(ctx: &Context, types: &Vec<TypeModel>) -> (r: bool)
    requires
        ctx.wf(),
    ensures
        r == fields_proven_eq(*ctx, types@),
{
    let mut i: usize = 0;
    while i < types.len()
        invariant
            ctx.wf(),
            i <= types@.len(),
            forall|j: int| 0 <= j < i ==> #[trigger] ctx.spec_proves_eq(types@[j]),
        decreases types@.len() - i,
    {
        if !ctx.proves_eq(&types[i]) {
            return false;
        }
        i = i + 1;
    }
    true
}

/// The standard trait an impl derives equivalently, if any.
pub open spec fn derivable(ctx: Context, imp: ImplModel, structs: Seq<StructModel>) -> Option<Seq<char>> {
    if imp.generic || imp.attrs {
        None
    } else {
        match imp.trait_path {
            Some(tp) => match standard_of(ctx.spec_path(tp)) {
                Some(std) => match imp.self_ty {
                    TypeModel::Path { path, .. } => match spec_get_ident(path) {
                        Some(name) => match find_struct(structs, name) {
                            Some(s) => if s.generic || s.cfg || s.field_attrs {
                                None
                            } else if (if std == "Eq"@ {
                                imp.items@.len() == 0 && fields_proven_eq(ctx, s.field_types@)
                            } else {
                                spec_fieldwise(ctx, imp, s, std)
                            }) {
                                Some(std)
                            } else {
                                None
                            },
                            None => None,
                        },
                        None => None,
                    },
                    _ => None,
                },
                None => None,
            },
            None => None,
        }
    }
}

pub open spec fn derivable_message(std: Seq<char>) -> Seq<char> {
    "Manual "@ + std + " implementation is equivalent to a derive for this nongeneric struct"@
}

pub open spec fn derivable_suggestion(std: Seq<char>) -> Seq<char> {
    "Use #[derive("@ + std + ")] on the struct."@
}

/// The line and trait of each derivable impl, in order.
pub open spec fn derivable_hits(ctx: Context, impls: Seq<ImplModel>, structs: Seq<StructModel>) -> Seq<
    (usize, Seq<char>),
>
    decreases impls.len(),
{
    if impls.len() == 0 {
        Seq::empty()
    } else {
        derivable_hits(ctx, impls.drop_last(), structs) + match derivable(ctx, impls.last(), structs) {
            Some(std) => seq![(impls.last().line, std)],
            None => Seq::empty(),
        }
    }
}

fn derivable_exec(ctx: &Context, imp: &ImplModel, structs: &Vec<StructModel>) -> (r: Option<&'static str>)
    requires
        ctx.wf(),
    ensures
        match r {
            Some(s) => derivable(*ctx, *imp, structs@) == Some(s@),
            None => derivable(*ctx, *imp, structs@) is None,
        },
{
    proof {
        reveal_strlit("Eq");
    }
    if imp.generic || imp.attrs {
        return None;
    }
    let tp = match &imp.trait_path {
        Some(tp) => tp,
        None => return None,
    };
    let trait_name = ctx.path(tp);
    let std = match standard(trait_name.as_str()) {
        Some(s) => s,
        None => return None,
    };
    let name = match &imp.self_ty {
        TypeModel::Path { path, .. } => match get_ident(path) {
            Some(n) => n,
            None => return None,
        },
        _ => return None,
    };
    let s = match find_struct_exec(structs, name.as_str()) {
        Some(s) => s,
        None => return None,
    };
    if s.generic || s.cfg || s.field_attrs {
        return None;
    }
    let equivalent = if str_eq(std, "Eq") {
        imp.items.len() == 0 && all_fields_proven_eq(ctx, &s.field_types)
    } else {
        fieldwise(ctx, imp, s, std)
    };
    if equivalent {
        Some(std)
    } else {
        None
    }
}

/// Manual impls of `Default`, `Clone` or `Eq` equivalent to a derive.
pub struct DerivableImplDetector;

impl DerivableImplDetector {
    pub fn name(&self) -> (r: &'static str)
        ensures
            r@ == "Derivable Impl"@,
    {
        "Derivable Impl"
    }

    /// `ctx` is the context of the file's items; `structs` are the file's
    /// struct items in order, `impls` its impl blocks in order.
    pub fn detect(&self, path: &str, ctx: &Context, structs: &Vec<StructModel>, impls: &Vec<ImplModel>) -> (r: Vec<Smell>)
        requires
            ctx.wf(),
        ensures
            r@.len() == derivable_hits(*ctx, impls@, structs@).len(),
            forall|i: int|
                0 <= i < r@.len() ==> #[trigger] smell_is(
                    r@[i],
                    SmellCategory::Idiomaticity,
                    "Derivable Impl"@,
                    Severity::Info,
                    FindingConfidence::High,
                    path@,
                    derivable_hits(*ctx, impls@, structs@)[i].0,
                    derivable_hits(*ctx, impls@, structs@)[i].0,
                    derivable_message(derivable_hits(*ctx, impls@, structs@)[i].1),
                    derivable_suggestion(derivable_hits(*ctx, impls@, structs@)[i].1),
                ),
    {
        let mut out: Vec<Smell> = Vec::new();
        let mut i: usize = 0;
        while i < impls.len()
            invariant
                ctx.wf(),
                i <= impls@.len(),
                out@.len() == derivable_hits(*ctx, impls@.take(i as int), structs@).len(),
                forall|j: int|
                    0 <= j < out@.len() ==> #[trigger] smell_is(
                        out@[j],
                        SmellCategory::Idiomaticity,
                        "Derivable Impl"@,
                        Severity::Info,
                        FindingConfidence::High,
                        path@,
                        derivable_hits(*ctx, impls@.take(i as int), structs@)[j].0,
                        derivable_hits(*ctx, impls@.take(i as int), structs@)[j].0,
                        derivable_message(derivable_hits(*ctx, impls@.take(i as int), structs@)[j].1),
                        derivable_suggestion(derivable_hits(*ctx, impls@.take(i as int), structs@)[j].1),
                    ),
            decreases impls@.len() - i,
        {
            assert(impls@.take(i + 1).drop_last() =~= impls@.take(i as int));
            let ghost before = derivable_hits(*ctx, impls@.take(i as int), structs@);
            let ghost after = derivable_hits(*ctx, impls@.take(i + 1), structs@);
            match derivable_exec(ctx, &impls[i], structs) {
                Some(std) => {
                    let line = impls[i].line;
                    let mut msg: Vec<char> = Vec::new();
                    extend_str(&mut msg, "Manual ");
                    extend_str(&mut msg, std);
                    extend_str(&mut msg, " implementation is equivalent to a derive for this nongeneric struct");
                    let mut sug: Vec<char> = Vec::new();
                    extend_str(&mut sug, "Use #[derive(");
                    extend_str(&mut sug, std);
                    extend_str(&mut sug, ")] on the struct.");
                    let message = string_of(msg.as_slice());
                    let suggestion = string_of(sug.as_slice());
                    let s = finding(
                        SmellCategory::Idiomaticity,
                        self.name(),
                        Severity::Info,
                        FindingConfidence::High,
                        path,
                        line,
                        line,
                        message.as_str(),
                        suggestion.as_str(),
                    );
                    assert(after =~= before.push((line, std@)));
                    out.push(s);
                    assert forall|j: int| 0 <= j < out@.len() implies #[trigger] smell_is(
                        out@[j],
                        SmellCategory::Idiomaticity,
                        "Derivable Impl"@,
                        Severity::Info,
                        FindingConfidence::High,
                        path@,
                        after[j].0,
                        after[j].0,
                        derivable_message(after[j].1),
                        derivable_suggestion(after[j].1),
                    ) by {
                        if j < before.len() {
                            assert(after[j] == before[j]);
                        }
                    }
                },
                None => {
                    assert(after =~= before);
                },
            }
            i = i + 1;
        }
        assert(impls@.take(impls@.len() as int) =~= impls@);
        out
    }
}

/// A resolved path naming the `Default` trait.
pub open spec fn spec_is_default(p: Seq<char>) -> bool {
    p == "Default"@ || p == "std::default::Default"@ || p == "core::default::Default"@
}

pub fn is_default(p: &str) -> (r: bool)
    ensures
        r == spec_is_default(p@),
{
    str_eq(p, "Default") || str_eq(p, "std::default::Default") || str_eq(p, "core::default::Default")
}

/// The struct derives `Default`, or the file implements `Default` for it.
pub open spec fn existing_default(ctx: Context, s: StructModel, impls: Seq<ImplModel>) -> bool {
    ||| exists|i: int| 0 <= i < s.derives@.len() && #[trigger] spec_is_default(ctx.spec_path(s.derives@[i]))
    ||| exists|i: int|
        0 <= i < impls.len() && #[trigger] implements_default_for(ctx, impls[i], s.ident@)
}

pub open spec fn implements_default_for(ctx: Context, imp: ImplModel, name: Seq<char>) -> bool {
    &&& imp.self_ty matches TypeModel::Path { path, .. } && is_ident_path(path, name)
    &&& imp.trait_path matches Some(tp) && spec_is_default(ctx.spec_path(tp))
}

fn existing_default_exec(ctx: &Context, s: &StructModel, impls: &Vec<ImplModel>) -> (r: bool)
    requires
        ctx.wf(),
    ensures
        r == existing_default(*ctx, *s, impls@),
{
    let mut i: usize = 0;
    while i < s.derives.len()
        invariant
            ctx.wf(),
            i <= s.derives@.len(),
            forall|j: int| 0 <= j < i ==> !#[trigger] spec_is_default(ctx.spec_path(s.derives@[j])),
        decreases s.derives@.len() - i,
    {
        let p = ctx.path(&s.derives[i]);
        if is_default(p.as_str()) {
            return true;
        }
        i = i + 1;
    }
    let mut k: usize = 0;
    while k < impls.len()
        invariant
            ctx.wf(),
            k <= impls@.len(),
            forall|j: int| 0 <= j < s.derives@.len() ==> !#[trigger] spec_is_default(ctx.spec_path(s.derives@[j])),
            forall|j: int| 0 <= j < k ==> !#[trigger] implements_default_for(*ctx, impls@[j], s.ident@),
        decreases impls@.len() - k,
    {
        let imp = &impls[k];
        let for_struct = match &imp.self_ty {
            TypeModel::Path { path, .. } => is_ident_path_exec(path, s.ident.as_str()),
            _ => false,
        };
        let default_trait = match &imp.trait_path {
            Some(tp) => {
                let p = ctx.path(tp);
                is_default(p.as_str())
            },
            None => false,
        };
        if for_struct && default_trait {
            assert(implements_default_for(*ctx, impls@[k as int], s.ident@));
            return true;
        }
        k = k + 1;
    }
    false
}

/// A field initialized to its type's default: `Default::default()`, or the
/// empty constructor of a field typed `Vec` or `String`.
pub open spec fn spec_field_is_default(ctx: Context, field: (String, TypeModel), inits: Seq<FieldInit>) -> bool {
    match field_value(inits, field.0@) {
        Some(ExprModel::Call { func, args }) => args is Nil && match *func {
            ExprModel::Path(p) => {
                let t = ctx.spec_path(p);
                ||| is_default_call(t)
                ||| ctx.spec_kind(field.1) == Kind::Vec && (t == "Vec::new"@ || t == "std::vec::Vec::new"@
                    || t == "alloc::vec::Vec::new"@)
                ||| ctx.spec_kind(field.1) == Kind::String && (t == "String::new"@ || t
                    == "std::string::String::new"@ || t == "alloc::string::String::new"@)
            },
            _ => false,
        },
        _ => false,
    }
}

pub fn field_is_default(ctx: &Context, field: &(String, TypeModel), inits: &Vec<FieldInit>) -> (r: bool)
    requires
        ctx.wf(),
    ensures
        r == spec_field_is_default(*ctx, *field, inits@),
{
    match field_value_exec(inits, field.0.as_str()) {
        Some(ExprModel::Call { func, args }) => {
            if !matches!(args, ExprList::Nil) {
                return false;
            }
            match &**func {
                ExprModel::Path(p) => {
                    let path = ctx.path(p);
                    let t = path.as_str();
                    if str_eq(t, "Default::default") || str_eq(t, "std::default::Default::default")
                        || str_eq(t, "core::default::Default::default") {
                        return true;
                    }
                    let k = ctx.kind(&field.1);
                    (matches!(k, Kind::Vec) && (str_eq(t, "Vec::new") || str_eq(t, "std::vec::Vec::new")
                        || str_eq(t, "alloc::vec::Vec::new"))) || (matches!(k, Kind::String) && (str_eq(
                        t,
                        "String::new",
                    ) || str_eq(t, "std::string::String::new") || str_eq(t, "alloc::string::String::new")))
                },
                _ => false,
            }
        },
        _ => false,
    }
}

/// `fn new() -> Self { Self { .. } }` that sets every named field to its
/// default.
pub open spec fn spec_constructor_defaults(ctx: Context, f: ImplFnModel, fields: Seq<(String, TypeModel)>) -> bool {
    &&& f.ident@ == "new"@
    &&& f.input_count == 0
    &&& !f.is_const
    &&& !f.has_params
    &&& f.output matches Some(TypeModel::Path { path, .. }) && is_ident_path(path, "Self"@)
    &&& f.body matches Some(body) && {
        &&& is_ident_path(body.path, "Self"@)
        &&& !body.rest
        &&& body.fields@.len() != 0
        &&& body.fields@.len() == fields.len()
        &&& all_default(ctx, fields, body.fields@)
    }
}

pub open spec fn all_default(ctx: Context, fields: Seq<(String, TypeModel)>, inits: Seq<FieldInit>) -> bool {
    forall|i: int| 0 <= i < fields.len() ==> #[trigger] spec_field_is_default(ctx, fields[i], inits)
}

pub fn constructor_defaults(ctx: &Context, f: &ImplFnModel, fields: &Vec<(String, TypeModel)>) -> (r: bool)
    requires
        ctx.wf(),
    ensures
        r == spec_constructor_defaults(*ctx, *f, fields@),
{
    proof {
        reveal_strlit("new");
        reveal_strlit("Self");
    }
    if !str_eq(f.ident.as_str(), "new") || f.input_count != 0 || f.is_const || f.has_params {
        return false;
    }
    match &f.output {
        Some(TypeModel::Path { path, .. }) => {
            if !is_ident_path_exec(path, "Self") {
                return false;
            }
        },
        _ => return false,
    }
    let body = match &f.body {
        Some(b) => b,
        None => return false,
    };
    if !is_ident_path_exec(&body.path, "Self") || body.rest || body.fields.len() == 0
        || body.fields.len() != fields.len() {
        return false;
    }
    assert(spec_constructor_defaults(*ctx, *f, fields@) == all_default(*ctx, fields@, body.fields@));
    let mut i: usize = 0;
    while i < fields.len()
        invariant
            ctx.wf(),
            i <= fields@.len(),
            spec_constructor_defaults(*ctx, *f, fields@) == all_default(*ctx, fields@, body.fields@),
            forall|j: int| 0 <= j < i ==> #[trigger] spec_field_is_default(*ctx, fields@[j], body.fields@),
        decreases fields@.len() - i,
    {
        if !field_is_default(ctx, &fields[i], &body.fields) {
            assert(!all_default(*ctx, fields@, body.fields@));
            return false;
        }
        i = i + 1;
    }
    true
}

/// The named fields of the struct an inherent, non-generic impl is for,
/// when that struct is non-generic and has no `Default` yet.
pub open spec fn default_candidate(ctx: Context, imp: ImplModel, structs: Seq<StructModel>, impls: Seq<ImplModel>) -> Option<Seq<(String, TypeModel)>> {
    if imp.trait_path is Some || imp.has_params {
        None
    } else {
        match imp.self_ty {
            TypeModel::Path { path, .. } => match spec_get_ident(path) {
                Some(name) => match find_struct(structs, name) {
                    Some(s) => if s.has_params || existing_default(ctx, s, impls) {
                        None
                    } else {
                        match s.named {
                            Some(fs) => Some(fs@),
                            None => None,
                        }
                    },
                    None => None,
                },
                None => None,
            },
            _ => None,
        }
    }
}

/// The lines of the constructors of one impl that only set defaults.
pub open spec fn default_ctor_lines(ctx: Context, items: Seq<Option<ImplFnModel>>, fields: Seq<(String, TypeModel)>) -> Seq<usize>
    decreases items.len(),
{
    if items.len() == 0 {
        Seq::empty()
    } else {
        default_ctor_lines(ctx, items.drop_last(), fields) + match items.last() {
            Some(f) => if spec_constructor_defaults(ctx, f, fields) {
                seq![f.line]
            } else {
                Seq::empty()
            },
            None => Seq::empty(),
        }
    }
}

pub open spec fn manual_default_lines(ctx: Context, impls_prefix: Seq<ImplModel>, structs: Seq<StructModel>, impls: Seq<ImplModel>) -> Seq<usize>
    decreases impls_prefix.len(),
{
    if impls_prefix.len() == 0 {
        Seq::empty()
    } else {
        manual_default_lines(ctx, impls_prefix.drop_last(), structs, impls) + match default_candidate(
            ctx,
            impls_prefix.last(),
            structs,
            impls,
        ) {
            Some(fs) => default_ctor_lines(ctx, impls_prefix.last().items@, fs),
            None => Seq::empty(),
        }
    }
}

fn default_candidate_exec<'a>(ctx: &Context, imp: &ImplModel, structs: &'a Vec<StructModel>, impls: &Vec<ImplModel>) -> (r: Option<&'a Vec<(String, TypeModel)>>)
    requires
        ctx.wf(),
    ensures
        match r {
            Some(fs) => default_candidate(*ctx, *imp, structs@, impls@) == Some(fs@),
            None => default_candidate(*ctx, *imp, structs@, impls@) is None,
        },
{
    if imp.trait_path.is_some() || imp.has_params {
        return None;
    }
    let name = match &imp.self_ty {
        TypeModel::Path { path, .. } => match get_ident(path) {
            Some(n) => n,
            None => return None,
        },
        _ => return None,
    };
    let s = match find_struct_exec(structs, name.as_str()) {
        Some(s) => s,
        None => return None,
    };
    if s.has_params || existing_default_exec(ctx, s, impls) {
        return None;
    }
    match &s.named {
        Some(fs) => Some(fs),
        None => None,
    }
}

/// `new()` constructors that only set default fields, for structs without a
/// local `Default`.
pub struct ManualDefaultConstructorDetector;

impl ManualDefaultConstructorDetector {
    pub fn name(&self) -> (r: &'static str)
        ensures
            r@ == "Manual Default Constructor"@,
    {
        "Manual Default Constructor"
    }

    pub fn detect(&self, path: &str, ctx: &Context, structs: &Vec<StructModel>, impls: &Vec<ImplModel>) -> (r: Vec<Smell>)
        requires
            ctx.wf(),
        ensures
            crate::detectors::findings_are(
                r@,
                crate::detectors::implementation::line_hits(
                    manual_default_lines(*ctx, impls@, structs@, impls@),
                    FindingConfidence::High,
                    "Constructor initializes default fields and no local Default implementation exists"@,
                ),
                SmellCategory::Idiomaticity,
                "Manual Default Constructor"@,
                Severity::Info,
                path@,
                "Consider deriving Default; keep one implementation of initialization and avoid mutual new/default delegation."@,
            ),
    {
        let mut lines: Vec<usize> = Vec::new();
        let mut i: usize = 0;
        while i < impls.len()
            invariant
                ctx.wf(),
                i <= impls@.len(),
                lines@ == manual_default_lines(*ctx, impls@.take(i as int), structs@, impls@),
            decreases impls@.len() - i,
        {
            assert(impls@.take(i + 1).drop_last() =~= impls@.take(i as int));
            let ghost before = lines@;
            match default_candidate_exec(ctx, &impls[i], structs, impls) {
                Some(fields) => {
                    let items = &impls[i].items;
                    let mut k: usize = 0;
                    while k < items.len()
                        invariant
                            ctx.wf(),
                            k <= items@.len(),
                            lines@ == before + default_ctor_lines(*ctx, items@.take(k as int), fields@),
                        decreases items@.len() - k,
                    {
                        assert(items@.take(k + 1).drop_last() =~= items@.take(k as int));
                        let ghost mid = lines@;
                        match &items[k] {
                            Some(f) => {
                                if constructor_defaults(ctx, f, fields) {
                                    lines.push(f.line);
                                    assert(lines@ =~= before + default_ctor_lines(*ctx, items@.take(k + 1), fields@));
                                } else {
                                    assert(lines@ =~= before + default_ctor_lines(*ctx, items@.take(k + 1), fields@));
                                }
                            },
                            None => {
                                assert(lines@ =~= before + default_ctor_lines(*ctx, items@.take(k + 1), fields@));
                            },
                        }
                        k = k + 1;
                    }
                    assert(items@.take(items@.len() as int) =~= items@);
                },
                None => {
                    assert(lines@ =~= before + Seq::<usize>::empty());
                },
            }
            i = i + 1;
        }
        assert(impls@.take(impls@.len() as int) =~= impls@);
        crate::detectors::implementation::line_findings(
            &lines,
            SmellCategory::Idiomaticity,
            self.name(),
            Severity::Info,
            FindingConfidence::High,
            path,
            "Constructor initializes default fields and no local Default implementation exists",
            "Consider deriving Default; keep one implementation of initialization and avoid mutual new/default delegation.",
        )
    }
}

} // verus!
