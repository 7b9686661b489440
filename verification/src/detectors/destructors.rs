//! Which `drop` methods are destructors, and the fields of the struct each
//! one drops.
use vstd::prelude::*;
use crate::detectors::concurrency::{is_drop_trait, spec_is_drop_trait, DropScope};
use crate::evidence::{
    empty_maps, rest_joined, spec_decls, spec_imports, string_clone, type_clone, Context, ItemModel,
    MemberModel, PathModel, SegList, TypeModel,
};
use crate::text::str_eq;

verus! {

/// An item of a module, as far as destructors go.
pub enum DropItem {
    /// A struct: its name and its fields, in order.
    Struct { ident: String, fields: Vec<(MemberModel, TypeModel)> },
    /// An impl of a trait: the trait's path, the self type's name when the
    /// self type is a plain one-segment path, and the name and name position
    /// of each of its methods, in order.
    TraitImpl { trait_path: PathModel, self_ident: Option<String>, methods: Vec<(String, (usize, usize))> },
    /// An inline module: the evidence its items give and its own items.
    Module { items: Vec<ItemModel>, content: Box<DropItems> },
    /// Items declared inside another item (in a function body, for example),
    /// in order; they are looked up in the enclosing module.
    Nested(Box<DropItems>),
    Other,
}

/// Items, in order.
pub enum DropItems {
    Nil,
    Cons(Box<DropItem>, Box<DropItems>),
}

/// The fields of the first struct of the module (not of a nested item)
/// named `name`; none where there is no such struct.
pub open spec fn struct_fields(module: DropItems, name: Option<String>) -> Seq<(MemberModel, TypeModel)>
    decreases module,
{
    match module {
        DropItems::Nil => seq![],
        DropItems::Cons(item, rest) => match *item {
            DropItem::Struct { ident, fields } => if name matches Some(n) && n@ == ident@ {
                fields@
            } else {
                struct_fields(*rest, name)
            },
            _ => struct_fields(*rest, name),
        },
    }
}

/// The positions of the methods named `drop`, in order.
pub open spec fn drop_positions(methods: Seq<(String, (usize, usize))>) -> Seq<(usize, usize)>
    decreases methods.len(),
{
    if methods.len() == 0 {
        seq![]
    } else {
        (if methods[0].0@ == "drop"@ {
            seq![methods[0].1]
        } else {
            seq![]
        }) + drop_positions(methods.drop_first())
    }
}

/// A path as a module's items resolve it, outside any function.
pub open spec fn item_path(items: Seq<ItemModel>, p: PathModel) -> Seq<char> {
    let names = spec_imports(spec_decls(empty_maps(), items), items).names;
    match p.segments {
        SegList::Nil => seq![],
        SegList::Cons(s, rest) => (if p.leading_colon {
            s.ident@
        } else if names.contains_key(s.ident@) {
            names[s.ident@]
        } else {
            s.ident@
        }) + rest_joined(*rest),
    }
}

/// The destructors among a list of items of a module, in order: for each
/// `drop` method of an impl whose trait resolves to `Drop`, where its name
/// is and the fields of the module's struct it is implemented for. `items`
/// is the module's item evidence, `module` its own items.
pub open spec fn list_drops(items: Seq<ItemModel>, module: DropItems, list: DropItems) -> Seq<
    ((usize, usize), Seq<(MemberModel, TypeModel)>),
>
    decreases list, 0int,
{
    match list {
        DropItems::Nil => seq![],
        DropItems::Cons(item, rest) => item_drops(items, module, *item) + list_drops(items, module, *rest),
    }
}

pub open spec fn item_drops(items: Seq<ItemModel>, module: DropItems, item: DropItem) -> Seq<
    ((usize, usize), Seq<(MemberModel, TypeModel)>),
>
    decreases item, 0int,
{
    match item {
        DropItem::TraitImpl { trait_path, self_ident, methods } => if spec_is_drop_trait(
            item_path(items, trait_path),
        ) {
            drop_positions(methods@).map_values(
                |p: (usize, usize)| (p, struct_fields(module, self_ident)),
            )
        } else {
            seq![]
        },
        DropItem::Module { items: inner, content } => list_drops(inner@, *content, *content),
        DropItem::Nested(list) => list_drops(items, module, *list),
        _ => seq![],
    }
}

pub open spec fn drop_view(d: DropScope) -> ((usize, usize), Seq<(MemberModel, TypeModel)>) {
    (d.position, d.fields@)
}

fn member_clone(m: &MemberModel) -> (r: MemberModel)
    ensures
        r == *m,
{
    match m {
        MemberModel::Named(n) => MemberModel::Named(string_clone(n)),
        MemberModel::Unnamed(i) => MemberModel::Unnamed(*i),
    }
}

fn fields_clone(v: &Vec<(MemberModel, TypeModel)>) -> (r: Vec<(MemberModel, TypeModel)>)
    ensures
        r@ == v@,
{
    let mut r: Vec<(MemberModel, TypeModel)> = Vec::new();
    let mut i: usize = 0;
    while i < v.len()
        invariant
            i <= v@.len(),
            r@ == v@.subrange(0, i as int),
        decreases v@.len() - i,
    {
        r.push((member_clone(&v[i].0), type_clone(&v[i].1)));
        i = i + 1;
        assert(r@ =~= v@.subrange(0, i as int));
    }
    assert(v@.subrange(0, v@.len() as int) =~= v@);
    r
}

fn struct_fields_exec(module: &DropItems, name: &Option<String>) -> (r: Vec<(MemberModel, TypeModel)>)
    ensures
        r@ == struct_fields(*module, *name),
    decreases module,
{
    match module {
        DropItems::Nil => Vec::new(),
        DropItems::Cons(item, rest) => match &**item {
            DropItem::Struct { ident, fields } => {
                let hit = match name {
                    Some(n) => str_eq(n.as_str(), ident.as_str()),
                    None => false,
                };
                if hit {
                    fields_clone(fields)
                } else {
                    struct_fields_exec(rest, name)
                }
            },
            _ => struct_fields_exec(rest, name),
        },
    }
}

proof fn lemma_drop_positions_skip(methods: Seq<(String, (usize, usize))>, i: int)
    requires
        0 <= i < methods.len(),
    ensures
        drop_positions(methods.skip(i)) == (if methods[i].0@ == "drop"@ {
            seq![methods[i].1]
        } else {
            seq![]
        }) + drop_positions(methods.skip(i + 1)),
{
    assert(methods.skip(i).drop_first() =~= methods.skip(i + 1));
}

fn impl_drops(
    module: &DropItems,
    self_ident: &Option<String>,
    methods: &Vec<(String, (usize, usize))>,
    out: &mut Vec<DropScope>,
)
    ensures
        final(out)@.map_values(|d: DropScope| drop_view(d)) == old(out)@.map_values(|d: DropScope| drop_view(d))
            + drop_positions(methods@).map_values(
            |p: (usize, usize)| (p, struct_fields(*module, *self_ident)),
        ),
{
    let ghost start = out@.map_values(|d: DropScope| drop_view(d));
    let ghost fields = struct_fields(*module, *self_ident);
    let ghost f = |p: (usize, usize)| (p, fields);
    let mut i: usize = 0;
    assert(methods@.skip(0) =~= methods@);
    while i < methods.len()
        invariant
            i <= methods@.len(),
            fields == struct_fields(*module, *self_ident),
            f == (|p: (usize, usize)| (p, fields)),
            start + drop_positions(methods@).map_values(f) == out@.map_values(|d: DropScope| drop_view(d))
                + drop_positions(methods@.skip(i as int)).map_values(f),
        decreases methods@.len() - i,
    {
        proof {
            reveal_strlit("drop");
            lemma_drop_positions_skip(methods@, i as int);
        }
        let ghost before = out@.map_values(|d: DropScope| drop_view(d));
        let ghost tail = drop_positions(methods@.skip(i + 1));
        if str_eq(methods[i].0.as_str(), "drop") {
            let scope = DropScope { position: methods[i].1, fields: struct_fields_exec(module, self_ident) };
            out.push(scope);
            assert(out@.map_values(|d: DropScope| drop_view(d)) =~= before.push((methods@[i as int].1, fields)));
            assert((seq![methods@[i as int].1] + tail).map_values(f) =~= seq![(methods@[i as int].1, fields)]
                + tail.map_values(f));
            assert(before + (seq![methods@[i as int].1] + tail).map_values(f) =~= before.push(
                (methods@[i as int].1, fields),
            ) + tail.map_values(f));
        } else {
            assert((Seq::<(usize, usize)>::empty() + tail) =~= tail);
        }
        i = i + 1;
    }
    assert(methods@.skip(i as int) =~= Seq::<(String, (usize, usize))>::empty());
    assert(drop_positions(methods@.skip(i as int)).map_values(f) =~= Seq::<((usize, usize), Seq<(MemberModel, TypeModel)>)>::empty());
    assert(out@.map_values(|d: DropScope| drop_view(d)) + Seq::<((usize, usize), Seq<(MemberModel, TypeModel)>)>::empty()
        =~= out@.map_values(|d: DropScope| drop_view(d)));
}

fn list_drops_exec(items: &Vec<ItemModel>, module: &DropItems, list: &DropItems, out: &mut Vec<DropScope>)
    ensures
        final(out)@.map_values(|d: DropScope| drop_view(d)) == old(out)@.map_values(|d: DropScope| drop_view(d))
            + list_drops(items@, *module, *list),
    decreases list, 0int,
{
    match list {
        DropItems::Nil => {
            assert(old(out)@.map_values(|d: DropScope| drop_view(d)) + Seq::<((usize, usize), Seq<(MemberModel, TypeModel)>)>::empty()
                =~= old(out)@.map_values(|d: DropScope| drop_view(d)));
        },
        DropItems::Cons(item, rest) => {
            let ghost a = old(out)@.map_values(|d: DropScope| drop_view(d));
            item_drops_exec(items, module, item, out);
            list_drops_exec(items, module, rest, out);
            assert(a + item_drops(items@, *module, **item) + list_drops(items@, *module, **rest) =~= a + (item_drops(
                items@,
                *module,
                **item,
            ) + list_drops(items@, *module, **rest)));
        },
    }
}

fn item_drops_exec(items: &Vec<ItemModel>, module: &DropItems, item: &DropItem, out: &mut Vec<DropScope>)
    ensures
        final(out)@.map_values(|d: DropScope| drop_view(d)) == old(out)@.map_values(|d: DropScope| drop_view(d))
            + item_drops(items@, *module, *item),
    decreases item, 0int,
{
    let ghost a = old(out)@.map_values(|d: DropScope| drop_view(d));
    match item {
        DropItem::TraitImpl { trait_path, self_ident, methods } => {
            let ctx = Context::new(items);
            proof {
                lemma_item_path(items@, ctx, *trait_path);
            }
            let path = ctx.path(trait_path);
            if is_drop_trait(path.as_str()) {
                impl_drops(module, self_ident, methods, out);
            } else {
                assert(a + Seq::<((usize, usize), Seq<(MemberModel, TypeModel)>)>::empty() =~= a);
            }
        },
        DropItem::Module { items: inner, content } => {
            list_drops_exec(inner, content, content, out);
        },
        DropItem::Nested(list) => {
            list_drops_exec(items, module, list, out);
        },
        _ => {
            assert(a + Seq::<((usize, usize), Seq<(MemberModel, TypeModel)>)>::empty() =~= a);
        },
    }
}

/// A context made from a module's items resolves paths as `item_path` does.
proof fn lemma_item_path(items: Seq<ItemModel>, ctx: Context, p: PathModel)
    requires
        ctx.bindings@.len() == 0,
        ctx.items.maps().names == spec_imports(spec_decls(empty_maps(), items), items).names,
    ensures
        ctx.spec_path(p) == item_path(items, p),
{
    if let SegList::Cons(s, _) = p.segments {
        let k = s.ident@;
        assert(!ctx.is_bound(k));
        let names = spec_imports(spec_decls(empty_maps(), items), items).names;
        assert(ctx.items.names@.contains_key(k) == names.contains_key(k));
        if names.contains_key(k) {
            assert(ctx.items.names@[k]@ == names[k]);
        }
    }
}

/// The destructors of a file, in the order a walk over its items meets
/// them; `items` is the evidence of the file's items, `file` its items.
pub fn drop_scopes(items: &Vec<ItemModel>, file: &DropItems) -> (r: Vec<DropScope>)
    ensures
        r@.map_values(|d: DropScope| drop_view(d)) == list_drops(items@, *file, *file),
{
    let mut out: Vec<DropScope> = Vec::new();
    assert(out@.map_values(|d: DropScope| drop_view(d)) =~= Seq::<((usize, usize), Seq<(MemberModel, TypeModel)>)>::empty());
    list_drops_exec(items, file, file, &mut out);
    assert(Seq::<((usize, usize), Seq<(MemberModel, TypeModel)>)>::empty() + list_drops(items@, *file, *file)
        =~= list_drops(items@, *file, *file));
    out
}

} // verus!
