//! Deliberately bounded source evidence. Unresolved names never imply a type.
//! Syntax arrives here as the small models below; a name resolves only
//! through local imports, aliases, declarations and lexical bindings.
use vstd::prelude::*;
use crate::table::{Table, lemma_entry_value, entries_map, has_key, index_of, unique_keys};
use crate::text::{chars_of, extend, find_from, matches_at, slice_of, spec_find_from, spec_matches_at, str_eq, string_of};

verus! {

/// What local evidence establishes about a value or type.
#[derive(Debug)]
pub enum Kind {
    Unknown,
    Copy,
    String,
    Vec,
    RawPointer,
    SyncLock,
    AsyncLock,
    Guard,
    SyncReceiver,
    SyncSender,
    Writer,
    Unit,
    Result(Box<Kind>),
    Future(Box<Kind>),
    Reference(Box<Kind>),
}

/// The kind behind any number of references.
pub open spec fn spec_value(k: Kind) -> Kind
    decreases k,
{
    match k {
        Kind::Reference(inner) => spec_value(*inner),
        _ => k,
    }
}

impl Kind {
    pub fn value(&self) -> (r: &Self)
        ensures
            *r == spec_value(*self),
        decreases self,
    {
        match self {
            Kind::Reference(inner) => inner.value(),
            _ => self,
        }
    }
}

/// A copy of a kind.
pub fn kind_clone(k: &Kind) -> (r: Kind)
    ensures
        r == *k,
    decreases k,
{
    match k {
        Kind::Unknown => Kind::Unknown,
        Kind::Copy => Kind::Copy,
        Kind::String => Kind::String,
        Kind::Vec => Kind::Vec,
        Kind::RawPointer => Kind::RawPointer,
        Kind::SyncLock => Kind::SyncLock,
        Kind::AsyncLock => Kind::AsyncLock,
        Kind::Guard => Kind::Guard,
        Kind::SyncReceiver => Kind::SyncReceiver,
        Kind::SyncSender => Kind::SyncSender,
        Kind::Writer => Kind::Writer,
        Kind::Unit => Kind::Unit,
        Kind::Result(inner) => Kind::Result(Box::new(kind_clone(inner))),
        Kind::Future(inner) => Kind::Future(Box::new(kind_clone(inner))),
        Kind::Reference(inner) => Kind::Reference(Box::new(kind_clone(inner))),
    }
}

/// Equality of kinds.
pub fn kind_eq(a: &Kind, b: &Kind) -> (r: bool)
    ensures
        r == (*a == *b),
    decreases a,
{
    match (a, b) {
        (Kind::Unknown, Kind::Unknown) => true,
        (Kind::Copy, Kind::Copy) => true,
        (Kind::String, Kind::String) => true,
        (Kind::Vec, Kind::Vec) => true,
        (Kind::RawPointer, Kind::RawPointer) => true,
        (Kind::SyncLock, Kind::SyncLock) => true,
        (Kind::AsyncLock, Kind::AsyncLock) => true,
        (Kind::Guard, Kind::Guard) => true,
        (Kind::SyncReceiver, Kind::SyncReceiver) => true,
        (Kind::SyncSender, Kind::SyncSender) => true,
        (Kind::Writer, Kind::Writer) => true,
        (Kind::Unit, Kind::Unit) => true,
        (Kind::Result(x), Kind::Result(y)) => kind_eq(x, y),
        (Kind::Future(x), Kind::Future(y)) => kind_eq(x, y),
        (Kind::Reference(x), Kind::Reference(y)) => kind_eq(x, y),
        _ => false,
    }
}

pub fn is_guard(k: &Kind) -> (r: bool)
    ensures
        r == (*k == Kind::Guard),
{
    match k {
        Kind::Guard => true,
        _ => false,
    }
}

#[derive(Debug)]
pub enum GenericArg {
    Type(Box<TypeModel>),
    Other,
}

/// Generic arguments, in order.
#[derive(Debug)]
pub enum ArgList {
    Nil,
    Cons(GenericArg, Box<ArgList>),
}

#[derive(Debug)]
pub enum PathArgs {
    Bare,
    Angle(ArgList),
    Paren,
}

#[derive(Debug)]
pub struct Segment {
    pub ident: String,
    pub args: PathArgs,
}

/// Path segments, in order.
#[derive(Debug)]
pub enum SegList {
    Nil,
    Cons(Segment, Box<SegList>),
}

/// A path: its segments with their generic arguments.
#[derive(Debug)]
pub struct PathModel {
    pub leading_colon: bool,
    pub segments: SegList,
}

/// Types, in order.
#[derive(Debug)]
pub enum TypeList {
    Nil,
    Cons(Box<TypeModel>, Box<TypeList>),
}

/// A type, as far as the evidence reads it.
#[derive(Debug)]
pub enum TypeModel {
    Reference(Box<TypeModel>),
    Ptr,
    Paren(Box<TypeModel>),
    Group(Box<TypeModel>),
    Tuple(TypeList),
    Array(Box<TypeModel>),
    Slice(Box<TypeModel>),
    Path { qself: bool, path: PathModel },
    TraitObject,
    Other,
}

pub fn generic_arg_clone(a: &GenericArg) -> (r: GenericArg)
    ensures
        r == *a,
    decreases a,
{
    match a {
        GenericArg::Type(t) => GenericArg::Type(Box::new(type_clone(t))),
        GenericArg::Other => GenericArg::Other,
    }
}

pub fn arg_list_clone(a: &ArgList) -> (r: ArgList)
    ensures
        r == *a,
    decreases a,
{
    match a {
        ArgList::Nil => ArgList::Nil,
        ArgList::Cons(x, rest) => ArgList::Cons(generic_arg_clone(x), Box::new(arg_list_clone(rest))),
    }
}

pub fn path_args_clone(a: &PathArgs) -> (r: PathArgs)
    ensures
        r == *a,
    decreases a,
{
    match a {
        PathArgs::Bare => PathArgs::Bare,
        PathArgs::Paren => PathArgs::Paren,
        PathArgs::Angle(list) => PathArgs::Angle(arg_list_clone(list)),
    }
}

pub fn seg_list_clone(l: &SegList) -> (r: SegList)
    ensures
        r == *l,
    decreases l,
{
    match l {
        SegList::Nil => SegList::Nil,
        SegList::Cons(s, rest) => SegList::Cons(
            Segment { ident: s.ident.clone(), args: path_args_clone(&s.args) },
            Box::new(seg_list_clone(rest)),
        ),
    }
}

pub fn path_clone(p: &PathModel) -> (r: PathModel)
    ensures
        r == *p,
    decreases p,
{
    PathModel { leading_colon: p.leading_colon, segments: seg_list_clone(&p.segments) }
}

pub fn type_list_clone(l: &TypeList) -> (r: TypeList)
    ensures
        r == *l,
    decreases l,
{
    match l {
        TypeList::Nil => TypeList::Nil,
        TypeList::Cons(t, rest) => TypeList::Cons(Box::new(type_clone(t)), Box::new(type_list_clone(rest))),
    }
}

pub fn type_clone(t: &TypeModel) -> (r: TypeModel)
    ensures
        r == *t,
    decreases t,
{
    match t {
        TypeModel::Reference(e) => TypeModel::Reference(Box::new(type_clone(e))),
        TypeModel::Ptr => TypeModel::Ptr,
        TypeModel::Paren(e) => TypeModel::Paren(Box::new(type_clone(e))),
        TypeModel::Group(e) => TypeModel::Group(Box::new(type_clone(e))),
        TypeModel::Tuple(list) => TypeModel::Tuple(type_list_clone(list)),
        TypeModel::Array(e) => TypeModel::Array(Box::new(type_clone(e))),
        TypeModel::Slice(e) => TypeModel::Slice(Box::new(type_clone(e))),
        TypeModel::Path { qself, path } => TypeModel::Path { qself: *qself, path: path_clone(path) },
        TypeModel::TraitObject => TypeModel::TraitObject,
        TypeModel::Other => TypeModel::Other,
    }
}

/// The identifiers of a list of segments.
pub open spec fn seg_idents(l: SegList) -> Seq<Seq<char>>
    decreases l,
{
    match l {
        SegList::Nil => seq![],
        SegList::Cons(s, rest) => seq![s.ident@] + seg_idents(*rest),
    }
}

/// The last segment of a list.
pub open spec fn last_segment(l: SegList) -> Option<Segment>
    decreases l,
{
    match l {
        SegList::Nil => None,
        SegList::Cons(s, rest) => match *rest {
            SegList::Nil => Some(s),
            _ => last_segment(*rest),
        },
    }
}

/// A path that is a single plain identifier.
pub open spec fn spec_get_ident(p: PathModel) -> Option<Seq<char>> {
    if p.leading_colon {
        None
    } else {
        match p.segments {
            SegList::Cons(s, rest) => if *rest is Nil && s.args is Bare {
                Some(s.ident@)
            } else {
                None
            },
            SegList::Nil => None,
        }
    }
}

pub fn get_ident(p: &PathModel) -> (r: Option<&String>)
    ensures
        r matches Some(s) ==> spec_get_ident(*p) == Some(s@),
        r is None ==> spec_get_ident(*p) is None,
{
    if p.leading_colon {
        return None;
    }
    match &p.segments {
        SegList::Cons(s, rest) => match (&**rest, &s.args) {
            (SegList::Nil, PathArgs::Bare) => Some(&s.ident),
            _ => None,
        },
        SegList::Nil => None,
    }
}

/// Path segments joined by `::`.
pub open spec fn join_colons(parts: Seq<Seq<char>>) -> Seq<char>
    decreases parts.len(),
{
    if parts.len() == 0 {
        seq![]
    } else if parts.len() == 1 {
        parts[0]
    } else {
        join_colons(parts.drop_last()) + seq![':', ':'] + parts.last()
    }
}

pub open spec fn is_copy_type(s: Seq<char>) -> bool {
    s == "bool"@ || s == "char"@ || s == "u8"@ || s == "u16"@ || s == "u32"@ || s == "u64"@ || s == "u128"@ || s == "usize"@ || s == "i8"@ || s == "i16"@ || s == "i32"@ || s == "i64"@ || s == "i128"@ || s == "isize"@ || s == "f32"@ || s == "f64"@
}

pub fn copy_type(s: &str) -> (r: bool)
    ensures
        r == is_copy_type(s@),
{
    str_eq(s, "bool") || str_eq(s, "char") || str_eq(s, "u8") || str_eq(s, "u16") || str_eq(s, "u32") || str_eq(s, "u64") || str_eq(s, "u128") || str_eq(s, "usize") || str_eq(s, "i8") || str_eq(s, "i16") || str_eq(s, "i32") || str_eq(s, "i64") || str_eq(s, "i128") || str_eq(s, "isize") || str_eq(s, "f32") || str_eq(s, "f64")
}

pub open spec fn is_string_type(s: Seq<char>) -> bool {
    s == "String"@ || s == "str"@ || s == "std::string::String"@ || s == "alloc::string::String"@
}

pub fn string_type(s: &str) -> (r: bool)
    ensures
        r == is_string_type(s@),
{
    str_eq(s, "String") || str_eq(s, "str") || str_eq(s, "std::string::String") || str_eq(s, "alloc::string::String")
}

pub open spec fn is_vec_type(s: Seq<char>) -> bool {
    s == "Vec"@ || s == "std::vec::Vec"@ || s == "alloc::vec::Vec"@
}

pub fn vec_type(s: &str) -> (r: bool)
    ensures
        r == is_vec_type(s@),
{
    str_eq(s, "Vec") || str_eq(s, "std::vec::Vec") || str_eq(s, "alloc::vec::Vec")
}

pub open spec fn is_sync_lock_type(s: Seq<char>) -> bool {
    s == "std::sync::Mutex"@ || s == "std::sync::RwLock"@
}

pub fn sync_lock_type(s: &str) -> (r: bool)
    ensures
        r == is_sync_lock_type(s@),
{
    str_eq(s, "std::sync::Mutex") || str_eq(s, "std::sync::RwLock")
}

pub open spec fn is_guard_type(s: Seq<char>) -> bool {
    s == "std::sync::MutexGuard"@ || s == "std::sync::RwLockReadGuard"@ || s == "std::sync::RwLockWriteGuard"@
}

pub fn guard_type(s: &str) -> (r: bool)
    ensures
        r == is_guard_type(s@),
{
    str_eq(s, "std::sync::MutexGuard") || str_eq(s, "std::sync::RwLockReadGuard") || str_eq(s, "std::sync::RwLockWriteGuard")
}

pub open spec fn is_async_lock_type(s: Seq<char>) -> bool {
    s == "tokio::sync::Mutex"@ || s == "tokio::sync::RwLock"@
}

pub fn async_lock_type(s: &str) -> (r: bool)
    ensures
        r == is_async_lock_type(s@),
{
    str_eq(s, "tokio::sync::Mutex") || str_eq(s, "tokio::sync::RwLock")
}

pub open spec fn is_receiver_type(s: Seq<char>) -> bool {
    s == "std::sync::mpsc::Receiver"@ || s == "crossbeam_channel::Receiver"@
}

pub fn receiver_type(s: &str) -> (r: bool)
    ensures
        r == is_receiver_type(s@),
{
    str_eq(s, "std::sync::mpsc::Receiver") || str_eq(s, "crossbeam_channel::Receiver")
}

pub open spec fn is_sender_type(s: Seq<char>) -> bool {
    s == "std::sync::mpsc::Sender"@ || s == "std::sync::mpsc::SyncSender"@
}

pub fn sender_type(s: &str) -> (r: bool)
    ensures
        r == is_sender_type(s@),
{
    str_eq(s, "std::sync::mpsc::Sender") || str_eq(s, "std::sync::mpsc::SyncSender")
}

pub open spec fn is_writer_type(s: Seq<char>) -> bool {
    s == "std::fs::File"@ || s == "std::io::BufWriter"@
}

pub fn writer_type(s: &str) -> (r: bool)
    ensures
        r == is_writer_type(s@),
{
    str_eq(s, "std::fs::File") || str_eq(s, "std::io::BufWriter")
}

pub open spec fn is_result_type(s: Seq<char>) -> bool {
    s == "Result"@ || s == "std::result::Result"@ || s == "core::result::Result"@ || s == "std::io::Result"@ || s == "std::fmt::Result"@
}

pub fn result_type(s: &str) -> (r: bool)
    ensures
        r == is_result_type(s@),
{
    str_eq(s, "Result") || str_eq(s, "std::result::Result") || str_eq(s, "core::result::Result") || str_eq(s, "std::io::Result") || str_eq(s, "std::fmt::Result")
}

pub open spec fn is_pointer_type(s: Seq<char>) -> bool {
    s == "std::sync::Arc"@ || s == "alloc::sync::Arc"@ || s == "Box"@ || s == "std::boxed::Box"@ || s == "alloc::boxed::Box"@
}

pub fn pointer_type(s: &str) -> (r: bool)
    ensures
        r == is_pointer_type(s@),
{
    str_eq(s, "std::sync::Arc") || str_eq(s, "alloc::sync::Arc") || str_eq(s, "Box") || str_eq(s, "std::boxed::Box") || str_eq(s, "alloc::boxed::Box")
}

pub open spec fn is_eq_scalar(s: Seq<char>) -> bool {
    s == "bool"@ || s == "char"@ || s == "u8"@ || s == "u16"@ || s == "u32"@ || s == "u64"@ || s == "u128"@ || s == "usize"@ || s == "i8"@ || s == "i16"@ || s == "i32"@ || s == "i64"@ || s == "i128"@ || s == "isize"@ || s == "str"@ || s == "String"@ || s == "std::string::String"@ || s == "alloc::string::String"@
}

pub fn eq_scalar(s: &str) -> (r: bool)
    ensures
        r == is_eq_scalar(s@),
{
    str_eq(s, "bool") || str_eq(s, "char") || str_eq(s, "u8") || str_eq(s, "u16") || str_eq(s, "u32") || str_eq(s, "u64") || str_eq(s, "u128") || str_eq(s, "usize") || str_eq(s, "i8") || str_eq(s, "i16") || str_eq(s, "i32") || str_eq(s, "i64") || str_eq(s, "i128") || str_eq(s, "isize") || str_eq(s, "str") || str_eq(s, "String") || str_eq(s, "std::string::String") || str_eq(s, "alloc::string::String")
}

pub open spec fn is_eq_container(s: Seq<char>) -> bool {
    s == "Vec"@ || s == "std::vec::Vec"@ || s == "alloc::vec::Vec"@ || s == "Option"@ || s == "std::option::Option"@ || s == "core::option::Option"@ || s == "Box"@ || s == "std::boxed::Box"@ || s == "alloc::boxed::Box"@ || s == "std::sync::Arc"@ || s == "alloc::sync::Arc"@
}

pub fn eq_container(s: &str) -> (r: bool)
    ensures
        r == is_eq_container(s@),
{
    str_eq(s, "Vec") || str_eq(s, "std::vec::Vec") || str_eq(s, "alloc::vec::Vec") || str_eq(s, "Option") || str_eq(s, "std::option::Option") || str_eq(s, "core::option::Option") || str_eq(s, "Box") || str_eq(s, "std::boxed::Box") || str_eq(s, "alloc::boxed::Box") || str_eq(s, "std::sync::Arc") || str_eq(s, "alloc::sync::Arc")
}

pub open spec fn is_string_ctor(s: Seq<char>) -> bool {
    s == "String::new"@ || s == "String::from"@ || s == "String::with_capacity"@ || s == "std::string::String::new"@
}

pub fn string_ctor(s: &str) -> (r: bool)
    ensures
        r == is_string_ctor(s@),
{
    str_eq(s, "String::new") || str_eq(s, "String::from") || str_eq(s, "String::with_capacity") || str_eq(s, "std::string::String::new")
}

pub open spec fn is_vec_ctor(s: Seq<char>) -> bool {
    s == "Vec::new"@ || s == "Vec::with_capacity"@ || s == "std::vec::Vec::new"@
}

pub fn vec_ctor(s: &str) -> (r: bool)
    ensures
        r == is_vec_ctor(s@),
{
    str_eq(s, "Vec::new") || str_eq(s, "Vec::with_capacity") || str_eq(s, "std::vec::Vec::new")
}

pub open spec fn is_sync_lock_ctor(s: Seq<char>) -> bool {
    s == "std::sync::Mutex::new"@ || s == "std::sync::RwLock::new"@
}

pub fn sync_lock_ctor(s: &str) -> (r: bool)
    ensures
        r == is_sync_lock_ctor(s@),
{
    str_eq(s, "std::sync::Mutex::new") || str_eq(s, "std::sync::RwLock::new")
}

pub open spec fn is_async_lock_ctor(s: Seq<char>) -> bool {
    s == "tokio::sync::Mutex::new"@ || s == "tokio::sync::RwLock::new"@
}

pub fn async_lock_ctor(s: &str) -> (r: bool)
    ensures
        r == is_async_lock_ctor(s@),
{
    str_eq(s, "tokio::sync::Mutex::new") || str_eq(s, "tokio::sync::RwLock::new")
}

pub open spec fn is_fs_tail(s: Seq<char>) -> bool {
    s == "read"@ || s == "read_to_string"@ || s == "write"@ || s == "remove_file"@ || s == "remove_dir"@ || s == "remove_dir_all"@ || s == "create_dir"@ || s == "create_dir_all"@ || s == "rename"@ || s == "copy"@ || s == "metadata"@ || s == "canonicalize"@ || s == "File::open"@ || s == "File::create"@
}

pub fn fs_tail(s: &str) -> (r: bool)
    ensures
        r == is_fs_tail(s@),
{
    str_eq(s, "read") || str_eq(s, "read_to_string") || str_eq(s, "write") || str_eq(s, "remove_file") || str_eq(s, "remove_dir") || str_eq(s, "remove_dir_all") || str_eq(s, "create_dir") || str_eq(s, "create_dir_all") || str_eq(s, "rename") || str_eq(s, "copy") || str_eq(s, "metadata") || str_eq(s, "canonicalize") || str_eq(s, "File::open") || str_eq(s, "File::create")
}

pub open spec fn is_spawn_path(s: Seq<char>) -> bool {
    s == "std::thread::spawn"@ || s == "tokio::spawn"@ || s == "tokio::task::spawn"@ || s == "tokio::task::spawn_blocking"@ || s == "async_std::task::spawn"@ || s == "async_std::task::spawn_blocking"@
}

pub fn spawn_path(s: &str) -> (r: bool)
    ensures
        r == is_spawn_path(s@),
{
    str_eq(s, "std::thread::spawn") || str_eq(s, "tokio::spawn") || str_eq(s, "tokio::task::spawn") || str_eq(s, "tokio::task::spawn_blocking") || str_eq(s, "async_std::task::spawn") || str_eq(s, "async_std::task::spawn_blocking")
}

/// The characters of each string.
pub open spec fn names_of(g: Seq<String>) -> Seq<Seq<char>> {
    g.map_values(|s: String| s@)
}

pub open spec fn binding_marker() -> Seq<char> {
    seq!['<', 'b', 'i', 'n', 'd', 'i', 'n', 'g', '>']
}

pub open spec fn generic_marker() -> Seq<char> {
    seq!['<', 'g', 'e', 'n', 'e', 'r', 'i', 'c', '>']
}

pub open spec fn local_marker() -> Seq<char> {
    seq!['<', 'l', 'o', 'c', 'a', 'l', '>']
}

pub open spec fn colons() -> Seq<char> {
    seq![':', ':']
}

/// The names and values an item scope resolves.
pub struct ItemScope {
    /// Imported and declared names, to the path they resolve to.
    pub names: Table<String>,
    /// Nongeneric type aliases.
    pub aliases: Table<TypeModel>,
    /// The kinds returned by local functions.
    pub return_kinds: Table<Kind>,
}

impl ItemScope {
    pub open spec fn wf(&self) -> bool {
        self.names.wf() && self.aliases.wf() && self.return_kinds.wf()
    }

    pub fn new() -> (r: Self)
        ensures
            r.wf(),
            r.names@ == Map::<Seq<char>, String>::empty(),
            r.aliases@ == Map::<Seq<char>, TypeModel>::empty(),
            r.return_kinds@ == Map::<Seq<char>, Kind>::empty(),
    {
        ItemScope { names: Table::new(), aliases: Table::new(), return_kinds: Table::new() }
    }
}

/// Scope-local evidence at one point of a traversal.
pub struct Context {
    pub items: ItemScope,
    /// Lexical scopes of bindings, innermost last.
    pub bindings: Vec<Table<Kind>>,
    /// Where each binding name was last introduced (line, column).
    pub origins: Table<(usize, usize)>,
    pub in_async: bool,
    pub in_const: bool,
    pub loop_depth: usize,
    pub loop_start: (usize, usize),
    pub execution: (usize, usize),
    pub block: (usize, usize),
}

/// The innermost binding of `k` among the first `i` scopes.
pub open spec fn lookup_from(b: Seq<Table<Kind>>, k: Seq<char>, i: int) -> Option<Kind>
    decreases i,
{
    if i <= 0 || i > b.len() {
        None
    } else if b[i - 1]@.contains_key(k) {
        Some(b[i - 1]@[k])
    } else {
        lookup_from(b, k, i - 1)
    }
}

impl Context {
    pub open spec fn wf(&self) -> bool {
        &&& self.items.wf()
        &&& self.origins.wf()
        &&& forall|i: int| 0 <= i < self.bindings@.len() ==> (#[trigger] self.bindings@[i]).wf()
    }

    /// The kind of the innermost binding named `k`.
    pub open spec fn lookup(&self, k: Seq<char>) -> Option<Kind> {
        lookup_from(self.bindings@, k, self.bindings@.len() as int)
    }

    pub open spec fn is_bound(&self, k: Seq<char>) -> bool {
        self.lookup(k) is Some
    }

    /// What the first segment of a relative path resolves to.
    pub open spec fn spec_root(&self, g: Seq<Seq<char>>, first: Seq<char>) -> Seq<char> {
        if self.is_bound(first) {
            binding_marker()
        } else if g.contains(first) {
            generic_marker()
        } else if self.items.names@.contains_key(first) {
            self.items.names@[first]@
        } else {
            first
        }
    }

    /// A path with its first segment resolved, joined by `::`. The names in
    /// `g` are generic type parameters in scope.
    pub open spec fn spec_path_g(&self, g: Seq<Seq<char>>, p: PathModel) -> Seq<char> {
        match p.segments {
            SegList::Nil => seq![],
            SegList::Cons(s, rest) => (if p.leading_colon {
                s.ident@
            } else {
                self.spec_root(g, s.ident@)
            }) + rest_joined(*rest),
        }
    }

    pub open spec fn spec_path(&self, p: PathModel) -> Seq<char> {
        self.spec_path_g(seq![], p)
    }

    pub fn new_empty() -> (r: Self)
        ensures
            r.wf(),
            r.bindings@.len() == 0,
            r.items.names@ == Map::<Seq<char>, String>::empty(),
            r.items.aliases@ == Map::<Seq<char>, TypeModel>::empty(),
            r.items.return_kinds@ == Map::<Seq<char>, Kind>::empty(),
            r.origins@ == Map::<Seq<char>, (usize, usize)>::empty(),
            !r.in_async && !r.in_const && r.loop_depth == 0,
            r.loop_start == (0usize, 0usize),
            r.execution == (0usize, 0usize),
            r.block == (0usize, 0usize),
    {
        Context {
            items: ItemScope::new(),
            bindings: Vec::new(),
            origins: Table::new(),
            in_async: false,
            in_const: false,
            loop_depth: 0,
            loop_start: (0, 0),
            execution: (0, 0),
            block: (0, 0),
        }
    }

    /// The innermost binding named `name`.
    pub fn lookup_kind(&self, name: &str) -> (r: Option<&Kind>)
        requires
            self.wf(),
        ensures
            r matches Some(k) ==> self.lookup(name@) == Some(*k),
            r is None ==> self.lookup(name@) is None,
    {
        let mut i = self.bindings.len();
        while i > 0
            invariant
                i <= self.bindings@.len(),
                self.wf(),
                lookup_from(self.bindings@, name@, i as int) == self.lookup(name@),
            decreases i,
        {
            match self.bindings[i - 1].get(name) {
                Some(k) => {
                    return Some(k);
                },
                None => {},
            }
            i = i - 1;
        }
        None
    }

    fn root(&self, g: &Vec<String>, first: &String) -> (r: Vec<char>)
        requires
            self.wf(),
        ensures
            r@ == self.spec_root(names_of(g@), first@),
    {
        let ghost gv = names_of(g@);
        if self.lookup_kind(first.as_str()).is_some() {
            let r = vec!['<', 'b', 'i', 'n', 'd', 'i', 'n', 'g', '>'];
            assert(r@ =~= binding_marker());
            return r;
        }
        let mut i: usize = 0;
        while i < g.len()
            invariant
                i <= g@.len(),
                gv == names_of(g@),
                !self.is_bound(first@),
                forall|j: int| 0 <= j < i ==> gv[j] != first@,
            decreases g@.len() - i,
        {
            if str_eq(g[i].as_str(), first.as_str()) {
                assert(gv.len() == g@.len());
                assert(gv[i as int] == first@);
                assert(gv.contains(first@));
                let r = vec!['<', 'g', 'e', 'n', 'e', 'r', 'i', 'c', '>'];
                assert(r@ =~= generic_marker());
                return r;
            }
            i = i + 1;
        }
        assert(!gv.contains(first@));
        match self.items.names.get(first.as_str()) {
            Some(v) => chars_of(v.as_str()),
            None => chars_of(first.as_str()),
        }
    }

    fn path_with(&self, g: &Vec<String>, p: &PathModel) -> (r: String)
        requires
            self.wf(),
        ensures
            r@ == self.spec_path_g(names_of(g@), *p),
    {
        match &p.segments {
            SegList::Nil => string_of(Vec::<char>::new().as_slice()),
            SegList::Cons(s, rest) => {
                let mut out = if p.leading_colon {
                    chars_of(s.ident.as_str())
                } else {
                    self.root(g, &s.ident)
                };
                push_rest(&mut out, rest);
                string_of(out.as_slice())
            },
        }
    }

    /// A path with its first segment resolved through bindings, imports and declarations.
    pub fn path(&self, p: &PathModel) -> (r: String)
        requires
            self.wf(),
        ensures
            r@ == self.spec_path(*p),
    {
        let g: Vec<String> = Vec::new();
        assert(names_of(g@) =~= seq![]);
        self.path_with(&g, p)
    }
}

/// `::` followed by each segment's identifier.
pub open spec fn rest_joined(l: SegList) -> Seq<char>
    decreases l,
{
    match l {
        SegList::Nil => seq![],
        SegList::Cons(s, rest) => colons() + s.ident@ + rest_joined(*rest),
    }
}

pub fn push_rest(out: &mut Vec<char>, l: &SegList)
    ensures
        final(out)@ == old(out)@ + rest_joined(*l),
    decreases l,
{
    match l {
        SegList::Nil => {
            assert(old(out)@ + rest_joined(*l) =~= old(out)@);
        },
        SegList::Cons(s, rest) => {
            let ghost before = out@;
            out.push(':');
            out.push(':');
            let id = chars_of(s.ident.as_str());
            extend(out, &id);
            push_rest(out, rest);
            assert(out@ =~= before + rest_joined(*l));
        },
    }
}

/// The first type among generic arguments.
pub open spec fn first_type(l: ArgList) -> Option<TypeModel>
    decreases l,
{
    match l {
        ArgList::Nil => None,
        ArgList::Cons(a, rest) => match a {
            GenericArg::Type(t) => Some(*t),
            GenericArg::Other => first_type(*rest),
        },
    }
}

pub open spec fn arg_count(l: ArgList) -> nat
    decreases l,
{
    match l {
        ArgList::Nil => 0,
        ArgList::Cons(_, rest) => 1 + arg_count(*rest),
    }
}

pub fn first_type_of(l: &ArgList) -> (r: Option<&TypeModel>)
    ensures
        r matches Some(t) ==> first_type(*l) == Some(*t),
        r is None ==> first_type(*l) is None,
    decreases l,
{
    match l {
        ArgList::Nil => None,
        ArgList::Cons(a, rest) => match a {
            GenericArg::Type(t) => Some(&**t),
            GenericArg::Other => first_type_of(rest),
        },
    }
}

pub fn last_segment_of(l: &SegList) -> (r: Option<&Segment>)
    ensures
        r matches Some(s) ==> last_segment(*l) == Some(*s),
        r is None ==> last_segment(*l) is None,
    decreases l,
{
    match l {
        SegList::Nil => None,
        SegList::Cons(s, rest) => match &**rest {
            SegList::Nil => Some(s),
            _ => last_segment_of(rest),
        },
    }
}

impl Context {
    /// The alias that a single-identifier path names, unless a generic
    /// parameter in `g` shadows it.
    pub open spec fn alias_of(&self, g: Seq<Seq<char>>, p: PathModel) -> Option<TypeModel> {
        match spec_get_ident(p) {
            Some(n) => if !g.contains(n) && self.items.aliases@.contains_key(n) {
                Some(self.items.aliases@[n])
            } else {
                None
            },
            None => None,
        }
    }

    /// The kind of a type, looking at most 16 levels deep.
    pub open spec fn spec_kind_at(&self, g: Seq<Seq<char>>, ty: TypeModel, depth: int) -> Kind
        decreases 17 - depth, 2int,
    {
        if depth > 16 {
            Kind::Unknown
        } else {
            match ty {
                TypeModel::Reference(e) => Kind::Reference(Box::new(self.spec_kind_at(g, *e, depth + 1))),
                TypeModel::Ptr => Kind::RawPointer,
                TypeModel::Paren(e) => self.spec_kind_at(g, *e, depth + 1),
                TypeModel::Group(e) => self.spec_kind_at(g, *e, depth + 1),
                TypeModel::Tuple(l) => if l is Nil {
                    Kind::Unit
                } else {
                    Kind::Unknown
                },
                TypeModel::Path { qself, path } => if qself {
                    Kind::Unknown
                } else {
                    self.spec_path_kind(g, path, depth)
                },
                _ => Kind::Unknown,
            }
        }
    }

    pub open spec fn spec_first_arg_kind(&self, g: Seq<Seq<char>>, p: PathModel, depth: int) -> Kind
        decreases 17 - depth, 0int,
    {
        if depth > 16 {
            Kind::Unknown
        } else {
            match last_segment(p.segments) {
                Some(seg) => match seg.args {
                    PathArgs::Angle(l) => match first_type(l) {
                        Some(t) => self.spec_kind_at(g, t, depth + 1),
                        None => Kind::Unknown,
                    },
                    _ => Kind::Unknown,
                },
                None => Kind::Unknown,
            }
        }
    }

    pub open spec fn spec_path_kind(&self, g: Seq<Seq<char>>, p: PathModel, depth: int) -> Kind
        decreases 17 - depth, 1int,
    {
        if depth > 16 {
            Kind::Unknown
        } else {
            match self.alias_of(g, p) {
                Some(t) => self.spec_kind_at(g, t, depth + 1),
                None => {
                    let s = self.spec_path_g(g, p);
                    if is_copy_type(s) {
                        Kind::Copy
                    } else if is_string_type(s) {
                        Kind::String
                    } else if is_vec_type(s) {
                        Kind::Vec
                    } else if is_sync_lock_type(s) {
                        Kind::SyncLock
                    } else if is_guard_type(s) {
                        Kind::Guard
                    } else if is_async_lock_type(s) {
                        Kind::AsyncLock
                    } else if is_receiver_type(s) {
                        Kind::SyncReceiver
                    } else if is_sender_type(s) {
                        Kind::SyncSender
                    } else if is_writer_type(s) {
                        Kind::Writer
                    } else if is_result_type(s) {
                        Kind::Result(Box::new(self.spec_first_arg_kind(g, p, depth)))
                    } else if is_pointer_type(s) {
                        Kind::Reference(Box::new(self.spec_first_arg_kind(g, p, depth)))
                    } else {
                        Kind::Unknown
                    }
                },
            }
        }
    }

    /// The kind of a type in this context.
    pub open spec fn spec_kind(&self, ty: TypeModel) -> Kind {
        self.spec_kind_at(seq![], ty, 0)
    }

    fn alias_for(&self, g: &Vec<String>, p: &PathModel) -> (r: Option<&TypeModel>)
        requires
            self.wf(),
        ensures
            r matches Some(t) ==> self.alias_of(names_of(g@), *p) == Some(*t),
            r is None ==> self.alias_of(names_of(g@), *p) is None,
    {
        let name = match get_ident(p) {
            Some(n) => n,
            None => return None,
        };
        let ghost gv = names_of(g@);
        let mut i: usize = 0;
        while i < g.len()
            invariant
                i <= g@.len(),
                gv == names_of(g@),
                spec_get_ident(*p) == Some(name@),
                forall|j: int| 0 <= j < i ==> gv[j] != name@,
            decreases g@.len() - i,
        {
            if str_eq(g[i].as_str(), name.as_str()) {
                assert(gv[i as int] == name@);
                assert(gv.contains(name@));
                return None;
            }
            i = i + 1;
        }
        assert(!gv.contains(name@));
        self.items.aliases.get(name.as_str())
    }

    fn first_arg_kind(&self, g: &Vec<String>, p: &PathModel, depth: usize) -> (r: Kind)
        requires
            self.wf(),
            depth <= 16,
        ensures
            r == self.spec_first_arg_kind(names_of(g@), *p, depth as int),
        decreases 17 - depth, 0int,
    {
        match last_segment_of(&p.segments) {
            Some(seg) => match &seg.args {
                PathArgs::Angle(l) => match first_type_of(l) {
                    Some(t) => self.kind_at(g, t, depth + 1),
                    None => Kind::Unknown,
                },
                _ => Kind::Unknown,
            },
            None => Kind::Unknown,
        }
    }

    fn path_kind(&self, g: &Vec<String>, p: &PathModel, depth: usize) -> (r: Kind)
        requires
            self.wf(),
            depth <= 16,
        ensures
            r == self.spec_path_kind(names_of(g@), *p, depth as int),
        decreases 17 - depth, 1int,
    {
        match self.alias_for(g, p) {
            Some(t) => return self.kind_at(g, t, depth + 1),
            None => {},
        }
        let s = self.path_with(g, p);
        let s = s.as_str();
        if copy_type(s) {
            Kind::Copy
        } else if string_type(s) {
            Kind::String
        } else if vec_type(s) {
            Kind::Vec
        } else if sync_lock_type(s) {
            Kind::SyncLock
        } else if guard_type(s) {
            Kind::Guard
        } else if async_lock_type(s) {
            Kind::AsyncLock
        } else if receiver_type(s) {
            Kind::SyncReceiver
        } else if sender_type(s) {
            Kind::SyncSender
        } else if writer_type(s) {
            Kind::Writer
        } else if result_type(s) {
            Kind::Result(Box::new(self.first_arg_kind(g, p, depth)))
        } else if pointer_type(s) {
            Kind::Reference(Box::new(self.first_arg_kind(g, p, depth)))
        } else {
            Kind::Unknown
        }
    }

    fn kind_at(&self, g: &Vec<String>, ty: &TypeModel, depth: usize) -> (r: Kind)
        requires
            self.wf(),
        ensures
            r == self.spec_kind_at(names_of(g@), *ty, depth as int),
        decreases 17 - depth, 2int,
    {
        if depth > 16 {
            return Kind::Unknown;
        }
        match ty {
            TypeModel::Reference(e) => Kind::Reference(Box::new(self.kind_at(g, e, depth + 1))),
            TypeModel::Ptr => Kind::RawPointer,
            TypeModel::Paren(e) => self.kind_at(g, e, depth + 1),
            TypeModel::Group(e) => self.kind_at(g, e, depth + 1),
            TypeModel::Tuple(l) => match l {
                TypeList::Nil => Kind::Unit,
                _ => Kind::Unknown,
            },
            TypeModel::Path { qself, path } => if *qself {
                Kind::Unknown
            } else {
                self.path_kind(g, path, depth)
            },
            _ => Kind::Unknown,
        }
    }

    /// The kind that a type annotation establishes.
    pub fn kind(&self, ty: &TypeModel) -> (r: Kind)
        requires
            self.wf(),
        ensures
            r == self.spec_kind(*ty),
    {
        let g: Vec<String> = Vec::new();
        assert(names_of(g@) =~= seq![]);
        self.kind_at(&g, ty, 0)
    }
}

impl Context {
    /// Whether `Eq` holds for a type by closed standard types and resolved
    /// aliases alone, looking at most 16 levels deep.
    pub open spec fn spec_proven(&self, ty: TypeModel, depth: int) -> bool
        decreases 17 - depth, ty,
    {
        if depth > 16 {
            false
        } else {
            match ty {
                TypeModel::Tuple(l) => self.spec_all_proven(l, depth + 1),
                TypeModel::Array(e) => self.spec_proven(*e, depth + 1),
                TypeModel::Slice(e) => self.spec_proven(*e, depth + 1),
                TypeModel::Reference(e) => self.spec_proven(*e, depth + 1),
                TypeModel::Paren(e) => self.spec_proven(*e, depth + 1),
                TypeModel::Group(e) => self.spec_proven(*e, depth + 1),
                TypeModel::Path { qself, path } => if qself {
                    false
                } else {
                    match self.alias_of(seq![], path) {
                        Some(t) => self.spec_proven(t, depth + 1),
                        None => {
                            let s = self.spec_path(path);
                            if is_eq_scalar(s) {
                                true
                            } else if is_eq_container(s) {
                                match last_segment(path.segments) {
                                    Some(seg) => match seg.args {
                                        PathArgs::Angle(l) => arg_count(l) == 1 && match l {
                                            ArgList::Cons(a, _) => match a {
                                                GenericArg::Type(t) => self.spec_proven(*t, depth + 1),
                                                GenericArg::Other => false,
                                            },
                                            ArgList::Nil => false,
                                        },
                                        _ => false,
                                    },
                                    None => false,
                                }
                            } else {
                                false
                            }
                        },
                    }
                },
                _ => false,
            }
        }
    }

    pub open spec fn spec_all_proven(&self, l: TypeList, depth: int) -> bool
        decreases 17 - depth, l,
    {
        match l {
            TypeList::Nil => true,
            TypeList::Cons(t, rest) => self.spec_proven(*t, depth) && self.spec_all_proven(*rest, depth),
        }
    }

    /// Deriving `Eq` requires `Eq` on every field even when `PartialEq` is
    /// manual; only closed standard types and resolved aliases are proven.
    pub open spec fn spec_proves_eq(&self, ty: TypeModel) -> bool {
        self.spec_proven(ty, 0)
    }

    fn proven(&self, ty: &TypeModel, depth: usize) -> (r: bool)
        requires
            self.wf(),
        ensures
            r == self.spec_proven(*ty, depth as int),
        decreases 17 - depth, ty,
    {
        if depth > 16 {
            return false;
        }
        match ty {
            TypeModel::Tuple(l) => {
                let r = self.all_proven(l, depth + 1);
                assert(self.spec_proven(*ty, depth as int) == self.spec_all_proven(*l, depth + 1));
                r
            },
            TypeModel::Array(e) => self.proven(e, depth + 1),
            TypeModel::Slice(e) => self.proven(e, depth + 1),
            TypeModel::Reference(e) => self.proven(e, depth + 1),
            TypeModel::Paren(e) => self.proven(e, depth + 1),
            TypeModel::Group(e) => self.proven(e, depth + 1),
            TypeModel::Path { qself, path } => {
                if *qself {
                    return false;
                }
                let g: Vec<String> = Vec::new();
                assert(names_of(g@) =~= seq![]);
                match self.alias_for(&g, path) {
                    Some(t) => return self.proven(t, depth + 1),
                    None => {},
                }
                let s = self.path(path);
                if eq_scalar(s.as_str()) {
                    true
                } else if eq_container(s.as_str()) {
                    match last_segment_of(&path.segments) {
                        Some(seg) => match &seg.args {
                            PathArgs::Angle(l) => match l {
                                ArgList::Cons(a, rest) => match (a, &**rest) {
                                    (GenericArg::Type(t), ArgList::Nil) => {
                                        let ghost rr: ArgList = **rest;
                                        assert(rr is Nil);
                                        assert(arg_count(rr) == 0);
                                        assert(arg_count(*l) == 1 + arg_count(rr));
                                        self.proven(t, depth + 1)
                                    },
                                    _ => {
                                        proof {
                                            let rr: ArgList = **rest;
                                            if !(rr is Nil) {
                                                assert(arg_count(rr) >= 1);
                                            }
                                        }
                                        false
                                    },
                                },
                                ArgList::Nil => false,
                            },
                            _ => false,
                        },
                        None => false,
                    }
                } else {
                    false
                }
            },
            _ => false,
        }
    }

    fn all_proven(&self, l: &TypeList, depth: usize) -> (r: bool)
        requires
            self.wf(),
        ensures
            r == self.spec_all_proven(*l, depth as int),
        decreases 17 - depth, l,
    {
        match l {
            TypeList::Nil => true,
            TypeList::Cons(t, rest) => self.proven(t, depth) && self.all_proven(rest, depth),
        }
    }

    pub fn proves_eq(&self, ty: &TypeModel) -> (r: bool)
        requires
            self.wf(),
        ensures
            r == self.spec_proves_eq(*ty),
    {
        self.proven(ty, 0)
    }
}

#[derive(Debug)]
pub enum LitModel {
    Str(String),
    /// An integer literal and its value when it parses as a base-10 `u128`.
    Int(Option<u128>),
    Float,
    Bool,
    Char,
    Byte,
    Other,
}

#[derive(Clone, Copy, Debug, PartialEq, Eq, Structural)]
pub enum BinOpModel {
    Eq,
    Ne,
    Lt,
    Le,
    Gt,
    Ge,
    Add,
    Other,
}

/// A field name or tuple index.
#[derive(Debug)]
pub enum MemberModel {
    Named(String),
    Unnamed(u32),
}

/// Expressions, in order.
#[derive(Debug)]
pub enum ExprList {
    Nil,
    Cons(Box<ExprModel>, Box<ExprList>),
}

/// An expression, as far as the evidence and the detectors read it.
#[derive(Debug)]
pub enum ExprModel {
    Path(PathModel),
    Paren(Box<ExprModel>),
    Group(Box<ExprModel>),
    Reference { mutable: bool, expr: Box<ExprModel> },
    Cast(Box<ExprModel>, TypeModel),
    Lit(LitModel),
    Try(Box<ExprModel>),
    Await(Box<ExprModel>),
    Call { func: Box<ExprModel>, args: ExprList },
    MethodCall { receiver: Box<ExprModel>, method: String, turbofish: Option<ArgList>, args: ExprList },
    Macro(PathModel),
    Binary { op: BinOpModel, left: Box<ExprModel>, right: Box<ExprModel> },
    Field { base: Box<ExprModel>, member: MemberModel },
    Index { expr: Box<ExprModel>, index: Box<ExprModel> },
    Unary { deref: bool, expr: Box<ExprModel> },
    Range { half_open: bool, start: Option<Box<ExprModel>>, end: Option<Box<ExprModel>> },
    Return(Option<Box<ExprModel>>),
    Other,
}

pub open spec fn expr_count(l: ExprList) -> nat
    decreases l,
{
    match l {
        ExprList::Nil => 0,
        ExprList::Cons(_, rest) => 1 + expr_count(*rest),
    }
}

pub open spec fn first_expr(l: ExprList) -> Option<ExprModel> {
    match l {
        ExprList::Nil => None,
        ExprList::Cons(e, _) => Some(*e),
    }
}

/// The identifier an expression names: a plain single-segment path,
/// possibly parenthesized.
pub open spec fn spec_ident(e: ExprModel) -> Option<Seq<char>>
    decreases e,
{
    match e {
        ExprModel::Path(p) => spec_get_ident(p),
        ExprModel::Paren(inner) => spec_ident(*inner),
        _ => None,
    }
}

pub fn ident(e: &ExprModel) -> (r: Option<&String>)
    ensures
        r matches Some(s) ==> spec_ident(*e) == Some(s@),
        r is None ==> spec_ident(*e) is None,
    decreases e,
{
    match e {
        ExprModel::Path(p) => get_ident(p),
        ExprModel::Paren(inner) => ident(inner),
        _ => None,
    }
}

pub open spec fn spec_literal_kind(l: LitModel) -> Kind {
    match l {
        LitModel::Str(_) => Kind::Reference(Box::new(Kind::String)),
        LitModel::Int(_) | LitModel::Float | LitModel::Bool | LitModel::Char | LitModel::Byte => Kind::Copy,
        LitModel::Other => Kind::Unknown,
    }
}

pub fn literal_kind(l: &LitModel) -> (r: Kind)
    ensures
        r == spec_literal_kind(*l),
{
    match l {
        LitModel::Str(_) => Kind::Reference(Box::new(Kind::String)),
        LitModel::Int(_) | LitModel::Float | LitModel::Bool | LitModel::Char | LitModel::Byte => Kind::Copy,
        LitModel::Other => Kind::Unknown,
    }
}

pub open spec fn std_fs_prefix() -> Seq<char> {
    seq!['s', 't', 'd', ':', ':', 'f', 's', ':', ':']
}

pub open spec fn tokio_fs_prefix() -> Seq<char> {
    seq!['t', 'o', 'k', 'i', 'o', ':', ':', 'f', 's', ':', ':']
}

pub open spec fn tokio_prefix() -> Seq<char> {
    seq!['t', 'o', 'k', 'i', 'o', ':', ':']
}

pub open spec fn starts_with(s: Seq<char>, p: Seq<char>) -> bool {
    s.len() >= p.len() && s.take(p.len() as int) == p
}

pub fn has_prefix(s: &Vec<char>, p: &Vec<char>) -> (r: bool)
    ensures
        r == starts_with(s@, p@),
{
    if s.len() < p.len() {
        return false;
    }
    let head = slice_of(s, 0, p.len());
    assert(head@ =~= s@.take(p@.len() as int));
    crate::text::seq_eq(&head, p)
}

/// A standard or Tokio filesystem function that return_kinds an I/O `Result`.
pub open spec fn spec_is_fs_result(path: Seq<char>) -> bool {
    (starts_with(path, std_fs_prefix()) && is_fs_tail(path.skip(9))) || (starts_with(
        path,
        tokio_fs_prefix(),
    ) && is_fs_tail(path.skip(11)))
}

pub fn is_fs_result(path: &str) -> (r: bool)
    ensures
        r == spec_is_fs_result(path@),
{
    let s = chars_of(path);
    let p1 = vec!['s', 't', 'd', ':', ':', 'f', 's', ':', ':'];
    let p2 = vec!['t', 'o', 'k', 'i', 'o', ':', ':', 'f', 's', ':', ':'];
    assert(p1@ =~= std_fs_prefix());
    assert(p2@ =~= tokio_fs_prefix());
    if has_prefix(&s, &p1) {
        let tail = slice_of(&s, 9, s.len());
        assert(tail@ =~= path@.skip(9));
        if fs_tail(string_of(tail.as_slice()).as_str()) {
            return true;
        }
    }
    if has_prefix(&s, &p2) {
        let tail = slice_of(&s, 11, s.len());
        assert(tail@ =~= path@.skip(11));
        if fs_tail(string_of(tail.as_slice()).as_str()) {
            return true;
        }
    }
    false
}

/// A known task or thread spawn API.
pub open spec fn spec_is_spawn(path: Seq<char>) -> bool {
    is_spawn_path(path)
}

pub fn is_spawn(path: &str) -> (r: bool)
    ensures
        r == spec_is_spawn(path@),
{
    spawn_path(path)
}

/// The kind a call of a resolved path return_kinds.
pub open spec fn spec_classify_call(path: Seq<char>) -> Kind {
    if is_string_ctor(path) {
        Kind::String
    } else if is_vec_ctor(path) {
        Kind::Vec
    } else if is_sync_lock_ctor(path) {
        Kind::SyncLock
    } else if is_async_lock_ctor(path) {
        Kind::AsyncLock
    } else if spec_is_fs_result(path) {
        if starts_with(path, tokio_prefix()) {
            Kind::Future(Box::new(Kind::Result(Box::new(Kind::Unknown))))
        } else {
            Kind::Result(Box::new(Kind::Unknown))
        }
    } else {
        Kind::Unknown
    }
}

/// The kind a method call return_kinds, from its receiver's kind and its name.
pub open spec fn spec_method_kind(receiver: Kind, m: Seq<char>) -> Kind {
    match spec_value(receiver) {
        Kind::Result(k) if m == "unwrap"@ || m == "expect"@ => *k,
        Kind::SyncLock if m == "lock"@ || m == "read"@ || m == "write"@ => Kind::Result(
            Box::new(Kind::Guard),
        ),
        Kind::SyncReceiver if m == "recv"@ || m == "recv_timeout"@ => Kind::Result(
            Box::new(Kind::Unknown),
        ),
        Kind::SyncSender if m == "send"@ => Kind::Result(Box::new(Kind::Unknown)),
        Kind::Writer if m == "write"@ || m == "write_all"@ || m == "read"@ || m == "read_to_end"@
            || m == "read_to_string"@ || m == "flush"@ => Kind::Result(Box::new(Kind::Unknown)),
        Kind::String if m == "to_owned"@ || m == "to_string"@ || m == "clone"@ => Kind::String,
        Kind::Vec if m == "clone"@ => Kind::Vec,
        _ => Kind::Unknown,
    }
}

pub fn method_kind(receiver: &Kind, m: &str) -> (r: Kind)
    ensures
        r == spec_method_kind(*receiver, m@),
{
    match receiver.value() {
        Kind::Result(k) => if str_eq(m, "unwrap") || str_eq(m, "expect") {
            kind_clone(k)
        } else {
            Kind::Unknown
        },
        Kind::SyncLock => if str_eq(m, "lock") || str_eq(m, "read") || str_eq(m, "write") {
            Kind::Result(Box::new(Kind::Guard))
        } else {
            Kind::Unknown
        },
        Kind::SyncReceiver => if str_eq(m, "recv") || str_eq(m, "recv_timeout") {
            Kind::Result(Box::new(Kind::Unknown))
        } else {
            Kind::Unknown
        },
        Kind::SyncSender => if str_eq(m, "send") {
            Kind::Result(Box::new(Kind::Unknown))
        } else {
            Kind::Unknown
        },
        Kind::Writer => if str_eq(m, "write") || str_eq(m, "write_all") || str_eq(m, "read")
            || str_eq(m, "read_to_end") || str_eq(m, "read_to_string") || str_eq(m, "flush") {
            Kind::Result(Box::new(Kind::Unknown))
        } else {
            Kind::Unknown
        },
        Kind::String => if str_eq(m, "to_owned") || str_eq(m, "to_string") || str_eq(m, "clone") {
            Kind::String
        } else {
            Kind::Unknown
        },
        Kind::Vec => if str_eq(m, "clone") {
            Kind::Vec
        } else {
            Kind::Unknown
        },
        _ => Kind::Unknown,
    }
}

impl Context {
    /// The kind a call return_kinds: a local function's declared return kind
    /// (unless a binding shadows its name), else a known constructor or
    /// filesystem API of the resolved path.
    pub open spec fn spec_call_kind(&self, func: ExprModel) -> Kind {
        match func {
            ExprModel::Path(p) => {
                let local = spec_get_ident(p);
                if local is Some && !self.is_bound(local->0) && self.items.return_kinds@.contains_key(
                    local->0,
                ) {
                    self.items.return_kinds@[local->0]
                } else {
                    spec_classify_call(self.spec_path(p))
                }
            },
            _ => Kind::Unknown,
        }
    }

    /// The kind of an expression in this context.
    pub open spec fn spec_expr(&self, e: ExprModel) -> Kind
        decreases e,
    {
        match e {
            ExprModel::Path(_) => match spec_ident(e) {
                Some(n) => match self.lookup(n) {
                    Some(k) => k,
                    None => Kind::Unknown,
                },
                None => Kind::Unknown,
            },
            ExprModel::Paren(inner) => self.spec_expr(*inner),
            ExprModel::Group(inner) => self.spec_expr(*inner),
            ExprModel::Reference { expr, .. } => Kind::Reference(Box::new(self.spec_expr(*expr))),
            ExprModel::Cast(_, ty) => self.spec_kind(ty),
            ExprModel::Lit(l) => spec_literal_kind(l),
            ExprModel::Try(inner) => match self.spec_expr(*inner) {
                Kind::Result(k) => *k,
                _ => Kind::Unknown,
            },
            ExprModel::Await(inner) => match self.spec_expr(*inner) {
                Kind::Future(k) => *k,
                _ => Kind::Unknown,
            },
            ExprModel::Call { func, .. } => self.spec_call_kind(*func),
            ExprModel::MethodCall { receiver, method, .. } => spec_method_kind(
                self.spec_expr(*receiver),
                method@,
            ),
            ExprModel::Macro(p) => if spec_get_ident(p) == Some("vec"@) {
                Kind::Vec
            } else if spec_get_ident(p) == Some("format"@) {
                Kind::String
            } else {
                Kind::Unknown
            },
            _ => Kind::Unknown,
        }
    }

    fn call_kind(&self, func: &ExprModel) -> (r: Kind)
        requires
            self.wf(),
        ensures
            r == self.spec_call_kind(*func),
    {
        match func {
            ExprModel::Path(p) => {
                match get_ident(p) {
                    Some(name) => {
                        if self.lookup_kind(name.as_str()).is_none() {
                            match self.items.return_kinds.get(name.as_str()) {
                                Some(k) => return kind_clone(k),
                                None => {},
                            }
                        }
                    },
                    None => {},
                }
                let path = self.path(p);
                let s = path.as_str();
                if string_ctor(s) {
                    Kind::String
                } else if vec_ctor(s) {
                    Kind::Vec
                } else if sync_lock_ctor(s) {
                    Kind::SyncLock
                } else if async_lock_ctor(s) {
                    Kind::AsyncLock
                } else if is_fs_result(s) {
                    let c = chars_of(s);
                    let t = vec!['t', 'o', 'k', 'i', 'o', ':', ':'];
                    assert(t@ =~= tokio_prefix());
                    if has_prefix(&c, &t) {
                        Kind::Future(Box::new(Kind::Result(Box::new(Kind::Unknown))))
                    } else {
                        Kind::Result(Box::new(Kind::Unknown))
                    }
                } else {
                    Kind::Unknown
                }
            },
            _ => Kind::Unknown,
        }
    }

    /// The kind of an expression, from bindings, literals, casts, calls and
    /// method calls.
    pub fn expr(&self, e: &ExprModel) -> (r: Kind)
        requires
            self.wf(),
        ensures
            r == self.spec_expr(*e),
        decreases e,
    {
        match e {
            ExprModel::Path(_) => match ident(e) {
                Some(n) => match self.lookup_kind(n.as_str()) {
                    Some(k) => kind_clone(k),
                    None => Kind::Unknown,
                },
                None => Kind::Unknown,
            },
            ExprModel::Paren(inner) => self.expr(inner),
            ExprModel::Group(inner) => self.expr(inner),
            ExprModel::Reference { expr, .. } => Kind::Reference(Box::new(self.expr(expr))),
            ExprModel::Cast(_, ty) => self.kind(ty),
            ExprModel::Lit(l) => literal_kind(l),
            ExprModel::Try(inner) => match self.expr(inner) {
                Kind::Result(k) => *k,
                _ => Kind::Unknown,
            },
            ExprModel::Await(inner) => match self.expr(inner) {
                Kind::Future(k) => *k,
                _ => Kind::Unknown,
            },
            ExprModel::Call { func, .. } => self.call_kind(func),
            ExprModel::MethodCall { receiver, method, .. } => {
                let rk = self.expr(receiver);
                method_kind(&rk, method.as_str())
            },
            ExprModel::Macro(p) => match get_ident(p) {
                Some(n) => if str_eq(n.as_str(), "vec") {
                    Kind::Vec
                } else if str_eq(n.as_str(), "format") {
                    Kind::String
                } else {
                    Kind::Unknown
                },
                None => Kind::Unknown,
            },
            _ => Kind::Unknown,
        }
    }
}

/// A pattern that introduces bindings.
#[derive(Debug)]
pub enum PatModel {
    /// A plain identifier, its `ref` marker and where it appears.
    Ident { name: String, by_ref: bool, line: usize, column: usize },
    /// A pattern with a type annotation.
    Typed { pat: Box<PatModel>, ty: TypeModel },
    /// Any other pattern, with every identifier it binds.
    Other { names: Vec<String> },
}

/// A scope with each of `names` bound to an unknown kind.
pub open spec fn unknown_all(scope: Map<Seq<char>, Kind>, names: Seq<Seq<char>>) -> Map<
    Seq<char>,
    Kind,
> {
    Map::new(
        |k: Seq<char>| scope.contains_key(k) || names.contains(k),
        |k: Seq<char>|
            if names.contains(k) {
                Kind::Unknown
            } else {
                scope[k]
            },
    )
}

/// The scope of values of guards with every `Guard` replaced by `Unknown`.
pub open spec fn without_guards(scope: Map<Seq<char>, Kind>) -> Map<Seq<char>, Kind> {
    Map::new(
        |k: Seq<char>| scope.contains_key(k),
        |k: Seq<char>|
            if scope[k] == Kind::Guard {
                Kind::Unknown
            } else {
                scope[k]
            },
    )
}

/// The innermost scope among the first `i` that binds `k`, or -1.
pub open spec fn innermost(b: Seq<Map<Seq<char>, Kind>>, k: Seq<char>, i: int) -> int
    decreases i,
{
    if i <= 0 || i > b.len() {
        -1
    } else if b[i - 1].contains_key(k) {
        i - 1
    } else {
        innermost(b, k, i - 1)
    }
}

/// The views of a list of scopes.
pub open spec fn scope_views(b: Seq<Table<Kind>>) -> Seq<Map<Seq<char>, Kind>> {
    b.map_values(|t: Table<Kind>| t@)
}

/// Scopes with the innermost binding of `k` made unknown.
pub open spec fn spec_forget(b: Seq<Map<Seq<char>, Kind>>, k: Seq<char>) -> Seq<
    Map<Seq<char>, Kind>,
> {
    let i = innermost(b, k, b.len() as int);
    if i < 0 {
        b
    } else {
        b.update(i, b[i].insert(k, Kind::Unknown))
    }
}

/// The kind of the innermost binding of `k` in scope views.
pub open spec fn lookup_views(b: Seq<Map<Seq<char>, Kind>>, k: Seq<char>) -> Option<Kind> {
    let i = innermost(b, k, b.len() as int);
    if i < 0 {
        None
    } else {
        Some(b[i][k])
    }
}

/// Each of `names` that is a live guard stops being one, in order.
pub open spec fn forget_guards_named(b: Seq<Map<Seq<char>, Kind>>, names: Seq<Seq<char>>) -> Seq<
    Map<Seq<char>, Kind>,
>
    decreases names.len(),
{
    if names.len() == 0 {
        b
    } else {
        let prior = forget_guards_named(b, names.drop_last());
        if lookup_views(prior, names.last()) == Some(Kind::Guard) {
            spec_forget(prior, names.last())
        } else {
            prior
        }
    }
}

proof fn lemma_lookup_views(b: Seq<Table<Kind>>, k: Seq<char>, i: int)
    requires
        0 <= i <= b.len(),
    ensures
        ({
            let v = scope_views(b);
            let j = innermost(v, k, i);
            &&& -1 <= j < i
            &&& j >= 0 ==> v[j].contains_key(k)
            &&& forall|m: int| j < m < i ==> !(#[trigger] v[m]).contains_key(k)
            &&& lookup_from(b, k, i) == (if j < 0 {
                None
            } else {
                Some(v[j][k])
            })
        }),
    decreases i,
{
    if i > 0 {
        lemma_lookup_views(b, k, i - 1);
    }
}

impl Context {
    /// The scope after binding `pat` to `kind` in `scope`.
    pub open spec fn bind_scope(&self, scope: Map<Seq<char>, Kind>, pat: PatModel, kind: Kind) -> Map<
        Seq<char>,
        Kind,
    >
        decreases pat,
    {
        match pat {
            PatModel::Ident { name, by_ref, .. } => scope.insert(
                name@,
                if by_ref {
                    Kind::Reference(Box::new(kind))
                } else {
                    kind
                },
            ),
            PatModel::Typed { pat, ty } => self.bind_scope(scope, *pat, self.spec_kind(ty)),
            PatModel::Other { names } => unknown_all(scope, names_of(names@)),
        }
    }

    /// Where each name bound by `pat` is introduced.
    pub open spec fn bind_origins(origins: Map<Seq<char>, (usize, usize)>, pat: PatModel) -> Map<
        Seq<char>,
        (usize, usize),
    >
        decreases pat,
    {
        match pat {
            PatModel::Ident { name, line, column, .. } => origins.insert(name@, (line, column)),
            PatModel::Typed { pat, .. } => Self::bind_origins(origins, *pat),
            PatModel::Other { .. } => origins,
        }
    }

    /// Fields other than the scopes of bindings and their origins are equal.
    pub open spec fn same_frame(&self, other: &Context) -> bool {
        &&& self.items == other.items
        &&& self.in_async == other.in_async
        &&& self.in_const == other.in_const
        &&& self.loop_depth == other.loop_depth
        &&& self.loop_start == other.loop_start
        &&& self.execution == other.execution
        &&& self.block == other.block
    }

    /// Binds the names of a pattern in the innermost scope. A typed pattern
    /// binds its annotation's kind instead of `kind`; other patterns bind
    /// their names to an unknown kind.
    pub fn bind(&mut self, pat: &PatModel, kind: Kind)
        requires
            old(self).wf(),
            old(self).bindings@.len() > 0,
        ensures
            final(self).wf(),
            final(self).same_frame(old(self)),
            final(self).bindings@.len() == old(self).bindings@.len(),
            forall|i: int|
                0 <= i < old(self).bindings@.len() - 1 ==> (#[trigger] final(self).bindings@[i])@
                    == old(self).bindings@[i]@,
            final(self).bindings@.last()@ == old(self).bind_scope(
                old(self).bindings@.last()@,
                *pat,
                kind,
            ),
            final(self).origins@ == Self::bind_origins(old(self).origins@, *pat),
        decreases pat,
    {
        match pat {
            PatModel::Ident { name, by_ref, line, column } => {
                self.origins.insert(name.clone(), (*line, *column));
                let mut scope = self.bindings.pop().unwrap();
                let k = if *by_ref {
                    Kind::Reference(Box::new(kind))
                } else {
                    kind
                };
                scope.insert(name.clone(), k);
                self.bindings.push(scope);
            },
            PatModel::Typed { pat: inner, ty } => {
                let k = self.kind(ty);
                self.bind(inner, k);
            },
            PatModel::Other { names } => {
                let mut scope = self.bindings.pop().unwrap();
                let ghost start = scope@;
                let ghost all = names_of(names@);
                let mut i: usize = 0;
                while i < names.len()
                    invariant
                        i <= names@.len(),
                        scope.wf(),
                        all == names_of(names@),
                        scope@ == unknown_all(start, all.take(i as int)),
                    decreases names@.len() - i,
                {
                    scope.insert(names[i].clone(), Kind::Unknown);
                    i = i + 1;
                    assert(scope@ =~= unknown_all(start, all.take(i as int))) by {
                        assert forall|q: Seq<char>| all.take(i as int).contains(q) <==> all.take(
                            i - 1,
                        ).contains(q) || q == all[i - 1] by {
                            if all.take(i as int).contains(q) {
                                let w = choose|w: int| 0 <= w < i && #[trigger] all.take(i as int)[w] == q;
                                if w < i - 1 {
                                    assert(all.take(i - 1)[w] == q);
                                }
                            }
                            if all.take(i - 1).contains(q) {
                                let w = choose|w: int| 0 <= w < i - 1 && #[trigger] all.take(i - 1)[w] == q;
                                assert(all.take(i as int)[w] == q);
                            }
                            if q == all[i - 1] {
                                assert(all.take(i as int)[i - 1] == q);
                            }
                        }
                    }
                }
                assert(all.take(names@.len() as int) =~= all);
                self.bindings.push(scope);
            },
        }
    }

    /// Whether any scope binds a live guard.
    pub open spec fn spec_has_guard(&self) -> bool {
        exists|i: int, k: Seq<char>|
            #![trigger self.bindings@[i]@.contains_key(k)]
            0 <= i < self.bindings@.len() && self.bindings@[i]@.contains_key(k)
                && self.bindings@[i]@[k] == Kind::Guard
    }

    pub fn has_guard(&self) -> (r: bool)
        requires
            self.wf(),
        ensures
            r == self.spec_has_guard(),
    {
        let mut i: usize = 0;
        while i < self.bindings.len()
            invariant
                i <= self.bindings@.len(),
                self.wf(),
                forall|a: int, k: Seq<char>|
                    #![trigger self.bindings@[a]@.contains_key(k)]
                    0 <= a < i && self.bindings@[a]@.contains_key(k) ==> self.bindings@[a]@[k]
                        != Kind::Guard,
            decreases self.bindings@.len() - i,
        {
            let scope = &self.bindings[i];
            let mut j: usize = 0;
            while j < scope.entries.len()
                invariant
                    j <= scope.entries@.len(),
                    scope.wf(),
                    i < self.bindings@.len(),
                    *scope == self.bindings@[i as int],
                    forall|b: int| 0 <= b < j ==> (#[trigger] scope.entries@[b]).1 != Kind::Guard,
                decreases scope.entries@.len() - j,
            {
                if is_guard(&scope.entries[j].1) {
                    proof {
                        lemma_entry_value(scope.entries@, j as int);
                        assert(self.bindings@[i as int]@.contains_key(scope.entries@[j as int].0@));
                    }
                    return true;
                }
                j = j + 1;
            }
            assert forall|k: Seq<char>| (#[trigger] scope@).contains_key(k) implies scope@[k] != Kind::Guard by {
                let b = index_of(scope.entries@, k);
                lemma_entry_value(scope.entries@, b);
            }
            i = i + 1;
        }
        false
    }

    /// Where the binding that an expression names was introduced.
    pub fn binding_origin(&self, e: &ExprModel) -> (r: Option<(usize, usize)>)
        requires
            self.wf(),
        ensures
            r == (match spec_ident(*e) {
                Some(n) => if self.origins@.contains_key(n) {
                    Some(self.origins@[n])
                } else {
                    None
                },
                None => None,
            }),
    {
        match ident(e) {
            Some(n) => match self.origins.get(n.as_str()) {
                Some(o) => Some(*o),
                None => None,
            },
            None => None,
        }
    }

    /// Whether an expression names a binding of the innermost scope, or of
    /// the outermost of exactly two scopes.
    pub open spec fn spec_is_current_binding(&self, e: ExprModel) -> bool {
        match spec_ident(e) {
            Some(n) => (self.bindings@.len() > 0 && self.bindings@.last()@.contains_key(n)) || (
            self.bindings@.len() == 2 && self.bindings@[0]@.contains_key(n)),
            None => false,
        }
    }

    pub fn is_current_binding(&self, e: &ExprModel) -> (r: bool)
        requires
            self.wf(),
        ensures
            r == self.spec_is_current_binding(*e),
    {
        match ident(e) {
            Some(n) => {
                let len = self.bindings.len();
                (len > 0 && self.bindings[len - 1].contains_key(n.as_str())) || (len == 2
                    && self.bindings[0].contains_key(n.as_str()))
            },
            None => false,
        }
    }

    /// Opens a new innermost scope.
    pub fn push_scope(&mut self)
        requires
            old(self).wf(),
        ensures
            final(self).wf(),
            final(self).same_frame(old(self)),
            final(self).origins == old(self).origins,
            final(self).bindings@ == old(self).bindings@.push(final(self).bindings@.last()),
            final(self).bindings@.last()@ == Map::<Seq<char>, Kind>::empty(),
    {
        self.bindings.push(Table::new());
    }

    /// Closes the innermost scope.
    pub fn pop_scope(&mut self)
        requires
            old(self).wf(),
        ensures
            final(self).wf(),
            final(self).same_frame(old(self)),
            final(self).origins == old(self).origins,
            final(self).bindings@ == (if old(self).bindings@.len() > 0 {
                old(self).bindings@.drop_last()
            } else {
                old(self).bindings@
            }),
    {
        let _ = self.bindings.pop();
    }

    /// Every live guard stops being one (execution moves to another context
    /// or a branch may have released it).
    pub fn forget_guards(&mut self)
        requires
            old(self).wf(),
        ensures
            final(self).wf(),
            final(self).same_frame(old(self)),
            final(self).origins == old(self).origins,
            scope_views(final(self).bindings@) == scope_views(old(self).bindings@).map_values(
                |m: Map<Seq<char>, Kind>| without_guards(m),
            ),
    {
        let mut done: Vec<Table<Kind>> = Vec::new();
        let ghost old_b = self.bindings@;
        while self.bindings.len() > 0
            invariant
                self.wf(),
                self.same_frame(old(self)),
                self.origins == old(self).origins,
                forall|i: int| 0 <= i < done@.len() ==> (#[trigger] done@[i]).wf(),
                self.bindings@.len() + done@.len() == old_b.len(),
                forall|i: int| 0 <= i < self.bindings@.len() ==> #[trigger] self.bindings@[i] == old_b[i],
                forall|i: int|
                    0 <= i < done@.len() ==> (#[trigger] done@[i])@ == without_guards(
                        old_b[old_b.len() - 1 - i]@,
                    ),
            decreases self.bindings@.len(),
        {
            let mut scope = self.bindings.pop().unwrap();
            let ghost orig = scope;
            let mut j: usize = 0;
            while j < scope.entries.len()
                invariant
                    j <= scope.entries@.len(),
                    scope.wf(),
                    scope.entries@.len() == orig.entries@.len(),
                    forall|b: int| 0 <= b < scope.entries@.len() ==> (#[trigger] scope.entries@[b]).0 == orig.entries@[b].0,
                    forall|b: int|
                        0 <= b < scope.entries@.len() ==> (#[trigger] scope.entries@[b]).1 == (if b < j
                            && orig.entries@[b].1 == Kind::Guard {
                            Kind::Unknown
                        } else {
                            orig.entries@[b].1
                        }),
                decreases scope.entries@.len() - j,
            {
                if is_guard(&scope.entries[j].1) {
                    scope.set_value(j, Kind::Unknown);
                }
                j = j + 1;
            }
            assert(scope@ =~= without_guards(orig@)) by {
                assert forall|k: Seq<char>| #[trigger] has_key(scope.entries@, k) <==> has_key(orig.entries@, k) by {
                    if has_key(scope.entries@, k) {
                        let b = choose|b: int| 0 <= b < scope.entries@.len() && (#[trigger] scope.entries@[b]).0@ == k;
                        assert(orig.entries@[b].0@ == k);
                    }
                    if has_key(orig.entries@, k) {
                        let b = choose|b: int| 0 <= b < orig.entries@.len() && (#[trigger] orig.entries@[b]).0@ == k;
                        assert(scope.entries@[b].0@ == k);
                    }
                }
                assert forall|k: Seq<char>| #[trigger] has_key(scope.entries@, k) implies scope@[k] == without_guards(orig@)[k] by {
                    let b = index_of(scope.entries@, k);
                    lemma_entry_value(scope.entries@, b);
                    lemma_entry_value(orig.entries@, b);
                }
            }
            done.push(scope);
        }
        let mut result: Vec<Table<Kind>> = Vec::new();
        while done.len() > 0
            invariant
                forall|i: int| 0 <= i < done@.len() ==> (#[trigger] done@[i]).wf(),
                forall|i: int| 0 <= i < result@.len() ==> (#[trigger] result@[i]).wf(),
                result@.len() + done@.len() == old_b.len(),
                forall|i: int|
                    0 <= i < done@.len() ==> (#[trigger] done@[i])@ == without_guards(
                        old_b[old_b.len() - 1 - i]@,
                    ),
                forall|i: int| 0 <= i < result@.len() ==> (#[trigger] result@[i])@ == without_guards(old_b[i]@),
            decreases done@.len(),
        {
            let t = done.pop().unwrap();
            result.push(t);
        }
        self.bindings = result;
        assert(scope_views(self.bindings@) =~= scope_views(old_b).map_values(
            |m: Map<Seq<char>, Kind>| without_guards(m),
        ));
    }
}

impl Context {
    /// The index of the innermost scope that binds `name`.
    fn innermost_scope(&self, name: &str) -> (r: Option<usize>)
        requires
            self.wf(),
        ensures
            r matches Some(i) ==> i == innermost(scope_views(self.bindings@), name@, self.bindings@.len() as int)
                && i < self.bindings@.len(),
            r is None ==> innermost(scope_views(self.bindings@), name@, self.bindings@.len() as int) < 0,
    {
        let mut i = self.bindings.len();
        while i > 0
            invariant
                i <= self.bindings@.len(),
                self.wf(),
                innermost(scope_views(self.bindings@), name@, i as int) == innermost(
                    scope_views(self.bindings@),
                    name@,
                    self.bindings@.len() as int,
                ),
            decreases i,
        {
            if self.bindings[i - 1].contains_key(name) {
                return Some(i - 1);
            }
            i = i - 1;
        }
        None
    }

    /// The innermost binding named `name` stops carrying evidence.
    pub fn forget(&mut self, name: &str)
        requires
            old(self).wf(),
        ensures
            final(self).wf(),
            final(self).same_frame(old(self)),
            final(self).origins == old(self).origins,
            scope_views(final(self).bindings@) == spec_forget(scope_views(old(self).bindings@), name@),
    {
        match self.innermost_scope(name) {
            Some(i) => {
                let ghost before = self.bindings@;
                let mut t = self.bindings.remove(i);
                t.insert(chars_to_string(name), Kind::Unknown);
                self.bindings.insert(i, t);
                assert(scope_views(self.bindings@) =~= spec_forget(scope_views(before), name@));
            },
            None => {
                assert(scope_views(self.bindings@) =~= spec_forget(scope_views(self.bindings@), name@));
            },
        }
    }

    /// Guards captured by a deferred body stop being live: each name in
    /// `used` that is a live guard is forgotten.
    pub fn forget_captured_guards(&mut self, used: &Vec<String>)
        requires
            old(self).wf(),
        ensures
            final(self).wf(),
            final(self).same_frame(old(self)),
            final(self).origins == old(self).origins,
            scope_views(final(self).bindings@) == forget_guards_named(
                scope_views(old(self).bindings@),
                names_of(used@),
            ),
    {
        let ghost all = names_of(used@);
        let ghost start = scope_views(self.bindings@);
        let mut i: usize = 0;
        while i < used.len()
            invariant
                i <= used@.len(),
                self.wf(),
                self.same_frame(old(self)),
                self.origins == old(self).origins,
                all == names_of(used@),
                start == scope_views(old(self).bindings@),
                scope_views(self.bindings@) == forget_guards_named(start, all.take(i as int)),
            decreases used@.len() - i,
        {
            let name = used[i].as_str();
            let ghost prior = scope_views(self.bindings@);
            proof {
                lemma_lookup_views(self.bindings@, name@, self.bindings@.len() as int);
                assert(all.take(i + 1).drop_last() =~= all.take(i as int));
                assert(all.take(i + 1).last() == name@);
            }
            let live = match self.lookup_kind(name) {
                Some(k) => is_guard(k),
                None => false,
            };
            if live {
                self.forget(name);
            }
            i = i + 1;
        }
        assert(all.take(used@.len() as int) =~= all);
    }

    /// Enters a function body: one empty scope, no origins, no loop, the
    /// function's asynchrony and constness, and its type parameters as
    /// generic names.
    pub fn start_function(
        &mut self,
        in_async: bool,
        in_const: bool,
        execution: (usize, usize),
        generics: &Vec<String>,
    )
        requires
            old(self).wf(),
        ensures
            final(self).wf(),
            final(self).bindings@.len() == 1,
            final(self).bindings@[0]@ == Map::<Seq<char>, Kind>::empty(),
            final(self).origins@ == Map::<Seq<char>, (usize, usize)>::empty(),
            final(self).in_async == in_async,
            final(self).in_const == in_const,
            final(self).loop_depth == 0,
            final(self).execution == execution,
            final(self).loop_start == old(self).loop_start,
            final(self).block == old(self).block,
            final(self).items.aliases == old(self).items.aliases,
            final(self).items.return_kinds == old(self).items.return_kinds,
            forall|k: Seq<char>|
                #![trigger final(self).items.names@.contains_key(k)]
                final(self).items.names@.contains_key(k) <==> old(self).items.names@.contains_key(k)
                    || names_of(generics@).contains(k),
            forall|k: Seq<char>|
                #![trigger final(self).items.names@[k]]
                final(self).items.names@.contains_key(k) ==> final(self).items.names@[k]@ == (if names_of(
                    generics@,
                ).contains(k) {
                    generic_marker()
                } else {
                    old(self).items.names@[k]@
                }),
    {
        let mut b: Vec<Table<Kind>> = Vec::new();
        let t: Table<Kind> = Table::new();
        b.push(t);
        self.bindings = b;
        self.origins = Table::new();
        self.in_async = in_async;
        self.in_const = in_const;
        self.loop_depth = 0;
        self.execution = execution;
        declare_generics(&mut self.items.names, generics);
    }
}

/// Names generic type parameters: each becomes `<generic>`.
fn declare_generics(names: &mut Table<String>, generics: &Vec<String>)
    requires
        old(names).wf(),
    ensures
        final(names).wf(),
        forall|k: Seq<char>|
            #![trigger final(names)@.contains_key(k)]
            final(names)@.contains_key(k) <==> old(names)@.contains_key(k) || names_of(generics@).contains(k),
        forall|k: Seq<char>|
            #![trigger final(names)@[k]]
            final(names)@.contains_key(k) ==> final(names)@[k]@ == (if names_of(generics@).contains(k) {
                generic_marker()
            } else {
                old(names)@[k]@
            }),
{
    let ghost g = names_of(generics@);
    let ghost start = names@;
    let mut i: usize = 0;
    while i < generics.len()
        invariant
            i <= generics@.len(),
            names.wf(),
            g == names_of(generics@),
            start == old(names)@,
            forall|k: Seq<char>|
                #![trigger names@.contains_key(k)]
                names@.contains_key(k) <==> start.contains_key(k) || g.take(i as int).contains(k),
            forall|k: Seq<char>|
                #![trigger names@[k]]
                names@.contains_key(k) ==> names@[k]@ == (if g.take(i as int).contains(k) {
                    generic_marker()
                } else {
                    start[k]@
                }),
        decreases generics@.len() - i,
    {
        let marker = vec!['<', 'g', 'e', 'n', 'e', 'r', 'i', 'c', '>'];
        let m = string_of(marker.as_slice());
        assert(m@ =~= generic_marker());
        proof {
            assert forall|q: Seq<char>| g.take(i + 1).contains(q) <==> g.take(i as int).contains(q)
                || q == g[i as int] by {
                if g.take(i + 1).contains(q) {
                    let w = choose|w: int| 0 <= w < i + 1 && #[trigger] g.take(i + 1)[w] == q;
                    if w < i {
                        assert(g.take(i as int)[w] == q);
                    }
                }
                if g.take(i as int).contains(q) {
                    let w = choose|w: int| 0 <= w < i && #[trigger] g.take(i as int)[w] == q;
                    assert(g.take(i + 1)[w] == q);
                }
                if q == g[i as int] {
                    assert(g.take(i + 1)[i as int] == q);
                }
            }
        }
        let ghost prior = names@;
        let key = generics[i].clone();
        assert(key@ == g[i as int]);
        names.insert(key, m);
        assert(names@ == prior.insert(g[i as int], m));
        assert forall|k: Seq<char>| #[trigger] names@.contains_key(k) <==> start.contains_key(k) || g.take(i + 1).contains(k) by {
            assert(prior.contains_key(k) <==> start.contains_key(k) || g.take(i as int).contains(k));
            assert(g.take(i + 1).contains(k) <==> g.take(i as int).contains(k) || k == g[i as int]);
            if k == g[i as int] {
                assert(names@.contains_key(k));
            }
        }
        assert forall|k: Seq<char>| #[trigger] names@.contains_key(k) implies names@[k]@ == (if g.take(i + 1).contains(k) {
            generic_marker()
        } else {
            start[k]@
        }) by {
            assert(g.take(i + 1).contains(k) <==> g.take(i as int).contains(k) || k == g[i as int]);
            if k == g[i as int] {
            } else {
                assert(prior.contains_key(k));
                assert(prior[k]@ == (if g.take(i as int).contains(k) {
                    generic_marker()
                } else {
                    start[k]@
                }));
            }
        }
        i = i + 1;
    }
    assert(g.take(generics@.len() as int) =~= g);
}

pub fn string_clone(s: &String) -> (r: String)
    ensures
        r == *s,
{
    s.clone()
}

pub fn pair_clone(p: &(usize, usize)) -> (r: (usize, usize))
    ensures
        r == *p,
{
    *p
}

/// A string with the characters of a string slice.
pub fn chars_to_string(s: &str) -> (r: String)
    ensures
        r@ == s@,
{
    let c = chars_of(s);
    string_of(c.as_slice())
}

impl Context {
    /// A copy of this context with the same evidence.
    pub fn snapshot(&self) -> (r: Context)
        requires
            self.wf(),
        ensures
            r.wf(),
            r.items.names@ == self.items.names@,
            r.items.aliases@ == self.items.aliases@,
            r.items.return_kinds@ == self.items.return_kinds@,
            scope_views(r.bindings@) == scope_views(self.bindings@),
            r.origins@ == self.origins@,
            r.in_async == self.in_async,
            r.in_const == self.in_const,
            r.loop_depth == self.loop_depth,
            r.loop_start == self.loop_start,
            r.execution == self.execution,
            r.block == self.block,
    {
        let names = self.items.names.duplicate(string_clone);
        let aliases = self.items.aliases.duplicate(type_clone);
        let return_kinds = self.items.return_kinds.duplicate(kind_clone);
        let origins = self.origins.duplicate(pair_clone);
        let mut bindings: Vec<Table<Kind>> = Vec::new();
        let mut i: usize = 0;
        while i < self.bindings.len()
            invariant
                i <= self.bindings@.len(),
                self.wf(),
                bindings@.len() == i,
                forall|j: int| 0 <= j < i ==> (#[trigger] bindings@[j]).wf(),
                forall|j: int| 0 <= j < i ==> (#[trigger] bindings@[j])@ == self.bindings@[j]@,
            decreases self.bindings@.len() - i,
        {
            let t = self.bindings[i].duplicate(kind_clone);
            bindings.push(t);
            i = i + 1;
        }
        assert(scope_views(bindings@) =~= scope_views(self.bindings@));
        Context {
            items: ItemScope { names, aliases, return_kinds },
            bindings,
            origins,
            in_async: self.in_async,
            in_const: self.in_const,
            loop_depth: self.loop_depth,
            loop_start: self.loop_start,
            execution: self.execution,
            block: self.block,
        }
    }
}

/// A `use` tree.
#[derive(Debug)]
pub enum UseTree {
    Path { ident: String, tree: Box<UseTree> },
    Name(String),
    Rename { ident: String, rename: String },
    Group(UseList),
    Glob,
}

/// `use` trees of a group, in order.
#[derive(Debug)]
pub enum UseList {
    Nil,
    Cons(Box<UseTree>, Box<UseList>),
}

/// An item, as far as name resolution reads it.
#[derive(Debug)]
pub enum ItemModel {
    /// A struct, enum, module or trait declaration.
    Declared(String),
    /// A type alias; `generic` when it has generic parameters.
    TypeAlias { ident: String, generic: bool, ty: TypeModel },
    /// A function: its name, asynchrony, type parameter names and return type.
    Fn { ident: String, asyncness: bool, type_generics: Vec<String>, output: Option<TypeModel> },
    Use { leading_colon: bool, tree: UseTree },
    Other,
}

/// The maps an item scope spells.
pub struct ScopeMaps {
    pub names: Map<Seq<char>, Seq<char>>,
    pub aliases: Map<Seq<char>, TypeModel>,
    pub kinds: Map<Seq<char>, Kind>,
}

pub open spec fn string_views(m: Map<Seq<char>, String>) -> Map<Seq<char>, Seq<char>> {
    m.map_values(|s: String| s@)
}

impl ItemScope {
    pub open spec fn maps(&self) -> ScopeMaps {
        ScopeMaps { names: string_views(self.names@), aliases: self.aliases@, kinds: self.return_kinds@ }
    }
}

/// `s` without any number of trailing `::`.
pub open spec fn trim_colons(s: Seq<char>) -> Seq<char>
    decreases s.len(),
{
    if s.len() >= 2 && s.subrange(s.len() - 2, s.len() as int) == colons() {
        trim_colons(s.take(s.len() - 2))
    } else {
        s
    }
}

/// The last start of `::` at or before `p`.
pub open spec fn rfind_colons(s: Seq<char>, p: int) -> Option<int>
    decreases p + 1,
{
    if p < 0 {
        None
    } else if spec_matches_at(s, p, colons()) {
        Some(p)
    } else {
        rfind_colons(s, p - 1)
    }
}

/// The part after the last `::`.
pub open spec fn last_component(s: Seq<char>) -> Seq<char> {
    match rfind_colons(s, s.len() - 2) {
        Some(p) => s.skip(p + 2),
        None => s,
    }
}

/// Where an imported `target` resolves: absolute paths lose their leading
/// `::`; a first component that names an import or declaration resolves
/// through it.
pub open spec fn spec_resolve(names: Map<Seq<char>, Seq<char>>, target: Seq<char>) -> Seq<char> {
    if starts_with(target, colons()) {
        target.skip(2)
    } else {
        match spec_find_from(target, colons(), 0) {
            Some(p) => if names.contains_key(target.take(p)) {
                names[target.take(p)] + colons() + target.skip(p + 2)
            } else {
                target
            },
            None => if names.contains_key(target) {
                names[target]
            } else {
                target
            },
        }
    }
}

pub open spec fn spec_import_name(v: ScopeMaps, name: Seq<char>, target: Seq<char>) -> ScopeMaps {
    ScopeMaps {
        names: v.names.insert(name, spec_resolve(v.names, target)),
        aliases: v.aliases.remove(name),
        kinds: v.kinds.remove(name),
    }
}

pub open spec fn self_ident() -> Seq<char> {
    seq!['s', 'e', 'l', 'f']
}

pub open spec fn spec_use_tree(v: ScopeMaps, prefix: Seq<char>, tree: UseTree) -> ScopeMaps
    decreases tree,
{
    match tree {
        UseTree::Path { ident, tree } => spec_use_tree(v, prefix + ident@ + colons(), *tree),
        UseTree::Name(n) => {
            let target = if n@ == self_ident() {
                trim_colons(prefix)
            } else {
                prefix + n@
            };
            spec_import_name(v, last_component(target), target)
        },
        UseTree::Rename { ident, rename } => spec_import_name(v, rename@, prefix + ident@),
        UseTree::Group(l) => spec_use_list(v, prefix, l),
        UseTree::Glob => v,
    }
}

pub open spec fn spec_use_list(v: ScopeMaps, prefix: Seq<char>, l: UseList) -> ScopeMaps
    decreases l,
{
    match l {
        UseList::Nil => v,
        UseList::Cons(t, rest) => spec_use_list(spec_use_tree(v, prefix, *t), prefix, *rest),
    }
}

pub open spec fn item_ident(i: ItemModel) -> Option<Seq<char>> {
    match i {
        ItemModel::Declared(n) => Some(n@),
        ItemModel::TypeAlias { ident, .. } => Some(ident@),
        ItemModel::Fn { ident, .. } => Some(ident@),
        _ => None,
    }
}

/// Item declarations shadow prelude names and outside crate names.
pub open spec fn spec_decls(v: ScopeMaps, items: Seq<ItemModel>) -> ScopeMaps
    decreases items.len(),
{
    if items.len() == 0 {
        v
    } else {
        let prior = spec_decls(v, items.drop_last());
        match item_ident(items.last()) {
            Some(n) => ScopeMaps {
                names: prior.names.insert(n, local_marker()),
                aliases: prior.aliases.remove(n),
                kinds: prior.kinds.remove(n),
            },
            None => prior,
        }
    }
}

/// Nongeneric aliases and imports, in order.
pub open spec fn spec_imports(v: ScopeMaps, items: Seq<ItemModel>) -> ScopeMaps
    decreases items.len(),
{
    if items.len() == 0 {
        v
    } else {
        let prior = spec_imports(v, items.drop_last());
        match items.last() {
            ItemModel::TypeAlias { ident, generic, ty } => if !generic {
                ScopeMaps { names: prior.names, aliases: prior.aliases.insert(ident@, ty), kinds: prior.kinds }
            } else {
                prior
            },
            ItemModel::Use { leading_colon, tree } => spec_use_tree(
                prior,
                if leading_colon {
                    colons()
                } else {
                    seq![]
                },
                tree,
            ),
            _ => prior,
        }
    }
}

impl Context {
    /// The kinds local functions return, judged in this context.
    pub open spec fn spec_return_kinds(&self, kinds: Map<Seq<char>, Kind>, items: Seq<ItemModel>) -> Map<
        Seq<char>,
        Kind,
    >
        decreases items.len(),
    {
        if items.len() == 0 {
            kinds
        } else {
            let prior = self.spec_return_kinds(kinds, items.drop_last());
            match items.last() {
                ItemModel::Fn { ident, asyncness, type_generics, output } => {
                    let out = match output {
                        None => Kind::Unit,
                        Some(t) => self.spec_kind_at(names_of(type_generics@), t, 0),
                    };
                    prior.insert(
                        ident@,
                        if asyncness {
                            Kind::Future(Box::new(out))
                        } else {
                            out
                        },
                    )
                },
                _ => prior,
            }
        }
    }
}

impl ItemScope {
    fn import_name(&mut self, name: &Vec<char>, target: &Vec<char>)
        requires
            old(self).wf(),
        ensures
            final(self).wf(),
            final(self).maps() == spec_import_name(old(self).maps(), name@, target@),
    {
        let cc = vec![':', ':'];
        assert(cc@ =~= colons());
        let resolved: Vec<char> = if has_prefix(target, &cc) {
            let r = slice_of(target, 2, target.len());
            assert(r@ =~= target@.skip(2));
            r
        } else {
            match find_from(target, &cc, 0) {
                Some(p) => {
                    let first = slice_of(target, 0, p);
                    assert(first@ =~= target@.take(p as int));
                    let first_s = string_of(first.as_slice());
                    match self.names.get(first_s.as_str()) {
                        Some(root) => {
                            let mut r = chars_of(root.as_str());
                            r.push(':');
                            r.push(':');
                            let n = target.len();
                            assert(p + 2 <= n);
                            let rest = slice_of(target, p + 2, n);
                            extend(&mut r, &rest);
                            assert(r@ =~= root@ + colons() + target@.skip(p + 2));
                            r
                        },
                        None => slice_of(target, 0, target.len()),
                    }
                },
                None => {
                    let t = string_of(target.as_slice());
                    match self.names.get(t.as_str()) {
                        Some(root) => chars_of(root.as_str()),
                        None => slice_of(target, 0, target.len()),
                    }
                },
            }
        };
        assert(target@.subrange(0, target@.len() as int) =~= target@);
        let name_s = string_of(name.as_slice());
        let ghost before = self.maps();
        assert(resolved@ == spec_resolve(before.names, target@));
        self.return_kinds.remove(name_s.as_str());
        self.aliases.remove(name_s.as_str());
        let ghost names_before = self.names@;
        self.names.insert(name_s, string_of(resolved.as_slice()));
        assert(string_views(self.names@) =~= string_views(names_before).insert(name@, resolved@));
    }

    fn add_use(&mut self, prefix: &Vec<char>, tree: &UseTree)
        requires
            old(self).wf(),
        ensures
            final(self).wf(),
            final(self).maps() == spec_use_tree(old(self).maps(), prefix@, *tree),
        decreases tree,
    {
        match tree {
            UseTree::Path { ident, tree: sub } => {
                let mut p = slice_of(prefix, 0, prefix.len());
                let id = chars_of(ident.as_str());
                extend(&mut p, &id);
                p.push(':');
                p.push(':');
                assert(p@ =~= prefix@ + ident@ + colons());
                self.add_use(&p, sub);
            },
            UseTree::Name(n) => {
                let target: Vec<char> = if str_eq(n.as_str(), "self") {
                    proof {
                        reveal_strlit("self");
                        assert("self"@ =~= self_ident());
                    }
                    trim_colons_vec(prefix)
                } else {
                    proof {
                        reveal_strlit("self");
                        assert("self"@ =~= self_ident());
                    }
                    let mut t = slice_of(prefix, 0, prefix.len());
                    let id = chars_of(n.as_str());
                    extend(&mut t, &id);
                    assert(t@ =~= prefix@ + n@);
                    t
                };
                let name = last_component_vec(&target);
                self.import_name(&name, &target);
            },
            UseTree::Rename { ident, rename } => {
                let mut t = slice_of(prefix, 0, prefix.len());
                let id = chars_of(ident.as_str());
                extend(&mut t, &id);
                assert(t@ =~= prefix@ + ident@);
                let name = chars_of(rename.as_str());
                self.import_name(&name, &t);
            },
            UseTree::Group(l) => {
                self.add_use_list(prefix, l);
            },
            UseTree::Glob => {},
        }
    }

    fn add_use_list(&mut self, prefix: &Vec<char>, l: &UseList)
        requires
            old(self).wf(),
        ensures
            final(self).wf(),
            final(self).maps() == spec_use_list(old(self).maps(), prefix@, *l),
        decreases l,
    {
        match l {
            UseList::Nil => {},
            UseList::Cons(t, rest) => {
                self.add_use(prefix, t);
                self.add_use_list(prefix, rest);
            },
        }
    }
}

fn trim_colons_vec(s: &Vec<char>) -> (r: Vec<char>)
    ensures
        r@ == trim_colons(s@),
{
    let mut n = s.len();
    assert(s@.take(n as int) =~= s@);
    while n >= 2 && s[n - 2] == ':' && s[n - 1] == ':'
        invariant
            n <= s@.len(),
            trim_colons(s@.take(n as int)) == trim_colons(s@),
        decreases n,
    {
        proof {
            let t = s@.take(n as int);
            assert(t.subrange(t.len() - 2, t.len() as int) =~= colons());
            assert(t.take(t.len() - 2) =~= s@.take(n - 2));
        }
        n = n - 2;
    }
    proof {
        let t = s@.take(n as int);
        if n >= 2 {
            assert(t.subrange(t.len() - 2, t.len() as int) != colons()) by {
                if t.subrange(t.len() - 2, t.len() as int) == colons() {
                    assert(t.subrange(t.len() - 2, t.len() as int)[0] == s@[n - 2]);
                    assert(t.subrange(t.len() - 2, t.len() as int)[1] == s@[n - 1]);
                }
            }
        }
    }
    slice_of(s, 0, n)
}

fn last_component_vec(s: &Vec<char>) -> (r: Vec<char>)
    ensures
        r@ == last_component(s@),
{
    let cc = vec![':', ':'];
    assert(cc@ =~= colons());
    if s.len() < 2 {
        assert(rfind_colons(s@, s@.len() - 2) is None);
        return slice_of(s, 0, s.len());
    }
    let mut p = s.len() - 2;
    loop
        invariant
            p + 2 <= s@.len(),
            s@.len() == s.len(),
            cc@ == colons(),
            rfind_colons(s@, p as int) == rfind_colons(s@, s@.len() - 2),
        decreases p,
    {
        if matches_at(s, p, &cc) {
            let n = s.len();
            let r = slice_of(s, p + 2, n);
            assert(r@ =~= s@.skip(p + 2));
            return r;
        }
        if p == 0 {
            assert(rfind_colons(s@, -1) is None);
            assert(s@.subrange(0, s@.len() as int) =~= s@);
            return slice_of(s, 0, s.len());
        }
        p = p - 1;
    }
}

/// The kind of a type depends only on names, aliases and bindings.
pub proof fn lemma_kind_frame(a: Context, b: Context, g: Seq<Seq<char>>, ty: TypeModel, depth: int)
    requires
        a.items.names == b.items.names,
        a.items.aliases == b.items.aliases,
        a.bindings == b.bindings,
    ensures
        a.spec_kind_at(g, ty, depth) == b.spec_kind_at(g, ty, depth),
    decreases 17 - depth, 2int,
{
    if depth <= 16 {
        match ty {
            TypeModel::Reference(e) => lemma_kind_frame(a, b, g, *e, depth + 1),
            TypeModel::Paren(e) => lemma_kind_frame(a, b, g, *e, depth + 1),
            TypeModel::Group(e) => lemma_kind_frame(a, b, g, *e, depth + 1),
            TypeModel::Path { qself, path } => if !qself {
                lemma_path_kind_frame(a, b, g, path, depth);
            },
            _ => {},
        }
    }
}

pub proof fn lemma_path_kind_frame(a: Context, b: Context, g: Seq<Seq<char>>, p: PathModel, depth: int)
    requires
        a.items.names == b.items.names,
        a.items.aliases == b.items.aliases,
        a.bindings == b.bindings,
    ensures
        a.spec_path_kind(g, p, depth) == b.spec_path_kind(g, p, depth),
    decreases 17 - depth, 1int,
{
    if depth <= 16 {
        assert(a.alias_of(g, p) == b.alias_of(g, p));
        assert(a.spec_path_g(g, p) == b.spec_path_g(g, p));
        match a.alias_of(g, p) {
            Some(t) => lemma_kind_frame(a, b, g, t, depth + 1),
            None => lemma_first_arg_frame(a, b, g, p, depth),
        }
    }
}

pub proof fn lemma_first_arg_frame(a: Context, b: Context, g: Seq<Seq<char>>, p: PathModel, depth: int)
    requires
        a.items.names == b.items.names,
        a.items.aliases == b.items.aliases,
        a.bindings == b.bindings,
    ensures
        a.spec_first_arg_kind(g, p, depth) == b.spec_first_arg_kind(g, p, depth),
    decreases 17 - depth, 0int,
{
    if depth <= 16 {
        match last_segment(p.segments) {
            Some(seg) => match seg.args {
                PathArgs::Angle(l) => match first_type(l) {
                    Some(t) => lemma_kind_frame(a, b, g, t, depth + 1),
                    None => {},
                },
                _ => {},
            },
            None => {},
        }
    }
}

impl Context {
    /// Adds the declarations, nongeneric aliases, imports and function
    /// return kinds of items, in that order.
    pub fn add_items(&mut self, items: &Vec<ItemModel>)
        requires
            old(self).wf(),
        ensures
            final(self).wf(),
            final(self).bindings == old(self).bindings,
            final(self).origins == old(self).origins,
            final(self).in_async == old(self).in_async,
            final(self).in_const == old(self).in_const,
            final(self).loop_depth == old(self).loop_depth,
            final(self).loop_start == old(self).loop_start,
            final(self).execution == old(self).execution,
            final(self).block == old(self).block,
            final(self).items.maps().names == spec_imports(spec_decls(old(self).items.maps(), items@), items@).names,
            final(self).items.maps().aliases == spec_imports(spec_decls(old(self).items.maps(), items@), items@).aliases,
            final(self).items.return_kinds@ == final(self).spec_return_kinds(
                spec_imports(spec_decls(old(self).items.maps(), items@), items@).kinds,
                items@,
            ),
    {
        let ghost v0 = self.items.maps();
        let mut i: usize = 0;
        while i < items.len()
            invariant
                i <= items@.len(),
                self.wf(),
                self.bindings == old(self).bindings,
                self.origins == old(self).origins,
                self.in_async == old(self).in_async,
                self.in_const == old(self).in_const,
                self.loop_depth == old(self).loop_depth,
                self.loop_start == old(self).loop_start,
                self.execution == old(self).execution,
                self.block == old(self).block,
                v0 == old(self).items.maps(),
                self.items.maps() == spec_decls(v0, items@.take(i as int)),
            decreases items@.len() - i,
        {
            let ident: Option<&String> = match &items[i] {
                ItemModel::Declared(n) => Some(n),
                ItemModel::TypeAlias { ident, .. } => Some(ident),
                ItemModel::Fn { ident, .. } => Some(ident),
                _ => None,
            };
            let ghost prior = self.items.maps();
            assert(items@.take(i + 1).drop_last() =~= items@.take(i as int));
            match ident {
                Some(n) => {
                    let marker = vec!['<', 'l', 'o', 'c', 'a', 'l', '>'];
                    assert(marker@ =~= local_marker());
                    let ghost names_before = self.items.names@;
                    self.items.names.insert(n.clone(), string_of(marker.as_slice()));
                    self.items.aliases.remove(n.as_str());
                    self.items.return_kinds.remove(n.as_str());
                    assert(string_views(self.items.names@) =~= string_views(names_before).insert(n@, local_marker()));
                },
                None => {},
            }
            i = i + 1;
        }
        assert(items@.take(items@.len() as int) =~= items@);
        let ghost v1 = self.items.maps();
        let mut i: usize = 0;
        while i < items.len()
            invariant
                i <= items@.len(),
                self.wf(),
                self.bindings == old(self).bindings,
                self.origins == old(self).origins,
                self.in_async == old(self).in_async,
                self.in_const == old(self).in_const,
                self.loop_depth == old(self).loop_depth,
                self.loop_start == old(self).loop_start,
                self.execution == old(self).execution,
                self.block == old(self).block,
                v1 == spec_decls(old(self).items.maps(), items@),
                self.items.maps() == spec_imports(v1, items@.take(i as int)),
            decreases items@.len() - i,
        {
            assert(items@.take(i + 1).drop_last() =~= items@.take(i as int));
            match &items[i] {
                ItemModel::TypeAlias { ident, generic, ty } => {
                    if !*generic {
                        self.items.aliases.insert(ident.clone(), type_clone(ty));
                    }
                },
                ItemModel::Use { leading_colon, tree } => {
                    let prefix: Vec<char> = if *leading_colon {
                        vec![':', ':']
                    } else {
                        Vec::new()
                    };
                    assert(prefix@ =~= (if *leading_colon {
                        colons()
                    } else {
                        seq![]
                    }));
                    self.items.add_use(&prefix, tree);
                },
                _ => {},
            }
            i = i + 1;
        }
        assert(items@.take(items@.len() as int) =~= items@);
        let ghost v2 = self.items.maps();
        let ghost mid = *self;
        let mut computed: Vec<(String, Kind)> = Vec::new();
        let mut i: usize = 0;
        while i < items.len()
            invariant
                i <= items@.len(),
                self.wf(),
                *self == mid,
                computed@.len() <= i,
                forall|m: Map<Seq<char>, Kind>|
                    #![trigger self.spec_return_kinds(m, items@.take(i as int))]
                    self.spec_return_kinds(m, items@.take(i as int)) == insert_all(m, computed@),
            decreases items@.len() - i,
        {
            assert(items@.take(i + 1).drop_last() =~= items@.take(i as int));
            match &items[i] {
                ItemModel::Fn { ident, asyncness, type_generics, output } => {
                    let out = match output {
                        None => Kind::Unit,
                        Some(t) => self.kind_at(type_generics, t, 0),
                    };
                    let k = if *asyncness {
                        Kind::Future(Box::new(out))
                    } else {
                        out
                    };
                    let ghost before = computed@;
                    let name = ident.clone();
                    let ghost pair = (name, k);
                    computed.push((name, k));
                    assert forall|m: Map<Seq<char>, Kind>|
                        #![trigger self.spec_return_kinds(m, items@.take(i + 1))]
                        self.spec_return_kinds(m, items@.take(i + 1)) == insert_all(m, computed@) by {
                        assert(computed@.drop_last() =~= before);
                        assert(items@.take(i + 1).last() == items@[i as int]);
                        assert(self.spec_return_kinds(m, items@.take(i as int)) == insert_all(m, before));
                        assert(computed@.last() == pair);
                    }
                },
                _ => {
                    assert forall|m: Map<Seq<char>, Kind>|
                        #![trigger self.spec_return_kinds(m, items@.take(i + 1))]
                        self.spec_return_kinds(m, items@.take(i + 1)) == insert_all(m, computed@) by {
                        assert(self.spec_return_kinds(m, items@.take(i + 1)) == self.spec_return_kinds(m, items@.take(i as int)));
                    }
                },
            }
            i = i + 1;
        }
        assert(items@.take(items@.len() as int) =~= items@);
        let ghost base = self.items.return_kinds@;
        assert(mid.spec_return_kinds(base, items@) == insert_all(base, computed@));
        let mut j: usize = 0;
        while j < computed.len()
            invariant
                j <= computed@.len(),
                self.wf(),
                self.bindings == mid.bindings,
                self.items.names == mid.items.names,
                self.items.aliases == mid.items.aliases,
                self.origins == mid.origins,
                self.in_async == mid.in_async,
                self.in_const == mid.in_const,
                self.loop_depth == mid.loop_depth,
                self.loop_start == mid.loop_start,
                self.execution == mid.execution,
                self.block == mid.block,
                self.items.return_kinds@ == insert_all(base, computed@.take(j as int)),
            decreases computed@.len() - j,
        {
            assert(computed@.take(j + 1).drop_last() =~= computed@.take(j as int));
            self.items.return_kinds.insert(computed[j].0.clone(), kind_clone(&computed[j].1));
            j = j + 1;
        }
        assert(computed@.take(computed@.len() as int) =~= computed@);
        proof {
            lemma_return_kinds_frame(mid, *self, base, items@);
        }
    }

    /// A context holding the evidence of a list of items.
    pub fn new(items: &Vec<ItemModel>) -> (r: Self)
        ensures
            r.wf(),
            r.bindings@.len() == 0,
            r.origins@ == Map::<Seq<char>, (usize, usize)>::empty(),
            r.items.maps().names == spec_imports(spec_decls(empty_maps(), items@), items@).names,
            r.items.maps().aliases == spec_imports(spec_decls(empty_maps(), items@), items@).aliases,
            r.items.return_kinds@ == r.spec_return_kinds(
                spec_imports(spec_decls(empty_maps(), items@), items@).kinds,
                items@,
            ),
            !r.in_async && !r.in_const && r.loop_depth == 0,
    {
        let mut ctx = Context::new_empty();
        assert(ctx.items.maps() =~= empty_maps()) by {
            assert(string_views(ctx.items.names@) =~= Map::<Seq<char>, Seq<char>>::empty());
        }
        ctx.add_items(items);
        ctx
    }
}

pub open spec fn empty_maps() -> ScopeMaps {
    ScopeMaps {
        names: Map::empty(),
        aliases: Map::empty(),
        kinds: Map::empty(),
    }
}

/// Inserts each pair in order.
pub open spec fn insert_all(m: Map<Seq<char>, Kind>, pairs: Seq<(String, Kind)>) -> Map<Seq<char>, Kind>
    decreases pairs.len(),
{
    if pairs.len() == 0 {
        m
    } else {
        insert_all(m, pairs.drop_last()).insert(pairs.last().0@, pairs.last().1)
    }
}

proof fn lemma_return_kinds_frame(a: Context, b: Context, m: Map<Seq<char>, Kind>, items: Seq<ItemModel>)
    requires
        a.items.names == b.items.names,
        a.items.aliases == b.items.aliases,
        a.bindings == b.bindings,
    ensures
        a.spec_return_kinds(m, items) == b.spec_return_kinds(m, items),
    decreases items.len(),
{
    if items.len() > 0 {
        lemma_return_kinds_frame(a, b, m, items.drop_last());
        match items.last() {
            ItemModel::Fn { ident, asyncness, type_generics, output } => match output {
                Some(t) => lemma_kind_frame(a, b, names_of(type_generics@), t, 0),
                None => {},
            },
            _ => {},
        }
    }
}

/// A plain, non-`ref` identifier pattern, possibly with a type annotation.
pub open spec fn plain_pattern(pat: PatModel) -> bool {
    match pat {
        PatModel::Ident { by_ref, .. } => !by_ref,
        PatModel::Typed { pat: inner, .. } => match *inner {
            PatModel::Ident { by_ref, .. } => !by_ref,
            _ => false,
        },
        _ => false,
    }
}

/// The scopes a `let` binds into: the guard it moves out of a plain
/// binding is forgotten first.
pub open spec fn let_scopes(views: Seq<Map<Seq<char>, Kind>>, pat: PatModel, kind: Kind, init: Option<&ExprModel>) -> Seq<Map<Seq<char>, Kind>> {
    if kind == Kind::Guard && plain_pattern(pat) {
        match init {
            Some(e) => match spec_ident(*e) {
                Some(n) => spec_forget(views, n),
                None => views,
            },
            None => views,
        }
    } else {
        views
    }
}

impl Context {
    /// Completes a `let`: a guard moved out of a plain binding into a new
    /// plain (non-`ref`) binding is no longer owned by the old name; then the
    /// pattern binds `kind`, the kind of the initializer judged before it ran.
    pub fn finish_let(&mut self, pat: &PatModel, kind: Kind, init: Option<&ExprModel>)
        requires
            old(self).wf(),
            old(self).bindings@.len() > 0,
        ensures
            final(self).wf(),
            final(self).same_frame(old(self)),
            final(self).bindings@.len() == old(self).bindings@.len(),
            final(self).origins@ == Self::bind_origins(old(self).origins@, *pat),
            forall|i: int|
                0 <= i < old(self).bindings@.len() - 1 ==> (#[trigger] final(self).bindings@[i])@
                    == let_scopes(scope_views(old(self).bindings@), *pat, kind, init)[i],
            pat matches PatModel::Ident { name, by_ref: false, .. } ==> final(self).bindings@.last()@.contains_key(name@)
                && final(self).bindings@.last()@[name@] == kind,
    {
        let plain = match pat {
            PatModel::Ident { by_ref, .. } => !*by_ref,
            PatModel::Typed { pat: inner, .. } => match &**inner {
                PatModel::Ident { by_ref, .. } => !*by_ref,
                _ => false,
            },
            _ => false,
        };
        assert(plain == plain_pattern(*pat));
        let ghost start = scope_views(self.bindings@);
        assert(scope_views(self.bindings@).len() == self.bindings@.len());
        if is_guard(&kind) && plain {
            match init {
                Some(e) => match ident(e) {
                    Some(name) => {
                        let ghost before = self.bindings@;
                        self.forget(name.as_str());
                        proof {
                            lemma_forget_len(scope_views(before), name@);
                            assert(scope_views(self.bindings@).len() == self.bindings@.len());
                            assert(scope_views(before).len() == before.len());
                        }
                    },
                    None => {},
                },
                None => {},
            }
        }
        let ghost mid = self.bindings@;
        assert(scope_views(mid) == let_scopes(start, *pat, kind, init));
        self.bind(pat, kind);
        proof {
            assert forall|i: int| 0 <= i < old(self).bindings@.len() - 1 implies (#[trigger] self.bindings@[i])@
                == let_scopes(start, *pat, kind, init)[i] by {
                assert(scope_views(mid)[i] == mid[i]@);
            }
        }
    }

    /// After a call: a guard passed by value to a call may escape or be
    /// dropped, so each plain-name argument that is a live guard is forgotten.
    pub fn release_moved_guards(&mut self, args: &ExprList)
        requires
            old(self).wf(),
        ensures
            final(self).wf(),
            final(self).same_frame(old(self)),
            final(self).origins == old(self).origins,
            final(self).bindings@.len() == old(self).bindings@.len(),
            scope_views(final(self).bindings@) == released(scope_views(old(self).bindings@), *args),
        decreases args,
    {
        match args {
            ExprList::Nil => {},
            ExprList::Cons(a, rest) => {
                match ident(a) {
                    Some(name) => {
                        let k = self.expr(a);
                        proof {
                            lemma_expr_of_ident(*self, **a);
                            lemma_lookup_views(self.bindings@, name@, self.bindings@.len() as int);
                        }
                        if is_guard(&k) {
                            let ghost before = self.bindings@;
                            self.forget(name.as_str());
                            proof {
                                lemma_forget_len(scope_views(before), name@);
                                assert(scope_views(self.bindings@).len() == self.bindings@.len());
                                assert(scope_views(before).len() == before.len());
                            }
                        }
                    },
                    None => {},
                }
                self.release_moved_guards(rest);
            },
        }
    }
}

/// Each plain-name argument that names a live guard is forgotten, in order.
pub open spec fn released(views: Seq<Map<Seq<char>, Kind>>, args: ExprList) -> Seq<Map<Seq<char>, Kind>>
    decreases args,
{
    match args {
        ExprList::Nil => views,
        ExprList::Cons(a, rest) => released(
            match spec_ident(*a) {
                Some(n) => if lookup_views(views, n) == Some(Kind::Guard) {
                    spec_forget(views, n)
                } else {
                    views
                },
                None => views,
            },
            *rest,
        ),
    }
}

/// An expression naming a binding has the binding's kind.
proof fn lemma_expr_of_ident(c: Context, e: ExprModel)
    requires
        spec_ident(e) is Some,
    ensures
        c.spec_expr(e) == match c.lookup(spec_ident(e)->0) {
            Some(k) => k,
            None => Kind::Unknown,
        },
    decreases e,
{
    if let ExprModel::Paren(inner) = e {
        lemma_expr_of_ident(c, *inner);
    }
}

proof fn lemma_innermost_range(b: Seq<Map<Seq<char>, Kind>>, k: Seq<char>, i: int)
    ensures
        -1 <= innermost(b, k, i),
        innermost(b, k, i) < i || innermost(b, k, i) == -1,
        innermost(b, k, i) < b.len(),
    decreases i,
{
    if i > 0 && i <= b.len() && !b[i - 1].contains_key(k) {
        lemma_innermost_range(b, k, i - 1);
    }
}

proof fn lemma_forget_len(b: Seq<Map<Seq<char>, Kind>>, k: Seq<char>)
    ensures
        spec_forget(b, k).len() == b.len(),
{
    lemma_innermost_range(b, k, b.len() as int);
}

} // verus!
