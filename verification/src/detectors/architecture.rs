//! Architecture detectors: crate-relative coupling hints, leaky public error
//! types, and dev-only dependencies imported by production sources.
use vstd::prelude::*;
use crate::detectors::{finding, is_test_path, spec_is_test_path, findings_are, lemma_findings_concat, lemma_findings_push, smell_is, Hit};
use crate::domain::{FindingConfidence, Severity, Smell, SmellCategory};
use crate::evidence::{
    names_of, ItemModel, PathModel, Segment, SegList, TypeModel, UseList, UseTree, chars_to_string,
};
use crate::manifest::{contains_name, dev_dependencies, dev_only, underscore, underscored};
use crate::suggested_code::{line_count, spec_lines};
use crate::text::{
    chars_of, dec, extend, extend_str, push_decimal, replace_all, replace_vec, str_eq, string_of,
};

verus! {

/// Adds `s` unless an equal string is present.
pub fn add_distinct(v: &mut Vec<String>, s: String)
    requires
        names_of(old(v)@).no_duplicates(),
    ensures
        names_of(final(v)@).no_duplicates(),
        names_of(final(v)@).to_set() == names_of(old(v)@).to_set().insert(s@),
{
    let ghost before = names_of(v@);
    let mut i: usize = 0;
    while i < v.len()
        invariant
            i <= v@.len(),
            v@ == old(v)@,
            before == names_of(v@),
            before.no_duplicates(),
            forall|j: int| 0 <= j < i ==> before[j] != s@,
        decreases v@.len() - i,
    {
        if str_eq(v[i].as_str(), s.as_str()) {
            assert(before[i as int] == s@);
            assert(before.to_set() =~= before.to_set().insert(s@)) by {
                assert(before.to_set().contains(s@));
            }
            return;
        }
        i = i + 1;
    }
    let ghost sv = s@;
    v.push(s);
    assert(names_of(v@) =~= before.push(sv));
    assert(names_of(v@).to_set() =~= before.to_set().insert(sv)) by {
        assert forall|x: Seq<char>| names_of(v@).to_set().contains(x) <==> before.to_set().insert(sv).contains(x) by {
            if names_of(v@).contains(x) {
                let j = choose|j: int| 0 <= j < names_of(v@).len() && names_of(v@)[j] == x;
                if j < before.len() {
                    assert(before[j] == x);
                }
            }
            if before.contains(x) {
                let j = choose|j: int| 0 <= j < before.len() && before[j] == x;
                assert(names_of(v@)[j] == x);
            }
            if x == sv {
                assert(names_of(v@)[before.len() as int] == x);
            }
        }
    }
}

pub open spec fn crate_ident() -> Seq<char> {
    seq!['c', 'r', 'a', 't', 'e']
}

/// Namespaces a `use` tree names below its root.
pub open spec fn tree_roots(t: UseTree) -> Set<Seq<char>>
    decreases t,
{
    match t {
        UseTree::Path { ident, .. } => set![ident@],
        UseTree::Group(l) => list_roots(l),
        _ => Set::empty(),
    }
}

pub open spec fn list_roots(l: UseList) -> Set<Seq<char>>
    decreases l,
{
    match l {
        UseList::Nil => Set::empty(),
        UseList::Cons(t, rest) => tree_roots(*t) + list_roots(*rest),
    }
}

/// Namespaces imported through `crate::`.
pub open spec fn tree_crate_roots(t: UseTree) -> Set<Seq<char>>
    decreases t,
{
    match t {
        UseTree::Path { ident, tree } => if ident@ == crate_ident() {
            tree_roots(*tree)
        } else {
            Set::empty()
        },
        UseTree::Group(l) => list_crate_roots(l),
        _ => Set::empty(),
    }
}

pub open spec fn list_crate_roots(l: UseList) -> Set<Seq<char>>
    decreases l,
{
    match l {
        UseList::Nil => Set::empty(),
        UseList::Cons(t, rest) => tree_crate_roots(*t) + list_crate_roots(*rest),
    }
}

/// The crate-relative namespaces that relative `use` items import from.
pub open spec fn items_crate_roots(items: Seq<ItemModel>) -> Set<Seq<char>>
    decreases items.len(),
{
    if items.len() == 0 {
        Set::empty()
    } else {
        items_crate_roots(items.drop_last()) + match items.last() {
            ItemModel::Use { leading_colon, tree } => if !leading_colon {
                tree_crate_roots(tree)
            } else {
                Set::empty()
            },
            _ => Set::empty(),
        }
    }
}

fn collect_roots(t: &UseTree, roots: &mut Vec<String>)
    requires
        names_of(old(roots)@).no_duplicates(),
    ensures
        names_of(final(roots)@).no_duplicates(),
        names_of(final(roots)@).to_set() == names_of(old(roots)@).to_set() + tree_roots(*t),
    decreases t,
{
    match t {
        UseTree::Path { ident, .. } => {
            add_distinct(roots, ident.clone());
            assert(names_of(old(roots)@).to_set().insert(ident@) =~= names_of(old(roots)@).to_set() + set![ident@]);
        },
        UseTree::Group(l) => collect_list_roots(l, roots),
        _ => {
            assert(names_of(old(roots)@).to_set() + Set::empty() =~= names_of(old(roots)@).to_set());
        },
    }
}

fn collect_list_roots(l: &UseList, roots: &mut Vec<String>)
    requires
        names_of(old(roots)@).no_duplicates(),
    ensures
        names_of(final(roots)@).no_duplicates(),
        names_of(final(roots)@).to_set() == names_of(old(roots)@).to_set() + list_roots(*l),
    decreases l,
{
    match l {
        UseList::Nil => {
            assert(names_of(old(roots)@).to_set() + Set::empty() =~= names_of(old(roots)@).to_set());
        },
        UseList::Cons(t, rest) => {
            collect_roots(t, roots);
            collect_list_roots(rest, roots);
            assert(names_of(final(roots)@).to_set() =~= names_of(old(roots)@).to_set() + list_roots(*l));
        },
    }
}

fn collect_crate_roots(t: &UseTree, roots: &mut Vec<String>)
    requires
        names_of(old(roots)@).no_duplicates(),
    ensures
        names_of(final(roots)@).no_duplicates(),
        names_of(final(roots)@).to_set() == names_of(old(roots)@).to_set() + tree_crate_roots(*t),
    decreases t,
{
    match t {
        UseTree::Path { ident, tree } => {
            let c = vec!['c', 'r', 'a', 't', 'e'];
            let id = chars_of(ident.as_str());
            if crate::text::seq_eq(&id, &c) {
                assert(c@ =~= crate_ident());
                collect_roots(tree, roots);
            } else {
                assert(c@ =~= crate_ident());
                assert(names_of(old(roots)@).to_set() + Set::empty() =~= names_of(old(roots)@).to_set());
            }
        },
        UseTree::Group(l) => collect_list_crate_roots(l, roots),
        _ => {
            assert(names_of(old(roots)@).to_set() + Set::empty() =~= names_of(old(roots)@).to_set());
        },
    }
}

fn collect_list_crate_roots(l: &UseList, roots: &mut Vec<String>)
    requires
        names_of(old(roots)@).no_duplicates(),
    ensures
        names_of(final(roots)@).no_duplicates(),
        names_of(final(roots)@).to_set() == names_of(old(roots)@).to_set() + list_crate_roots(*l),
    decreases l,
{
    match l {
        UseList::Nil => {
            assert(names_of(old(roots)@).to_set() + Set::empty() =~= names_of(old(roots)@).to_set());
        },
        UseList::Cons(t, rest) => {
            collect_crate_roots(t, roots);
            collect_list_crate_roots(rest, roots);
            assert(names_of(final(roots)@).to_set() =~= names_of(old(roots)@).to_set() + list_crate_roots(*l));
        },
    }
}

/// The distinct crate-relative namespaces that relative `use` items import from.
pub fn crate_roots(items: &Vec<ItemModel>) -> (r: Vec<String>)
    ensures
        names_of(r@).no_duplicates(),
        names_of(r@).to_set() == items_crate_roots(items@),
{
    let mut roots: Vec<String> = Vec::new();
    assert(names_of(roots@).to_set() =~= Set::empty());
    let mut i: usize = 0;
    while i < items.len()
        invariant
            i <= items@.len(),
            names_of(roots@).no_duplicates(),
            names_of(roots@).to_set() == items_crate_roots(items@.take(i as int)),
        decreases items@.len() - i,
    {
        assert(items@.take(i + 1).drop_last() =~= items@.take(i as int));
        let ghost before = names_of(roots@).to_set();
        match &items[i] {
            ItemModel::Use { leading_colon, tree } => {
                if !*leading_colon {
                    collect_crate_roots(tree, &mut roots);
                } else {
                    assert(before + Set::empty() =~= before);
                }
            },
            _ => {
                assert(before + Set::empty() =~= before);
            },
        }
        i = i + 1;
    }
    assert(items@.take(items@.len() as int) =~= items@);
    roots
}

pub open spec fn cyclic_message(n: nat) -> Seq<char> {
    "File imports from "@ + dec(n) + " crate-relative roots; reciprocal dependencies are unverified"@
}

pub open spec fn cyclic_suggestion() -> Seq<char> {
    "Review the dependency graph for unnecessary coupling before considering a cycle-breaking refactor."@
}

/// A bounded coupling hint, not proof of a dependency cycle. Imports from a
/// module's own children are ordinary Rust and do not establish a cycle.
pub struct CyclicDependencyDetector;

impl CyclicDependencyDetector {
    pub fn name(&self) -> (r: &'static str)
        ensures
            r@ == "Cyclic Crate Dependency"@,
    {
        "Cyclic Crate Dependency"
    }

    /// One low-confidence hint for a file that imports from more than five
    /// crate-relative roots.
    pub fn detect(&self, path: &str, code: &str, items: &Vec<ItemModel>) -> (r: Vec<Smell>)
        ensures
            items_crate_roots(items@).len() <= 5 ==> r@.len() == 0,
            items_crate_roots(items@).len() > 5 ==> r@.len() == 1 && smell_is(
                r@[0],
                SmellCategory::Architecture,
                "Cyclic Crate Dependency"@,
                Severity::Warning,
                FindingConfidence::Low,
                path@,
                1,
                spec_lines(code@).len() as usize,
                cyclic_message(items_crate_roots(items@).len()),
                cyclic_suggestion(),
            ),
    {
        let roots = crate_roots(items);
        proof {
            names_of(roots@).unique_seq_to_set();
        }
        let n = roots.len();
        let mut out: Vec<Smell> = Vec::new();
        if n <= 5 {
            return out;
        }
        let mut msg: Vec<char> = Vec::new();
        extend_str(&mut msg, "File imports from ");
        push_decimal(&mut msg, n as u128);
        extend_str(&mut msg, " crate-relative roots; reciprocal dependencies are unverified");
        let message = string_of(msg.as_slice());
        let lines = line_count(code);
        out.push(finding(
            SmellCategory::Architecture,
            self.name(),
            Severity::Warning,
            FindingConfidence::Low,
            path,
            1,
            lines,
            message.as_str(),
            "Review the dependency graph for unnecessary coupling before considering a cycle-breaking refactor.",
        ));
        out
    }
}

/// A variant of an enum: its name, the line of its name, and the types of its
/// fields when it is a tuple variant.
pub struct VariantModel {
    pub ident: String,
    pub line: usize,
    pub unnamed_fields: Option<Vec<TypeModel>>,
}

/// An enum item: whether it is `pub`, its name and its variants.
pub struct EnumModel {
    pub public: bool,
    pub ident: String,
    pub variants: Vec<VariantModel>,
}

/// Library crates whose error types a public error enum should not expose.
pub open spec fn leaky_crate(s: Seq<char>) -> bool {
    ||| s == "sqlx"@
    ||| s == "reqwest"@
    ||| s == "hyper"@
    ||| s == "serde_json"@
    ||| s == "tokio"@
    ||| s == "tungstenite"@
    ||| s == "redis"@
}

fn is_leaky_crate(s: &str) -> (r: bool)
    ensures
        r == leaky_crate(s@),
{
    str_eq(s, "sqlx") || str_eq(s, "reqwest") || str_eq(s, "hyper") || str_eq(s, "serde_json")
        || str_eq(s, "tokio") || str_eq(s, "tungstenite") || str_eq(s, "redis")
}

/// The library crate a field type names by its first path segment.
pub open spec fn exposed_crate(t: TypeModel) -> Option<Seq<char>> {
    match t {
        TypeModel::Path { path, .. } => match path.segments {
            SegList::Cons(first, _) => if leaky_crate(first.ident@) {
                Some(first.ident@)
            } else {
                None
            },
            SegList::Nil => None,
        },
        _ => None,
    }
}

fn exposed_crate_of(t: &TypeModel) -> (r: Option<&String>)
    ensures
        match r {
            Some(c) => exposed_crate(*t) == Some(c@),
            None => exposed_crate(*t) is None,
        },
{
    match t {
        TypeModel::Path { path, .. } => match &path.segments {
            SegList::Cons(first, _) => if is_leaky_crate(first.ident.as_str()) {
                Some(&first.ident)
            } else {
                None
            },
            SegList::Nil => None,
        },
        _ => None,
    }
}

pub open spec fn leaky_message(e: Seq<char>, v: Seq<char>, c: Seq<char>) -> Seq<char> {
    "Public enum `"@ + e + "` contains variant `"@ + v + "` wrapping `"@ + c + "`"@
}

pub open spec fn leaky_suggestion() -> Seq<char> {
    "Do not expose underlying library errors in public domain interfaces. Wrap or map them to domain-specific variants."@
}

/// One hit per field of the variant that wraps a library error, in order.
pub open spec fn field_hits(e: Seq<char>, v: VariantModel, fields: Seq<TypeModel>) -> Seq<Hit>
    decreases fields.len(),
{
    if fields.len() == 0 {
        Seq::empty()
    } else {
        field_hits(e, v, fields.drop_last()) + match exposed_crate(fields.last()) {
            Some(c) => seq![(v.line, FindingConfidence::Medium, leaky_message(e, v.ident@, c))],
            None => Seq::empty(),
        }
    }
}

pub open spec fn variant_hits(e: Seq<char>, vs: Seq<VariantModel>) -> Seq<Hit>
    decreases vs.len(),
{
    if vs.len() == 0 {
        Seq::empty()
    } else {
        variant_hits(e, vs.drop_last()) + match vs.last().unnamed_fields {
            Some(f) => field_hits(e, vs.last(), f@),
            None => Seq::empty(),
        }
    }
}

/// Whether an enum is a public error type: `pub` and named `...Error`.
pub open spec fn public_error(e: EnumModel) -> bool {
    e.public && e.ident@.len() >= 5 && e.ident@.subrange(e.ident@.len() - 5, e.ident@.len() as int)
        == "Error"@
}

pub open spec fn enum_hits(es: Seq<EnumModel>) -> Seq<Hit>
    decreases es.len(),
{
    if es.len() == 0 {
        Seq::empty()
    } else {
        enum_hits(es.drop_last()) + if public_error(es.last()) {
            variant_hits(es.last().ident@, es.last().variants@)
        } else {
            Seq::empty()
        }
    }
}

fn ends_with_error(s: &str) -> (r: bool)
    ensures
        r == (s@.len() >= 5 && s@.subrange(s@.len() - 5, s@.len() as int) == "Error"@),
{
    let v = chars_of(s);
    let e = chars_of("Error");
    proof {
        reveal_strlit("Error");
    }
    if v.len() < 5 {
        return false;
    }
    let r = crate::text::matches_at(&v, v.len() - 5, &e);
    proof {
        if r {
            assert(v@.subrange(v@.len() - 5, v@.len() as int) =~= e@);
        } else {
            if v@.subrange(v@.len() - 5, v@.len() as int) == e@ {
                assert(crate::text::spec_matches_at(v@, v@.len() - 5, e@));
            }
        }
    }
    r
}

/// Public error enums whose tuple variants wrap error types of well-known
/// libraries.
pub struct LeakyErrorAbstractionDetector;

impl LeakyErrorAbstractionDetector {
    pub fn name(&self) -> (r: &'static str)
        ensures
            r@ == "Leaky Error Abstraction"@,
    {
        "Leaky Error Abstraction"
    }

    fn variant_findings(&self, path: &str, e: &EnumModel, v: &VariantModel) -> (r: Vec<Smell>)
        ensures
            findings_are(
                r@,
                match v.unnamed_fields {
                    Some(f) => field_hits(e.ident@, *v, f@),
                    None => Seq::empty(),
                },
                SmellCategory::Architecture,
                "Leaky Error Abstraction"@,
                Severity::Warning,
                path@,
                leaky_suggestion(),
            ),
    {
        let mut out: Vec<Smell> = Vec::new();
        match &v.unnamed_fields {
            None => out,
            Some(fields) => {
                let mut i: usize = 0;
                while i < fields.len()
                    invariant
                        i <= fields@.len(),
                        v.unnamed_fields == Some(*fields),
                        findings_are(
                            out@,
                            field_hits(e.ident@, *v, fields@.take(i as int)),
                            SmellCategory::Architecture,
                            "Leaky Error Abstraction"@,
                            Severity::Warning,
                            path@,
                            leaky_suggestion(),
                        ),
                    decreases fields@.len() - i,
                {
                    assert(fields@.take(i + 1).drop_last() =~= fields@.take(i as int));
                    let ghost before = field_hits(e.ident@, *v, fields@.take(i as int));
                    match exposed_crate_of(&fields[i]) {
                        Some(c) => {
                            let mut msg: Vec<char> = Vec::new();
                            extend_str(&mut msg, "Public enum `");
                            extend(&mut msg, &chars_of(e.ident.as_str()));
                            extend_str(&mut msg, "` contains variant `");
                            extend(&mut msg, &chars_of(v.ident.as_str()));
                            extend_str(&mut msg, "` wrapping `");
                            extend(&mut msg, &chars_of(c.as_str()));
                            extend_str(&mut msg, "`");
                            let message = string_of(msg.as_slice());
                            let s = finding(
                                SmellCategory::Architecture,
                                self.name(),
                                Severity::Warning,
                                FindingConfidence::Medium,
                                path,
                                v.line,
                                v.line,
                                message.as_str(),
                                "Do not expose underlying library errors in public domain interfaces. Wrap or map them to domain-specific variants.",
                            );
                            proof {
                                let h = (v.line, FindingConfidence::Medium, leaky_message(e.ident@, v.ident@, c@));
                                lemma_findings_push(out@, before, s, h, SmellCategory::Architecture,
                                    "Leaky Error Abstraction"@, Severity::Warning, path@, leaky_suggestion());
                                assert(before.push(h) =~= before + seq![h]);
                            }
                            out.push(s);
                        },
                        None => {
                            assert(before + Seq::<Hit>::empty() =~= before);
                        },
                    }
                    i = i + 1;
                }
                assert(fields@.take(fields@.len() as int) =~= fields@);
                out
            },
        }
    }

    fn enum_findings(&self, path: &str, e: &EnumModel) -> (r: Vec<Smell>)
        ensures
            findings_are(
                r@,
                variant_hits(e.ident@, e.variants@),
                SmellCategory::Architecture,
                "Leaky Error Abstraction"@,
                Severity::Warning,
                path@,
                leaky_suggestion(),
            ),
    {
        let mut out: Vec<Smell> = Vec::new();
        let mut i: usize = 0;
        while i < e.variants.len()
            invariant
                i <= e.variants@.len(),
                findings_are(
                    out@,
                    variant_hits(e.ident@, e.variants@.take(i as int)),
                    SmellCategory::Architecture,
                    "Leaky Error Abstraction"@,
                    Severity::Warning,
                    path@,
                    leaky_suggestion(),
                ),
            decreases e.variants@.len() - i,
        {
            assert(e.variants@.take(i + 1).drop_last() =~= e.variants@.take(i as int));
            let ghost before = variant_hits(e.ident@, e.variants@.take(i as int));
            let mut more = self.variant_findings(path, e, &e.variants[i]);
            proof {
                lemma_findings_concat(out@, before, more@,
                    match e.variants@[i as int].unnamed_fields {
                        Some(f) => field_hits(e.ident@, e.variants@[i as int], f@),
                        None => Seq::empty(),
                    },
                    SmellCategory::Architecture, "Leaky Error Abstraction"@, Severity::Warning, path@, leaky_suggestion());
            }
            out.append(&mut more);
            i = i + 1;
        }
        assert(e.variants@.take(e.variants@.len() as int) =~= e.variants@);
        out
    }

    /// One medium-confidence finding per field of a public `...Error` enum's
    /// tuple variant whose type path starts with a listed library crate.
    pub fn detect(&self, path: &str, enums: &Vec<EnumModel>) -> (r: Vec<Smell>)
        ensures
            findings_are(
                r@,
                enum_hits(enums@),
                SmellCategory::Architecture,
                "Leaky Error Abstraction"@,
                Severity::Warning,
                path@,
                leaky_suggestion(),
            ),
    {
        let mut out: Vec<Smell> = Vec::new();
        let mut i: usize = 0;
        while i < enums.len()
            invariant
                i <= enums@.len(),
                findings_are(
                    out@,
                    enum_hits(enums@.take(i as int)),
                    SmellCategory::Architecture,
                    "Leaky Error Abstraction"@,
                    Severity::Warning,
                    path@,
                    leaky_suggestion(),
                ),
            decreases enums@.len() - i,
        {
            assert(enums@.take(i + 1).drop_last() =~= enums@.take(i as int));
            let ghost before = enum_hits(enums@.take(i as int));
            let e = &enums[i];
            if e.public && ends_with_error(e.ident.as_str()) {
                let mut more = self.enum_findings(path, e);
                proof {
                    lemma_findings_concat(out@, before, more@, variant_hits(e.ident@, e.variants@),
                        SmellCategory::Architecture, "Leaky Error Abstraction"@, Severity::Warning, path@, leaky_suggestion());
                }
                out.append(&mut more);
            } else {
                assert(before + Seq::<Hit>::empty() =~= before);
            }
            i = i + 1;
        }
        assert(enums@.take(enums@.len() as int) =~= enums@);
        out
    }
}

/// The name a `use` tree imports from first, as a dependency name.
pub open spec fn tree_root(t: UseTree) -> Seq<char>
    decreases t,
{
    match t {
        UseTree::Path { ident, .. } => underscored(ident@),
        UseTree::Name(i) => underscored(i@),
        UseTree::Rename { ident, .. } => underscored(ident@),
        UseTree::Group(l) => match l {
            UseList::Cons(first, _) => tree_root(*first),
            UseList::Nil => Seq::empty(),
        },
        UseTree::Glob => Seq::empty(),
    }
}

pub fn use_tree_root(t: &UseTree) -> (r: String)
    ensures
        r@ == tree_root(*t),
    decreases t,
{
    match t {
        UseTree::Path { ident, .. } => underscore(ident.as_str()),
        UseTree::Name(i) => underscore(i.as_str()),
        UseTree::Rename { ident, .. } => underscore(ident.as_str()),
        UseTree::Group(l) => match l {
            UseList::Cons(first, _) => use_tree_root(first),
            UseList::Nil => string_of(&[]),
        },
        UseTree::Glob => {
            let r = string_of(&[]);
            assert(r@ =~= Seq::<char>::empty());
            r
        },
    }
}

/// A `use` item: the line of its `use` keyword and its tree.
pub struct UseItemModel {
    pub line: usize,
    pub tree: UseTree,
}

pub open spec fn test_only_message(entry: bool, used: Seq<char>) -> Seq<char> {
    if entry {
        "A crate entry point imports dev-only dependency `"@ + used + "`"@
    } else {
        "Source imports dev-only dependency `"@ + used
            + "`; its production build context is unresolved"@
    }
}

pub open spec fn test_only_suggestion() -> Seq<char> {
    "Check whether this source is built for production or only included by tests or documentation before changing dependency sections."@
}

/// One hit per `use` item whose root is a dev-only dependency, in order.
pub open spec fn test_only_hits(uses: Seq<UseItemModel>, dev: Set<Seq<char>>, entry: bool) -> Seq<Hit>
    decreases uses.len(),
{
    if uses.len() == 0 {
        Seq::empty()
    } else {
        test_only_hits(uses.drop_last(), dev, entry) + if dev.contains(tree_root(uses.last().tree)) {
            seq![(
                uses.last().line,
                if entry { FindingConfidence::Medium } else { FindingConfidence::Low },
                test_only_message(entry, tree_root(uses.last().tree)),
            )]
        } else {
            Seq::empty()
        }
    }
}

/// Dev-dependencies imported from production sources.
pub struct TestOnlyDependencyInProductionDetector;

impl TestOnlyDependencyInProductionDetector {
    pub fn name(&self) -> (r: &'static str)
        ensures
            r@ == "Test-only Dependency in Production"@,
    {
        "Test-only Dependency in Production"
    }

    /// `manifest` is the text of the nearest `Cargo.toml` above the source,
    /// `entry` whether the source is a crate entry point of that manifest.
    /// Nothing is reported for a test path or a source without a manifest.
    pub fn detect(
        &self,
        path: &str,
        test_markers: &Vec<String>,
        manifest: Option<&str>,
        entry: bool,
        uses: &Vec<UseItemModel>,
    ) -> (r: Vec<Smell>)
        ensures
            spec_is_test_path(path@, names_of(test_markers@)) || manifest is None ==> r@.len() == 0,
            !spec_is_test_path(path@, names_of(test_markers@)) && manifest is Some ==> findings_are(
                r@,
                test_only_hits(uses@, dev_only(manifest->0@), entry),
                SmellCategory::Architecture,
                "Test-only Dependency in Production"@,
                Severity::Warning,
                path@,
                test_only_suggestion(),
            ),
    {
        let mut out: Vec<Smell> = Vec::new();
        if is_test_path(path, test_markers) {
            return out;
        }
        let text = match manifest {
            Some(t) => t,
            None => return out,
        };
        let dev = dev_dependencies(text);
        let ghost dset = dev_only(text@);
        let mut i: usize = 0;
        while i < uses.len()
            invariant
                i <= uses@.len(),
                names_of(dev@).to_set() == dset,
                findings_are(
                    out@,
                    test_only_hits(uses@.take(i as int), dset, entry),
                    SmellCategory::Architecture,
                    "Test-only Dependency in Production"@,
                    Severity::Warning,
                    path@,
                    test_only_suggestion(),
                ),
            decreases uses@.len() - i,
        {
            assert(uses@.take(i + 1).drop_last() =~= uses@.take(i as int));
            let ghost before = test_only_hits(uses@.take(i as int), dset, entry);
            let used = use_tree_root(&uses[i].tree);
            if contains_name(&dev, used.as_str()) {
                let line = uses[i].line;
                let mut msg: Vec<char> = Vec::new();
                if entry {
                    extend_str(&mut msg, "A crate entry point imports dev-only dependency `");
                    extend(&mut msg, &chars_of(used.as_str()));
                    extend_str(&mut msg, "`");
                } else {
                    extend_str(&mut msg, "Source imports dev-only dependency `");
                    extend(&mut msg, &chars_of(used.as_str()));
                    extend_str(&mut msg, "`; its production build context is unresolved");
                }
                let message = string_of(msg.as_slice());
                let confidence = if entry { FindingConfidence::Medium } else { FindingConfidence::Low };
                let s = finding(
                    SmellCategory::Architecture,
                    self.name(),
                    Severity::Warning,
                    confidence,
                    path,
                    line,
                    line,
                    message.as_str(),
                    "Check whether this source is built for production or only included by tests or documentation before changing dependency sections.",
                );
                proof {
                    let h = (line, confidence, test_only_message(entry, used@));
                    lemma_findings_push(out@, before, s, h, SmellCategory::Architecture,
                        "Test-only Dependency in Production"@, Severity::Warning, path@, test_only_suggestion());
                    assert(before.push(h) =~= before + seq![h]);
                }
                out.push(s);
            } else {
                assert(before + Seq::<Hit>::empty() =~= before);
            }
            i = i + 1;
        }
        assert(uses@.take(uses@.len() as int) =~= uses@);
        out
    }
}

} // verus!
