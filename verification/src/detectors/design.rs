//! Design detectors: structs whose public fields are the only way to build
//! them.
use vstd::prelude::*;
use crate::detectors::{finding, findings_are, is_test_path, lemma_findings_push, spec_is_test_path, Hit};
use crate::domain::{FindingConfidence, Severity, Smell, SmellCategory};
use crate::evidence::{
    get_ident, last_segment, last_segment_of, names_of, seg_idents, spec_get_ident, PathModel, SegList,
    TypeModel,
};
use crate::manifest::contains_name;
use crate::detectors::regex::ends_with;
use crate::text::{chars_of, dec, extend, extend_str, push_decimal, str_eq, string_of};

verus! {

/// A struct item as the constructor check reads it.
pub struct StructShape {
    pub name: String,
    /// The line of its opening brace or parenthesis, or of its name for a
    /// unit struct.
    pub line: usize,
    pub unit: bool,
    /// Each field: whether it is `pub`, and its type.
    pub fields: Vec<(bool, TypeModel)>,
    /// The paths its `#[derive(..)]` attributes list.
    pub derives: Vec<PathModel>,
}

/// A `#[derive(..)]` attribute lists `Default`, written as a bare name.
pub open spec fn derives_default(s: StructShape) -> bool {
    exists|i: int| 0 <= i < s.derives@.len() && spec_get_ident(#[trigger] s.derives@[i]) == Some("Default"@)
}

fn derives_default_exec(s: &StructShape) -> (r: bool)
    ensures
        r == derives_default(*s),
{
    let mut i: usize = 0;
    while i < s.derives.len()
        invariant
            i <= s.derives@.len(),
            forall|j: int| 0 <= j < i ==> spec_get_ident(#[trigger] s.derives@[j]) != Some("Default"@),
        decreases s.derives@.len() - i,
    {
        match get_ident(&s.derives[i]) {
            Some(name) => {
                if str_eq(name.as_str(), "Default") {
                    return true;
                }
            },
            None => {},
        }
        i = i + 1;
    }
    false
}

/// An impl block as the constructor check reads it.
pub struct ImplShape {
    pub self_ty: TypeModel,
    pub trait_path: Option<PathModel>,
    /// The names of its methods.
    pub methods: Vec<String>,
}

pub open spec fn starts_with_str(s: Seq<char>, p: Seq<char>) -> bool {
    s.len() >= p.len() && s.take(p.len() as int) == p
}

/// A method name that builds a value: `new`, `from_*`, `with_*`, `parse_*`.
pub open spec fn constructor_name(n: Seq<char>) -> bool {
    n == "new"@ || starts_with_str(n, "from_"@) || starts_with_str(n, "with_"@) || starts_with_str(
        n,
        "parse_"@,
    )
}

fn starts_with_exec(s: &str, p: &str) -> (r: bool)
    ensures
        r == starts_with_str(s@, p@),
{
    let a = chars_of(s);
    let b = chars_of(p);
    crate::evidence::has_prefix(&a, &b)
}

fn constructor_name_exec(n: &str) -> (r: bool)
    ensures
        r == constructor_name(n@),
{
    str_eq(n, "new") || starts_with_exec(n, "from_") || starts_with_exec(n, "with_")
        || starts_with_exec(n, "parse_")
}

/// An impl of `Default`, or an inherent impl with a constructor method.
pub open spec fn spec_provides_constructor(imp: ImplShape) -> bool {
    match imp.trait_path {
        Some(p) => spec_get_ident(p) == Some("Default"@),
        None => exists|i: int| 0 <= i < imp.methods@.len() && #[trigger] constructor_name(imp.methods@[i]@),
    }
}

pub fn provides_constructor(imp: &ImplShape) -> (r: bool)
    ensures
        r == spec_provides_constructor(*imp),
{
    match &imp.trait_path {
        Some(p) => match get_ident(p) {
            Some(n) => str_eq(n.as_str(), "Default"),
            None => false,
        },
        None => {
            let mut i: usize = 0;
            while i < imp.methods.len()
                invariant
                    i <= imp.methods@.len(),
                    imp.trait_path is None,
                    forall|j: int| 0 <= j < i ==> !#[trigger] constructor_name(imp.methods@[j]@),
                decreases imp.methods@.len() - i,
            {
                if constructor_name_exec(imp.methods[i].as_str()) {
                    assert(constructor_name(imp.methods@[i as int]@));
                    return true;
                }
                i = i + 1;
            }
            false
        },
    }
}

/// The name an impl's self type is known by: its last path segment.
pub open spec fn constructed_name(imp: ImplShape) -> Option<Seq<char>> {
    match imp.self_ty {
        TypeModel::Path { path, .. } => match last_segment(path.segments) {
            Some(s) => Some(s.ident@),
            None => None,
        },
        _ => None,
    }
}

/// The names of the types the file gives a constructor.
pub open spec fn constructed(impls: Seq<ImplShape>) -> Set<Seq<char>> {
    Set::new(
        |n: Seq<char>|
            exists|i: int|
                0 <= i < impls.len() && spec_provides_constructor(impls[i]) && #[trigger] constructed_name(
                    impls[i],
                ) == Some(n),
    )
}

fn constructed_names(impls: &Vec<ImplShape>) -> (r: Vec<String>)
    ensures
        names_of(r@).to_set() == constructed(impls@),
{
    let mut out: Vec<String> = Vec::new();
    let mut i: usize = 0;
    while i < impls.len()
        invariant
            i <= impls@.len(),
            forall|n: Seq<char>| names_of(out@).contains(n) <==> exists|j: int|
                0 <= j < i && spec_provides_constructor(impls@[j]) && #[trigger] constructed_name(
                    impls@[j],
                ) == Some(n),
        decreases impls@.len() - i,
    {
        let ghost before = names_of(out@);
        if provides_constructor(&impls[i]) {
            if let TypeModel::Path { path, .. } = &impls[i].self_ty {
                if let Some(seg) = last_segment_of(&path.segments) {
                    out.push(crate::evidence::string_clone(&seg.ident));
                    assert(names_of(out@) =~= before.push(seg.ident@));
                    assert forall|n: Seq<char>| names_of(out@).contains(n) <==> exists|j: int|
                        0 <= j < i + 1 && spec_provides_constructor(impls@[j]) && #[trigger] constructed_name(
                            impls@[j],
                        ) == Some(n) by {
                        if names_of(out@).contains(n) {
                            let k = choose|k: int| 0 <= k < names_of(out@).len() && names_of(out@)[k] == n;
                            if k < before.len() {
                                assert(before.contains(n));
                            } else {
                                assert(constructed_name(impls@[i as int]) == Some(n));
                            }
                        }
                        if exists|j: int|
                            0 <= j < i + 1 && spec_provides_constructor(impls@[j]) && #[trigger] constructed_name(
                                impls@[j],
                            ) == Some(n) {
                            let j = choose|j: int|
                                0 <= j < i + 1 && spec_provides_constructor(impls@[j]) && #[trigger] constructed_name(
                                    impls@[j],
                                ) == Some(n);
                            if j < i {
                                assert(exists|j2: int|
                                    0 <= j2 < i && spec_provides_constructor(impls@[j2]) && #[trigger] constructed_name(
                                        impls@[j2],
                                    ) == Some(n));
                                assert(before.contains(n));
                                let k = choose|k: int| 0 <= k < before.len() && before[k] == n;
                                assert(names_of(out@)[k] == n);
                            } else {
                                assert(names_of(out@)[before.len() as int] == n);
                            }
                        }
                    }
                }
            }
        }
        i = i + 1;
    }
    assert(names_of(out@).to_set() =~= constructed(impls@));
    out
}

/// A type path with a segment named `PhantomData`.
pub open spec fn phantom(t: TypeModel) -> bool {
    match t {
        TypeModel::Path { path, .. } => seg_idents(path.segments).contains("PhantomData"@),
        _ => false,
    }
}

fn segs_contain(l: &SegList, name: &str) -> (r: bool)
    ensures
        r == seg_idents(*l).contains(name@),
    decreases l,
{
    match l {
        SegList::Nil => {
            assert(seg_idents(*l) =~= Seq::<Seq<char>>::empty());
            false
        },
        SegList::Cons(s, rest) => {
            let r = str_eq(s.ident.as_str(), name) || segs_contain(rest, name);
            proof {
                let ids = seg_idents(*l);
                assert(ids =~= seq![s.ident@] + seg_idents(**rest));
                if r {
                    if s.ident@ == name@ {
                        assert(ids[0] == name@);
                    } else {
                        let k = choose|k: int| 0 <= k < seg_idents(**rest).len() && seg_idents(**rest)[k] == name@;
                        assert(ids[k + 1] == name@);
                    }
                } else if ids.contains(name@) {
                    let k = choose|k: int| 0 <= k < ids.len() && ids[k] == name@;
                    if k > 0 {
                        assert(seg_idents(**rest)[k - 1] == name@);
                    }
                }
            }
            r
        },
    }
}

fn is_phantom(t: &TypeModel) -> (r: bool)
    ensures
        r == phantom(*t),
{
    match t {
        TypeModel::Path { path, .. } => segs_contain(&path.segments, "PhantomData"),
        _ => false,
    }
}

/// A struct name with one of the configured data-carrier suffixes (such as
/// `Dto` or `Config`): such structs are built field by field on purpose.
pub open spec fn spec_is_data_carrier(name: Seq<char>, suffixes: Seq<Seq<char>>) -> bool {
    exists|k: int| 0 <= k < suffixes.len() && #[trigger] ends_with(name, suffixes[k])
}

pub fn is_data_carrier(name: &str, suffixes: &Vec<String>) -> (r: bool)
    ensures
        r == spec_is_data_carrier(name@, names_of(suffixes@)),
{
    let n = chars_of(name);
    let mut k: usize = 0;
    while k < suffixes.len()
        invariant
            k <= suffixes@.len(),
            n@ == name@,
            forall|j: int| 0 <= j < k ==> !#[trigger] ends_with(name@, names_of(suffixes@)[j]),
        decreases suffixes@.len() - k,
    {
        let t = chars_of(suffixes[k].as_str());
        if t.len() <= n.len() {
            let at = n.len() - t.len();
            if crate::text::matches_at(&n, at, &t) {
                assert(n@.subrange(at as int, n@.len() as int) =~= t@);
                assert(ends_with(name@, names_of(suffixes@)[k as int]));
                return true;
            }
            proof {
                if n@.subrange(at as int, n@.len() as int) == t@ {
                    assert(crate::text::spec_matches_at(n@, at as int, t@));
                }
            }
        }
        k = k + 1;
    }
    false
}

pub open spec fn all_public(s: StructShape) -> bool {
    !s.unit && forall|i: int| 0 <= i < s.fields@.len() ==> #[trigger] s.fields@[i].0
}

pub open spec fn has_phantom(s: StructShape) -> bool {
    exists|i: int| 0 <= i < s.fields@.len() && #[trigger] phantom(s.fields@[i].1)
}

/// A struct whose three or more fields are all public, with no constructor,
/// no `Default` derive and no `PhantomData` marker.
pub open spec fn broken(s: StructShape, built: Set<Seq<char>>, suffixes: Seq<Seq<char>>) -> bool {
    &&& !spec_is_data_carrier(s.name@, suffixes)
    &&& all_public(s)
    &&& s.fields@.len() >= 3
    &&& !built.contains(s.name@)
    &&& !derives_default(s)
    &&& !has_phantom(s)
}

pub open spec fn broken_message(s: StructShape) -> Seq<char> {
    "Struct `"@ + s.name@ + "` has "@ + dec(s.fields@.len()) + " public fields but no `new()` constructor"@
}

pub open spec fn broken_suggestion() -> Seq<char> {
    "Add a constructor to control initialization and validate invariants."@
}

pub open spec fn broken_hits(structs: Seq<StructShape>, built: Set<Seq<char>>, suffixes: Seq<Seq<char>>) -> Seq<Hit>
    decreases structs.len(),
{
    if structs.len() == 0 {
        Seq::empty()
    } else {
        broken_hits(structs.drop_last(), built, suffixes) + if broken(structs.last(), built, suffixes) {
            seq![(structs.last().line, FindingConfidence::Low, broken_message(structs.last()))]
        } else {
            Seq::empty()
        }
    }
}

fn check_fields(s: &StructShape) -> (r: (bool, bool))
    ensures
        r.0 == all_public(*s),
        r.1 == has_phantom(*s),
{
    let mut all = !s.unit;
    let mut ph = false;
    let mut i: usize = 0;
    while i < s.fields.len()
        invariant
            i <= s.fields@.len(),
            all == (!s.unit && forall|j: int| 0 <= j < i ==> #[trigger] s.fields@[j].0),
            ph == exists|j: int| 0 <= j < i && #[trigger] phantom(s.fields@[j].1),
        decreases s.fields@.len() - i,
    {
        if !s.fields[i].0 {
            all = false;
        }
        if is_phantom(&s.fields[i].1) {
            ph = true;
        }
        i = i + 1;
    }
    (all, ph)
}

/// Structs with public fields but no constructor.
pub struct BrokenConstructorDetector;

impl BrokenConstructorDetector {
    pub fn name(&self) -> (r: &'static str)
        ensures
            r@ == "Broken Constructor"@,
    {
        "Broken Constructor"
    }

    /// `structs` and `impls` are the file's top-level structs and impl
    /// blocks, in order; `suffixes` the configured data-carrier suffixes.
    pub fn detect(
        &self,
        path: &str,
        test_markers: &Vec<String>,
        suffixes: &Vec<String>,
        structs: &Vec<StructShape>,
        impls: &Vec<ImplShape>,
    ) -> (r: Vec<Smell>)
        ensures
            spec_is_test_path(path@, names_of(test_markers@)) ==> r@.len() == 0,
            !spec_is_test_path(path@, names_of(test_markers@)) ==> findings_are(
                r@,
                broken_hits(structs@, constructed(impls@), names_of(suffixes@)),
                SmellCategory::Design,
                "Broken Constructor"@,
                Severity::Warning,
                path@,
                broken_suggestion(),
            ),
    {
        let mut out: Vec<Smell> = Vec::new();
        if is_test_path(path, test_markers) {
            return out;
        }
        let built = constructed_names(impls);
        let ghost bset = constructed(impls@);
        let ghost sfx = names_of(suffixes@);
        let mut i: usize = 0;
        while i < structs.len()
            invariant
                i <= structs@.len(),
                names_of(built@).to_set() == bset,
                sfx == names_of(suffixes@),
                findings_are(
                    out@,
                    broken_hits(structs@.take(i as int), bset, sfx),
                    SmellCategory::Design,
                    "Broken Constructor"@,
                    Severity::Warning,
                    path@,
                    broken_suggestion(),
                ),
            decreases structs@.len() - i,
        {
            assert(structs@.take(i + 1).drop_last() =~= structs@.take(i as int));
            let ghost before = broken_hits(structs@.take(i as int), bset, sfx);
            let s = &structs[i];
            let (all, ph) = check_fields(s);
            let exempt = is_data_carrier(s.name.as_str(), suffixes);
            let has_ctor = contains_name(&built, s.name.as_str());
            if !exempt && all && s.fields.len() >= 3 && !has_ctor && !derives_default_exec(s) && !ph {
                let mut msg: Vec<char> = Vec::new();
                extend_str(&mut msg, "Struct `");
                extend(&mut msg, &chars_of(s.name.as_str()));
                extend_str(&mut msg, "` has ");
                push_decimal(&mut msg, s.fields.len() as u128);
                extend_str(&mut msg, " public fields but no `new()` constructor");
                let message = string_of(msg.as_slice());
                let f = finding(
                    SmellCategory::Design,
                    self.name(),
                    Severity::Warning,
                    FindingConfidence::Low,
                    path,
                    s.line,
                    s.line,
                    message.as_str(),
                    "Add a constructor to control initialization and validate invariants.",
                );
                proof {
                    let h = (s.line, FindingConfidence::Low, broken_message(*s));
                    lemma_findings_push(out@, before, f, h, SmellCategory::Design, "Broken Constructor"@,
                        Severity::Warning, path@, broken_suggestion());
                    assert(before.push(h) =~= before + seq![h]);
                }
                out.push(f);
            } else {
                assert(before + Seq::<Hit>::empty() =~= before);
            }
            i = i + 1;
        }
        assert(structs@.take(structs@.len() as int) =~= structs@);
        out
    }
}

} // verus!
