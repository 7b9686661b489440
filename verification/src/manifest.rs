//! What a Cargo manifest says about dependencies: the names declared only as
//! dev-dependencies, read through the `toml` crate.
use vstd::prelude::*;
use crate::evidence::names_of;
use crate::detectors::architecture::add_distinct;
use crate::text::string_of;

verus! {

#[verifier::external_type_specification]
#[verifier::external_body]
pub struct ExTomlValue(toml::Value);

/// Whether `toml::from_str::<toml::Value>` accepts a document.
pub uninterp spec fn toml_parses(text: Seq<char>) -> bool;

/// The value `toml::from_str::<toml::Value>` reads from a document it accepts.
pub uninterp spec fn toml_document(text: Seq<char>) -> toml::Value;

/// What `toml::Value::get` finds under a key.
pub uninterp spec fn toml_get(v: toml::Value, key: Seq<char>) -> Option<toml::Value>;

/// The keys of a table value, `None` for a value that is no table.
pub uninterp spec fn toml_table_keys(v: toml::Value) -> Option<Seq<Seq<char>>>;

/// The values of a table value, `None` for a value that is no table.
pub uninterp spec fn toml_table_values(v: toml::Value) -> Option<Seq<toml::Value>>;

/// `toml::from_str::<toml::Value>`: the parsed document, `None` where the
/// text is no TOML document.
#[verifier::external_body]
fn parse_toml(text: &str) -> (r: Option<toml::Value>)
    ensures
        r is Some <==> toml_parses(text@),
        r is Some ==> r->0 == toml_document(text@),
{
    toml::from_str::<toml::Value>(text).ok()
}

/// `toml::Value::get` with a string key.
#[verifier::external_body]
fn value_get<'a>(v: &'a toml::Value, key: &str) -> (r: Option<&'a toml::Value>)
    ensures
        match r {
            Some(x) => toml_get(*v, key@) == Some(*x),
            None => toml_get(*v, key@) is None,
        },
{
    v.get(key)
}

/// `toml::Value::as_table`, then the table's keys in the table's order.
#[verifier::external_body]
fn table_keys(v: &toml::Value) -> (r: Option<Vec<String>>)
    ensures
        match r {
            Some(ks) => toml_table_keys(*v) == Some(names_of(ks@)),
            None => toml_table_keys(*v) is None,
        },
{
    v.as_table().map(|t| t.keys().cloned().collect())
}

/// `toml::Value::as_table`, then the table's values in the table's order.
#[verifier::external_body]
fn table_values(v: &toml::Value) -> (r: Option<Vec<toml::Value>>)
    ensures
        match r {
            Some(vs) => toml_table_values(*v) == Some(vs@),
            None => toml_table_values(*v) is None,
        },
{
    v.as_table().map(|t| t.values().cloned().collect())
}

/// A dependency name as Rust source spells it: `-` becomes `_`.
pub open spec fn underscored(s: Seq<char>) -> Seq<char> {
    s.map_values(|c: char| if c == '-' { '_' } else { c })
}

pub fn underscore(s: &str) -> (r: String)
    ensures
        r@ == underscored(s@),
{
    let v = crate::text::chars_of(s);
    let mut out: Vec<char> = Vec::new();
    let mut i: usize = 0;
    while i < v.len()
        invariant
            i <= v@.len(),
            out@ == underscored(v@.take(i as int)),
        decreases v@.len() - i,
    {
        let c = v[i];
        out.push(if c == '-' { '_' } else { c });
        assert(underscored(v@.take(i + 1)) =~= underscored(v@.take(i as int)).push(
            if c == '-' { '_' } else { c },
        ));
        i = i + 1;
    }
    assert(v@.take(v@.len() as int) =~= v@);
    string_of(out.as_slice())
}

/// The dependency names a manifest table declares under `section`.
pub open spec fn section_names(v: toml::Value, section: Seq<char>) -> Set<Seq<char>> {
    match toml_get(v, section) {
        Some(t) => match toml_table_keys(t) {
            Some(ks) => ks.map_values(|k: Seq<char>| underscored(k)).to_set(),
            None => Set::empty(),
        },
        None => Set::empty(),
    }
}

/// The tables that declare dependencies: the manifest and each of its
/// `[target.*]` tables.
pub open spec fn dependency_scopes(doc: toml::Value) -> Seq<toml::Value> {
    seq![doc] + match toml_get(doc, "target"@) {
        Some(t) => match toml_table_values(t) {
            Some(vs) => vs,
            None => Seq::empty(),
        },
        None => Seq::empty(),
    }
}

pub open spec fn scopes_names(scopes: Seq<toml::Value>, section: Seq<char>) -> Set<Seq<char>>
    decreases scopes.len(),
{
    if scopes.len() == 0 {
        Set::empty()
    } else {
        scopes_names(scopes.drop_last(), section) + section_names(scopes.last(), section)
    }
}

/// The names a manifest declares as dev-dependencies and nowhere as a
/// dependency; nothing for a text that is no TOML document.
pub open spec fn dev_only(text: Seq<char>) -> Set<Seq<char>> {
    if toml_parses(text) {
        let scopes = dependency_scopes(toml_document(text));
        scopes_names(scopes, "dev-dependencies"@) - scopes_names(scopes, "dependencies"@)
    } else {
        Set::empty()
    }
}

pub fn contains_name(v: &Vec<String>, s: &str) -> (r: bool)
    ensures
        r == names_of(v@).contains(s@),
{
    let mut i: usize = 0;
    while i < v.len()
        invariant
            i <= v@.len(),
            forall|j: int| 0 <= j < i ==> v@[j]@ != s@,
        decreases v@.len() - i,
    {
        if crate::text::str_eq(v[i].as_str(), s) {
            assert(names_of(v@)[i as int] == s@);
            return true;
        }
        i = i + 1;
    }
    proof {
        if names_of(v@).contains(s@) {
            let j = choose|j: int| 0 <= j < names_of(v@).len() && names_of(v@)[j] == s@;
            assert(v@[j]@ == s@);
        }
    }
    false
}

fn add_section_names(v: &toml::Value, section: &str, names: &mut Vec<String>)
    requires
        names_of(old(names)@).no_duplicates(),
    ensures
        names_of(final(names)@).no_duplicates(),
        names_of(final(names)@).to_set() == names_of(old(names)@).to_set() + section_names(
            *v,
            section@,
        ),
{
    let keys = match value_get(v, section) {
        Some(t) => table_keys(t),
        None => None,
    };
    match keys {
        Some(ks) => {
            let ghost mapped = names_of(ks@).map_values(|k: Seq<char>| underscored(k));
            let ghost start = names_of(names@).to_set();
            let mut i: usize = 0;
            while i < ks.len()
                invariant
                    i <= ks@.len(),
                    mapped == names_of(ks@).map_values(|k: Seq<char>| underscored(k)),
                    names_of(names@).no_duplicates(),
                    names_of(names@).to_set() == start + mapped.take(i as int).to_set(),
                decreases ks@.len() - i,
            {
                let u = underscore(ks[i].as_str());
                let ghost before = names_of(names@).to_set();
                add_distinct(names, u);
                assert(mapped.take(i + 1) =~= mapped.take(i as int).push(mapped[i as int]));
                assert(mapped.take(i + 1).to_set() =~= mapped.take(i as int).to_set().insert(
                    mapped[i as int],
                )) by {
                    mapped.take(i as int).lemma_push_to_set_commute(mapped[i as int]);
                }
                assert(names_of(names@).to_set() =~= start + mapped.take(i + 1).to_set());
                i = i + 1;
            }
            assert(mapped.take(ks@.len() as int) =~= mapped);
        },
        None => {
            assert(section_names(*v, section@) =~= Set::empty());
            assert(names_of(names@).to_set() + Set::empty() =~= names_of(names@).to_set());
        },
    }
}

/// The dependency names that a manifest declares only as dev-dependencies,
/// each once, spelled as in Rust source (`-` as `_`).
pub fn dev_dependencies(manifest: &str) -> (r: Vec<String>)
    ensures
        names_of(r@).no_duplicates(),
        names_of(r@).to_set() == dev_only(manifest@),
{
    let doc = match parse_toml(manifest) {
        Some(d) => d,
        None => {
            let r: Vec<String> = Vec::new();
            assert(names_of(r@).to_set() =~= Set::empty());
            return r;
        },
    };
    let targets = match value_get(&doc, "target") {
        Some(t) => match table_values(t) {
            Some(vs) => vs,
            None => Vec::new(),
        },
        None => Vec::new(),
    };
    proof {
        reveal_strlit("target");
        reveal_strlit("dev-dependencies");
        reveal_strlit("dependencies");
    }
    let ghost scopes = dependency_scopes(doc);
    assert(scopes =~= seq![doc] + targets@);
    let mut dev: Vec<String> = Vec::new();
    let mut prod: Vec<String> = Vec::new();
    assert(names_of(dev@).to_set() =~= Set::empty());
    assert(names_of(prod@).to_set() =~= Set::empty());
    add_section_names(&doc, "dev-dependencies", &mut dev);
    add_section_names(&doc, "dependencies", &mut prod);
    assert(scopes.take(1).drop_last() =~= Seq::<toml::Value>::empty());
    assert(scopes.take(1).last() == doc);
    assert(scopes_names(Seq::<toml::Value>::empty(), "dev-dependencies"@) =~= Set::empty());
    assert(scopes_names(Seq::<toml::Value>::empty(), "dependencies"@) =~= Set::empty());
    assert(Set::<Seq<char>>::empty() + section_names(doc, "dev-dependencies"@) =~= section_names(doc, "dev-dependencies"@));
    assert(Set::<Seq<char>>::empty() + section_names(doc, "dependencies"@) =~= section_names(doc, "dependencies"@));
    assert(names_of(dev@).to_set() =~= scopes_names(scopes.take(1), "dev-dependencies"@));
    assert(names_of(prod@).to_set() =~= scopes_names(scopes.take(1), "dependencies"@));
    let mut i: usize = 0;
    while i < targets.len()
        invariant
            i <= targets@.len(),
            scopes == seq![doc] + targets@,
            names_of(dev@).no_duplicates(),
            names_of(prod@).no_duplicates(),
            names_of(dev@).to_set() == scopes_names(scopes.take(i + 1), "dev-dependencies"@),
            names_of(prod@).to_set() == scopes_names(scopes.take(i + 1), "dependencies"@),
        decreases targets@.len() - i,
    {
        assert(scopes.take(i + 2).drop_last() =~= scopes.take(i + 1));
        assert(scopes.take(i + 2).last() == targets@[i as int]);
        add_section_names(&targets[i], "dev-dependencies", &mut dev);
        add_section_names(&targets[i], "dependencies", &mut prod);
        i = i + 1;
    }
    assert(scopes.take(targets@.len() as int + 1) =~= scopes);
    let mut out: Vec<String> = Vec::new();
    let mut j: usize = 0;
    let ghost dset = names_of(dev@).to_set();
    let ghost pset = names_of(prod@).to_set();
    while j < dev.len()
        invariant
            j <= dev@.len(),
            names_of(dev@).no_duplicates(),
            dset == names_of(dev@).to_set(),
            pset == names_of(prod@).to_set(),
            names_of(out@).no_duplicates(),
            names_of(out@).to_set() == names_of(dev@).take(j as int).to_set() - pset,
            forall|x: Seq<char>| names_of(out@).contains(x) ==> names_of(dev@).take(j as int).contains(x),
        decreases dev@.len() - j,
    {
        let ghost dv = names_of(dev@);
        assert(dv.take(j + 1) =~= dv.take(j as int).push(dv[j as int]));
        proof {
            dv.take(j as int).lemma_push_to_set_commute(dv[j as int]);
        }
        if !contains_name(&prod, dev[j].as_str()) {
            let ghost before = names_of(out@);
            let s = crate::evidence::string_clone(&dev[j]);
            proof {
                assert(!before.contains(dv[j as int])) by {
                    if before.contains(dv[j as int]) {
                        assert(dv.take(j as int).contains(dv[j as int]));
                        let k = choose|k: int| 0 <= k < j && dv.take(j as int)[k] == dv[j as int];
                        assert(dv[k] == dv[j as int]);
                    }
                }
            }
            out.push(s);
            assert(names_of(out@) =~= before.push(dv[j as int]));
            proof {
                before.lemma_push_to_set_commute(dv[j as int]);
                assert forall|a: int, b: int| 0 <= a < b < names_of(out@).len() implies names_of(out@)[a] != names_of(out@)[b] by {
                    if b == before.len() {
                        assert(before.contains(before[a]));
                    }
                }
                assert forall|x: Seq<char>| names_of(out@).contains(x) implies dv.take(j + 1).contains(x) by {
                    let k = choose|k: int| 0 <= k < names_of(out@).len() && names_of(out@)[k] == x;
                    if k < before.len() {
                        assert(before.contains(x));
                        let m = choose|m: int| 0 <= m < j && dv.take(j as int)[m] == x;
                        assert(dv.take(j + 1)[m] == x);
                    } else {
                        assert(dv.take(j + 1)[j as int] == x);
                    }
                }
            }
            assert(names_of(out@).to_set() =~= dv.take(j + 1).to_set() - pset);
        } else {
            assert(names_of(out@).to_set() =~= dv.take(j + 1).to_set() - pset);
            assert forall|x: Seq<char>| names_of(out@).contains(x) implies dv.take(j + 1).contains(x) by {
                let m = choose|m: int| 0 <= m < j && dv.take(j as int)[m] == x;
                assert(dv.take(j + 1)[m] == x);
            }
        }
        j = j + 1;
    }
    assert(names_of(dev@).take(dev@.len() as int) =~= names_of(dev@));
    out
}


/// What `toml::Value::as_str` returns: the text of a string value, `None`
/// for any other value.
pub uninterp spec fn toml_str(v: toml::Value) -> Option<Seq<char>>;

/// What `toml::Value::as_array` returns: the items of an array value, `None`
/// for any other value.
pub uninterp spec fn toml_array(v: toml::Value) -> Option<Seq<toml::Value>>;

/// `toml::Value::as_str`, copied into a `String`.
#[verifier::external_body]
fn value_str(v: &toml::Value) -> (r: Option<String>)
    ensures
        match r {
            Some(s) => toml_str(*v) == Some(s@),
            None => toml_str(*v) is None,
        },
{
    v.as_str().map(|s| s.to_string())
}

/// `toml::Value::as_array`, with its items cloned in the array's order.
#[verifier::external_body]
fn value_array(v: &toml::Value) -> (r: Option<Vec<toml::Value>>)
    ensures
        match r {
            Some(a) => toml_array(*v) == Some(a@),
            None => toml_array(*v) is None,
        },
{
    v.as_array().cloned()
}

/// The `path` string of a `[lib]` or `[[bin]]` table.
pub open spec fn declared_path(table: toml::Value) -> Option<Seq<char>> {
    match toml_get(table, "path"@) {
        Some(p) => toml_str(p),
        None => None,
    }
}

/// The declared paths of the `[[bin]]` targets, in order.
pub open spec fn bin_paths(bins: Seq<toml::Value>) -> Seq<Seq<char>>
    decreases bins.len(),
{
    if bins.len() == 0 {
        Seq::empty()
    } else {
        let rest = bin_paths(bins.drop_last());
        match declared_path(bins.last()) {
            Some(p) => rest.push(p),
            None => rest,
        }
    }
}

pub open spec fn default_entries() -> Seq<Seq<char>> {
    seq!["src/lib.rs"@, "src/main.rs"@]
}

/// The crate-root files of a package, relative to its manifest's directory:
/// the conventional library and binary roots, then the `[lib]` path and the
/// `[[bin]]` paths that the manifest declares (when its text could be read
/// and is a TOML document).
pub open spec fn spec_entry_paths(manifest: Option<Seq<char>>) -> Seq<Seq<char>> {
    match manifest {
        Some(text) if toml_parses(text) => {
            let doc = toml_document(text);
            let with_lib = match toml_get(doc, "lib"@) {
                Some(lib) => match declared_path(lib) {
                    Some(p) => default_entries().push(p),
                    None => default_entries(),
                },
                None => default_entries(),
            };
            match toml_get(doc, "bin"@) {
                Some(b) => match toml_array(b) {
                    Some(bins) => with_lib + bin_paths(bins),
                    None => with_lib,
                },
                None => with_lib,
            }
        },
        _ => default_entries(),
    }
}

fn table_path(table: &toml::Value) -> (r: Option<String>)
    ensures
        opt_text(r) == declared_path(*table),
{
    proof {
        reveal_strlit("path");
    }
    match value_get(table, "path") {
        Some(p) => value_str(p),
        None => None,
    }
}

pub open spec fn opt_text(o: Option<String>) -> Option<Seq<char>> {
    match o {
        Some(s) => Some(s@),
        None => None,
    }
}

/// The crate-root files that a manifest (its text, where it could be read)
/// declares, relative to the manifest's directory.
pub fn entry_paths(manifest: Option<&str>) -> (r: Vec<String>)
    ensures
        names_of(r@) == spec_entry_paths(
            match manifest {
                Some(t) => Some(t@),
                None => None,
            },
        ),
{
    proof {
        reveal_strlit("src/lib.rs");
        reveal_strlit("src/main.rs");
        reveal_strlit("lib");
        reveal_strlit("bin");
    }
    let mut r: Vec<String> = Vec::new();
    r.push(string_of(crate::text::chars_of("src/lib.rs").as_slice()));
    r.push(string_of(crate::text::chars_of("src/main.rs").as_slice()));
    assert(names_of(r@) =~= default_entries());
    let doc = match manifest {
        Some(text) => match parse_toml(text) {
            Some(d) => d,
            None => return r,
        },
        None => return r,
    };
    match value_get(&doc, "lib") {
        Some(lib) => match table_path(lib) {
            Some(p) => {
                let ghost before = r@;
                r.push(p);
                assert(names_of(r@) =~= names_of(before).push(r@.last()@));
            },
            None => {},
        },
        None => {},
    }
    let ghost with_lib = names_of(r@);
    let bins = match value_get(&doc, "bin") {
        Some(b) => match value_array(b) {
            Some(a) => a,
            None => return r,
        },
        None => return r,
    };
    let mut i: usize = 0;
    while i < bins.len()
        invariant
            i <= bins@.len(),
            names_of(r@) == with_lib + bin_paths(bins@.take(i as int)),
        decreases bins@.len() - i,
    {
        assert(bins@.take(i + 1).drop_last() =~= bins@.take(i as int));
        match table_path(&bins[i]) {
            Some(p) => {
                let ghost before = r@;
                let ghost text = p@;
                r.push(p);
                assert(names_of(r@) =~= names_of(before).push(text));
                assert(names_of(r@) =~= with_lib + bin_paths(bins@.take(i as int)).push(text));
            },
            None => {},
        }
        i = i + 1;
    }
    assert(bins@.take(bins@.len() as int) =~= bins@);
    r
}

} // verus!
