//! When an explicit lifetime parameter can be left to elision.
use vstd::prelude::*;
use crate::text::{chars_of, find_from, spec_contains, str_eq};

verus! {

/// The shape of a type in a signature, as far as elision depends on it.
pub enum TypeShape {
    /// A path type without qualified self or generic arguments, or `()`.
    Simple,
    /// `&'lifetime T`; `simple_elem` tells whether `T` is `Simple`.
    Reference { lifetime: Option<String>, simple_elem: bool },
    Other,
}

/// What a function item shows of its lifetimes.
pub struct FnLifetimes {
    pub generic_params: usize,
    pub has_where_clause: bool,
    pub inputs: usize,
    /// The first generic parameter, when it is a lifetime: its name and
    /// whether it has bounds.
    pub first_lifetime: Option<(String, bool)>,
    /// The first parameter's type, when it is not a receiver.
    pub first_input: Option<TypeShape>,
    /// The return type; `None` for the default `()`.
    pub output: Option<TypeShape>,
    /// Whether a lifetime token occurs anywhere in the parsed body.
    pub body_has_lifetime: bool,
    /// The token text of the body, macro bodies included.
    pub body_tokens: String,
}

pub open spec fn same_lifetime(l: Option<String>, name: String) -> bool {
    l matches Some(n) && n@ == name@
}

pub open spec fn output_ok(output: Option<TypeShape>, name: String) -> bool {
    match output {
        None => true,
        Some(TypeShape::Reference { lifetime, simple_elem }) => same_lifetime(lifetime, name)
            && simple_elem,
        Some(TypeShape::Simple) => true,
        Some(TypeShape::Other) => false,
    }
}

/// The sole unbounded lifetime only relates a simple input reference to a
/// simple output, and the body never names it.
pub open spec fn spec_elidable(f: FnLifetimes) -> bool {
    &&& f.generic_params == 1
    &&& !f.has_where_clause
    &&& f.inputs == 1
    &&& f.first_lifetime matches Some((name, bounded)) && {
        &&& !bounded
        &&& f.first_input matches Some(TypeShape::Reference { lifetime, simple_elem }) && same_lifetime(
            lifetime,
            name,
        ) && simple_elem
        &&& output_ok(f.output, name)
        &&& !f.body_has_lifetime
        &&& !spec_contains(f.body_tokens@, seq!['\''] + name@)
    }
}

fn same(l: &Option<String>, name: &String) -> (r: bool)
    ensures
        r == same_lifetime(*l, *name),
{
    match l {
        Some(n) => str_eq(n.as_str(), name.as_str()),
        None => false,
    }
}

pub fn elidable(f: &FnLifetimes) -> (r: bool)
    ensures
        r == spec_elidable(*f),
{
    if f.generic_params != 1 || f.has_where_clause || f.inputs != 1 {
        return false;
    }
    let (name, bounded) = match &f.first_lifetime {
        Some(p) => (&p.0, p.1),
        None => return false,
    };
    if bounded {
        return false;
    }
    match &f.first_input {
        Some(TypeShape::Reference { lifetime, simple_elem }) => {
            if !same(lifetime, name) || !*simple_elem {
                return false;
            }
        },
        _ => return false,
    }
    match &f.output {
        None => {},
        Some(TypeShape::Reference { lifetime, simple_elem }) => {
            if !same(lifetime, name) || !*simple_elem {
                return false;
            }
        },
        Some(TypeShape::Simple) => {},
        Some(TypeShape::Other) => return false,
    }
    if f.body_has_lifetime {
        return false;
    }
    let mut needle: Vec<char> = Vec::new();
    needle.push('\'');
    let n = chars_of(name.as_str());
    crate::text::extend(&mut needle, &n);
    let tokens = chars_of(f.body_tokens.as_str());
    find_from(&tokens, &needle, 0).is_none()
}

} // verus!
