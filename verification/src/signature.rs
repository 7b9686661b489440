//! A function item as `syn` parses it, and what its signature and body show
//! of its lifetimes.
use vstd::prelude::*;
use quote::ToTokens;
use syn::{FnArg, GenericParam, ItemFn, ReturnType, Type};
use crate::evidence::string_clone;
use crate::lifetimes::{FnLifetimes, TypeShape};
use crate::text::{chars_of, is_whitespace, slice_of, string_of, trim, trim_end_at, trim_vec};
use crate::tokens::{lex, lexed_tokens, punct_is, unparsed, unparsed_at, TokenModel};

verus! {

/// A function item's signature, its parameter and return types as token
/// text, and its body as token text.
pub struct FnSigModel {
    /// Each generic parameter: for a lifetime, its name and how many bounds
    /// it has; `None` for another kind of parameter.
    pub generics: Vec<Option<(String, usize)>>,
    pub has_where_clause: bool,
    /// Each parameter's type; `None` for a receiver.
    pub inputs: Vec<Option<String>>,
    /// The return type; `None` for the default `()`.
    pub output: Option<String>,
    pub block: String,
}

/// What `syn::parse_str::<syn::ItemFn>` reads from a text, converted field by
/// field; `None` where the text is no function item.
pub uninterp spec fn item_fn_signature(text: Seq<char>) -> Option<FnSigModel>;

/// `syn::parse_str::<syn::ItemFn>`, with the signature and body converted
/// into a `FnSigModel`.
#[verifier::external_body]
fn parse_item_fn(text: &str) -> (r: Option<FnSigModel>)
    ensures
        r == item_fn_signature(text@),
{
    let ItemFn { sig: s, block, .. } = syn::parse_str(text).ok()?;
    Some(FnSigModel {
        generics: s.generics.params.iter().map(|p| match p {
            GenericParam::Lifetime(l) => Some((l.lifetime.ident.to_string(), l.bounds.len())),
            _ => None,
        }).collect(),
        has_where_clause: s.generics.where_clause.is_some(),
        inputs: s.inputs.iter().map(|a| match a {
            FnArg::Typed(t) => Some(t.ty.to_token_stream().to_string()),
            _ => None,
        }).collect(),
        output: match s.output { ReturnType::Type(_, t) => Some(t.to_token_stream().to_string()), _ => None },
        block: block.to_token_stream().to_string(),
    })
}

/// The outermost form of a type: a reference with its lifetime and the
/// referenced type's token text; a path with whether it has a qualified
/// self and, per segment, whether it has generic arguments; a tuple with its
/// number of elements; or another form.
pub enum TypeHead {
    Reference { lifetime: Option<String>, elem: String },
    Path { qself: bool, segment_args: Vec<bool> },
    Tuple(usize),
    Other,
}

/// What `syn::parse_str::<syn::Type>` reads from a text, its outermost form
/// converted; `None` where the text is no type.
pub uninterp spec fn type_head(text: Seq<char>) -> Option<TypeHead>;

/// `syn::parse_str::<syn::Type>`, with its outermost form converted.
#[verifier::external_body]
fn parse_type_head(text: &str) -> (r: Option<TypeHead>)
    ensures
        r == type_head(text@),
{
    Some(match syn::parse_str::<Type>(text).ok()? {
        Type::Reference(r) => TypeHead::Reference {
            lifetime: r.lifetime.map(|l| l.ident.to_string()),
            elem: r.elem.to_token_stream().to_string(),
        },
        Type::Path(p) => TypeHead::Path {
            qself: p.qself.is_some(),
            segment_args: p.path.segments.iter().map(|s| !s.arguments.is_none()).collect(),
        },
        Type::Tuple(t) => TypeHead::Tuple(t.elems.len()),
        _ => TypeHead::Other,
    })
}

pub open spec fn no_args(s: Seq<bool>) -> bool {
    forall|i: int| 0 <= i < s.len() ==> !#[trigger] s[i]
}

/// A path type without qualified self or generic arguments, or `()`.
pub open spec fn simple_head(h: Option<TypeHead>) -> bool {
    match h {
        Some(TypeHead::Path { qself, segment_args }) => !qself && no_args(segment_args@),
        Some(TypeHead::Tuple(n)) => n == 0,
        _ => false,
    }
}

/// The shape of the type written as `text`.
pub open spec fn spec_shape(text: Seq<char>) -> TypeShape {
    match type_head(text) {
        Some(TypeHead::Reference { lifetime, elem }) => TypeShape::Reference {
            lifetime,
            simple_elem: simple_head(type_head(elem@)),
        },
        h => if simple_head(h) {
            TypeShape::Simple
        } else {
            TypeShape::Other
        },
    }
}

/// A lifetime (or label) token outside macro and attribute inputs: `'`
/// as a punctuation token of parsed code.
pub open spec fn lifetime_in(t: Seq<TokenModel>) -> bool {
    exists|i: int| 0 <= i < t.len() && punct_is(#[trigger] t[i], '\'') && !unparsed(t, i)
}

/// Whether a body's token text names a lifetime in its parsed code; a text
/// that does not lex is taken to name one.
pub open spec fn body_names_lifetime(block: Seq<char>) -> bool {
    match lexed_tokens(block) {
        Some(t) => lifetime_in(t),
        None => true,
    }
}

/// What a parsed function item shows of its lifetimes.
pub open spec fn spec_lifetimes_of(s: FnSigModel) -> FnLifetimes {
    FnLifetimes {
        generic_params: s.generics@.len() as usize,
        has_where_clause: s.has_where_clause,
        inputs: s.inputs@.len() as usize,
        first_lifetime: if s.generics@.len() > 0 {
            match s.generics@[0] {
                Some((name, bounds)) => Some((name, bounds > 0)),
                None => None,
            }
        } else {
            None
        },
        first_input: if s.inputs@.len() > 0 {
            match s.inputs@[0] {
                Some(t) => Some(spec_shape(t@)),
                None => None,
            }
        } else {
            None
        },
        output: match s.output {
            Some(t) => Some(spec_shape(t@)),
            None => None,
        },
        body_has_lifetime: body_names_lifetime(s.block@),
        body_tokens: s.block,
    }
}

/// The lifetimes of a text read as a function item.
pub open spec fn spec_item_lifetimes(text: Seq<char>) -> Option<FnLifetimes> {
    match item_fn_signature(text) {
        Some(s) => Some(spec_lifetimes_of(s)),
        None => None,
    }
}

/// A line that ends with `{` after trimming, read as a signature followed by
/// an empty body: the signature with its trailing whitespace removed, then
/// ` {}`.
pub open spec fn signature_with_body(line: Seq<char>) -> Option<Seq<char>> {
    let t = trim(line);
    if t.len() > 0 && t.last() == '{' {
        let sig = t.drop_last();
        Some(sig.take(trim_end_at(sig, sig.len() as int)) + seq![' ', '{', '}'])
    } else {
        None
    }
}

/// The lifetimes of a line read as a function item, or else as a signature
/// followed by an empty body.
pub open spec fn spec_line_function(line: Seq<char>) -> Option<FnLifetimes> {
    match spec_item_lifetimes(line) {
        Some(f) => Some(f),
        None => match signature_with_body(line) {
            Some(text) => spec_item_lifetimes(text),
            None => None,
        },
    }
}

fn simple(h: &Option<TypeHead>) -> (r: bool)
    ensures
        r == simple_head(*h),
{
    match h {
        Some(TypeHead::Path { qself, segment_args }) => {
            if *qself {
                return false;
            }
            let mut i: usize = 0;
            while i < segment_args.len()
                invariant
                    simple_head(*h) == no_args(segment_args@),
                    i <= segment_args@.len(),
                    forall|k: int| 0 <= k < i ==> !segment_args@[k],
                decreases segment_args@.len() - i,
            {
                if segment_args[i] {
                    assert(!no_args(segment_args@));
                    return false;
                }
                i = i + 1;
            }
            assert(no_args(segment_args@));
            true
        },
        Some(TypeHead::Tuple(n)) => *n == 0,
        _ => false,
    }
}

fn opt_string_clone(o: &Option<String>) -> (r: Option<String>)
    ensures
        r == *o,
{
    match o {
        Some(s) => Some(string_clone(s)),
        None => None,
    }
}

/// The shape of the type written as `text`.
pub fn shape(text: &str) -> (r: TypeShape)
    ensures
        r == spec_shape(text@),
{
    let h = parse_type_head(text);
    match &h {
        Some(TypeHead::Reference { lifetime, elem }) => {
            let e = parse_type_head(elem.as_str());
            TypeShape::Reference { lifetime: opt_string_clone(lifetime), simple_elem: simple(&e) }
        },
        _ => if simple(&h) {
            TypeShape::Simple
        } else {
            TypeShape::Other
        },
    }
}

fn has_lifetime_token(t: &Vec<TokenModel>) -> (r: bool)
    ensures
        r == lifetime_in(t@),
{
    let mut i: usize = 0;
    while i < t.len()
        invariant
            i <= t@.len(),
            forall|k: int| 0 <= k < i ==> !(punct_is(#[trigger] t@[k], '\'') && !unparsed(t@, k)),
        decreases t@.len() - i,
    {
        let leaf = t[i].open_end.is_none();
        let v = chars_of(t[i].text.as_str());
        if leaf && v.len() == 1 && v[0] == '\'' {
            assert(v@ =~= seq!['\'']);
            if !unparsed_at(t, i) {
                assert(punct_is(t@[i as int], '\''));
                return true;
            }
        } else {
            assert(!punct_is(t@[i as int], '\''));
        }
        i = i + 1;
    }
    false
}

/// What a parsed function item shows of its lifetimes.
pub fn lifetimes_of(s: &FnSigModel) -> (r: FnLifetimes)
    ensures
        r == spec_lifetimes_of(*s),
{
    let first_lifetime = if s.generics.len() > 0 {
        match &s.generics[0] {
            Some((name, bounds)) => Some((string_clone(name), *bounds > 0)),
            None => None,
        }
    } else {
        None
    };
    let first_input = if s.inputs.len() > 0 {
        match &s.inputs[0] {
            Some(t) => Some(shape(t.as_str())),
            None => None,
        }
    } else {
        None
    };
    let output = match &s.output {
        Some(t) => Some(shape(t.as_str())),
        None => None,
    };
    let body_has_lifetime = match lex(s.block.as_str()) {
        Some(t) => has_lifetime_token(&t),
        None => true,
    };
    FnLifetimes {
        generic_params: s.generics.len(),
        has_where_clause: s.has_where_clause,
        inputs: s.inputs.len(),
        first_lifetime,
        first_input,
        output,
        body_has_lifetime,
        body_tokens: string_clone(&s.block),
    }
}

/// The lifetimes of a text read as a function item; `None` where it is no
/// function item.
pub fn item_lifetimes(text: &str) -> (r: Option<FnLifetimes>)
    ensures
        r == spec_item_lifetimes(text@),
{
    match parse_item_fn(text) {
        Some(s) => Some(lifetimes_of(&s)),
        None => None,
    }
}

fn signature_text(line: &str) -> (r: Option<String>)
    ensures
        match r {
            Some(s) => signature_with_body(line@) == Some(s@),
            None => signature_with_body(line@) is None,
        },
{
    let t = trim_vec(&chars_of(line));
    if t.len() == 0 || t[t.len() - 1] != '{' {
        return None;
    }
    let sig = slice_of(&t, 0, t.len() - 1);
    assert(sig@ =~= t@.drop_last());
    let mut j: usize = sig.len();
    while j > 0 && is_whitespace(sig[j - 1])
        invariant
            j <= sig@.len(),
            trim_end_at(sig@, j as int) == trim_end_at(sig@, sig@.len() as int),
        decreases j,
    {
        j = j - 1;
    }
    let mut out = slice_of(&sig, 0, j);
    out.push(' ');
    out.push('{');
    out.push('}');
    assert(out@ =~= sig@.take(j as int) + seq![' ', '{', '}']);
    Some(string_of(out.as_slice()))
}

/// The lifetimes of a line read as a function item, or else as a signature
/// followed by an empty body; `None` where it reads as neither.
pub fn line_function(line: &str) -> (r: Option<FnLifetimes>)
    ensures
        r == spec_line_function(line@),
{
    match item_lifetimes(line) {
        Some(f) => Some(f),
        None => match signature_text(line) {
            Some(text) => item_lifetimes(text.as_str()),
            None => None,
        },
    }
}

} // verus!
