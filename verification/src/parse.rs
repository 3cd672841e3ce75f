//! Parsing front end: trusted declarations around syn, which parses the
//! shader source text, and small wrappers that convert each parsed item into
//! the plain records the verified extractor consumes. Parsing is a function
//! of the text alone, so its outcome carries a name, `parsed_fns_of`; every
//! judgment about what the records mean is made downstream by verified code,
//! which is specified for every record value.

use vstd::prelude::*;
use crate::source::{ArgShape, AttrShape, MetaItem, SourceFn, SourceFnView};

verus! {

#[verifier::external_type_specification]
#[verifier::external_body]
pub struct ExItem(syn::Item);

#[verifier::external_type_specification]
#[verifier::external_body]
pub struct ExAttribute(syn::Attribute);

#[verifier::external_type_specification]
#[verifier::external_body]
pub struct ExFnArg(syn::FnArg);

#[verifier::external_type_specification]
#[verifier::external_body]
pub struct ExNestedMeta(syn::NestedMeta);

#[verifier::external_type_specification]
#[verifier::external_body]
pub struct ExType(syn::Type);

/// What parsing a shader source module yields: the top-level function
/// records in file order, or nothing when the text is not a well-formed
/// module. The result depends on the text alone.
pub uninterp spec fn parsed_fns_of(s: Seq<char>) -> Option<Seq<SourceFnView>>;

/// Relies on syn::parse_file: parses the source text into a file syntax
/// tree, whose top-level functions are converted to plain records one by
/// one, in file order.
#[verifier::external_body]
pub fn parse_module(src: &str) -> (r: Option<Vec<SourceFn>>)
    ensures
        match r {
            Some(fns) => parsed_fns_of(src@) == Some(fns.deep_view()),
            None => parsed_fns_of(src@) is None,
        },
{
    let file = syn::parse_file(src).ok()?;
    Some(file.items.iter().filter_map(item_record).collect())
}

/// Relies on syn::Item and syn::Ident::to_string: a top-level function
/// becomes one record — its name, its attributes, its arguments — and any
/// other item becomes nothing; variants told apart, fields moved.
#[verifier::external_body]
fn item_record(item: &syn::Item) -> Option<SourceFn> {
    match item {
        syn::Item::Fn(f) => Some(
            SourceFn {
                name: f.sig.ident.to_string(),
                attrs: f.attrs.iter().map(attr_shape).collect(),
                args: f.sig.inputs.iter().map(arg_shape).collect(),
            },
        ),
        _ => None,
    }
}

/// Relies on syn::Attribute::parse_meta: the attribute's structured shape;
/// a list keeps its path identifier (or none) and its items.
#[verifier::external_body]
fn attr_shape(attr: &syn::Attribute) -> AttrShape {
    match attr.parse_meta() {
        Err(_) => AttrShape::Opaque,
        Ok(syn::Meta::Path(_)) => AttrShape::Word,
        Ok(syn::Meta::NameValue(_)) => AttrShape::Pair,
        Ok(syn::Meta::List(list)) => AttrShape::List(
            list.path.get_ident().map(|i| i.to_string()),
            list.nested.iter().map(nested_item).collect(),
        ),
    }
}

/// Relies on syn::NestedMeta: one list item as a plain word, a
/// name-to-integer pair, or an opaque leftover.
#[verifier::external_body]
fn nested_item(nested: &syn::NestedMeta) -> MetaItem {
    match nested {
        syn::NestedMeta::Meta(syn::Meta::Path(p)) => match p.get_ident() {
            Some(ident) => MetaItem::Word(ident.to_string()),
            None => MetaItem::Other,
        },
        syn::NestedMeta::Meta(syn::Meta::NameValue(nv)) => match (&nv.path.get_ident(), &nv.lit) {
            (Some(ident), syn::Lit::Int(lit)) => match lit.base10_parse::<u32>() {
                Ok(value) => MetaItem::IntPair(ident.to_string(), value),
                Err(_) => MetaItem::Other,
            },
            _ => MetaItem::Other,
        },
        _ => MetaItem::Other,
    }
}

/// Relies on syn::Type: the single identifier of a path type, also behind
/// one reference; anything else has none.
#[verifier::external_body]
fn type_ident_of(ty: &syn::Type) -> Option<String> {
    match ty {
        syn::Type::Path(tp) => tp.path.get_ident().map(|i| i.to_string()),
        syn::Type::Reference(r) => match &*r.elem {
            syn::Type::Path(tp) => tp.path.get_ident().map(|i| i.to_string()),
            _ => None,
        },
        _ => None,
    }
}

/// Relies on syn::FnArg: one argument's pattern identifier, single type
/// identifier if it has one, by-value flag, and attributes.
#[verifier::external_body]
fn arg_shape(arg: &syn::FnArg) -> ArgShape {
    let empty = String::new();
    let pt = match arg {
        syn::FnArg::Typed(pt) => pt,
        syn::FnArg::Receiver(_) => {
            return ArgShape { name: empty, type_ident: None, by_value: false, attrs: Vec::new() };
        },
    };
    ArgShape {
        name: match &*pt.pat { syn::Pat::Ident(p) => p.ident.to_string(), _ => empty },
        type_ident: type_ident_of(&pt.ty),
        by_value: !matches!(&*pt.ty, syn::Type::Reference(_)),
        attrs: pt.attrs.iter().map(attr_shape).collect(),
    }
}

} // verus!
