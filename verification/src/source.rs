//! Reading the `#[gleam_nif]` functions out of the text of a Rust source file: `syn`
//! parses the text, and its items are described in the library's own terms
//! ([`crate::codegen::SourceItem`]), which the verified reading works on.
use vstd::prelude::*;

use quote::ToTokens;

use crate::codegen::{
    self, AttrMeta, GenericArg, ItemFn, NestedMeta, NifFunc, ParamPat, PathArguments, RustType,
    nif_funcs_of, nif_items_ok, nif_items_supported, parse_nif_functions,
};

verus! {

#[verifier::external_type_specification]
#[verifier::external_body]
pub struct ExSynItem(syn::Item);

#[verifier::external_type_specification]
#[verifier::external_body]
pub struct ExSynFnArg(syn::FnArg);

#[verifier::external_type_specification]
#[verifier::external_body]
pub struct ExSynType(syn::Type);

#[verifier::external_type_specification]
#[verifier::external_body]
pub struct ExSynPathSegment(syn::PathSegment);

#[verifier::external_type_specification]
#[verifier::external_body]
pub struct ExSynGenericArgument(syn::GenericArgument);

#[verifier::external_type_specification]
#[verifier::external_body]
pub struct ExSynAttribute(syn::Attribute);

#[verifier::external_type_specification]
#[verifier::external_body]
pub struct ExSynMeta(syn::Meta);

#[verifier::external_type_specification]
#[verifier::external_body]
pub struct ExSynExpr(syn::Expr);

/// The items that `syn::parse_file` reads from a source text, each described as
/// [`SourceItem`]; `None` where the text is not a Rust source file.
pub uninterp spec fn parsed_items(source: Seq<char>) -> Option<Seq<codegen::SourceItem>>;

/// Parses a source text with `syn::parse_file` and describes its items. `syn` fails
/// exactly on text that is not a Rust file; what it reads from a text is named
/// `parsed_items` and not spelled out.
#[verifier::external_body]
fn parse_source(source: &str) -> (r: Option<Vec<codegen::SourceItem>>)
    ensures
        r is None <==> parsed_items(source@) is None,
        r matches Some(v) ==> Some(v@) == parsed_items(source@),
{
    syn::parse_file(source).ok().map(|f| f.items.iter().map(syn_item).collect())
}

/// Describes a `syn` item: a function by its signature and attributes, anything else as
/// `SourceItem::Other`. One arm per variant of `syn::Item` that the reading tells apart.
#[verifier::external_body]
fn syn_item(item: &syn::Item) -> codegen::SourceItem {
    match item {
        syn::Item::Fn(f) => codegen::SourceItem::Fn(ItemFn {
            attrs: f.attrs.iter().map(syn_attribute).collect(),
            ident: f.sig.ident.to_string(),
            inputs: f.sig.inputs.iter().map(syn_fn_arg).collect(),
            output: match &f.sig.output {
                syn::ReturnType::Default => None,
                syn::ReturnType::Type(_, ty) => Some(syn_type(ty)),
            },
        }),
        _ => codegen::SourceItem::Other,
    }
}

/// Describes a parameter of a `syn` function signature.
#[verifier::external_body]
fn syn_fn_arg(arg: &syn::FnArg) -> codegen::FnParam {
    match arg {
        syn::FnArg::Receiver(_) => codegen::FnParam::Receiver,
        syn::FnArg::Typed(pt) => codegen::FnParam::Typed {
            pat: match pt.pat.as_ref() {
                syn::Pat::Ident(i) => ParamPat::Ident(i.ident.to_string()),
                _ => ParamPat::Other,
            },
            ty: syn_type(&pt.ty),
        },
    }
}

/// Describes a `syn` type; a kind of type that the reading does not tell apart keeps its
/// tokens as text.
#[verifier::external_body]
fn syn_type(ty: &syn::Type) -> RustType {
    match ty {
        syn::Type::Path(tp) => RustType::Path(tp.path.segments.iter().map(syn_path_segment).collect()),
        syn::Type::Reference(r) => RustType::Reference(Box::new(syn_type(&r.elem))),
        syn::Type::Tuple(t) => RustType::Tuple(t.elems.iter().map(syn_type).collect()),
        syn::Type::Slice(s) => RustType::Slice(Box::new(syn_type(&s.elem))),
        syn::Type::Array(a) => RustType::Array(Box::new(syn_type(&a.elem))),
        other => RustType::Other(other.to_token_stream().to_string()),
    }
}

/// Describes one segment of a `syn` type path.
#[verifier::external_body]
fn syn_path_segment(seg: &syn::PathSegment) -> codegen::TypeSegment {
    codegen::TypeSegment {
        ident: seg.ident.to_string(),
        arguments: match &seg.arguments {
            syn::PathArguments::None => PathArguments::Plain,
            syn::PathArguments::AngleBracketed(a) => PathArguments::AngleBracketed(
                a.args.iter().map(syn_generic_argument).collect(),
            ),
            syn::PathArguments::Parenthesized(_) => PathArguments::Parenthesized,
        },
    }
}

/// Describes a generic argument of a `syn` path segment.
#[verifier::external_body]
fn syn_generic_argument(arg: &syn::GenericArgument) -> GenericArg {
    match arg {
        syn::GenericArgument::Type(t) => GenericArg::Type(syn_type(t)),
        syn::GenericArgument::Lifetime(l) => GenericArg::Lifetime(l.to_string()),
        _ => GenericArg::Other,
    }
}

/// The string of a string literal expression.
#[verifier::external_body]
fn syn_string_literal(expr: &syn::Expr) -> Option<String> {
    match expr {
        syn::Expr::Lit(syn::ExprLit { lit: syn::Lit::Str(s), .. }) => Some(s.value()),
        _ => None,
    }
}

/// Describes an item of an attribute's argument list.
#[verifier::external_body]
fn syn_meta(meta: &syn::Meta) -> NestedMeta {
    NestedMeta {
        ident: meta.path().get_ident().map(|i| i.to_string()),
        str_value: match meta {
            syn::Meta::NameValue(nv) => syn_string_literal(&nv.value),
            _ => None,
        },
        is_name_value: matches!(meta, syn::Meta::NameValue(_)),
    }
}

/// Describes an attribute; a list's arguments are read as comma-separated items.
#[verifier::external_body]
fn syn_attribute(attr: &syn::Attribute) -> codegen::Attr {
    let parser = syn::punctuated::Punctuated::<syn::Meta, syn::token::Comma>::parse_terminated;
    codegen::Attr {
        ident: attr.path().get_ident().map(|i| i.to_string()),
        meta: match &attr.meta {
            syn::Meta::Path(_) => AttrMeta::Path,
            syn::Meta::List(list) => AttrMeta::List(
                list.parse_args_with(parser).ok().map(|metas| metas.iter().map(syn_meta).collect()),
            ),
            syn::Meta::NameValue(nv) => AttrMeta::NameValue(syn_string_literal(&nv.value)),
        },
    }
}

/// Why the functions of a source text could not be read.
#[derive(Debug, Clone, Copy, PartialEq, Eq, Structural)]
pub enum CodegenError {
    /// The text is not a Rust source file.
    Unparsable,
    /// A `#[gleam_nif]` signature holds a type that Gleam has no counterpart for (a bare
    /// `Atom`).
    UnsupportedType,
}

/// The `#[gleam_nif]` functions of a source text, in order. Text that `syn` cannot parse
/// is `Unparsable`; a `#[gleam_nif]` signature with a type that has no Gleam counterpart is
/// `UnsupportedType`.
pub fn nif_functions_in(source: &str) -> (r: Result<Vec<NifFunc>, CodegenError>)
    ensures
        parsed_items(source@) is None ==> r == Err::<Vec<NifFunc>, CodegenError>(CodegenError::Unparsable),
        parsed_items(source@) matches Some(items) ==> (if nif_items_ok(items) {
            r matches Ok(v) && v@.map_values(|f: NifFunc| f@) == nif_funcs_of(items)
        } else {
            r == Err::<Vec<NifFunc>, CodegenError>(CodegenError::UnsupportedType)
        }),
{
    let items = match parse_source(source) {
        Some(items) => items,
        None => return Err(CodegenError::Unparsable),
    };
    if !nif_items_supported(&items) {
        return Err(CodegenError::UnsupportedType);
    }
    Ok(parse_nif_functions(&items))
}

} // verus!
