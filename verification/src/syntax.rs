//! What is taken from `syn`, `quote` and `proc_macro2`: the reading of Rust
//! source text. Nothing in this file is proved, and nothing is claimed of what
//! is read: no function here has a contract.
use vstd::prelude::*;
use quote::ToTokens;
use crate::directive::Directives;

verus! {

/// `syn::DeriveInput`, a parsed struct, enum or union definition.
#[verifier::external_type_specification]
#[verifier::external_body]
pub struct ExDeriveInput(syn::DeriveInput);

/// `syn::Field`, one parsed field of a definition.
#[verifier::external_type_specification]
#[verifier::external_body]
pub struct ExField(syn::Field);

/// `syn::Attribute`, one parsed attribute.
#[verifier::external_type_specification]
#[verifier::external_body]
pub struct ExAttribute(syn::Attribute);

/// `syn::meta::ParseNestedMeta`, the place in an attribute's argument list at
/// which one entry's key has been read.
#[verifier::external_type_specification]
#[verifier::external_body]
pub struct ExParseNestedMeta<'a>(syn::meta::ParseNestedMeta<'a>);

/// `syn::Error`, the failure of a parse.
#[verifier::external_type_specification]
#[verifier::external_body]
pub struct ExError(syn::Error);

/// `syn::parse_str::<syn::Type>`, printed with `ToTokens::to_token_stream` and
/// `TokenStream::to_string`: the tokens of `text` where it reads as a type.
/// Nothing is claimed of the outcome: which lexer reads and which printer
/// prints depends on whether the process is a procedural macro.
#[verifier::external_body]
pub(crate) fn parse_type(text: &str) -> Result<String, syn::Error> {
    syn::parse_str::<syn::Type>(text).map(|ty| ty.to_token_stream().to_string())
}

/// `syn::parse_str::<syn::ExprPath>`, printed with `ToTokens::to_token_stream`
/// and `TokenStream::to_string`: the tokens of `text` where it reads as a path
/// expression. Nothing is claimed of the outcome, as for [`parse_type`].
#[verifier::external_body]
pub(crate) fn parse_path(text: &str) -> Result<String, syn::Error> {
    syn::parse_str::<syn::ExprPath>(text).map(|path| path.to_token_stream().to_string())
}

/// `syn::parse_str::<syn::DeriveInput>`. Nothing is claimed of the outcome.
#[verifier::external_body]
pub(crate) fn parse_input(source: &str) -> Result<syn::DeriveInput, syn::Error> {
    syn::parse_str::<syn::DeriveInput>(source)
}

/// The field `ident` of a `syn::DeriveInput`, through `Ident::to_string`.
#[verifier::external_body]
pub(crate) fn input_ident(input: &syn::DeriveInput) -> String {
    input.ident.to_string()
}

/// The named fields of a `syn::DeriveInput` whose `data` is a struct with
/// named fields, in the order of `Punctuated::iter`; `None` for any other.
#[verifier::external_body]
pub(crate) fn named_fields(input: &syn::DeriveInput) -> Option<Vec<syn::Field>> {
    match &input.data {
        syn::Data::Struct(syn::DataStruct { fields: syn::Fields::Named(fields), .. }) => Some(
            fields.named.iter().cloned().collect(),
        ),
        _ => None,
    }
}

/// The field `ident` of a `syn::Field`, through `Ident::to_string`.
#[verifier::external_body]
pub(crate) fn field_ident(field: &syn::Field) -> Option<String> {
    field.ident.as_ref().map(|ident| ident.to_string())
}

/// The field `ty` of a `syn::Field`, printed with `ToTokens::to_token_stream`
/// and `TokenStream::to_string`.
#[verifier::external_body]
pub(crate) fn field_type(field: &syn::Field) -> String {
    field.ty.to_token_stream().to_string()
}

/// A copy of the field `attrs` of a `syn::Field`.
#[verifier::external_body]
pub(crate) fn field_attrs(field: &syn::Field) -> Vec<syn::Attribute> {
    field.attrs.clone()
}

/// `syn::Attribute::path` and `syn::Path::get_ident`: the attribute's name
/// where it is a single identifier.
#[verifier::external_body]
pub(crate) fn attr_ident(attr: &syn::Attribute) -> Option<String> {
    attr.path().get_ident().map(|ident| ident.to_string())
}

/// `syn::Attribute::parse_nested_meta`, which hands each entry of the
/// attribute's argument list to [`Directives::record`] and stops at the first
/// failure. Nothing is claimed of the outcome.
#[verifier::external_body]
pub(crate) fn parse_nested(attr: &syn::Attribute, directives: &mut Directives) -> Result<
    (),
    syn::Error,
> {
    attr.parse_nested_meta(|meta| directives.record(meta))
}

/// The field `path` of a `syn::meta::ParseNestedMeta`, through
/// `syn::Path::get_ident`: the entry's key where it is a single identifier.
#[verifier::external_body]
pub(crate) fn meta_key(meta: &syn::meta::ParseNestedMeta) -> Option<String> {
    meta.path.get_ident().map(|ident| ident.to_string())
}

/// `syn::meta::ParseNestedMeta::value`: reads the `=` behind the key.
#[verifier::external_body]
pub(crate) fn meta_value(meta: &syn::meta::ParseNestedMeta) -> Result<(), syn::Error> {
    meta.value().map(|_| ())
}

/// `syn::parse::ParseBuffer::parse::<syn::LitStr>` on the entry's input, and
/// `syn::LitStr::value`: reads a string literal and gives what it denotes.
#[verifier::external_body]
pub(crate) fn meta_string(meta: &syn::meta::ParseNestedMeta) -> Result<String, syn::Error> {
    meta.input.parse::<syn::LitStr>().map(|literal| literal.value())
}

/// `syn::Error`'s `Display`, through `to_string`: the first message of the failure.
#[verifier::external_body]
pub(crate) fn error_message(error: &syn::Error) -> String {
    error.to_string()
}

} // verus!
