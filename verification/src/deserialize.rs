//! Pieces of generated code that serialize and deserialize.

use crate::ident::Ident;
use crate::token::{
    append, braces, brackets, copy, is_template, name, parens, put_braces, put_brackets, put_name,
    put_parens, quote, quote_new, quoted, tokens_of, Token,
};
use proc_macro2::{Span, TokenStream};
use vstd::prelude::*;

verus! {

broadcast use crate::template::law_templates_consist_of_tokens;

/// The attributes of an enum that is written as whatever it holds.
pub open spec fn serialize_attrs(import_path: Seq<Token>, site: Span) -> Seq<Token> {
    quoted("#"@, site)
        + brackets(
            quoted("derive"@, site)
                + parens(
                    quoted("Clone , Debug ,"@, site)
                        + import_path
                        + quoted(":: exports :: serde :: Serialize"@, site),
                ),
        )
        + quoted("#"@, site)
        + brackets(quoted("serde"@, site) + parens(quoted("untagged"@, site)))
}

pub(crate) fn serialize_attrs_new(import_path: &TokenStream, site: Span) -> (r: TokenStream)
    ensures
        tokens_of(r) == serialize_attrs(tokens_of(*import_path), site),
{
    let mut attrs = quote_new("#", site);
    let mut derive = quote_new("derive", site);
    let mut derives = quote_new("Clone , Debug ,", site);
    append(&mut derives, import_path);
    quote(&mut derives, ":: exports :: serde :: Serialize", site);
    put_parens(&mut derive, derives);
    put_brackets(&mut attrs, derive);
    quote(&mut attrs, "#", site);
    let mut untagged = quote_new("serde", site);
    put_parens(&mut untagged, quote_new("untagged", site));
    put_brackets(&mut attrs, untagged);
    attrs
}

/// The statement that takes the JSON text of an event from the deserializer.
pub open spec fn take_json(import_path: Seq<Token>, site: Span) -> Seq<Token> {
    quoted("let json = Box :: <"@, site)
        + import_path
        + quoted(":: exports :: serde_json :: value :: RawValue > :: deserialize"@, site)
        + parens(quoted("deserializer"@, site))
        + quoted("? ;"@, site)
}

pub(crate) fn take_json_new(import_path: &TokenStream, site: Span) -> (r: TokenStream)
    ensures
        tokens_of(r) == take_json(tokens_of(*import_path), site),
{
    let mut tokens = quote_new("let json = Box :: <", site);
    append(&mut tokens, import_path);
    quote(&mut tokens, ":: exports :: serde_json :: value :: RawValue > :: deserialize", site);
    put_parens(&mut tokens, quote_new("deserializer", site));
    quote(&mut tokens, "? ;", site);
    tokens
}

/// The expression that reads a value from the JSON text, whatever type is expected.
pub open spec fn read_json(import_path: Seq<Token>, site: Span) -> Seq<Token> {
    import_path
        + quoted(":: from_raw_json_value"@, site)
        + parens(quoted("& json"@, site))
        + quoted("?"@, site)
}

pub(crate) fn read_json_new(import_path: &TokenStream, site: Span) -> (r: TokenStream)
    ensures
        tokens_of(r) == read_json(tokens_of(*import_path), site),
{
    let mut tokens = copy(import_path);
    quote(&mut tokens, ":: from_raw_json_value", site);
    put_parens(&mut tokens, quote_new("& json", site));
    quote(&mut tokens, "?", site);
    tokens
}

/// The statement that reads one field of an event from its JSON text.
pub open spec fn read_helper(field: Seq<char>, import_path: Seq<Token>, site: Span) -> Seq<Token> {
    quoted("let"@, site)
        + import_path
        + quoted(":: EventDeHelper"@, site)
        + braces(quoted(field, site) + quoted(", .."@, site))
        + quoted("="@, site)
        + read_json(import_path, site)
        + quoted(";"@, site)
}

pub(crate) fn read_helper_new(
    field: &str,
    import_path: &TokenStream,
    site: Span,
) -> (r: TokenStream)
    requires
        is_template(field@),
    ensures
        tokens_of(r) == read_helper(field@, tokens_of(*import_path), site),
{
    let mut tokens = quote_new("let", site);
    append(&mut tokens, import_path);
    quote(&mut tokens, ":: EventDeHelper", site);
    let mut pattern = quote_new(field, site);
    quote(&mut pattern, ", ..", site);
    put_braces(&mut tokens, pattern);
    quote(&mut tokens, "=", site);
    append(&mut tokens, &read_json_new(import_path, site));
    quote(&mut tokens, ";", site);
    tokens
}

/// The statement that reads an event of the type `event` from the JSON text.
pub open spec fn read_event(event: Seq<Token>, import_path: Seq<Token>, site: Span) -> Seq<Token> {
    quoted("let event ="@, site)
        + import_path
        + quoted(":: exports :: serde_json :: from_str :: <"@, site)
        + event
        + quoted(">"@, site)
        + parens(quoted("json . get"@, site) + parens(Seq::empty()))
        + quoted(". map_err"@, site)
        + parens(quoted("D :: Error :: custom"@, site))
        + quoted("? ;"@, site)
}

pub(crate) fn read_event_new(
    event: &TokenStream,
    import_path: &TokenStream,
    site: Span,
) -> (r: TokenStream)
    ensures
        tokens_of(r) == read_event(tokens_of(*event), tokens_of(*import_path), site),
{
    let mut tokens = quote_new("let event =", site);
    append(&mut tokens, import_path);
    quote(&mut tokens, ":: exports :: serde_json :: from_str :: <", site);
    append(&mut tokens, event);
    quote(&mut tokens, ">", site);
    let mut json = quote_new("json . get", site);
    put_parens(&mut json, TokenStream::new());
    put_parens(&mut tokens, json);
    quote(&mut tokens, ". map_err", site);
    put_parens(&mut tokens, quote_new("D :: Error :: custom", site));
    quote(&mut tokens, "? ;", site);
    tokens
}

/// The implementation of `Deserialize` for an enum, with `body` as the body of its function.
pub open spec fn deserialize_impl(
    ident: (Seq<char>, Span),
    body: Seq<Token>,
    import_path: Seq<Token>,
    site: Span,
) -> Seq<Token> {
    quoted("impl < ' de >"@, site)
        + import_path
        + quoted(":: exports :: serde :: de :: Deserialize < ' de > for"@, site)
        + name(ident)
        + braces(
            quoted("fn deserialize < D >"@, site)
                + parens(quoted("deserializer : D"@, site))
                + quoted("-> Result < Self , D :: Error > where D :"@, site)
                + import_path
                + quoted(":: exports :: serde :: de :: Deserializer < ' de > ,"@, site)
                + braces(body),
        )
}

pub(crate) fn deserialize_impl_new(
    ident: &Ident,
    body: TokenStream,
    import_path: &TokenStream,
    site: Span,
) -> (r: TokenStream)
    ensures
        tokens_of(r) == deserialize_impl(ident@, tokens_of(body), tokens_of(*import_path), site),
{
    let mut tokens = quote_new("impl < ' de >", site);
    append(&mut tokens, import_path);
    quote(&mut tokens, ":: exports :: serde :: de :: Deserialize < ' de > for", site);
    put_name(&mut tokens, ident);
    let mut function = quote_new("fn deserialize < D >", site);
    put_parens(&mut function, quote_new("deserializer : D", site));
    quote(&mut function, "-> Result < Self , D :: Error > where D :", site);
    append(&mut function, import_path);
    quote(&mut function, ":: exports :: serde :: de :: Deserializer < ' de > ,", site);
    put_braces(&mut function, body);
    put_braces(&mut tokens, function);
    tokens
}

} // verus!
