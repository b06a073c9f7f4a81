//! The definition of an enum with a variant for each event type.

use crate::deserialize::{serialize_attrs, serialize_attrs_new};
use crate::event_type::{events_of, Event, NamedEvent};
use crate::ident::Ident;
use crate::token::{
    append, braces, brackets, concat, concat_new, copy, doc_attribute, doc_attribute_new,
    lemma_concat_next, name, parens, put_braces, put_brackets, put_name, put_parens, quote,
    quote_new, quoted, tokens_of, tokens_of_each, Token,
};
use crate::variant::{variant_tokens, variants_of, EventEnumVariant, Variant};
use proc_macro2::{Span, TokenStream};
use vstd::prelude::*;

verus! {

broadcast use crate::template::law_templates_consist_of_tokens;

/// The smaller of two numbers.
pub open spec fn least(a: nat, b: nat) -> nat {
    if a < b {
        a
    } else {
        b
    }
}

/// Gives the smaller of two numbers.
pub(crate) fn smaller(a: usize, b: usize) -> (r: usize)
    ensures
        r == least(a as nat, b as nat),
{
    if a < b {
        a
    } else {
        b
    }
}

/// The definition of an enum that holds `body` and carries the attributes `attrs`.
pub open spec fn enum_item(
    attrs: Seq<Seq<Token>>,
    ident: (Seq<char>, Span),
    body: Seq<Token>,
    import_path: Seq<Token>,
    site: Span,
) -> Seq<Token> {
    concat(attrs)
        + serialize_attrs(import_path, site)
        + quoted("#"@, site)
        + brackets(
            quoted("allow"@, site)
                + parens(quoted("clippy :: large_enum_variant"@, site)),
        )
        + quoted("pub enum"@, site)
        + name(ident)
        + braces(body)
}

pub(crate) fn enum_item_new(
    attrs: &Vec<TokenStream>,
    ident: &Ident,
    body: TokenStream,
    import_path: &TokenStream,
    site: Span,
) -> (r: TokenStream)
    ensures
        tokens_of(r) == enum_item(
            tokens_of_each(attrs@),
            ident@,
            tokens_of(body),
            tokens_of(*import_path),
            site,
        ),
{
    let mut item = concat_new(attrs);
    append(&mut item, &serialize_attrs_new(import_path, site));
    quote(&mut item, "#", site);
    let mut allow = quote_new("allow", site);
    put_parens(&mut allow, quote_new("clippy :: large_enum_variant", site));
    put_brackets(&mut item, allow);
    quote(&mut item, "pub enum", site);
    put_name(&mut item, ident);
    put_braces(&mut item, body);
    item
}

/// The variant for an event type, with `content` as what it holds.
pub open spec fn variant_line(
    event: Event,
    variant: Variant,
    content: Seq<Token>,
    site: Span,
) -> Seq<Token> {
    doc_attribute(event.literal, site)
        + variant_tokens(variant)
        + parens(content)
        + quoted(","@, site)
}

fn variant_line_new(
    event: &NamedEvent,
    variant: &EventEnumVariant,
    content: &TokenStream,
    site: Span,
) -> (r: TokenStream)
    ensures
        tokens_of(r) == variant_line(event.event(), variant@, tokens_of(*content), site),
{
    let mut line = doc_attribute_new(event.literal(), site);
    variant.to_tokens(&mut line);
    put_parens(&mut line, copy(content));
    quote(&mut line, ",", site);
    line
}

/// The variants for the event types, each with what it holds.
pub open spec fn variant_lines(
    events: Seq<Event>,
    variants: Seq<Variant>,
    contents: Seq<Seq<Token>>,
    site: Span,
) -> Seq<Seq<Token>> {
    Seq::new(
        least(events.len(), variants.len()),
        |i: int| variant_line(events[i], variants[i], contents[i], site),
    )
}

pub(crate) fn variant_lines_new(
    events: &[NamedEvent],
    variants: &[EventEnumVariant],
    contents: &Vec<TokenStream>,
    site: Span,
) -> (r: TokenStream)
    requires
        contents@.len() == events@.len(),
    ensures
        tokens_of(r) == concat(variant_lines(
            events_of(events@),
            variants_of(variants@),
            tokens_of_each(contents@),
            site,
        )),
{
    let mut lines = TokenStream::new();
    let n: usize = smaller(events.len(), variants.len());
    let ghost parts = variant_lines(
        events_of(events@),
        variants_of(variants@),
        tokens_of_each(contents@),
        site,
    );
    for i in 0..n
        invariant
            n == parts.len(),
            parts == variant_lines(
                events_of(events@),
                variants_of(variants@),
                tokens_of_each(contents@),
                site,
            ),
            n <= events@.len(),
            n <= variants@.len(),
            contents@.len() == events@.len(),
            tokens_of(lines) == concat(parts.take(i as int)),
    {
        assert(parts[i as int] == variant_line(
            events@[i as int].event(),
            variants@[i as int]@,
            tokens_of(contents@[i as int]),
            site,
        ));
        append(&mut lines, &variant_line_new(&events[i], &variants[i], &contents[i], site));
        proof {
            lemma_concat_next(parts, i as int);
        }
    }
    assert(parts.take(n as int) =~= parts);
    lines
}

} // verus!
