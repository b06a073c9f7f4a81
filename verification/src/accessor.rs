//! The methods of event enums.

use crate::field::{
    all_fields, event_fields, has_prev_content_field, prev_content_field, EventField,
};
use crate::ident::Ident;
use crate::kind::{EventKind, EventKindVariation};
use crate::token::{
    append, braces, concat, copy, doc_comment, doc_comment_new, lemma_concat_next, name, parens,
    put_braces, put_name, put_parens, quote, quote_new, quoted, tokens_in, tokens_of, Token,
};
use crate::variant::{variant_tokens, variants_of, EventEnumVariant, Variant};
use proc_macro2::{Span, TokenStream};
use vstd::prelude::*;

verus! {

broadcast use crate::template::law_templates_consist_of_tokens;

/// The type of what an accessor of a field refers to.
pub open spec fn field_type(
    field: EventField,
    var: EventKindVariation,
    import_path: Seq<Token>,
    site: Span,
) -> Seq<Token> {
    match field {
        EventField::OriginServerTs => quoted(":: std :: time :: SystemTime"@, site),
        EventField::RoomId => import_path + quoted(
            ":: exports :: ruma_identifiers :: RoomId"@,
            site,
        ),
        EventField::EventId => import_path + quoted(
            ":: exports :: ruma_identifiers :: EventId"@,
            site,
        ),
        EventField::Sender => import_path + quoted(
            ":: exports :: ruma_identifiers :: UserId"@,
            site,
        ),
        EventField::StateKey => quoted("str"@, site),
        EventField::Unsigned => import_path + match var {
            EventKindVariation::RedactedSync => quoted(":: RedactedSyncUnsigned"@, site),
            EventKindVariation::Redacted => quoted(":: RedactedUnsigned"@, site),
            _ => quoted(":: Unsigned"@, site),
        },
    }
}

/// Gives the type of what an accessor of a field refers to.
pub fn field_return_type(
    field: EventField,
    var: &EventKindVariation,
    import_path: &TokenStream,
    site: Span,
) -> (r: TokenStream)
    ensures
        tokens_of(r) == field_type(field, *var, tokens_of(*import_path), site),
{
    let mut path = copy(import_path);
    match field {
        EventField::OriginServerTs => {
            return quote_new(":: std :: time :: SystemTime", site);
        },
        EventField::RoomId => quote(&mut path, ":: exports :: ruma_identifiers :: RoomId", site),
        EventField::EventId => quote(&mut path, ":: exports :: ruma_identifiers :: EventId", site),
        EventField::Sender => quote(&mut path, ":: exports :: ruma_identifiers :: UserId", site),
        EventField::StateKey => {
            return quote_new("str", site);
        },
        EventField::Unsigned => match var {
            EventKindVariation::RedactedSync => quote(&mut path, ":: RedactedSyncUnsigned", site),
            EventKindVariation::Redacted => quote(&mut path, ":: RedactedUnsigned", site),
            _ => quote(&mut path, ":: Unsigned", site),
        },
    }
    path
}

/// The arm that refers to a field of the event of a variant.
pub open spec fn field_arm(variant: Variant, field: (Seq<char>, Span), site: Span) -> Seq<Token> {
    quoted("Self ::"@, site)
        + variant_tokens(variant)
        + parens(quoted("event"@, site))
        + quoted("=> & event ."@, site)
        + name(field)
        + quoted(","@, site)
}

fn field_arm_new(variant: &EventEnumVariant, field: &Ident, site: Span) -> (r: TokenStream)
    ensures
        tokens_of(r) == field_arm(variant@, field@, site),
{
    let mut arm = quote_new("Self ::", site);
    variant.to_tokens(&mut arm);
    put_parens(&mut arm, quote_new("event", site));
    quote(&mut arm, "=> & event .", site);
    put_name(&mut arm, field);
    quote(&mut arm, ",", site);
    arm
}

/// The arms that refer to a field of the events of the variants.
pub open spec fn field_arms(
    variants: Seq<Variant>,
    field: (Seq<char>, Span),
    site: Span,
) -> Seq<Seq<Token>> {
    Seq::new(variants.len(), |i: int| field_arm(variants[i], field, site))
}

fn field_arms_new(variants: &[EventEnumVariant], field: &Ident, site: Span) -> (r: TokenStream)
    ensures
        tokens_of(r) == concat(field_arms(variants_of(variants@), field@, site)),
{
    let mut arms = TokenStream::new();
    let n: usize = variants.len();
    let ghost parts = field_arms(variants_of(variants@), field@, site);
    for i in 0..n
        invariant
            n == parts.len(),
            parts == field_arms(variants_of(variants@), field@, site),
            n == variants@.len(),
            tokens_of(arms) == concat(parts.take(i as int)),
    {
        append(&mut arms, &field_arm_new(&variants[i], field, site));
        proof {
            lemma_concat_next(parts, i as int);
        }
    }
    assert(parts.take(n as int) =~= parts);
    arms
}

/// The method that refers to a field of whatever event an enum holds. There is none for a field
/// that the events lack.
pub open spec fn accessor(
    field: EventField,
    kind: EventKind,
    var: EventKindVariation,
    variants: Seq<Variant>,
    import_path: Seq<Token>,
    site: Span,
) -> Seq<Token> {
    if field.occurs(kind, var) {
        doc_comment("Returns this events "@ + field.name() + " field."@, site)
            + quoted("pub fn"@, site)
            + name((field.name(), site))
            + parens(quoted("& self"@, site))
            + quoted("-> &"@, site)
            + field_type(field, var, import_path, site)
            + braces(
                quoted("match self"@, site)
                    + braces(
                        concat(field_arms(variants, (field.name(), site), site))
                            + quoted("Self :: Custom"@, site)
                            + parens(quoted("event"@, site))
                            + quoted("=> & event ."@, site)
                            + name((field.name(), site))
                            + quoted(","@, site),
                    ),
            )
    } else {
        Seq::empty()
    }
}

/// Writes the method that refers to a field of whatever event an enum holds.
pub fn generate_accessor(
    field: EventField,
    kind: &EventKind,
    var: &EventKindVariation,
    variants: &[EventEnumVariant],
    import_path: &TokenStream,
    site: Span,
) -> (r: TokenStream)
    ensures
        tokens_of(r) == accessor(
            field,
            *kind,
            *var,
            variants_of(variants@),
            tokens_of(*import_path),
            site,
        ),
{
    if !field.is_field_of(kind, var) {
        return TokenStream::new();
    }
    let ident = field.to_ident(site);
    let mut docs = "Returns this events ".to_owned();
    docs.append(field.to_str());
    docs.append(" field.");
    let mut method = doc_comment_new(docs.as_str(), site);
    quote(&mut method, "pub fn", site);
    put_name(&mut method, &ident);
    put_parens(&mut method, quote_new("& self", site));
    quote(&mut method, "-> &", site);
    append(&mut method, &field_return_type(field, var, import_path, site));
    let mut body = quote_new("match self", site);
    let mut arms = field_arms_new(variants, &ident, site);
    quote(&mut arms, "Self :: Custom", site);
    put_parens(&mut arms, quote_new("event", site));
    quote(&mut arms, "=> & event .", site);
    put_name(&mut arms, &ident);
    quote(&mut arms, ",", site);
    put_braces(&mut body, arms);
    put_braces(&mut method, body);
    method
}

/// The accessors of all fields.
pub open spec fn accessors(
    kind: EventKind,
    var: EventKindVariation,
    variants: Seq<Variant>,
    import_path: Seq<Token>,
    site: Span,
) -> Seq<Seq<Token>> {
    Seq::new(
        all_fields().len(),
        |i: int| accessor(all_fields()[i], kind, var, variants, import_path, site),
    )
}

fn accessors_new(
    kind: &EventKind,
    var: &EventKindVariation,
    variants: &[EventEnumVariant],
    import_path: &TokenStream,
    site: Span,
) -> (r: TokenStream)
    ensures
        tokens_of(r) == concat(accessors(
            *kind,
            *var,
            variants_of(variants@),
            tokens_of(*import_path),
            site,
        )),
{
    let mut methods = TokenStream::new();
    let list = event_fields();
    let n: usize = list.len();
    let ghost parts = accessors(*kind, *var, variants_of(variants@), tokens_of(*import_path), site);
    for i in 0..n
        invariant
            n == parts.len(),
            parts == accessors(*kind, *var, variants_of(variants@), tokens_of(*import_path), site),
            list@ == all_fields(),
            tokens_of(methods) == concat(parts.take(i as int)),
    {
        let method = generate_accessor(list[i], kind, var, variants, import_path, site);
        append(&mut methods, &method);
        proof {
            lemma_concat_next(parts, i as int);
        }
    }
    assert(parts.take(n as int) =~= parts);
    methods
}

/// The arm that copies the content of a variant into the content enum.
pub open spec fn content_arm(
    variant: Variant,
    content_enum: (Seq<char>, Span),
    site: Span,
) -> Seq<Token> {
    quoted("Self ::"@, site)
        + variant_tokens(variant)
        + parens(quoted("event"@, site))
        + quoted("=>"@, site)
        + name(content_enum)
        + quoted("::"@, site)
        + variant_tokens(variant)
        + parens(quoted("event . content . clone"@, site) + parens(Seq::empty()))
        + quoted(","@, site)
}

fn content_arm_new(variant: &EventEnumVariant, content_enum: &Ident, site: Span) -> (r: TokenStream)
    ensures
        tokens_of(r) == content_arm(variant@, content_enum@, site),
{
    let mut arm = quote_new("Self ::", site);
    variant.to_tokens(&mut arm);
    put_parens(&mut arm, quote_new("event", site));
    quote(&mut arm, "=>", site);
    put_name(&mut arm, content_enum);
    quote(&mut arm, "::", site);
    variant.to_tokens(&mut arm);
    let mut value = quote_new("event . content . clone", site);
    put_parens(&mut value, TokenStream::new());
    put_parens(&mut arm, value);
    quote(&mut arm, ",", site);
    arm
}

/// The arms that copy the contents of the variants into the content enum.
pub open spec fn content_arms(
    variants: Seq<Variant>,
    content_enum: (Seq<char>, Span),
    site: Span,
) -> Seq<Seq<Token>> {
    Seq::new(variants.len(), |i: int| content_arm(variants[i], content_enum, site))
}

fn content_arms_new(
    variants: &[EventEnumVariant],
    content_enum: &Ident,
    site: Span,
) -> (r: TokenStream)
    ensures
        tokens_of(r) == concat(content_arms(variants_of(variants@), content_enum@, site)),
{
    let mut arms = TokenStream::new();
    let n: usize = variants.len();
    let ghost parts = content_arms(variants_of(variants@), content_enum@, site);
    for i in 0..n
        invariant
            n == parts.len(),
            parts == content_arms(variants_of(variants@), content_enum@, site),
            n == variants@.len(),
            tokens_of(arms) == concat(parts.take(i as int)),
    {
        append(&mut arms, &content_arm_new(&variants[i], content_enum, site));
        proof {
            lemma_concat_next(parts, i as int);
        }
    }
    assert(parts.take(n as int) =~= parts);
    arms
}

/// The method that copies the content of whatever event an enum holds.
pub open spec fn content_method(
    variants: Seq<Variant>,
    content_enum: (Seq<char>, Span),
    site: Span,
) -> Seq<Token> {
    doc_comment(" Returns the any content enum for this event."@, site)
        + quoted("pub fn content"@, site)
        + parens(quoted("& self"@, site))
        + quoted("->"@, site)
        + name(content_enum)
        + braces(
            quoted("match self"@, site)
                + braces(
                    concat(content_arms(variants, content_enum, site))
                        + quoted("Self :: Custom"@, site)
                        + parens(quoted("event"@, site))
                        + quoted("=>"@, site)
                        + name(content_enum)
                        + quoted(":: Custom"@, site)
                        + parens(
                            quoted("event . content . clone"@, site)
                                + parens(Seq::empty()),
                        )
                        + quoted(","@, site),
                ),
        )
}

fn content_method_new(
    variants: &[EventEnumVariant],
    content_enum: &Ident,
    site: Span,
) -> (r: TokenStream)
    ensures
        tokens_of(r) == content_method(variants_of(variants@), content_enum@, site),
{
    let mut method = doc_comment_new(" Returns the any content enum for this event.", site);
    quote(&mut method, "pub fn content", site);
    put_parens(&mut method, quote_new("& self", site));
    quote(&mut method, "->", site);
    put_name(&mut method, content_enum);
    let mut body = quote_new("match self", site);
    let mut arms = content_arms_new(variants, content_enum, site);
    quote(&mut arms, "Self :: Custom", site);
    put_parens(&mut arms, quote_new("event", site));
    quote(&mut arms, "=>", site);
    put_name(&mut arms, content_enum);
    quote(&mut arms, ":: Custom", site);
    let mut value = quote_new("event . content . clone", site);
    put_parens(&mut value, TokenStream::new());
    put_parens(&mut arms, value);
    quote(&mut arms, ",", site);
    put_braces(&mut body, arms);
    put_braces(&mut method, body);
    method
}

/// The arm that copies the content that the event of a variant replaces.
pub open spec fn prev_content_arm(
    variant: Variant,
    content_enum: (Seq<char>, Span),
    site: Span,
) -> Seq<Token> {
    quoted("Self ::"@, site)
        + variant_tokens(variant)
        + parens(quoted("event"@, site))
        + quoted("=>"@, site)
        + braces(
            quoted("event . prev_content . as_ref"@, site)
                + parens(Seq::empty())
                + quoted(". map"@, site)
                + parens(
                    quoted("| c |"@, site)
                        + name(content_enum)
                        + quoted("::"@, site)
                        + variant_tokens(variant)
                        + parens(quoted("c . clone"@, site) + parens(Seq::empty())),
                ),
        )
        + quoted(","@, site)
}

fn prev_content_arm_new(
    variant: &EventEnumVariant,
    content_enum: &Ident,
    site: Span,
) -> (r: TokenStream)
    ensures
        tokens_of(r) == prev_content_arm(variant@, content_enum@, site),
{
    let mut arm = quote_new("Self ::", site);
    variant.to_tokens(&mut arm);
    put_parens(&mut arm, quote_new("event", site));
    quote(&mut arm, "=>", site);
    let mut value = quote_new("event . prev_content . as_ref", site);
    put_parens(&mut value, TokenStream::new());
    quote(&mut value, ". map", site);
    let mut closure = quote_new("| c |", site);
    put_name(&mut closure, content_enum);
    quote(&mut closure, "::", site);
    variant.to_tokens(&mut closure);
    let mut copied = quote_new("c . clone", site);
    put_parens(&mut copied, TokenStream::new());
    put_parens(&mut closure, copied);
    put_parens(&mut value, closure);
    put_braces(&mut arm, value);
    quote(&mut arm, ",", site);
    arm
}

/// The arms that copy the contents that the events of the variants replace.
pub open spec fn prev_content_arms(
    variants: Seq<Variant>,
    content_enum: (Seq<char>, Span),
    site: Span,
) -> Seq<Seq<Token>> {
    Seq::new(variants.len(), |i: int| prev_content_arm(variants[i], content_enum, site))
}

fn prev_content_arms_new(
    variants: &[EventEnumVariant],
    content_enum: &Ident,
    site: Span,
) -> (r: TokenStream)
    ensures
        tokens_of(r) == concat(prev_content_arms(variants_of(variants@), content_enum@, site)),
{
    let mut arms = TokenStream::new();
    let n: usize = variants.len();
    let ghost parts = prev_content_arms(variants_of(variants@), content_enum@, site);
    for i in 0..n
        invariant
            n == parts.len(),
            parts == prev_content_arms(variants_of(variants@), content_enum@, site),
            n == variants@.len(),
            tokens_of(arms) == concat(parts.take(i as int)),
    {
        append(&mut arms, &prev_content_arm_new(&variants[i], content_enum, site));
        proof {
            lemma_concat_next(parts, i as int);
        }
    }
    assert(parts.take(n as int) =~= parts);
    arms
}

/// The method that copies the content that the event replaces, if it replaces any.
pub open spec fn prev_content_method(
    variants: Seq<Variant>,
    content_enum: (Seq<char>, Span),
    site: Span,
) -> Seq<Token> {
    doc_comment(" Returns the any content enum for this events prev_content."@, site)
        + quoted("pub fn prev_content"@, site)
        + parens(quoted("& self"@, site))
        + quoted("-> Option <"@, site)
        + name(content_enum)
        + quoted(">"@, site)
        + braces(
            quoted("match self"@, site)
                + braces(
                    concat(prev_content_arms(variants, content_enum, site))
                        + quoted("Self :: Custom"@, site)
                        + parens(quoted("event"@, site))
                        + quoted("=>"@, site)
                        + braces(
                            quoted("event . prev_content . as_ref"@, site)
                                + parens(Seq::empty())
                                + quoted(". map"@, site)
                                + parens(
                                    quoted("| c |"@, site)
                                        + name(content_enum)
                                        + quoted(":: Custom"@, site)
                                        + parens(
                                            quoted("c . clone"@, site)
                                                + parens(Seq::empty()),
                                        ),
                                ),
                        )
                        + quoted(","@, site),
                ),
        )
}

fn prev_content_method_new(
    variants: &[EventEnumVariant],
    content_enum: &Ident,
    site: Span,
) -> (r: TokenStream)
    ensures
        tokens_of(r) == prev_content_method(variants_of(variants@), content_enum@, site),
{
    let mut method = doc_comment_new(
        " Returns the any content enum for this events prev_content.",
        site,
    );
    quote(&mut method, "pub fn prev_content", site);
    put_parens(&mut method, quote_new("& self", site));
    quote(&mut method, "-> Option <", site);
    put_name(&mut method, content_enum);
    quote(&mut method, ">", site);
    let mut body = quote_new("match self", site);
    let mut arms = prev_content_arms_new(variants, content_enum, site);
    quote(&mut arms, "Self :: Custom", site);
    put_parens(&mut arms, quote_new("event", site));
    quote(&mut arms, "=>", site);
    let mut value = quote_new("event . prev_content . as_ref", site);
    put_parens(&mut value, TokenStream::new());
    quote(&mut value, ". map", site);
    let mut closure = quote_new("| c |", site);
    put_name(&mut closure, content_enum);
    quote(&mut closure, ":: Custom", site);
    let mut copied = quote_new("c . clone", site);
    put_parens(&mut copied, TokenStream::new());
    put_parens(&mut closure, copied);
    put_parens(&mut value, closure);
    put_braces(&mut arms, value);
    quote(&mut arms, ",", site);
    put_braces(&mut body, arms);
    put_braces(&mut method, body);
    method
}

/// The methods of an event enum that hand out contents. Redacted events have none, and only some
/// events hold the content that they replace.
pub open spec fn content_methods(
    kind: EventKind,
    var: EventKindVariation,
    variants: Seq<Variant>,
    site: Span,
) -> Seq<Token> {
    let content_enum = kind.content_enum_ident(site);
    if var.redacted() {
        Seq::empty()
    } else if prev_content_field(kind, var) {
        content_method(variants, content_enum, site)
            + prev_content_method(variants, content_enum, site)
    } else {
        content_method(variants, content_enum, site)
    }
}

/// The methods of an event enum: those that hand out contents, then the accessors of the fields.
/// There are none if the kind does not occur in the variation.
pub open spec fn accessor_impl(
    kind: EventKind,
    var: EventKindVariation,
    variants: Seq<Variant>,
    import_path: Seq<Token>,
    site: Span,
) -> Option<Seq<Token>> {
    match kind.event_enum_ident(var, site) {
        Some(ident) => Some(
            quoted("impl"@, site)
                + name(ident)
                + braces(
                    content_methods(kind, var, variants, site)
                        + concat(accessors(kind, var, variants, import_path, site)),
                ),
        ),
        None => None,
    }
}

/// Writes the methods of an event enum.
pub fn accessor_methods(
    kind: &EventKind,
    var: &EventKindVariation,
    variants: &[EventEnumVariant],
    import_path: &TokenStream,
    site: Span,
) -> (r: Option<TokenStream>)
    ensures
        tokens_in(r) == accessor_impl(
            *kind,
            *var,
            variants_of(variants@),
            tokens_of(*import_path),
            site,
        ),
{
    let ident = kind.to_event_enum_ident(var, site)?;
    if var.is_redacted() {
        return redacted_accessor_methods(kind, var, variants, import_path, site);
    }
    let content_enum = kind.to_content_enum(site);
    let mut methods = content_method_new(variants, &content_enum, site);
    if has_prev_content_field(kind, var) {
        append(&mut methods, &prev_content_method_new(variants, &content_enum, site));
    }
    append(&mut methods, &accessors_new(kind, var, variants, import_path, site));
    let mut item = quote_new("impl", site);
    put_name(&mut item, &ident);
    put_braces(&mut item, methods);
    Some(item)
}

/// Writes the methods of an enum of redacted events, which hand out no contents. The kind has to
/// occur in the variation.
pub fn redacted_accessor_methods(
    kind: &EventKind,
    var: &EventKindVariation,
    variants: &[EventEnumVariant],
    import_path: &TokenStream,
    site: Span,
) -> (r: Option<TokenStream>)
    requires
        kind.occurs(*var),
    ensures
        r matches Some(code) && tokens_of(code) == quoted("impl"@, site) + name(
            (kind.event_enum_name(*var), site),
        ) + braces(
            concat(
                accessors(
                    *kind,
                    *var,
                    variants_of(variants@),
                    tokens_of(*import_path),
                    site,
                ),
            ),
        ),
{
    let ident = kind.to_event_enum_ident(var, site)?;
    let methods = accessors_new(kind, var, variants, import_path, site);
    let mut item = quote_new("impl", site);
    put_name(&mut item, &ident);
    put_braces(&mut item, methods);
    Some(item)
}

} // verus!
