//! Redaction of events, and events that may have been redacted.

use crate::deserialize::{
    deserialize_impl, deserialize_impl_new, read_helper, read_helper_new, read_json, read_json_new,
    serialize_attrs, serialize_attrs_new, take_json, take_json_new,
};
use crate::field::{all_fields, event_fields, is_room_kind, EventField};
use crate::ident::Ident;
use crate::kind::{ident_of, lemma_event_name, lemma_letters_ident, EventKind, EventKindVariation};
use crate::token::{
    append, braces, concat, copy, doc_comment, doc_comment_new, lemma_concat_next, name, name_new,
    parens, put_braces, put_name, put_parens, quote, quote_new, quoted, tokens_in, tokens_of, Token,
};
use crate::variant::{variant_tokens, variants_of, EventEnumVariant, Variant};
use proc_macro2::{Span, TokenStream};
use vstd::prelude::*;

verus! {

broadcast use crate::template::law_templates_consist_of_tokens;

/// The type of the `unsigned` field after a redaction.
pub open spec fn unsigned_type(var: EventKindVariation) -> Seq<char> {
    if var == EventKindVariation::Sync {
        ":: RedactedSyncUnsigned"@
    } else {
        ":: RedactedUnsigned"@
    }
}

fn unsigned_type_of(var: &EventKindVariation) -> (r: &'static str)
    ensures
        r@ == unsigned_type(*var),
{
    if let EventKindVariation::Sync = var {
        ":: RedactedSyncUnsigned"
    } else {
        ":: RedactedUnsigned"
    }
}

/// A field of a redacted event: `unsigned` holds the redaction, every other field is kept as it
/// was. A field that the event lacks is left out.
pub open spec fn redacted_field(
    field: EventField,
    kind: EventKind,
    var: EventKindVariation,
    import_path: Seq<Token>,
    site: Span,
) -> Seq<Token> {
    if !field.occurs(kind, var) {
        Seq::empty()
    } else if field == EventField::Unsigned {
        quoted("unsigned :"@, site)
            + import_path
            + quoted(unsigned_type(var), site)
            + braces(
                quoted("redacted_because : Some"@, site)
                    + parens(
                        quoted(":: std :: boxed :: Box :: new"@, site)
                            + parens(quoted("redaction"@, site)),
                    )
                    + quoted(","@, site),
            )
            + quoted(","@, site)
    } else {
        name((field.name(), site))
            + quoted(": event ."@, site)
            + name((field.name(), site))
            + quoted(","@, site)
    }
}

/// Writes a field of a redacted event.
pub fn generate_redacted_fields(
    field: EventField,
    kind: &EventKind,
    var: &EventKindVariation,
    import_path: &TokenStream,
    site: Span,
) -> (r: TokenStream)
    ensures
        tokens_of(r) == redacted_field(field, *kind, *var, tokens_of(*import_path), site),
{
    if !field.is_field_of(kind, var) {
        TokenStream::new()
    } else if field == EventField::Unsigned {
        let mut tokens = quote_new("unsigned :", site);
        append(&mut tokens, import_path);
        append(&mut tokens, &quote_new(unsigned_type_of(var), site));
        let mut because = quote_new("redacted_because : Some", site);
        let mut boxed = quote_new(":: std :: boxed :: Box :: new", site);
        put_parens(&mut boxed, quote_new("redaction", site));
        put_parens(&mut because, boxed);
        quote(&mut because, ",", site);
        put_braces(&mut tokens, because);
        quote(&mut tokens, ",", site);
        tokens
    } else {
        let ident = field.to_ident(site);
        let mut tokens = name_new(&ident);
        quote(&mut tokens, ": event .", site);
        put_name(&mut tokens, &ident);
        quote(&mut tokens, ",", site);
        tokens
    }
}

/// The fields of a redacted event.
pub open spec fn redacted_fields(
    kind: EventKind,
    var: EventKindVariation,
    import_path: Seq<Token>,
    site: Span,
) -> Seq<Seq<Token>> {
    Seq::new(
        all_fields().len(),
        |i: int| redacted_field(all_fields()[i], kind, var, import_path, site),
    )
}

fn redacted_fields_new(
    kind: &EventKind,
    var: &EventKindVariation,
    import_path: &TokenStream,
    site: Span,
) -> (r: TokenStream)
    ensures
        tokens_of(r) == concat(redacted_fields(*kind, *var, tokens_of(*import_path), site)),
{
    let mut fields = TokenStream::new();
    let list = event_fields();
    let n: usize = list.len();
    let ghost parts = redacted_fields(*kind, *var, tokens_of(*import_path), site);
    for i in 0..n
        invariant
            n == parts.len(),
            parts == redacted_fields(*kind, *var, tokens_of(*import_path), site),
            list@ == all_fields(),
            tokens_of(fields) == concat(parts.take(i as int)),
    {
        append(&mut fields, &generate_redacted_fields(list[i], kind, var, import_path, site));
        proof {
            lemma_concat_next(parts, i as int);
        }
    }
    assert(parts.take(n as int) =~= parts);
    fields
}

/// The arm that redacts the event of a variant: its content is redacted, and `fields` are the
/// fields beside it.
pub open spec fn redact_arm(
    variant: Variant,
    redacted_enum: (Seq<char>, Span),
    redacted_struct: Seq<Token>,
    fields: Seq<Token>,
    site: Span,
) -> Seq<Token> {
    quoted("Self ::"@, site)
        + variant_tokens(variant)
        + parens(quoted("event"@, site))
        + quoted("=>"@, site)
        + braces(
            quoted("let content = event . content . redact"@, site)
                + parens(quoted("version"@, site))
                + quoted(";"@, site)
                + name(redacted_enum)
                + quoted("::"@, site)
                + variant_tokens(variant)
                + parens(redacted_struct + braces(quoted("content ,"@, site) + fields)),
        )
}

fn redact_arm_new(
    variant: &EventEnumVariant,
    redacted_enum: &Ident,
    redacted_struct: &TokenStream,
    fields: &TokenStream,
    site: Span,
) -> (r: TokenStream)
    ensures
        tokens_of(r) == redact_arm(
            variant@,
            redacted_enum@,
            tokens_of(*redacted_struct),
            tokens_of(*fields),
            site,
        ),
{
    let mut arm = quote_new("Self ::", site);
    variant.to_tokens(&mut arm);
    put_parens(&mut arm, quote_new("event", site));
    quote(&mut arm, "=>", site);
    let mut body = quote_new("let content = event . content . redact", site);
    put_parens(&mut body, quote_new("version", site));
    quote(&mut body, ";", site);
    put_name(&mut body, redacted_enum);
    quote(&mut body, "::", site);
    variant.to_tokens(&mut body);
    let mut value = copy(redacted_struct);
    let mut values = quote_new("content ,", site);
    append(&mut values, fields);
    put_braces(&mut value, values);
    put_parens(&mut body, value);
    put_braces(&mut arm, body);
    arm
}

/// The arm that redacts an event without a variant of its own.
pub open spec fn redact_custom_arm(
    redacted_enum: (Seq<char>, Span),
    redacted_struct: Seq<Token>,
    fields: Seq<Token>,
    site: Span,
) -> Seq<Token> {
    quoted("Self :: Custom"@, site)
        + parens(quoted("event"@, site))
        + quoted("=>"@, site)
        + braces(
            quoted("let content = event . content . redact"@, site)
                + parens(quoted("version"@, site))
                + quoted(";"@, site)
                + name(redacted_enum)
                + quoted(":: Custom"@, site)
                + parens(redacted_struct + braces(quoted("content ,"@, site) + fields)),
        )
}

fn redact_custom_arm_new(
    redacted_enum: &Ident,
    redacted_struct: &TokenStream,
    fields: &TokenStream,
    site: Span,
) -> (r: TokenStream)
    ensures
        tokens_of(r) == redact_custom_arm(
            redacted_enum@,
            tokens_of(*redacted_struct),
            tokens_of(*fields),
            site,
        ),
{
    let mut arm = quote_new("Self :: Custom", site);
    put_parens(&mut arm, quote_new("event", site));
    quote(&mut arm, "=>", site);
    let mut body = quote_new("let content = event . content . redact", site);
    put_parens(&mut body, quote_new("version", site));
    quote(&mut body, ";", site);
    put_name(&mut body, redacted_enum);
    quote(&mut body, ":: Custom", site);
    let mut value = copy(redacted_struct);
    let mut values = quote_new("content ,", site);
    append(&mut values, fields);
    put_braces(&mut value, values);
    put_parens(&mut body, value);
    put_braces(&mut arm, body);
    arm
}

/// The arms that redact the events of the variants.
pub open spec fn redact_arms(
    variants: Seq<Variant>,
    redacted_enum: (Seq<char>, Span),
    redacted_struct: Seq<Token>,
    fields: Seq<Token>,
    site: Span,
) -> Seq<Seq<Token>> {
    Seq::new(
        variants.len(),
        |i: int| redact_arm(variants[i], redacted_enum, redacted_struct, fields, site),
    )
}

fn redact_arms_new(
    variants: &[EventEnumVariant],
    redacted_enum: &Ident,
    redacted_struct: &TokenStream,
    fields: &TokenStream,
    site: Span,
) -> (r: TokenStream)
    ensures
        tokens_of(r) == concat(redact_arms(
            variants_of(variants@),
            redacted_enum@,
            tokens_of(*redacted_struct),
            tokens_of(*fields),
            site,
        )),
{
    let mut arms = TokenStream::new();
    let n: usize = variants.len();
    let ghost parts = redact_arms(
        variants_of(variants@),
        redacted_enum@,
        tokens_of(*redacted_struct),
        tokens_of(*fields),
        site,
    );
    for i in 0..n
        invariant
            n == parts.len(),
            parts == redact_arms(
                variants_of(variants@),
                redacted_enum@,
                tokens_of(*redacted_struct),
                tokens_of(*fields),
                site,
            ),
            n == variants@.len(),
            tokens_of(arms) == concat(parts.take(i as int)),
    {
        let arm = redact_arm_new(&variants[i], redacted_enum, redacted_struct, fields, site);
        append(&mut arms, &arm);
        proof {
            lemma_concat_next(parts, i as int);
        }
    }
    assert(parts.take(n as int) =~= parts);
    arms
}

/// The variation of the events that redactions turn events into.
pub open spec fn redacted_form(var: EventKindVariation) -> Option<EventKindVariation> {
    match var {
        EventKindVariation::Full => Some(EventKindVariation::Redacted),
        EventKindVariation::Sync => Some(EventKindVariation::RedactedSync),
        EventKindVariation::Stripped => Some(EventKindVariation::RedactedStripped),
        _ => None,
    }
}

/// The struct of the redactions that events of a variation are redacted by.
pub open spec fn redaction_struct(var: EventKindVariation) -> Seq<char> {
    if var == EventKindVariation::Full {
        ":: room :: redaction :: RedactionEvent"@
    } else {
        ":: room :: redaction :: SyncRedactionEvent"@
    }
}

fn redaction_struct_of(var: &EventKindVariation) -> (r: &'static str)
    ensures
        r@ == redaction_struct(*var),
{
    if let EventKindVariation::Full = var {
        ":: room :: redaction :: RedactionEvent"
    } else {
        ":: room :: redaction :: SyncRedactionEvent"
    }
}

/// The method `redact` of the enum `ident`.
pub open spec fn redact_method(
    ident: (Seq<char>, Span),
    var: EventKindVariation,
    redacted_enum: (Seq<char>, Span),
    arms: Seq<Token>,
    import_path: Seq<Token>,
    site: Span,
) -> Seq<Token> {
    quoted("impl"@, site)
        + name(ident)
        + braces(
            doc_comment(
            " Redacts `Self` given a valid `Redaction[Sync]Event`."@,
            site,
        )
                + quoted("pub fn redact"@, site)
                + parens(
                    quoted("self , redaction :"@, site)
                        + import_path
                        + quoted(redaction_struct(var), site)
                        + quoted(", version :"@, site)
                        + import_path
                        + quoted(":: exports :: ruma_identifiers :: RoomVersionId ,"@, site),
                )
                + quoted("->"@, site)
                + name(redacted_enum)
                + braces(quoted("match self"@, site) + braces(arms)),
        )
}

fn redact_method_new(
    ident: &Ident,
    var: &EventKindVariation,
    redacted_enum: &Ident,
    arms: &TokenStream,
    import_path: &TokenStream,
    site: Span,
) -> (r: TokenStream)
    ensures
        tokens_of(r) == redact_method(
            ident@,
            *var,
            redacted_enum@,
            tokens_of(*arms),
            tokens_of(*import_path),
            site,
        ),
{
    let mut item = quote_new("impl", site);
    put_name(&mut item, ident);
    let mut method = doc_comment_new(
        " Redacts `Self` given a valid `Redaction[Sync]Event`.",
        site,
    );
    quote(&mut method, "pub fn redact", site);
    let mut params = quote_new("self , redaction :", site);
    append(&mut params, import_path);
    append(&mut params, &quote_new(redaction_struct_of(var), site));
    quote(&mut params, ", version :", site);
    append(&mut params, import_path);
    quote(&mut params, ":: exports :: ruma_identifiers :: RoomVersionId ,", site);
    put_parens(&mut method, params);
    quote(&mut method, "->", site);
    put_name(&mut method, redacted_enum);
    let mut body = quote_new("match self", site);
    put_braces(&mut body, copy(arms));
    put_braces(&mut method, body);
    put_braces(&mut item, method);
    item
}

/// The method that redacts the events of the enum `ident`. There is none unless the events occur
/// in redacted form too.
pub open spec fn redact_impl(
    ident: (Seq<char>, Span),
    kind: EventKind,
    var: EventKindVariation,
    variants: Seq<Variant>,
    import_path: Seq<Token>,
    site: Span,
) -> Option<Seq<Token>> {
    match redacted_form(var) {
        Some(form) if kind.occurs(form) => {
            let redacted_enum = (kind.event_enum_name(form), site);
            let redacted_struct = import_path + quoted("::"@, site) + name(
                (kind.event_name(form), site),
            );
            let fields = concat(redacted_fields(kind, var, import_path, site));
            Some(
                redact_method(
                    ident,
                    var,
                    redacted_enum,
                    concat(redact_arms(variants, redacted_enum, redacted_struct, fields, site))
                        + redact_custom_arm(redacted_enum, redacted_struct, fields, site),
                    import_path,
                    site,
                ),
            )
        },
        _ => None,
    }
}

/// Writes the method that redacts the events of the enum `ident`.
pub fn expand_redact(
    ident: &Ident,
    kind: &EventKind,
    var: &EventKindVariation,
    variants: &[EventEnumVariant],
    import_path: &TokenStream,
    site: Span,
) -> (r: Option<TokenStream>)
    ensures
        tokens_in(r) == redact_impl(
            ident@,
            *kind,
            *var,
            variants_of(variants@),
            tokens_of(*import_path),
            site,
        ),
{
    let form = match var {
        EventKindVariation::Full => EventKindVariation::Redacted,
        EventKindVariation::Sync => EventKindVariation::RedactedSync,
        EventKindVariation::Stripped => EventKindVariation::RedactedStripped,
        _ => {
            return None;
        },
    };
    let struct_id = kind.to_event_ident(&form, site)?;
    let redacted_enum = kind.to_event_enum_ident(&form, site)?;
    let mut redacted_struct = copy(import_path);
    quote(&mut redacted_struct, "::", site);
    put_name(&mut redacted_struct, &struct_id);
    let fields = redacted_fields_new(kind, var, import_path, site);
    let mut arms = redact_arms_new(variants, &redacted_enum, &redacted_struct, &fields, site);
    append(&mut arms, &redact_custom_arm_new(&redacted_enum, &redacted_struct, &fields, site));
    Some(redact_method_new(ident, var, &redacted_enum, &arms, import_path, site))
}

/// Names the enums that hold the events of a kind and variation before and after a redaction.
pub fn inner_enum_idents(kind: &EventKind, var: &EventKindVariation, site: Span) -> (r: (
    Option<Ident>,
    Option<Ident>,
))
    ensures
        (ident_of(r.0), ident_of(r.1)) == inner_idents(*kind, *var, site),
{
    match var {
        EventKindVariation::Full => (
            kind.to_event_enum_ident(var, site),
            kind.to_event_enum_ident(&EventKindVariation::Redacted, site),
        ),
        EventKindVariation::Sync => (
            kind.to_event_enum_ident(var, site),
            kind.to_event_enum_ident(&EventKindVariation::RedactedSync, site),
        ),
        EventKindVariation::Stripped => (
            kind.to_event_enum_ident(var, site),
            kind.to_event_enum_ident(&EventKindVariation::RedactedStripped, site),
        ),
        EventKindVariation::Initial => (kind.to_event_enum_ident(var, site), None),
        _ => (None, None),
    }
}

/// The enums that hold the events of a kind and variation before and after a redaction. Redacted
/// events have neither; initial events are never redacted.
pub open spec fn inner_idents(kind: EventKind, var: EventKindVariation, site: Span) -> (
    Option<(Seq<char>, Span)>,
    Option<(Seq<char>, Span)>,
) {
    (
        if var.redacted() {
            None
        } else {
            kind.event_enum_ident(var, site)
        },
        match redacted_form(var) {
            Some(form) => kind.event_enum_ident(form, site),
            None => None,
        },
    )
}

/// The body of the function that reads an event that may have been redacted: it has been if the
/// field `unsigned` says what redacted it.
pub open spec fn read_possibly_redacted(import_path: Seq<Token>, site: Span) -> Seq<Token> {
    take_json(import_path, site)
        + read_helper("unsigned"@, import_path, site)
        + quoted("Ok"@, site)
        + parens(
            quoted("match unsigned"@, site)
                + braces(
                    quoted("Some"@, site)
                        + parens(quoted("unsigned"@, site))
                        + quoted("if unsigned . redacted_because . is_some"@, site)
                        + parens(Seq::empty())
                        + quoted("=>"@, site)
                        + braces(
                            quoted("Self :: Redacted"@, site)
                                + parens(read_json(import_path, site)),
                        )
                        + quoted("_ => Self :: Regular"@, site)
                        + parens(read_json(import_path, site))
                        + quoted(","@, site),
                ),
        )
}

fn read_possibly_redacted_new(import_path: &TokenStream, site: Span) -> (r: TokenStream)
    ensures
        tokens_of(r) == read_possibly_redacted(tokens_of(*import_path), site),
{
    let mut body = take_json_new(import_path, site);
    append(&mut body, &read_helper_new("unsigned", import_path, site));
    quote(&mut body, "Ok", site);
    let mut value = quote_new("match unsigned", site);
    let mut arms = quote_new("Some", site);
    put_parens(&mut arms, quote_new("unsigned", site));
    quote(&mut arms, "if unsigned . redacted_because . is_some", site);
    put_parens(&mut arms, TokenStream::new());
    quote(&mut arms, "=>", site);
    let mut redacted = quote_new("Self :: Redacted", site);
    put_parens(&mut redacted, read_json_new(import_path, site));
    put_braces(&mut arms, redacted);
    quote(&mut arms, "_ => Self :: Regular", site);
    put_parens(&mut arms, read_json_new(import_path, site));
    quote(&mut arms, ",", site);
    put_braces(&mut value, arms);
    put_parens(&mut body, value);
    body
}

/// The enum `ident` of events that are either those of `regular` or those of `redacted`.
pub open spec fn either_enum(
    ident: (Seq<char>, Span),
    regular: (Seq<char>, Span),
    redacted: (Seq<char>, Span),
    import_path: Seq<Token>,
    site: Span,
) -> Seq<Token> {
    doc_comment(
        " An enum that holds either regular un-redacted events or redacted events."@,
        site,
    )
        + serialize_attrs(import_path, site)
        + quoted("pub enum"@, site)
        + name(ident)
        + braces(
            doc_comment(" An un-redacted event."@, site)
                + quoted("Regular"@, site)
                + parens(name(regular))
                + quoted(","@, site)
                + doc_comment(" A redacted event."@, site)
                + quoted("Redacted"@, site)
                + parens(name(redacted))
                + quoted(","@, site),
        )
        + deserialize_impl(ident, read_possibly_redacted(import_path, site), import_path, site)
}

fn either_enum_new(
    ident: &Ident,
    regular: &Ident,
    redacted: &Ident,
    import_path: &TokenStream,
    site: Span,
) -> (r: TokenStream)
    ensures
        tokens_of(r) == either_enum(ident@, regular@, redacted@, tokens_of(*import_path), site),
{
    let mut item = doc_comment_new(
        " An enum that holds either regular un-redacted events or redacted events.",
        site,
    );
    append(&mut item, &serialize_attrs_new(import_path, site));
    quote(&mut item, "pub enum", site);
    put_name(&mut item, ident);
    let mut variants = doc_comment_new(" An un-redacted event.", site);
    quote(&mut variants, "Regular", site);
    put_parens(&mut variants, name_new(regular));
    quote(&mut variants, ",", site);
    append(&mut variants, &doc_comment_new(" A redacted event.", site));
    quote(&mut variants, "Redacted", site);
    put_parens(&mut variants, name_new(redacted));
    quote(&mut variants, ",", site);
    put_braces(&mut item, variants);
    append(&mut item, &deserialize_impl_new(
        ident,
        read_possibly_redacted_new(import_path, site),
        import_path,
        site,
    ));
    item
}

/// The name of the enum of events that may have been redacted.
pub open spec fn possibly_redacted_name(kind: EventKind, var: EventKindVariation) -> Seq<char> {
    "AnyPossiblyRedacted"@ + kind.event_name(var)
}

/// The enum of the events of a kind and variation that may have been redacted. Only message and
/// state events have one, and only in variations that occur in redacted form too.
pub open spec fn possibly_redacted_enum(
    kind: EventKind,
    var: EventKindVariation,
    import_path: Seq<Token>,
    site: Span,
) -> Option<Seq<Token>> {
    match inner_idents(kind, var, site) {
        (Some(regular), Some(redacted)) if is_room_kind(kind) => Some(
            either_enum(
                (possibly_redacted_name(kind, var), site),
                regular,
                redacted,
                import_path,
                site,
            ),
        ),
        _ => None,
    }
}

/// Writes the enum of the events of a kind and variation that may have been redacted.
pub fn expand_redacted_enum(
    kind: &EventKind,
    var: &EventKindVariation,
    import_path: &TokenStream,
    site: Span,
) -> (r: Option<TokenStream>)
    ensures
        tokens_in(r) == possibly_redacted_enum(*kind, *var, tokens_of(*import_path), site),
{
    if !matches!(kind, EventKind::State | EventKind::Message) {
        return None;
    }
    let event_ident = kind.to_event_ident(var, site)?;
    match inner_enum_idents(kind, var, site) {
        (Some(regular), Some(redacted)) => {
            let mut text = "AnyPossiblyRedacted".to_owned();
            text.append(event_ident.text());
            proof {
                reveal_strlit("AnyPossiblyRedacted");
                lemma_event_name(*kind, *var);
                lemma_letters_ident(possibly_redacted_name(*kind, *var));
            }
            let ident = Ident::ascii(text, site);
            Some(either_enum_new(&ident, &regular, &redacted, import_path, site))
        },
        _ => None,
    }
}

} // verus!
