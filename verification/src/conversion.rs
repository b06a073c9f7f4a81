//! Conversions between events that name their room and events that do not.

use crate::ident::Ident;
use crate::kind::{EventKind, EventKindVariation};
use crate::text::same;
use crate::token::{
    append, braces, concat, copy, doc_comment, doc_comment_new, lemma_concat_next, name, name_new,
    parens, put_braces, put_name, put_parens, quote, quote_new, quoted, tokens_in, tokens_of, Token,
};
use crate::variant::{variant_tokens, variants_of, EventEnumVariant, Variant};
use proc_macro2::{Span, TokenStream};
use vstd::prelude::*;

verus! {

broadcast use crate::template::law_templates_consist_of_tokens;

/// The variation of events without a room, for events that name their room.
pub open spec fn sync_form(var: EventKindVariation) -> Option<EventKindVariation> {
    match var {
        EventKindVariation::Full => Some(EventKindVariation::Sync),
        EventKindVariation::Redacted => Some(EventKindVariation::RedactedSync),
        _ => None,
    }
}

/// The variation of events that name their room, for events without a room.
pub open spec fn full_form(var: EventKindVariation) -> Option<EventKindVariation> {
    match var {
        EventKindVariation::Sync => Some(EventKindVariation::Full),
        EventKindVariation::RedactedSync => Some(EventKindVariation::Redacted),
        _ => None,
    }
}

/// Whether a variant is converted in a way of its own: a redaction that has not been redacted
/// is held in a struct of its own.
pub open spec fn stands_apart(variant: Variant, var: EventKindVariation) -> bool {
    variant.ident.0 == "RoomRedaction"@ && (var == EventKindVariation::Full || var
        == EventKindVariation::Sync)
}

fn is_apart(variant: &EventEnumVariant, var: &EventKindVariation) -> (r: bool)
    ensures
        r == stands_apart(variant@, *var),
{
    same(variant.ident.text(), "RoomRedaction") && matches!(
        var,
        EventKindVariation::Full | EventKindVariation::Sync
    )
}

/// The expression that turns an event into one of the struct `sync_struct`.
pub open spec fn converted(
    sync_struct: (Seq<char>, Span),
    import_path: Seq<Token>,
    site: Span,
) -> Seq<Token> {
    import_path
        + quoted("::"@, site)
        + name(sync_struct)
        + quoted(":: from"@, site)
        + parens(quoted("event"@, site))
}

fn converted_new(sync_struct: &Ident, import_path: &TokenStream, site: Span) -> (r: TokenStream)
    ensures
        tokens_of(r) == converted(sync_struct@, tokens_of(*import_path), site),
{
    let mut tokens = copy(import_path);
    quote(&mut tokens, "::", site);
    put_name(&mut tokens, sync_struct);
    quote(&mut tokens, ":: from", site);
    put_parens(&mut tokens, quote_new("event", site));
    tokens
}

/// The arm that turns a variant of the enum `ident` into a sync event, unless the variant stands
/// apart.
pub open spec fn from_arm(
    variant: Variant,
    var: EventKindVariation,
    ident: (Seq<char>, Span),
    sync_struct: (Seq<char>, Span),
    import_path: Seq<Token>,
    site: Span,
) -> Seq<Token> {
    if stands_apart(variant, var) {
        Seq::empty()
    } else {
        name(ident)
            + quoted("::"@, site)
            + variant_tokens(variant)
            + parens(quoted("event"@, site))
            + quoted("=>"@, site)
            + braces(
                quoted("Self ::"@, site)
                    + variant_tokens(variant)
                    + parens(converted(sync_struct, import_path, site)),
            )
            + quoted(","@, site)
    }
}

fn from_arm_new(
    variant: &EventEnumVariant,
    var: &EventKindVariation,
    ident: &Ident,
    sync_struct: &Ident,
    import_path: &TokenStream,
    site: Span,
) -> (r: TokenStream)
    ensures
        tokens_of(r) == from_arm(
            variant@,
            *var,
            ident@,
            sync_struct@,
            tokens_of(*import_path),
            site,
        ),
{
    if is_apart(variant, var) {
        return TokenStream::new();
    }
    let mut arm = name_new(ident);
    quote(&mut arm, "::", site);
    variant.to_tokens(&mut arm);
    put_parens(&mut arm, quote_new("event", site));
    quote(&mut arm, "=>", site);
    let mut value = quote_new("Self ::", site);
    variant.to_tokens(&mut value);
    put_parens(&mut value, converted_new(sync_struct, import_path, site));
    put_braces(&mut arm, value);
    quote(&mut arm, ",", site);
    arm
}

/// The arms that turn the variants of the enum `ident` into sync events.
pub open spec fn from_arms(
    variants: Seq<Variant>,
    var: EventKindVariation,
    ident: (Seq<char>, Span),
    sync_struct: (Seq<char>, Span),
    import_path: Seq<Token>,
    site: Span,
) -> Seq<Seq<Token>> {
    Seq::new(
        variants.len(),
        |i: int| from_arm(variants[i], var, ident, sync_struct, import_path, site),
    )
}

fn from_arms_new(
    variants: &[EventEnumVariant],
    var: &EventKindVariation,
    ident: &Ident,
    sync_struct: &Ident,
    import_path: &TokenStream,
    site: Span,
) -> (r: TokenStream)
    ensures
        tokens_of(r) == concat(from_arms(
            variants_of(variants@),
            *var,
            ident@,
            sync_struct@,
            tokens_of(*import_path),
            site,
        )),
{
    let mut arms = TokenStream::new();
    let n: usize = variants.len();
    let ghost parts = from_arms(
        variants_of(variants@),
        *var,
        ident@,
        sync_struct@,
        tokens_of(*import_path),
        site,
    );
    for i in 0..n
        invariant
            n == parts.len(),
            parts == from_arms(
                variants_of(variants@),
                *var,
                ident@,
                sync_struct@,
                tokens_of(*import_path),
                site,
            ),
            n == variants@.len(),
            tokens_of(arms) == concat(parts.take(i as int)),
    {
        let arm = from_arm_new(&variants[i], var, ident, sync_struct, import_path, site);
        append(&mut arms, &arm);
        proof {
            lemma_concat_next(parts, i as int);
        }
    }
    assert(parts.take(n as int) =~= parts);
    arms
}

/// The arm for redactions among the arms of `from_arms`: only message events have it.
pub open spec fn from_redaction_arm(
    kind: EventKind,
    var: EventKindVariation,
    ident: (Seq<char>, Span),
    import_path: Seq<Token>,
    site: Span,
) -> Seq<Token> {
    if kind == EventKind::Message && var == EventKindVariation::Full {
        name(ident)
            + quoted(":: RoomRedaction"@, site)
            + parens(quoted("event"@, site))
            + quoted("=> Self :: RoomRedaction"@, site)
            + parens(
                import_path
                    + quoted(":: room :: redaction :: SyncRedactionEvent :: from"@, site)
                    + parens(quoted("event"@, site))
                    + quoted(","@, site),
            )
            + quoted(","@, site)
    } else {
        Seq::empty()
    }
}

fn from_redaction_arm_new(
    kind: &EventKind,
    var: &EventKindVariation,
    ident: &Ident,
    import_path: &TokenStream,
    site: Span,
) -> (r: TokenStream)
    ensures
        tokens_of(r) == from_redaction_arm(*kind, *var, ident@, tokens_of(*import_path), site),
{
    if *kind != EventKind::Message || *var != EventKindVariation::Full {
        return TokenStream::new();
    }
    let mut arm = name_new(ident);
    quote(&mut arm, ":: RoomRedaction", site);
    put_parens(&mut arm, quote_new("event", site));
    quote(&mut arm, "=> Self :: RoomRedaction", site);
    let mut value = copy(import_path);
    quote(&mut value, ":: room :: redaction :: SyncRedactionEvent :: from", site);
    put_parens(&mut value, quote_new("event", site));
    quote(&mut value, ",", site);
    put_parens(&mut arm, value);
    quote(&mut arm, ",", site);
    arm
}

/// The conversion of the events of the enum `ident` into those of the enum `sync`.
pub open spec fn from_impl(
    ident: (Seq<char>, Span),
    sync: (Seq<char>, Span),
    sync_struct: (Seq<char>, Span),
    arms: Seq<Token>,
    import_path: Seq<Token>,
    site: Span,
) -> Seq<Token> {
    quoted("impl From <"@, site)
        + name(ident)
        + quoted("> for"@, site)
        + name(sync)
        + braces(
            quoted("fn from"@, site)
                + parens(quoted("event :"@, site) + name(ident))
                + quoted("-> Self"@, site)
                + braces(
                    quoted("match event"@, site)
                        + braces(
                            arms
                                + name(ident)
                                + quoted(":: Custom"@, site)
                                + parens(quoted("event"@, site))
                                + quoted("=>"@, site)
                                + braces(
                                    quoted("Self :: Custom"@, site)
                                        + parens(converted(sync_struct, import_path, site)),
                                )
                                + quoted(","@, site),
                        ),
                ),
        )
}

fn from_impl_new(
    ident: &Ident,
    sync: &Ident,
    sync_struct: &Ident,
    arms: &TokenStream,
    import_path: &TokenStream,
    site: Span,
) -> (r: TokenStream)
    ensures
        tokens_of(r) == from_impl(
            ident@,
            sync@,
            sync_struct@,
            tokens_of(*arms),
            tokens_of(*import_path),
            site,
        ),
{
    let mut item = quote_new("impl From <", site);
    put_name(&mut item, ident);
    quote(&mut item, "> for", site);
    put_name(&mut item, sync);
    let mut function = quote_new("fn from", site);
    let mut params = quote_new("event :", site);
    put_name(&mut params, ident);
    put_parens(&mut function, params);
    quote(&mut function, "-> Self", site);
    let mut body = quote_new("match event", site);
    let mut all_arms = copy(arms);
    put_name(&mut all_arms, ident);
    quote(&mut all_arms, ":: Custom", site);
    put_parens(&mut all_arms, quote_new("event", site));
    quote(&mut all_arms, "=>", site);
    let mut custom = quote_new("Self :: Custom", site);
    put_parens(&mut custom, converted_new(sync_struct, import_path, site));
    put_braces(&mut all_arms, custom);
    quote(&mut all_arms, ",", site);
    put_braces(&mut body, all_arms);
    put_braces(&mut function, body);
    put_braces(&mut item, function);
    item
}

/// The arm that turns a variant into an event of the enum `full`, unless the variant stands
/// apart.
pub open spec fn into_full_arm(
    variant: Variant,
    var: EventKindVariation,
    full: (Seq<char>, Span),
    site: Span,
) -> Seq<Token> {
    if stands_apart(variant, var) {
        Seq::empty()
    } else {
        quoted("Self ::"@, site)
            + variant_tokens(variant)
            + parens(quoted("event"@, site))
            + quoted("=>"@, site)
            + braces(
                name(full)
                    + quoted("::"@, site)
                    + variant_tokens(variant)
                    + parens(
                        quoted("event . into_full_event"@, site)
                            + parens(quoted("room_id"@, site)),
                    ),
            )
            + quoted(","@, site)
    }
}

fn into_full_arm_new(
    variant: &EventEnumVariant,
    var: &EventKindVariation,
    full: &Ident,
    site: Span,
) -> (r: TokenStream)
    ensures
        tokens_of(r) == into_full_arm(variant@, *var, full@, site),
{
    if is_apart(variant, var) {
        return TokenStream::new();
    }
    let mut arm = quote_new("Self ::", site);
    variant.to_tokens(&mut arm);
    put_parens(&mut arm, quote_new("event", site));
    quote(&mut arm, "=>", site);
    let mut value = name_new(full);
    quote(&mut value, "::", site);
    variant.to_tokens(&mut value);
    let mut call = quote_new("event . into_full_event", site);
    put_parens(&mut call, quote_new("room_id", site));
    put_parens(&mut value, call);
    put_braces(&mut arm, value);
    quote(&mut arm, ",", site);
    arm
}

/// The arms that turn the variants of an enum into events of the enum `full`.
pub open spec fn into_full_arms(
    variants: Seq<Variant>,
    var: EventKindVariation,
    full: (Seq<char>, Span),
    site: Span,
) -> Seq<Seq<Token>> {
    Seq::new(variants.len(), |i: int| into_full_arm(variants[i], var, full, site))
}

fn into_full_arms_new(
    variants: &[EventEnumVariant],
    var: &EventKindVariation,
    full: &Ident,
    site: Span,
) -> (r: TokenStream)
    ensures
        tokens_of(r) == concat(into_full_arms(variants_of(variants@), *var, full@, site)),
{
    let mut arms = TokenStream::new();
    let n: usize = variants.len();
    let ghost parts = into_full_arms(variants_of(variants@), *var, full@, site);
    for i in 0..n
        invariant
            n == parts.len(),
            parts == into_full_arms(variants_of(variants@), *var, full@, site),
            n == variants@.len(),
            tokens_of(arms) == concat(parts.take(i as int)),
    {
        append(&mut arms, &into_full_arm_new(&variants[i], var, full, site));
        proof {
            lemma_concat_next(parts, i as int);
        }
    }
    assert(parts.take(n as int) =~= parts);
    arms
}

/// The arm for redactions among the arms of `into_full_arms`: only message events have it.
pub open spec fn into_full_redaction_arm(
    kind: EventKind,
    var: EventKindVariation,
    full: (Seq<char>, Span),
    site: Span,
) -> Seq<Token> {
    if kind == EventKind::Message && var == EventKindVariation::Sync {
        quoted("Self :: RoomRedaction"@, site)
            + parens(quoted("event"@, site))
            + quoted("=>"@, site)
            + braces(
                name(full)
                    + quoted(":: RoomRedaction"@, site)
                    + parens(
                        quoted("event . into_full_event"@, site)
                            + parens(quoted("room_id"@, site)),
                    ),
            )
            + quoted(","@, site)
    } else {
        Seq::empty()
    }
}

fn into_full_redaction_arm_new(
    kind: &EventKind,
    var: &EventKindVariation,
    full: &Ident,
    site: Span,
) -> (r: TokenStream)
    ensures
        tokens_of(r) == into_full_redaction_arm(*kind, *var, full@, site),
{
    if *kind != EventKind::Message || *var != EventKindVariation::Sync {
        return TokenStream::new();
    }
    let mut arm = quote_new("Self :: RoomRedaction", site);
    put_parens(&mut arm, quote_new("event", site));
    quote(&mut arm, "=>", site);
    let mut value = name_new(full);
    quote(&mut value, ":: RoomRedaction", site);
    let mut call = quote_new("event . into_full_event", site);
    put_parens(&mut call, quote_new("room_id", site));
    put_parens(&mut value, call);
    put_braces(&mut arm, value);
    quote(&mut arm, ",", site);
    arm
}

/// The method that turns the events of the enum `ident` into those of the enum `full`.
pub open spec fn into_full_impl(
    ident: (Seq<char>, Span),
    full: (Seq<char>, Span),
    arms: Seq<Token>,
    import_path: Seq<Token>,
    site: Span,
) -> Seq<Token> {
    quoted("impl"@, site)
        + name(ident)
        + braces(
            doc_comment(
            " Convert this sync event into a full event, one with a room_id field."@,
            site,
        )
                + quoted("pub fn into_full_event"@, site)
                + parens(
                    quoted("self , room_id :"@, site)
                        + import_path
                        + quoted(":: exports :: ruma_identifiers :: RoomId"@, site),
                )
                + quoted("->"@, site)
                + name(full)
                + braces(
                    quoted("match self"@, site)
                        + braces(
                            arms
                                + quoted("Self :: Custom"@, site)
                                + parens(quoted("event"@, site))
                                + quoted("=>"@, site)
                                + braces(
                                    name(full)
                                        + quoted(":: Custom"@, site)
                                        + parens(
                                            quoted("event . into_full_event"@, site)
                                                + parens(quoted("room_id"@, site)),
                                        ),
                                )
                                + quoted(","@, site),
                        ),
                ),
        )
}

fn into_full_impl_new(
    ident: &Ident,
    full: &Ident,
    arms: &TokenStream,
    import_path: &TokenStream,
    site: Span,
) -> (r: TokenStream)
    ensures
        tokens_of(r) == into_full_impl(
            ident@,
            full@,
            tokens_of(*arms),
            tokens_of(*import_path),
            site,
        ),
{
    let mut item = quote_new("impl", site);
    put_name(&mut item, ident);
    let mut method = doc_comment_new(
        " Convert this sync event into a full event, one with a room_id field.",
        site,
    );
    quote(&mut method, "pub fn into_full_event", site);
    let mut params = quote_new("self , room_id :", site);
    append(&mut params, import_path);
    quote(&mut params, ":: exports :: ruma_identifiers :: RoomId", site);
    put_parens(&mut method, params);
    quote(&mut method, "->", site);
    put_name(&mut method, full);
    let mut body = quote_new("match self", site);
    let mut all_arms = copy(arms);
    quote(&mut all_arms, "Self :: Custom", site);
    put_parens(&mut all_arms, quote_new("event", site));
    quote(&mut all_arms, "=>", site);
    let mut custom = name_new(full);
    quote(&mut custom, ":: Custom", site);
    let mut call = quote_new("event . into_full_event", site);
    put_parens(&mut call, quote_new("room_id", site));
    put_parens(&mut custom, call);
    put_braces(&mut all_arms, custom);
    quote(&mut all_arms, ",", site);
    put_braces(&mut body, all_arms);
    put_braces(&mut method, body);
    put_braces(&mut item, method);
    item
}

/// The conversion between an enum of events that name their room and the one of events that do
/// not: `From` on the side of the former, `into_full_event` on the side of the latter. There is
/// none unless the kind occurs in both variations.
pub open spec fn conversion_impl(
    kind: EventKind,
    var: EventKindVariation,
    variants: Seq<Variant>,
    import_path: Seq<Token>,
    site: Span,
) -> Option<Seq<Token>> {
    let ident = (kind.event_enum_name(var), site);
    match (sync_form(var), full_form(var)) {
        (Some(form), _) if kind.occurs(var) && kind.occurs(form) => {
            let sync_struct = (kind.event_name(form), site);
            Some(
                from_impl(
                    ident,
                    (kind.event_enum_name(form), site),
                    sync_struct,
                    concat(from_arms(variants, var, ident, sync_struct, import_path, site))
                        + from_redaction_arm(kind, var, ident, import_path, site),
                    import_path,
                    site,
                ),
            )
        },
        (None, Some(form)) if kind.occurs(var) && kind.occurs(form) => {
            let full = (kind.event_enum_name(form), site);
            Some(
                into_full_impl(
                    ident,
                    full,
                    concat(into_full_arms(variants, var, full, site))
                        + into_full_redaction_arm(kind, var, full, site),
                    import_path,
                    site,
                ),
            )
        },
        _ => None,
    }
}

/// Writes the conversion between an enum of events that name their room and the one of events
/// that do not.
pub fn expand_conversion_impl(
    kind: &EventKind,
    var: &EventKindVariation,
    variants: &[EventEnumVariant],
    import_path: &TokenStream,
    site: Span,
) -> (r: Option<TokenStream>)
    ensures
        tokens_in(r) == conversion_impl(
            *kind,
            *var,
            variants_of(variants@),
            tokens_of(*import_path),
            site,
        ),
{
    let ident = kind.to_event_enum_ident(var, site)?;
    match var {
        EventKindVariation::Full | EventKindVariation::Redacted => {
            let variation = if *var == EventKindVariation::Full {
                EventKindVariation::Sync
            } else {
                EventKindVariation::RedactedSync
            };
            let sync = kind.to_event_enum_ident(&variation, site)?;
            let sync_struct = kind.to_event_ident(&variation, site)?;
            let mut arms = from_arms_new(variants, var, &ident, &sync_struct, import_path, site);
            append(&mut arms, &from_redaction_arm_new(kind, var, &ident, import_path, site));
            Some(from_impl_new(&ident, &sync, &sync_struct, &arms, import_path, site))
        },
        EventKindVariation::Sync | EventKindVariation::RedactedSync => {
            let variation = if *var == EventKindVariation::Sync {
                EventKindVariation::Full
            } else {
                EventKindVariation::Redacted
            };
            let full = kind.to_event_enum_ident(&variation, site)?;
            let mut arms = into_full_arms_new(variants, var, &full, site);
            append(&mut arms, &into_full_redaction_arm_new(kind, var, &full, site));
            Some(into_full_impl_new(&ident, &full, &arms, import_path, site))
        },
        _ => None,
    }
}

} // verus!
