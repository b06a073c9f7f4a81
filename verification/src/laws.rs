//! Properties of the expansion as a whole.

use crate::accessor::{
    accessor, accessor_impl, accessors, content_arm, content_arms, content_methods, field_arm,
    field_arms, prev_content_arm, prev_content_arms,
};
use crate::content::{
    content_enum, event_type_arm, event_type_arms, from_parts_arm, from_parts_arms,
};
use crate::conversion::{
    conversion_impl, from_arms, from_redaction_arm, full_form, into_full_arms,
    into_full_redaction_arm, stands_apart, sync_form,
};
use crate::enum_item::{variant_line, variant_lines};
use crate::event_enum::{
    any_enum, entry_events, entry_variants, expansion, is_expansion, read_arm, read_arms,
    redacted_enums, well_known_before,
};
use crate::event_type::{
    event_name, is_well_known, modules, prefix_message, variant_name, without_prefix, Event,
    EventTypeError,
};
use crate::field::EventField;
use crate::ident::{is_ascii_ident, is_ascii_text, is_ascii_word};
use crate::kind::{EventKind, EventKindVariation};
use crate::redaction::{
    possibly_redacted_enum, possibly_redacted_name, redact_arm, redact_arms, redact_impl,
    redacted_field, redacted_form,
};
use crate::text::{camel, pieces, Separator};
use crate::token::{
    all_word_tokens, braces, concat, is_operator, is_punct, literal, name, operator_token,
    operator_tokens, parens, present, quoted, tokens_of, word_tokens, Token,
};
use crate::variant::{
    entry_variant, variant_tokens, EventEnumEntry, EventEnumInput, Variant,
};
use proc_macro2::{Span, TokenStream};
use vstd::prelude::*;

verus! {

/// A variation in which a kind does not occur adds nothing to the expansion.
pub proof fn law_absent_variation_adds_nothing(
    kind: EventKind,
    events: Seq<Event>,
    attrs: Seq<Seq<Token>>,
    variants: Seq<Variant>,
    var: EventKindVariation,
    import_path: Seq<Token>,
    site: Span,
)
    ensures
        any_enum(kind, events, attrs, variants, var, import_path, site) is Some <==> kind.occurs(
            var,
        ),
        !kind.occurs(var) ==> present(
            any_enum(kind, events, attrs, variants, var, import_path, site),
        ) == Seq::<Token>::empty(),
{
    reveal(any_enum);
}

proof fn lemma_every_variation(
    kind: EventKind,
    events: Seq<Event>,
    attrs: Seq<Seq<Token>>,
    variants: Seq<Variant>,
    import_path: Seq<Token>,
    site: Span,
)
    ensures
        forall|var: EventKindVariation|
            #[trigger] any_enum(kind, events, attrs, variants, var, import_path, site) is Some
                <==> kind.occurs(var),
{
    assert forall|var: EventKindVariation|
        #[trigger] any_enum(kind, events, attrs, variants, var, import_path, site) is Some
            <==> kind.occurs(var) by {
        law_absent_variation_adds_nothing(
            kind,
            events,
            attrs,
            variants,
            var,
            import_path,
            site,
        );
    }
}

/// The redacted events of state events are expanded in three variations, those of message
/// events in two, and no other kind has any.
pub proof fn law_redacted_enums(
    kind: EventKind,
    events: Seq<Event>,
    attrs: Seq<Seq<Token>>,
    variants: Seq<Variant>,
    import_path: Seq<Token>,
    site: Span,
)
    ensures
        ({
            let full = any_enum(
                kind,
                events,
                attrs,
                variants,
                EventKindVariation::Redacted,
                import_path,
                site,
            );
            let sync = any_enum(
                kind,
                events,
                attrs,
                variants,
                EventKindVariation::RedactedSync,
                import_path,
                site,
            );
            let stripped = any_enum(
                kind,
                events,
                attrs,
                variants,
                EventKindVariation::RedactedStripped,
                import_path,
                site,
            );
            let all = redacted_enums(kind, events, attrs, variants, import_path, site);
            match kind {
                EventKind::State => full is Some && sync is Some && stripped is Some && all
                    == full.unwrap() + sync.unwrap() + stripped.unwrap(),
                EventKind::Message => full is Some && sync is Some && stripped is None && all
                    == full.unwrap() + sync.unwrap(),
                _ => full is None && sync is None && stripped is None && all == Seq::<
                    Token,
                >::empty(),
            }
        }),
{
    lemma_every_variation(kind, events, attrs, variants, import_path, site);
}

/// Which variations the expansion of each kind consists of: state events have all seven, message
/// events the full and the sync one and both of these redacted, ephemeral events the full and the
/// sync one, and the other kinds the full one alone. The content enum comes last.
pub proof fn law_variations_of_each_kind(
    kind: EventKind,
    attrs: Seq<Seq<Token>>,
    events: Seq<Event>,
    variants: Seq<Variant>,
    import_path: Seq<Token>,
    site: Span,
)
    ensures
        ({
            let all = expansion(kind, attrs, events, variants, import_path, site);
            let code = |var: EventKindVariation|
                any_enum(kind, events, attrs, variants, var, import_path, site).unwrap();
            let contents = content_enum(kind, events, attrs, variants, import_path, site);
            match kind {
                EventKind::State => all == code(EventKindVariation::Full) + code(
                    EventKindVariation::Sync,
                ) + code(EventKindVariation::Stripped) + code(EventKindVariation::Initial) + code(
                    EventKindVariation::Redacted,
                ) + code(EventKindVariation::RedactedSync) + code(
                    EventKindVariation::RedactedStripped,
                ) + contents,
                EventKind::Message => all == code(EventKindVariation::Full) + code(
                    EventKindVariation::Sync,
                ) + code(EventKindVariation::Redacted) + code(EventKindVariation::RedactedSync)
                    + contents,
                EventKind::Ephemeral => all == code(EventKindVariation::Full) + code(
                    EventKindVariation::Sync,
                ) + contents,
                EventKind::Basic => all == code(EventKindVariation::Full) + contents,
                EventKind::ToDevice => all == code(EventKindVariation::Full) + contents,
            }
        }),
{
    lemma_every_variation(kind, events, attrs, variants, import_path, site);
}

/// Redacted events have the accessors of their fields and no method that hands out a content;
/// events that have not been redacted have such a method before them.
pub proof fn law_redacted_events_hand_out_no_content(
    kind: EventKind,
    var: EventKindVariation,
    variants: Seq<Variant>,
    import_path: Seq<Token>,
    site: Span,
)
    requires
        kind.occurs(var),
    ensures
        ({
            let methods = concat(accessors(kind, var, variants, import_path, site));
            let contents = content_methods(kind, var, variants, site);
            &&& accessor_impl(kind, var, variants, import_path, site) == Some(
                quoted("impl"@, site) + name((kind.event_enum_name(var), site)) + braces(
                    contents + methods,
                ),
            )
            &&& contents.len() == 0 <==> var.redacted()
        }),
{
}

/// A redacted event has the same fields as the event that it was before. So a redaction fills in
/// exactly the fields that a redacted event has accessors for, which are those that it had
/// accessors for before.
pub proof fn law_redaction_keeps_fields(
    field: EventField,
    kind: EventKind,
    var: EventKindVariation,
    form: EventKindVariation,
    variants: Seq<Variant>,
    import_path: Seq<Token>,
    site: Span,
)
    requires
        redacted_form(var) == Some(form),
    ensures
        field.occurs(kind, form) == field.occurs(kind, var),
        redacted_field(field, kind, var, import_path, site).len() > 0 <==> accessor(
            field,
            kind,
            form,
            variants,
            import_path,
            site,
        ).len() > 0,
        accessor(field, kind, var, variants, import_path, site).len() > 0 <==> accessor(
            field,
            kind,
            form,
            variants,
            import_path,
            site,
        ).len() > 0,
{
}

/// The two conversions belong together: the sync form of the full form of a variation is that
/// variation, and the other way round; and an event enum has a conversion if and only if the enum
/// of the other form has one.
pub proof fn law_conversions_come_in_pairs(
    kind: EventKind,
    full: EventKindVariation,
    sync: EventKindVariation,
    variants: Seq<Variant>,
    import_path: Seq<Token>,
    site: Span,
)
    ensures
        sync_form(full) == Some(sync) <==> full_form(sync) == Some(full),
        sync_form(full) == Some(sync) ==> (conversion_impl(kind, full, variants, import_path, site)
            is Some <==> conversion_impl(kind, sync, variants, import_path, site) is Some),
{
}

/// Whether an arm takes an event out of `pattern` and puts what becomes of it into `target`.
pub open spec fn takes_to(
    arm: Seq<Token>,
    pattern: Seq<Token>,
    target: Seq<Token>,
    site: Span,
) -> bool {
    let head = pattern + parens(quoted("event"@, site)) + quoted("=>"@, site);
    exists|value: Seq<Token>|
        {
            let body = target + #[trigger] parens(value);
            ||| arm == head + body + quoted(","@, site)
            ||| arm == head + braces(body) + quoted(","@, site)
        }
}

/// The conversion of an event enum has exactly one arm for each variant: the variant's own, or
/// the arm for redactions. Where a redaction has its own arm, there is no other for redactions.
/// Either arm takes a variant of one enum to the same variant of the other. This holds unless
/// redactions are among events that are no messages.
pub proof fn law_conversion_has_one_arm_for_each_variant(
    kind: EventKind,
    var: EventKindVariation,
    variants: Seq<Variant>,
    i: int,
    ident: (Seq<char>, Span),
    other: (Seq<char>, Span),
    import_path: Seq<Token>,
    site: Span,
)
    requires
        0 <= i < variants.len(),
        kind == EventKind::Message || variants[i].ident.0 != "RoomRedaction"@,
    ensures
        sync_form(var) is Some ==> {
            let own = from_arms(variants, var, ident, other, import_path, site)[i];
            let redaction = from_redaction_arm(kind, var, ident, import_path, site);
            let from = name(ident) + quoted("::"@, site);
            let to = quoted("Self ::"@, site);
            if stands_apart(variants[i], var) {
                let variant = name(("RoomRedaction"@, site));
                own.len() == 0 && redaction.len() > 0 && takes_to(
                    redaction,
                    from + variant,
                    to + variant,
                    site,
                )
            } else {
                let variant = variant_tokens(variants[i]);
                &&& own.len() > 0 && takes_to(own, from + variant, to + variant, site)
                &&& variants[i].ident.0 == "RoomRedaction"@ ==> redaction.len() == 0
            }
        },
        full_form(var) is Some ==> {
            let own = into_full_arms(variants, var, other, site)[i];
            let redaction = into_full_redaction_arm(kind, var, other, site);
            let from = quoted("Self ::"@, site);
            let to = name(other) + quoted("::"@, site);
            if stands_apart(variants[i], var) {
                let variant = name(("RoomRedaction"@, site));
                own.len() == 0 && redaction.len() > 0 && takes_to(
                    redaction,
                    from + variant,
                    to + variant,
                    site,
                )
            } else {
                let variant = variant_tokens(variants[i]);
                &&& own.len() > 0 && takes_to(own, from + variant, to + variant, site)
                &&& variants[i].ident.0 == "RoomRedaction"@ ==> redaction.len() == 0
            }
        },
{
    let event = parens(quoted("event"@, site));
    let comma = quoted(","@, site);
    let arrow = quoted("=>"@, site);
    let self_path = quoted("Self ::"@, site);
    let call = parens(
        quoted("event . into_full_event"@, site) + parens(quoted("room_id"@, site)),
    );
    lemma_redaction_templates(site);
    if sync_form(var) is Some && stands_apart(variants[i], var) {
        let redaction = from_redaction_arm(kind, var, ident, import_path, site);
        let from = name(ident) + quoted("::"@, site);
        let variant = name(("RoomRedaction"@, site));
        let value = parens(
            import_path + quoted(":: room :: redaction :: SyncRedactionEvent :: from"@, site)
                + event + comma,
        );
        assert(redaction =~= from + variant + event + arrow + (self_path + variant + value)
            + comma);
    }
    if full_form(var) is Some && stands_apart(variants[i], var) {
        let redaction = into_full_redaction_arm(kind, var, other, site);
        let to = name(other) + quoted("::"@, site);
        let variant = name(("RoomRedaction"@, site));
        assert(name(other) + quoted(":: RoomRedaction"@, site) + call =~= to + variant + call);
        assert(redaction =~= self_path + variant + event + arrow + braces(to + variant + call)
            + comma);
    }
}

/// The templates that name redactions, word by word.
proof fn lemma_redaction_templates(site: Span)
    ensures
        ({
            let variant = name(("RoomRedaction"@, site));
            let path = quoted("::"@, site);
            let self_path = quoted("Self ::"@, site);
            &&& quoted(":: RoomRedaction"@, site) == path + variant
            &&& quoted("Self :: RoomRedaction"@, site) == self_path + variant
            &&& quoted("=> Self :: RoomRedaction"@, site) == quoted("=>"@, site) + (self_path
                + variant)
        }),
{
    reveal_strlit("RoomRedaction");
    reveal_strlit("::");
    reveal_strlit("=>");
    reveal_strlit("Self ::");
    reveal_strlit(":: RoomRedaction");
    reveal_strlit("Self :: RoomRedaction");
    reveal_strlit("=> Self :: RoomRedaction");
    law_template_is_read_word_by_word("RoomRedaction"@, ""@, site);
    law_template_is_read_word_by_word("::"@, "RoomRedaction"@, site);
    law_template_is_read_word_by_word("Self ::"@, "RoomRedaction"@, site);
    law_template_is_read_word_by_word("=>"@, "Self :: RoomRedaction"@, site);
    assert(":: RoomRedaction"@ =~= "::"@.push(' ') + "RoomRedaction"@);
    assert("Self :: RoomRedaction"@ =~= "Self ::"@.push(' ') + "RoomRedaction"@);
    assert("=> Self :: RoomRedaction"@ =~= "=>"@.push(' ') + "Self :: RoomRedaction"@);
}

/// Events can be redacted if and only if there is an enum of those of them that may have been.
pub proof fn law_redactable_events_may_be_redacted(
    ident: (Seq<char>, Span),
    kind: EventKind,
    var: EventKindVariation,
    variants: Seq<Variant>,
    import_path: Seq<Token>,
    site: Span,
)
    ensures
        redact_impl(ident, kind, var, variants, import_path, site) is Some
            <==> possibly_redacted_enum(kind, var, import_path, site) is Some,
{
}

/// The input, the path under which items are named and the span of the names decide what the
/// expansion gives: the same tokens, or an error with the same message at the same place.
pub proof fn law_expansion_is_determined(
    a: Result<TokenStream, EventTypeError>,
    b: Result<TokenStream, EventTypeError>,
    input: EventEnumInput,
    import_path: TokenStream,
    site: Span,
)
    requires
        is_expansion(a, input, import_path, site),
        is_expansion(b, input, import_path, site),
    ensures
        match (a, b) {
            (Ok(a), Ok(b)) => tokens_of(a) == tokens_of(b),
            (Err(a), Err(b)) => a.span == b.span && a.message@ == b.message@,
            _ => false,
        },
{
}

/// Nothing but the event types up to the first that does not start with `m.` decides the error
/// that comes of it.
pub proof fn law_first_rejected_entry_decides(
    a: Result<TokenStream, EventTypeError>,
    b: Result<TokenStream, EventTypeError>,
    input: EventEnumInput,
    other: EventEnumInput,
    import_path: TokenStream,
    other_path: TokenStream,
    site: Span,
    other_site: Span,
    i: int,
)
    requires
        is_expansion(a, input, import_path, site),
        is_expansion(b, other, other_path, other_site),
        0 <= i < input.events@.len(),
        i < other.events@.len(),
        well_known_before(input.events@, i),
        !is_well_known(input.events@[i].ev_type@.text),
        forall|j: int|
            0 <= j <= i ==> (#[trigger] input.events@[j]).ev_type@ == other.events@[j].ev_type@,
    ensures
        a matches Err(a) && b matches Err(b) && a.span == b.span && a.message@ == b.message@
            && a.span == input.events@[i].ev_type@.span && a.message@ == prefix_message(
            input.events@[i].ev_type@.text,
        ),
{
    assert(input.events@[i].ev_type@ == other.events@[i].ev_type@);
    assert(well_known_before(other.events@, i)) by {
        assert forall|j: int| 0 <= j < i implies is_well_known(
            (#[trigger] other.events@[j]).ev_type@.text,
        ) by {
            assert(input.events@[j].ev_type@ == other.events@[j].ev_type@);
        }
    }
}

/// Every entry has its own variant in an event enum, its own arm where events are read, and its
/// own variant and arm in the content enum, in the order of the entries.
pub proof fn law_every_entry_has_a_variant(
    entries: Seq<EventEnumEntry>,
    contents: Seq<Seq<Token>>,
    i: int,
    import_path: Seq<Token>,
    site: Span,
)
    requires
        0 <= i < entries.len(),
    ensures
        ({
            let events = entry_events(entries);
            let variants = entry_variants(entries);
            let event = entries[i].ev_type@;
            let variant = entry_variant(entries[i]);
            let lines = variant_lines(events, variants, contents, site);
            let reads = read_arms(events, variants, contents, import_path, site);
            let parts = from_parts_arms(events, variants, contents, site);
            &&& lines.len() == entries.len()
            &&& reads.len() == entries.len()
            &&& parts.len() == entries.len()
            &&& lines[i] == variant_line(event, variant, contents[i], site)
            &&& reads[i] == read_arm(event, variant, contents[i], import_path, site)
            &&& parts[i] == from_parts_arm(event, variant, contents[i], site)
        }),
{
}

/// Every variant has its own arm wherever the event or the content that an enum holds decides what
/// is done, in the order of the variants.
pub proof fn law_every_variant_has_an_arm(
    variants: Seq<Variant>,
    i: int,
    field: (Seq<char>, Span),
    other_enum: (Seq<char>, Span),
    redacted_struct: Seq<Token>,
    fields: Seq<Token>,
    site: Span,
)
    requires
        0 <= i < variants.len(),
    ensures
        ({
            let refer = field_arms(variants, field, site);
            let contents = content_arms(variants, other_enum, site);
            let replaced = prev_content_arms(variants, other_enum, site);
            let redact = redact_arms(variants, other_enum, redacted_struct, fields, site);
            let types = event_type_arms(variants, site);
            &&& refer.len() == variants.len()
            &&& contents.len() == variants.len()
            &&& replaced.len() == variants.len()
            &&& redact.len() == variants.len()
            &&& types.len() == variants.len()
            &&& refer[i] == field_arm(variants[i], field, site)
            &&& contents[i] == content_arm(variants[i], other_enum, site)
            &&& replaced[i] == prev_content_arm(variants[i], other_enum, site)
            &&& redact[i] == redact_arm(variants[i], other_enum, redacted_struct, fields, site)
            &&& types[i] == event_type_arm(variants[i], site)
        }),
{
}

/// No two event structs share a name: the name tells the kind and the variation.
pub proof fn law_event_names_are_distinct(
    kind: EventKind,
    var: EventKindVariation,
    other_kind: EventKind,
    other_var: EventKindVariation,
)
    requires
        kind.event_name(var) == other_kind.event_name(other_var),
    ensures
        kind == other_kind,
        var == other_var,
{
    reveal_names();
    let text = kind.event_name(var);
    let n = text.len();
    let a = kind.name();
    let b = other_kind.name();
    assert(text[n - 7] == a[a.len() - 7]);
    assert(other_kind.event_name(other_var)[n - 7] == b[b.len() - 7]);
    assert(text.take(n - a.len()) =~= var.prefix());
    assert(text.take(n - a.len()) =~= other_var.prefix());
}

/// No two enums of all expansions share a name: those of events, those of events that may have
/// been redacted and those of contents.
pub proof fn law_enum_names_are_distinct(
    kind: EventKind,
    var: EventKindVariation,
    other_kind: EventKind,
    other_var: EventKindVariation,
)
    ensures
        kind.event_enum_name(var) == other_kind.event_enum_name(other_var) ==> kind == other_kind
            && var == other_var,
        possibly_redacted_name(kind, var) == possibly_redacted_name(other_kind, other_var) ==> kind
            == other_kind && var == other_var,
        kind.content_enum_name() == other_kind.content_enum_name() ==> kind == other_kind,
        kind.event_enum_name(var) != possibly_redacted_name(other_kind, other_var),
        kind.event_enum_name(var) != other_kind.content_enum_name(),
        possibly_redacted_name(kind, var) != other_kind.content_enum_name(),
{
    reveal_names();
    reveal_strlit("Any");
    reveal_strlit("Content");
    reveal_strlit("AnyPossiblyRedacted");
    let a = kind.event_name(var);
    let b = other_kind.event_name(other_var);
    let any_a = kind.event_enum_name(var);
    let any_b = other_kind.event_enum_name(other_var);
    let maybe_a = possibly_redacted_name(kind, var);
    let maybe_b = possibly_redacted_name(other_kind, other_var);
    let content_a = kind.content_enum_name();
    let content_b = other_kind.content_enum_name();
    if any_a == any_b {
        assert(any_a.skip(3) =~= a);
        assert(any_b.skip(3) =~= b);
        law_event_names_are_distinct(kind, var, other_kind, other_var);
    }
    if maybe_a == maybe_b {
        assert(maybe_a.skip(19) =~= a);
        assert(maybe_b.skip(19) =~= b);
        law_event_names_are_distinct(kind, var, other_kind, other_var);
    }
    if content_a == content_b {
        let full = EventKindVariation::Full;
        let n = content_a.len();
        reveal_strlit("");
        assert(content_a.subrange(3, n - 7) =~= kind.event_name(full));
        assert(content_b.subrange(3, n - 7) =~= other_kind.event_name(full));
        law_event_names_are_distinct(kind, full, other_kind, full);
    }
    assert(any_a[3] == a[0]);
    assert(maybe_b[3] == 'P');
    assert(any_a[any_a.len() - 4] == 'v');
    assert(maybe_a[maybe_a.len() - 4] == 'v');
    assert(content_b[content_b.len() - 4] == 't');
}

proof fn reveal_names()
    ensures
        forall|kind: EventKind| #[trigger]
            kind.name().len() >= 10 && kind.name()[kind.name().len() - 4] == 'v'
                && kind.name()[0] != 'P',
        forall|kind: EventKind, other: EventKind|
            (#[trigger] kind.name())[kind.name().len() - 7] == (#[trigger] other.name())[
                other.name().len() - 7]
                ==> kind == other,
        forall|var: EventKindVariation|
            (#[trigger] var.prefix()).len() > 0 ==> var.prefix()[0] != 'P',
        forall|var: EventKindVariation, other: EventKindVariation|
            #[trigger] var.prefix() == #[trigger] other.prefix() ==> var == other,
{
    reveal_strlit("BasicEvent");
    reveal_strlit("EphemeralRoomEvent");
    reveal_strlit("MessageEvent");
    reveal_strlit("StateEvent");
    reveal_strlit("ToDeviceEvent");
    reveal_strlit("");
    reveal_strlit("Sync");
    reveal_strlit("Stripped");
    reveal_strlit("Initial");
    reveal_strlit("Redacted");
    reveal_strlit("RedactedSync");
    reveal_strlit("RedactedStripped");
    assert forall|var: EventKindVariation, other: EventKindVariation| #[trigger]
        var.prefix() == #[trigger] other.prefix() implies var == other by {
        assert(var.prefix().len() == other.prefix().len());
        assert(var.prefix()[0] == other.prefix()[0]);
    }
}

/// The pieces in turn, with a character between any two.
pub open spec fn joined(list: Seq<Seq<char>>, between: char) -> Seq<char>
    decreases list.len(),
{
    if list.len() == 0 {
        Seq::empty()
    } else if list.len() == 1 {
        list[0]
    } else {
        joined(list.drop_last(), between).push(between) + list.last()
    }
}

/// Cutting a text loses nothing: its pieces hold no separator, and where only one character cuts,
/// the pieces with that character between them are the text.
pub proof fn law_pieces_make_up_the_text(text: Seq<char>, separator: Separator, between: char)
    ensures
        pieces(text, separator).len() > 0,
        forall|i: int, j: int|
            0 <= i < pieces(text, separator).len() && 0 <= j < pieces(text, separator)[i].len()
                ==> !separator.cuts(#[trigger] pieces(text, separator)[i][j]),
        (forall|c: char| #[trigger] separator.cuts(c) <==> c == between) ==> joined(
            pieces(text, separator),
            between,
        ) == text,
    decreases text.len(),
{
    if text.len() > 0 {
        let before = pieces(text.drop_last(), separator);
        law_pieces_make_up_the_text(text.drop_last(), separator, between);
        let after = pieces(text, separator);
        assert(text.drop_last().push(text.last()) =~= text);
        if separator.cuts(text.last()) {
            assert(after.drop_last() =~= before);
            assert forall|i: int, j: int|
                0 <= i < after.len() && 0 <= j < after[i].len() implies !separator.cuts(
                #[trigger] after[i][j],
            ) by {
                assert(before[i][j] == after[i][j]);
            }
        } else {
            assert(after.drop_last() =~= before.drop_last());
            assert forall|i: int, j: int|
                0 <= i < after.len() && 0 <= j < after[i].len() implies !separator.cuts(
                #[trigger] after[i][j],
            ) by {
                if i < before.len() - 1 || j < before.last().len() {
                    assert(before[i][j] == after[i][j]);
                }
            }
            assert(joined(after, between) =~= joined(before, between).push(text.last()));
        }
    }
}

/// Texts put together with a separator between them have the pieces of both.
pub proof fn law_pieces_of_two_texts(
    head: Seq<char>,
    between: char,
    tail: Seq<char>,
    separator: Separator,
)
    requires
        separator.cuts(between),
    ensures
        pieces(head.push(between) + tail, separator) == pieces(head, separator) + pieces(
            tail,
            separator,
        ),
    decreases tail.len(),
{
    let text = head.push(between) + tail;
    if tail.len() == 0 {
        assert(text.drop_last() =~= head);
        assert(text.last() == between);
    } else {
        law_pieces_of_two_texts(head, between, tail.drop_last(), separator);
        law_pieces_make_up_the_text(tail.drop_last(), separator, between);
        assert(text.drop_last() =~= head.push(between) + tail.drop_last());
        assert(text.last() == tail.last());
    }
}

/// A template is read word by word: the tokens of two templates with a space between them are
/// the tokens of the first and then those of the second, and a template without a space is one
/// word.
pub proof fn law_template_is_read_word_by_word(head: Seq<char>, tail: Seq<char>, site: Span)
    ensures
        quoted(head.push(' ') + tail, site) == quoted(head, site) + quoted(tail, site),
        !head.contains(' ') ==> quoted(head, site) == word_tokens(head, site),
{
    law_pieces_of_two_texts(head, ' ', tail, Separator::Space);
    lemma_words_of_two(pieces(head, Separator::Space), pieces(tail, Separator::Space), site);
    if !head.contains(' ') {
        lemma_one_piece(head, Separator::Space);
        let words = pieces(head, Separator::Space);
        assert(all_word_tokens(words.drop_last(), site) =~= Seq::empty());
    }
}

/// Names, literals and words of templates are written as they are: an identifier in ASCII holds
/// its text, a string literal its value, and an operator is its characters, each joined to the
/// next, or, if it is an apostrophe, to the name behind it.
pub proof fn law_tokens_are_written_as_they_are(text: Seq<char>, span: Span)
    ensures
        is_ascii_text(text) ==> name((text, span)) == seq![Token::Ident(text, span)],
        literal(text, span) == seq![Token::Str(text, span)],
        is_ascii_ident(text) ==> quoted(text, span) == seq![Token::Ident(text, span)],
        text.len() > 0 && is_operator(text) ==> quoted(text, span).len() == text.len() && forall|
            i: int,
        |
            0 <= i < text.len() ==> #[trigger] quoted(text, span)[i] == Token::Punct(
                text[i],
                i + 1 < text.len() || text[i] == '\'',
            ),
{
    if is_ascii_ident(text) || text.len() > 0 && is_operator(text) {
        assert(!text.contains(' ')) by {
            if text.contains(' ') {
                let i = choose|i: int| 0 <= i < text.len() && text[i] == ' ';
                if is_ascii_ident(text) {
                    assert(is_ascii_word(text[i]));
                } else {
                    assert(is_punct(text[i]));
                }
            }
        }
        law_template_is_read_word_by_word(text, Seq::empty(), span);
        if !is_ascii_ident(text) {
            assert(quoted(text, span) =~= operator_tokens(text));
            assert forall|i: int| 0 <= i < text.len() implies #[trigger] quoted(text, span)[i]
                == Token::Punct(text[i], i + 1 < text.len() || text[i] == '\'') by {
                assert(operator_tokens(text)[i] == operator_token(text, i));
            }
        } else if is_operator(text) {
            assert(is_punct(text[0]));
        }
    }
}

proof fn lemma_words_of_two(head: Seq<Seq<char>>, tail: Seq<Seq<char>>, site: Span)
    ensures
        all_word_tokens(head + tail, site) == all_word_tokens(head, site) + all_word_tokens(
            tail,
            site,
        ),
    decreases tail.len(),
{
    if tail.len() == 0 {
        assert(head + tail =~= head);
    } else {
        lemma_words_of_two(head, tail.drop_last(), site);
        assert((head + tail).drop_last() =~= head + tail.drop_last());
    }
}

proof fn lemma_one_piece(text: Seq<char>, separator: Separator)
    requires
        forall|i: int| 0 <= i < text.len() ==> !separator.cuts(#[trigger] text[i]),
    ensures
        pieces(text, separator) == seq![text],
    decreases text.len(),
{
    if text.len() > 0 {
        lemma_one_piece(text.drop_last(), separator);
        assert(text.drop_last().push(text.last()) =~= text);
    } else {
        assert(text =~= Seq::empty());
    }
}

/// The modules in camel case, one behind the other.
pub open spec fn module_names(list: Seq<Seq<char>>) -> Seq<char>
    decreases list.len(),
{
    if list.len() == 0 {
        Seq::empty()
    } else {
        module_names(list.drop_last()) + camel(pieces(list.last(), Separator::Underscore))
    }
}

/// The name of a variant is made of the names of the modules that lead to its event, and ends in
/// the name of the event itself.
pub proof fn law_variant_name_ends_in_event_name(text: Seq<char>)
    ensures
        variant_name(text) == module_names(modules(text)),
        variant_name(text) == module_names(modules(text).drop_last()) + event_name(text),
{
    let inner = without_prefix(text);
    lemma_pieces_of_modules(inner);
    lemma_camel_of_modules(modules(text));
    law_pieces_make_up_the_text(inner, Separator::Dot, '.');
}

/// The pieces at underscores of all texts of a list.
spec fn words_of(list: Seq<Seq<char>>) -> Seq<Seq<char>>
    decreases list.len(),
{
    if list.len() == 0 {
        Seq::empty()
    } else {
        words_of(list.drop_last()) + pieces(list.last(), Separator::Underscore)
    }
}

proof fn lemma_pieces_of_modules(text: Seq<char>)
    ensures
        pieces(text, Separator::DotOrUnderscore) == words_of(pieces(text, Separator::Dot)),
    decreases text.len(),
{
    let after = pieces(text, Separator::Dot);
    if text.len() == 0 {
        assert(after.drop_last() =~= Seq::empty());
        assert(words_of(after.drop_last()) =~= Seq::empty());
        assert(after.last() =~= Seq::empty());
    } else {
        let before = pieces(text.drop_last(), Separator::Dot);
        lemma_pieces_of_modules(text.drop_last());
        law_pieces_make_up_the_text(text.drop_last(), Separator::Dot, '.');
        if text.last() == '.' {
            assert(after.drop_last() =~= before);
            assert(pieces(after.last(), Separator::Underscore) =~= seq![Seq::empty()]);
        } else {
            let word = before.last();
            law_pieces_make_up_the_text(word, Separator::Underscore, '_');
            assert(after.drop_last() =~= before.drop_last());
            assert(after.last().drop_last() =~= word);
        }
    }
}

proof fn lemma_camel_of_two(head: Seq<Seq<char>>, tail: Seq<Seq<char>>)
    ensures
        camel(head + tail) == camel(head) + camel(tail),
    decreases tail.len(),
{
    if tail.len() == 0 {
        assert(head + tail =~= head);
    } else {
        lemma_camel_of_two(head, tail.drop_last());
        assert((head + tail).drop_last() =~= head + tail.drop_last());
    }
}

proof fn lemma_camel_of_modules(list: Seq<Seq<char>>)
    ensures
        camel(words_of(list)) == module_names(list),
    decreases list.len(),
{
    if list.len() > 0 {
        lemma_camel_of_modules(list.drop_last());
        lemma_camel_of_two(
            words_of(list.drop_last()),
            pieces(list.last(), Separator::Underscore),
        );
    }
}

} // verus!
