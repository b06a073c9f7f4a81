//! The conversions of an event enum and how it is redacted, told from the tokens of the generated
//! code.

use crate::code::{
    called, count_filled, filled, inside, is_complete, is_part, lemma_one_part,
    lemma_parts_and_last, lemma_parts_and_two, lemma_parts_of_filled, lemma_parts_of_two,
    lemma_place_in_filled, members, parts, End,
};
use crate::conversion::{
    conversion_impl, from_arm, from_arms, from_impl, from_redaction_arm, into_full_arm,
    into_full_arms, into_full_redaction_arm, sync_form,
};
use crate::event_enum::any_enum;
use crate::event_type::Event;
use crate::field::{all_fields, EventField};
use crate::generated::named;
use crate::items::{
    are_attributes, are_tidy, block_at_end, enum_ident, from_head, group_code, is_path, items_of,
    lemma_select,
};
use crate::kind::{EventKind, EventKindVariation};
use crate::laws::law_template_is_read_word_by_word;
use crate::methods::{
    custom_into_full_arm, is_redactable, lemma_into_full_method, lemma_redact_method, method,
    methods,
};
use crate::redaction::{
    redact_arm, redact_arms, redact_custom_arm, redacted_field, redacted_fields, redacted_form,
};
use crate::token::{braces, concat, name, parens, quoted, Token};
use crate::variant::Variant;
use proc_macro2::Span;
use vstd::prelude::*;

verus! {

/// Whether a variant is converted by an arm of its own: all are but redactions that have not been
/// redacted.
pub open spec fn has_own_arm(variant: Variant, var: EventKindVariation) -> bool {
    variant.ident.0 != "RoomRedaction"@ || var == EventKindVariation::Redacted || var
        == EventKindVariation::RedactedSync
}

/// How many of the first `n` variants are converted by an arm of their own.
pub open spec fn own_arms_before(variants: Seq<Variant>, var: EventKindVariation, n: int) -> int
    decreases n,
{
    if n <= 0 {
        0
    } else {
        own_arms_before(variants, var, n - 1) + if has_own_arm(variants[n - 1], var) {
            1int
        } else {
            0
        }
    }
}

/// The arm of the conversion into sync events for events without a variant.
pub open spec fn custom_from_arm(
    ident: (Seq<char>, Span),
    sync_struct: (Seq<char>, Span),
    import_path: Seq<Token>,
    site: Span,
) -> Seq<Token> {
    name(ident) + quoted(":: Custom"@, site) + parens(quoted("event"@, site)) + quoted("=>"@, site)
        + braces(
        quoted("Self :: Custom"@, site) + parens(
            import_path + quoted("::"@, site) + name(sync_struct) + quoted(":: from"@, site)
                + parens(quoted("event"@, site)),
        ),
    ) + quoted(","@, site)
}

/// Events that name their room can be converted into events that do not. The `match` of the
/// conversion has one arm for each variant, in their order, and the one for custom events behind
/// them, and every arm takes a variant of the one enum to the same variant of the other. Only
/// redactions among messages, while they have not been redacted, are converted in an arm behind
/// those of the other variants, since they have a struct of their own.
#[verifier::spinoff_prover]
#[verifier::rlimit(40)]
pub proof fn law_events_are_converted_into_sync_events(
    kind: EventKind,
    events: Seq<Event>,
    attrs: Seq<Seq<Token>>,
    variants: Seq<Variant>,
    var: EventKindVariation,
    import_path: Seq<Token>,
    site: Span,
    form: EventKindVariation,
    i: int,
)
    requires
        var == EventKindVariation::Full && form == EventKindVariation::Sync || var
            == EventKindVariation::Redacted && form == EventKindVariation::RedactedSync,
        kind.occurs(var),
        kind.occurs(form),
        are_attributes(attrs),
        are_tidy(variants),
        is_path(import_path),
        0 <= i <= variants.len(),
    ensures
        ({
            let ident = enum_ident(kind, var, site);
            let sync = enum_ident(kind, form, site);
            let sync_struct = (kind.event_name(form), site);
            let code = any_enum(kind, events, attrs, variants, var, import_path, site).unwrap();
            let functions = members(
                parts(code, End::Block),
                from_head(ident, sync, site),
                End::Block,
            );
            let block = inside(inside(functions[0]));
            let arms = parts(block, End::Comma);
            let own = own_arms_before(variants, var, variants.len() as int);
            let place = own_arms_before(variants, var, i);
            let redactions_apart = kind == EventKind::Message && var == EventKindVariation::Full;
            &&& functions.len() == 1
            &&& functions[0] == quoted("fn from"@, site) + parens(
                quoted("event :"@, site) + name(ident),
            ) + quoted("-> Self"@, site) + braces(quoted("match event"@, site) + braces(block))
            &&& is_complete(block, End::Comma)
            &&& arms.len() == own + 1 + if redactions_apart {
                1int
            } else {
                0
            }
            &&& i < variants.len() && has_own_arm(variants[i], var) ==> 0 <= place < own
                && arms[place] == name(ident) + quoted("::"@, site) + named(variants[i]) + parens(
                quoted("event"@, site),
            ) + quoted("=>"@, site) + braces(
                quoted("Self ::"@, site) + named(variants[i]) + parens(
                    import_path + quoted("::"@, site) + name(sync_struct) + quoted(
                        ":: from"@,
                        site,
                    ) + parens(quoted("event"@, site)),
                ),
            ) + quoted(","@, site)
            &&& redactions_apart ==> arms[own] == name(ident) + quoted(":: RoomRedaction"@, site)
                + parens(quoted("event"@, site)) + quoted("=> Self :: RoomRedaction"@, site)
                + parens(
                import_path + quoted(":: room :: redaction :: SyncRedactionEvent :: from"@, site)
                    + parens(quoted("event"@, site)) + quoted(","@, site),
            ) + quoted(","@, site)
            &&& arms.last() == custom_from_arm(ident, sync_struct, import_path, site)
        }),
{
    let ident = enum_ident(kind, var, site);
    let sync = enum_ident(kind, form, site);
    let sync_struct = (kind.event_name(form), site);
    let list = from_arms(variants, var, ident, sync_struct, import_path, site);
    let extra = from_redaction_arm(kind, var, ident, import_path, site);
    let custom = custom_from_arm(ident, sync_struct, import_path, site);
    lemma_select(kind, events, attrs, variants, var, import_path, site);
    let x = items_of(kind, events, attrs, variants, var, import_path, site);
    assert(x.c == conversion_impl(kind, var, variants, import_path, site)) by {
        reveal(items_of);
    }
    lemma_from_function(kind, form, variants, var, import_path, site);
    assert forall|j: int| 0 <= j < list.len() implies is_part(#[trigger] list[j], End::Comma)
        || list[j].len() == 0 by {
        assert(are_attributes(variants[j].attrs));
        lemma_from_arm_part(variants[j], var, ident, sync_struct, import_path, site);
    }
    lemma_from_extra_part(kind, var, ident, sync_struct, import_path, site);
    lemma_parts_and_two(list, extra, custom, End::Comma);
    lemma_place_in_filled(list);
    lemma_from_count(variants, var, ident, sync_struct, import_path, site, i);
    lemma_from_count(
        variants,
        var,
        ident,
        sync_struct,
        import_path,
        site,
        variants.len() as int,
    );
    if i < variants.len() {
        assert(list[i] == from_arm(variants[i], var, ident, sync_struct, import_path, site));
    }
}

proof fn lemma_from_function(
    kind: EventKind,
    form: EventKindVariation,
    variants: Seq<Variant>,
    var: EventKindVariation,
    import_path: Seq<Token>,
    site: Span,
)
    requires
        sync_form(var) == Some(form),
        kind.occurs(var),
        kind.occurs(form),
    ensures
        ({
            let ident = enum_ident(kind, var, site);
            let sync_struct = (kind.event_name(form), site);
            let c = conversion_impl(kind, var, variants, import_path, site);
            let block = concat(from_arms(variants, var, ident, sync_struct, import_path, site))
                + from_redaction_arm(kind, var, ident, import_path, site) + custom_from_arm(
                ident,
                sync_struct,
                import_path,
                site,
            );
            let function = quoted("fn from"@, site) + parens(
                quoted("event :"@, site) + name(ident),
            ) + quoted("-> Self"@, site) + braces(quoted("match event"@, site) + braces(block));
            &&& c is Some
            &&& parts(inside(c.unwrap()), End::Block) == seq![function]
            &&& inside(inside(function)) == block
        }),
{
    broadcast use {group_code, block_at_end};

    let ident = enum_ident(kind, var, site);
    let sync = enum_ident(kind, form, site);
    let sync_struct = (kind.event_name(form), site);
    let c = conversion_impl(kind, var, variants, import_path, site).unwrap();
    let start = concat(from_arms(variants, var, ident, sync_struct, import_path, site))
        + from_redaction_arm(kind, var, ident, import_path, site);
    let block = start + custom_from_arm(ident, sync_struct, import_path, site);
    let function = quoted("fn from"@, site) + parens(quoted("event :"@, site) + name(ident))
        + quoted("-> Self"@, site) + braces(quoted("match event"@, site) + braces(block));
    assert(c == from_impl(ident, sync, sync_struct, start, import_path, site));
    assert(inside(inside(inside(c))) =~= block);
    assert(inside(c) =~= function);
    lemma_one_part(function, End::Block);
}

proof fn lemma_from_arm_part(
    variant: Variant,
    var: EventKindVariation,
    ident: (Seq<char>, Span),
    sync_struct: (Seq<char>, Span),
    import_path: Seq<Token>,
    site: Span,
)
    requires
        are_attributes(variant.attrs),
    ensures
        ({
            let arm = from_arm(variant, var, ident, sync_struct, import_path, site);
            is_part(arm, End::Comma) || arm.len() == 0
        }),
{
    broadcast use group_code;

}

proof fn lemma_from_extra_part(
    kind: EventKind,
    var: EventKindVariation,
    ident: (Seq<char>, Span),
    sync_struct: (Seq<char>, Span),
    import_path: Seq<Token>,
    site: Span,
)
    ensures
        ({
            let arm = from_redaction_arm(kind, var, ident, import_path, site);
            is_part(arm, End::Comma) || arm.len() == 0
        }),
        is_part(custom_from_arm(ident, sync_struct, import_path, site), End::Comma),
{
    broadcast use group_code;

}

proof fn lemma_from_count(
    variants: Seq<Variant>,
    var: EventKindVariation,
    ident: (Seq<char>, Span),
    sync_struct: (Seq<char>, Span),
    import_path: Seq<Token>,
    site: Span,
    n: int,
)
    requires
        var == EventKindVariation::Full || var == EventKindVariation::Redacted,
        0 <= n <= variants.len(),
    ensures
        count_filled(from_arms(variants, var, ident, sync_struct, import_path, site), n)
            == own_arms_before(variants, var, n),
        forall|i: int|
            0 <= i < variants.len() ==> (has_own_arm(#[trigger] variants[i], var) <==> from_arms(
                variants,
                var,
                ident,
                sync_struct,
                import_path,
                site,
            )[i].len() > 0),
    decreases n,
{
    if n > 0 {
        lemma_from_count(variants, var, ident, sync_struct, import_path, site, n - 1);
    }
}

/// Events without a room can be given one and become full events. The `match` of the conversion
/// has one arm for each variant, in their order, and the one for custom events behind them, and
/// every arm takes a variant of the one enum to the same variant of the other. Only redactions
/// among messages, while they have not been redacted, are converted in an arm behind those of the
/// other variants.
#[verifier::spinoff_prover]
#[verifier::rlimit(40)]
pub proof fn law_events_are_converted_into_full_events(
    kind: EventKind,
    events: Seq<Event>,
    attrs: Seq<Seq<Token>>,
    variants: Seq<Variant>,
    var: EventKindVariation,
    import_path: Seq<Token>,
    site: Span,
    form: EventKindVariation,
    i: int,
)
    requires
        var == EventKindVariation::Sync && form == EventKindVariation::Full || var
            == EventKindVariation::RedactedSync && form == EventKindVariation::Redacted,
        kind.occurs(var),
        are_attributes(attrs),
        are_tidy(variants),
        is_path(import_path),
        0 <= i <= variants.len(),
    ensures
        ({
            let full = enum_ident(kind, form, site);
            let found = called(
                methods(kind, events, attrs, variants, var, import_path, site),
                "into_full_event"@,
            );
            let block = inside(inside(found[0]));
            let arms = parts(block, End::Comma);
            let own = own_arms_before(variants, var, variants.len() as int);
            let place = own_arms_before(variants, var, i);
            let redactions_apart = kind == EventKind::Message && var == EventKindVariation::Sync;
            &&& found.len() == 1
            &&& found[0] == method(
                " Convert this sync event into a full event, one with a room_id field."@,
                quoted("pub fn into_full_event"@, site),
                quoted("self , room_id :"@, site) + import_path + quoted(
                    ":: exports :: ruma_identifiers :: RoomId"@,
                    site,
                ),
                quoted("->"@, site) + name(full),
                block,
                site,
            )
            &&& is_complete(block, End::Comma)
            &&& arms.len() == own + 1 + if redactions_apart {
                1int
            } else {
                0
            }
            &&& i < variants.len() && has_own_arm(variants[i], var) ==> 0 <= place < own
                && arms[place] == quoted("Self ::"@, site) + named(variants[i]) + parens(
                quoted("event"@, site),
            ) + quoted("=>"@, site) + braces(
                name(full) + quoted("::"@, site) + named(variants[i]) + parens(
                    quoted("event . into_full_event"@, site) + parens(quoted("room_id"@, site)),
                ),
            ) + quoted(","@, site)
            &&& redactions_apart ==> arms[own] == quoted("Self :: RoomRedaction"@, site) + parens(
                quoted("event"@, site),
            ) + quoted("=>"@, site) + braces(
                name(full) + quoted(":: RoomRedaction"@, site) + parens(
                    quoted("event . into_full_event"@, site) + parens(quoted("room_id"@, site)),
                ),
            ) + quoted(","@, site)
            &&& arms.last() == custom_into_full_arm(full, site)
        }),
{
    let full = enum_ident(kind, form, site);
    let list = into_full_arms(variants, var, full, site);
    let extra = into_full_redaction_arm(kind, var, full, site);
    let custom = custom_into_full_arm(full, site);
    lemma_into_full_method(kind, events, attrs, variants, var, import_path, site, form);
    assert forall|j: int| 0 <= j < list.len() implies is_part(#[trigger] list[j], End::Comma)
        || list[j].len() == 0 by {
        assert(are_attributes(variants[j].attrs));
        lemma_into_full_arm_part(variants[j], var, full, site);
    }
    lemma_into_full_extra_part(kind, var, full, site);
    lemma_parts_and_two(list, extra, custom, End::Comma);
    lemma_place_in_filled(list);
    lemma_into_full_count(variants, var, full, site, i);
    lemma_into_full_count(variants, var, full, site, variants.len() as int);
    if i < variants.len() {
        assert(list[i] == into_full_arm(variants[i], var, full, site));
    }
}

proof fn lemma_into_full_arm_part(
    variant: Variant,
    var: EventKindVariation,
    full: (Seq<char>, Span),
    site: Span,
)
    requires
        are_attributes(variant.attrs),
    ensures
        ({
            let arm = into_full_arm(variant, var, full, site);
            is_part(arm, End::Comma) || arm.len() == 0
        }),
{
    broadcast use group_code;

}

proof fn lemma_into_full_extra_part(
    kind: EventKind,
    var: EventKindVariation,
    full: (Seq<char>, Span),
    site: Span,
)
    ensures
        ({
            let arm = into_full_redaction_arm(kind, var, full, site);
            is_part(arm, End::Comma) || arm.len() == 0
        }),
        is_part(custom_into_full_arm(full, site), End::Comma),
{
    broadcast use group_code;

}

proof fn lemma_into_full_count(
    variants: Seq<Variant>,
    var: EventKindVariation,
    full: (Seq<char>, Span),
    site: Span,
    n: int,
)
    requires
        var == EventKindVariation::Sync || var == EventKindVariation::RedactedSync,
        0 <= n <= variants.len(),
    ensures
        count_filled(into_full_arms(variants, var, full, site), n) == own_arms_before(
            variants,
            var,
            n,
        ),
        forall|i: int|
            0 <= i < variants.len() ==> (has_own_arm(#[trigger] variants[i], var)
                <==> into_full_arms(variants, var, full, site)[i].len() > 0),
    decreases n,
{
    if n > 0 {
        lemma_into_full_count(variants, var, full, site, n - 1);
    }
}

/// The fields that an event of this kind keeps when it is redacted, in their order: those that
/// its redacted form has.
pub open spec fn kept_fields(kind: EventKind, form: EventKindVariation) -> Seq<EventField> {
    match (kind, form) {
        (EventKind::Message, EventKindVariation::Redacted) => seq![
            EventField::OriginServerTs,
            EventField::RoomId,
            EventField::EventId,
            EventField::Sender,
            EventField::Unsigned,
        ],
        (EventKind::Message, EventKindVariation::RedactedSync) => seq![
            EventField::OriginServerTs,
            EventField::EventId,
            EventField::Sender,
            EventField::Unsigned,
        ],
        (EventKind::State, EventKindVariation::Redacted) => seq![
            EventField::OriginServerTs,
            EventField::RoomId,
            EventField::EventId,
            EventField::Sender,
            EventField::StateKey,
            EventField::Unsigned,
        ],
        (EventKind::State, EventKindVariation::RedactedSync) => seq![
            EventField::OriginServerTs,
            EventField::EventId,
            EventField::Sender,
            EventField::StateKey,
            EventField::Unsigned,
        ],
        (EventKind::State, EventKindVariation::RedactedStripped) => seq![
            EventField::Sender,
            EventField::StateKey,
        ],
        _ => Seq::empty(),
    }
}

/// What a field of a redacted event is set to: `unsigned` to the redaction, every other field to
/// what it was.
pub open spec fn set_field(
    field: EventField,
    form: EventKindVariation,
    import_path: Seq<Token>,
    site: Span,
) -> Seq<Token> {
    if field == EventField::Unsigned {
        quoted("unsigned :"@, site) + import_path + quoted(
            if form == EventKindVariation::RedactedSync {
                ":: RedactedSyncUnsigned"@
            } else {
                ":: RedactedUnsigned"@
            },
            site,
        ) + braces(
            quoted("redacted_because : Some"@, site) + parens(
                quoted(":: std :: boxed :: Box :: new"@, site) + parens(
                    quoted("redaction"@, site),
                ),
            ) + quoted(","@, site),
        ) + quoted(","@, site)
    } else {
        name((field.name(), site)) + quoted(": event ."@, site) + name((field.name(), site))
            + quoted(","@, site)
    }
}

/// Whether `arm` redacts an event out of `pattern` into `target`: it redacts the content, and
/// builds the event struct of the redacted form of that content and of all fields that the form
/// has.
pub open spec fn redacts(
    arm: Seq<Token>,
    pattern: Seq<Token>,
    target: Seq<Token>,
    kind: EventKind,
    form: EventKindVariation,
    import_path: Seq<Token>,
    site: Span,
) -> bool {
    let value = inside(inside(arm));
    let fields = inside(value);
    let list = parts(fields, End::Comma);
    &&& arm == pattern + parens(quoted("event"@, site)) + quoted("=>"@, site) + braces(
        quoted("let content = event . content . redact"@, site) + parens(quoted("version"@, site))
            + quoted(";"@, site) + target + parens(value),
    )
    &&& value == import_path + quoted("::"@, site) + name((kind.event_name(form), site)) + braces(
        fields,
    )
    &&& is_complete(fields, End::Comma)
    &&& list.len() == kept_fields(kind, form).len() + 1
    &&& list[0] == quoted("content ,"@, site)
    &&& forall|j: int|
        0 <= j < kept_fields(kind, form).len() ==> #[trigger] list[j + 1] == set_field(
            kept_fields(kind, form)[j],
            form,
            import_path,
            site,
        )
}

/// Events that can be redacted have a method for it with one arm for each variant, in their order,
/// and the one for custom events behind them. Every arm takes a variant to the same variant of the
/// redacted enum. It redacts the content of the event, and fills in, beside the content, exactly
/// the fields that the redacted form has: `unsigned` with the redaction as the reason, and every
/// other field as it was.
#[verifier::spinoff_prover]
#[verifier::rlimit(40)]
pub proof fn law_events_are_redacted(
    kind: EventKind,
    events: Seq<Event>,
    attrs: Seq<Seq<Token>>,
    variants: Seq<Variant>,
    var: EventKindVariation,
    import_path: Seq<Token>,
    site: Span,
    form: EventKindVariation,
    i: int,
)
    requires
        is_redactable(kind, var),
        var == EventKindVariation::Full && form == EventKindVariation::Redacted || var
            == EventKindVariation::Sync && form == EventKindVariation::RedactedSync || var
            == EventKindVariation::Stripped && form == EventKindVariation::RedactedStripped,
        are_attributes(attrs),
        are_tidy(variants),
        is_path(import_path),
        0 <= i <= variants.len(),
    ensures
        ({
            let redacted_enum = enum_ident(kind, form, site);
            let found = called(
                methods(kind, events, attrs, variants, var, import_path, site),
                "redact"@,
            );
            let block = inside(inside(found[0]));
            let arms = parts(block, End::Block);
            &&& found.len() == 1
            &&& found[0] == method(
                " Redacts `Self` given a valid `Redaction[Sync]Event`."@,
                quoted("pub fn redact"@, site),
                quoted("self , redaction :"@, site) + import_path + quoted(
                    if var == EventKindVariation::Full {
                        ":: room :: redaction :: RedactionEvent"@
                    } else {
                        ":: room :: redaction :: SyncRedactionEvent"@
                    },
                    site,
                ) + quoted(", version :"@, site) + import_path + quoted(
                    ":: exports :: ruma_identifiers :: RoomVersionId ,"@,
                    site,
                ),
                quoted("->"@, site) + name(redacted_enum),
                block,
                site,
            )
            &&& is_complete(block, End::Block)
            &&& arms.len() == variants.len() + 1
            &&& i < variants.len() ==> redacts(
                arms[i],
                quoted("Self ::"@, site) + named(variants[i]),
                name(redacted_enum) + quoted("::"@, site) + named(variants[i]),
                kind,
                form,
                import_path,
                site,
            )
            &&& redacts(
                arms[variants.len() as int],
                quoted("Self :: Custom"@, site),
                name(redacted_enum) + quoted(":: Custom"@, site),
                kind,
                form,
                import_path,
                site,
            )
        }),
{
    let redacted_enum = enum_ident(kind, form, site);
    let redacted_struct = import_path + quoted("::"@, site) + name((kind.event_name(form), site));
    let fields = concat(redacted_fields(kind, var, import_path, site));
    let list = redact_arms(variants, redacted_enum, redacted_struct, fields, site);
    let custom = redact_custom_arm(redacted_enum, redacted_struct, fields, site);
    lemma_redact_method(kind, events, attrs, variants, var, import_path, site, form);
    assert forall|j: int| 0 <= j < list.len() implies is_part(#[trigger] list[j], End::Block) by {
        assert(are_attributes(variants[j].attrs));
        lemma_redact_arm_part(variants[j], redacted_enum, redacted_struct, fields, site);
    }
    assert(is_part(custom, End::Block)) by {
        broadcast use group_code;

    }
    lemma_parts_and_last(list, custom, End::Block);
    lemma_kept_fields(kind, var, form, import_path, site);
    if i < variants.len() {
        assert(list[i] == redact_arm(
            variants[i],
            redacted_enum,
            redacted_struct,
            fields,
            site,
        ));
        lemma_redacts(
            quoted("Self ::"@, site) + named(variants[i]),
            name(redacted_enum) + quoted("::"@, site) + named(variants[i]),
            kind,
            var,
            form,
            import_path,
            site,
        );
        assert(list[i] =~= redact_tokens(
            quoted("Self ::"@, site) + named(variants[i]),
            name(redacted_enum) + quoted("::"@, site) + named(variants[i]),
            redacted_struct,
            fields,
            site,
        )) by {
            lemma_redact_arm_tokens(variants[i], redacted_enum, redacted_struct, fields, site);
        }
    }
    lemma_redacts(
        quoted("Self :: Custom"@, site),
        name(redacted_enum) + quoted(":: Custom"@, site),
        kind,
        var,
        form,
        import_path,
        site,
    );
    assert(custom =~= redact_tokens(
        quoted("Self :: Custom"@, site),
        name(redacted_enum) + quoted(":: Custom"@, site),
        redacted_struct,
        fields,
        site,
    )) by {
        lemma_redact_custom_tokens(redacted_enum, redacted_struct, fields, site);
    }
}

/// An arm that redacts an event.
spec fn redact_tokens(
    pattern: Seq<Token>,
    target: Seq<Token>,
    redacted_struct: Seq<Token>,
    fields: Seq<Token>,
    site: Span,
) -> Seq<Token> {
    pattern + parens(quoted("event"@, site)) + quoted("=>"@, site) + braces(
        quoted("let content = event . content . redact"@, site) + parens(quoted("version"@, site))
            + quoted(";"@, site) + target + parens(
            redacted_struct + braces(quoted("content ,"@, site) + fields),
        ),
    )
}

proof fn lemma_redact_arm_tokens(
    variant: Variant,
    redacted_enum: (Seq<char>, Span),
    redacted_struct: Seq<Token>,
    fields: Seq<Token>,
    site: Span,
)
    ensures
        redact_arm(variant, redacted_enum, redacted_struct, fields, site) == redact_tokens(
            quoted("Self ::"@, site) + named(variant),
            name(redacted_enum) + quoted("::"@, site) + named(variant),
            redacted_struct,
            fields,
            site,
        ),
{
    let start = quoted("let content = event . content . redact"@, site) + parens(
        quoted("version"@, site),
    ) + quoted(";"@, site);
    let end = parens(redacted_struct + braces(quoted("content ,"@, site) + fields));
    let target = name(redacted_enum) + quoted("::"@, site) + named(variant);
    assert(start + name(redacted_enum) + quoted("::"@, site) + named(variant) + end =~= start
        + target + end);
}

proof fn lemma_redact_custom_tokens(
    redacted_enum: (Seq<char>, Span),
    redacted_struct: Seq<Token>,
    fields: Seq<Token>,
    site: Span,
)
    ensures
        redact_custom_arm(redacted_enum, redacted_struct, fields, site) == redact_tokens(
            quoted("Self :: Custom"@, site),
            name(redacted_enum) + quoted(":: Custom"@, site),
            redacted_struct,
            fields,
            site,
        ),
{
    let start = quoted("let content = event . content . redact"@, site) + parens(
        quoted("version"@, site),
    ) + quoted(";"@, site);
    let end = parens(redacted_struct + braces(quoted("content ,"@, site) + fields));
    let target = name(redacted_enum) + quoted(":: Custom"@, site);
    assert(start + name(redacted_enum) + quoted(":: Custom"@, site) + end =~= start + target + end);
}

proof fn lemma_redact_arm_part(
    variant: Variant,
    redacted_enum: (Seq<char>, Span),
    redacted_struct: Seq<Token>,
    fields: Seq<Token>,
    site: Span,
)
    requires
        are_attributes(variant.attrs),
    ensures
        is_part(redact_arm(variant, redacted_enum, redacted_struct, fields, site), End::Block),
{
    broadcast use group_code;

}

/// The fields that are filled in, one by one.
proof fn lemma_kept_fields(
    kind: EventKind,
    var: EventKindVariation,
    form: EventKindVariation,
    import_path: Seq<Token>,
    site: Span,
)
    requires
        is_redactable(kind, var),
        redacted_form(var) == Some(form),
        is_path(import_path),
    ensures
        ({
            let fields = quoted("content ,"@, site) + concat(
                redacted_fields(kind, var, import_path, site),
            );
            let list = parts(fields, End::Comma);
            &&& is_complete(fields, End::Comma)
            &&& list.len() == kept_fields(kind, form).len() + 1
            &&& list[0] == quoted("content ,"@, site)
            &&& forall|j: int|
                0 <= j < kept_fields(kind, form).len() ==> #[trigger] list[j + 1] == set_field(
                    kept_fields(kind, form)[j],
                    form,
                    import_path,
                    site,
                )
        }),
{
    let all = redacted_fields(kind, var, import_path, site);
    let first = quoted("content ,"@, site);
    assert forall|j: int| 0 <= j < all.len() implies is_part(#[trigger] all[j], End::Comma)
        || all[j].len() == 0 by {
        lemma_set_field(all_fields()[j], kind, var, form, import_path, site);
    }
    assert(is_part(first, End::Comma)) by {
        lemma_content_comma(site);
    }
    lemma_one_part(first, End::Comma);
    lemma_parts_of_filled(all, End::Comma);
    lemma_parts_of_two(first, concat(all), End::Comma);
    lemma_filled_fields(kind, var, form, import_path, site);
    let kept = kept_fields(kind, form);
    let list = parts(first + concat(all), End::Comma);
    assert(list == seq![first] + filled(all));
    assert forall|j: int| 0 <= j < kept.len() implies #[trigger] list[j + 1] == set_field(
        kept[j],
        form,
        import_path,
        site,
    ) by {
        assert(list[j + 1] == filled(all)[j]);
    }
}

proof fn lemma_set_field(
    field: EventField,
    kind: EventKind,
    var: EventKindVariation,
    form: EventKindVariation,
    import_path: Seq<Token>,
    site: Span,
)
    requires
        redacted_form(var) == Some(form),
        is_path(import_path),
    ensures
        ({
            let tokens = redacted_field(field, kind, var, import_path, site);
            if field.occurs(kind, var) {
                is_part(tokens, End::Comma) && tokens == set_field(field, form, import_path, site)
            } else {
                tokens.len() == 0
            }
        }),
{
    broadcast use group_code;

}

/// The fields that are filled in are those that the redacted form has.
proof fn lemma_filled_fields(
    kind: EventKind,
    var: EventKindVariation,
    form: EventKindVariation,
    import_path: Seq<Token>,
    site: Span,
)
    requires
        is_redactable(kind, var),
        redacted_form(var) == Some(form),
        is_path(import_path),
    ensures
        ({
            let list = filled(redacted_fields(kind, var, import_path, site));
            let kept = kept_fields(kind, form);
            &&& list.len() == kept.len()
            &&& forall|j: int|
                0 <= j < kept.len() ==> #[trigger] list[j] == set_field(
                    kept[j],
                    form,
                    import_path,
                    site,
                )
        }),
{
    let all = redacted_fields(kind, var, import_path, site);
    let set = |field: EventField| set_field(field, form, import_path, site);
    assert forall|j: int| 0 <= j < 6 implies if all_fields()[j].occurs(kind, var) {
        #[trigger] all[j] == set(all_fields()[j]) && all[j].len() > 0
    } else {
        all[j].len() == 0
    } by {
        lemma_set_field(all_fields()[j], kind, var, form, import_path, site);
        reveal(is_part);
    }
    let a = all.take(0);
    let b = all.take(1);
    let c = all.take(2);
    let d = all.take(3);
    let e = all.take(4);
    let f = all.take(5);
    assert(b.drop_last() =~= a && c.drop_last() =~= b && d.drop_last() =~= c);
    assert(e.drop_last() =~= d && f.drop_last() =~= e && all.drop_last() =~= f);
    assert(b.last() == all[0] && c.last() == all[1] && d.last() == all[2]);
    assert(e.last() == all[3] && f.last() == all[4] && all.last() == all[5]);
    assert(filled(a) =~= Seq::empty());
    assert(filled(b).len() <= 1);
    assert(filled(c).len() <= 2);
    assert(filled(d).len() <= 3);
    assert(filled(e).len() <= 4);
    assert(filled(f).len() <= 5);
    assert(filled(all).len() <= 6);
}

proof fn lemma_content_comma(site: Span)
    ensures
        is_part(quoted("content ,"@, site), End::Comma),
{
    broadcast use group_code;

    reveal_strlit("content");
    reveal_strlit(",");
    reveal_strlit("content ,");
    law_template_is_read_word_by_word("content"@, ","@, site);
    assert("content ,"@ =~= "content"@.push(' ') + ","@);
    assert(is_part(quoted("content"@, site) + quoted(","@, site), End::Comma));
}

proof fn lemma_redacts(
    pattern: Seq<Token>,
    target: Seq<Token>,
    kind: EventKind,
    var: EventKindVariation,
    form: EventKindVariation,
    import_path: Seq<Token>,
    site: Span,
)
    requires
        is_redactable(kind, var),
        redacted_form(var) == Some(form),
        is_path(import_path),
    ensures
        redacts(
            redact_tokens(
                pattern,
                target,
                import_path + quoted("::"@, site) + name((kind.event_name(form), site)),
                concat(redacted_fields(kind, var, import_path, site)),
                site,
            ),
            pattern,
            target,
            kind,
            form,
            import_path,
            site,
        ),
{
    broadcast use block_at_end;

    lemma_kept_fields(kind, var, form, import_path, site);
    let redacted_struct = import_path + quoted("::"@, site) + name((kind.event_name(form), site));
    let fields = quoted("content ,"@, site) + concat(
        redacted_fields(kind, var, import_path, site),
    );
    let value = redacted_struct + braces(fields);
    let start = quoted("let content = event . content . redact"@, site) + parens(
        quoted("version"@, site),
    ) + quoted(";"@, site) + target;
    assert((start + parens(value)).last() == parens(value)[0]);
    assert(inside(start + parens(value)) == value);
}

} // verus!
