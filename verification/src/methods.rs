//! The methods of an event enum, told from the tokens of the generated code.

use crate::accessor::{
    accessor, accessor_impl, accessors, content_arm, content_arms, content_method, content_methods,
    field_arm, field_arms, field_type, prev_content_arm, prev_content_arms, prev_content_method,
};
use crate::code::{
    called, filled, fn_name, inside, is_complete, is_part, lemma_called_in_filled,
    lemma_called_in_one, lemma_called_in_two, lemma_fn_name, lemma_no_parts, lemma_one_part,
    lemma_parts_and_last, lemma_parts_of_filled, lemma_parts_of_two, members, parts, End,
};
use crate::conversion::{
    conversion_impl, full_form, into_full_arms, into_full_impl, into_full_redaction_arm, sync_form,
};
use crate::event_enum::any_enum;
use crate::event_type::Event;
use crate::field::{all_fields, lemma_field_name, EventField};
use crate::generated::named;
use crate::ident::lemma_ascii_ident;
use crate::items::{
    are_attributes, are_tidy, block_at_end, enum_ident, group_code, impl_head, is_path, items_of,
    lemma_first_words, lemma_select,
};
use crate::kind::{EventKind, EventKindVariation};
use crate::laws::law_template_is_read_word_by_word;
use crate::redaction::{redact_arms, redact_custom_arm, redact_impl, redacted_fields, redacted_form};
use crate::token::{braces, brackets, concat, literal, name, parens, quoted, Token};
use crate::variant::Variant;
use proc_macro2::Span;
use vstd::prelude::*;

verus! {

/// A method with this documentation, beginning, parameters and result, that decides by the arms of
/// a `match` on `self`.
pub open spec fn method(
    docs: Seq<char>,
    start: Seq<Token>,
    params: Seq<Token>,
    result: Seq<Token>,
    arms: Seq<Token>,
    site: Span,
) -> Seq<Token> {
    quoted("#"@, site) + brackets(quoted("doc ="@, site) + literal(docs, site)) + start + parens(
        params,
    ) + result + braces(quoted("match self"@, site) + braces(arms))
}

/// The methods of the enum of the events of a kind and variation, as its code has them.
pub open spec fn methods(
    kind: EventKind,
    events: Seq<Event>,
    attrs: Seq<Seq<Token>>,
    variants: Seq<Variant>,
    var: EventKindVariation,
    import_path: Seq<Token>,
    site: Span,
) -> Seq<Seq<Token>> {
    let code = any_enum(kind, events, attrs, variants, var, import_path, site).unwrap();
    members(parts(code, End::Block), impl_head(enum_ident(kind, var, site), site), End::Block)
}

/// The methods of an event enum by what they are for.
ghost struct Methods {
    into_full: Option<Seq<Token>>,
    content: Option<Seq<Token>>,
    prev_content: Option<Seq<Token>>,
    fields: Seq<Seq<Token>>,
    redact: Option<Seq<Token>>,
}

#[verifier::opaque]
spec fn methods_of(
    kind: EventKind,
    variants: Seq<Variant>,
    var: EventKindVariation,
    import_path: Seq<Token>,
    site: Span,
) -> Methods {
    let content_enum = kind.content_enum_ident(site);
    Methods {
        into_full: if var == EventKindVariation::Sync || var == EventKindVariation::RedactedSync {
            Some(inside(conversion_impl(kind, var, variants, import_path, site).unwrap()))
        } else {
            None
        },
        content: if var.redacted() {
            None
        } else {
            Some(content_method(variants, content_enum, site))
        },
        prev_content: if kind == EventKind::State && (var == EventKindVariation::Full || var
            == EventKindVariation::Sync) {
            Some(prev_content_method(variants, content_enum, site))
        } else {
            None
        },
        fields: accessors(kind, var, variants, import_path, site),
        redact: if is_redactable(kind, var) {
            Some(
                inside(
                    redact_impl(
                        enum_ident(kind, var, site),
                        kind,
                        var,
                        variants,
                        import_path,
                        site,
                    ).unwrap(),
                ),
            )
        } else {
            None
        },
    }
}

/// Whether events can be redacted: those of rooms that have not been, and that have been sent.
pub open spec fn is_redactable(kind: EventKind, var: EventKindVariation) -> bool {
    match kind {
        EventKind::Message => var == EventKindVariation::Full || var == EventKindVariation::Sync,
        EventKind::State => var == EventKindVariation::Full || var == EventKindVariation::Sync
            || var == EventKindVariation::Stripped,
        _ => false,
    }
}

spec fn listed(tokens: Option<Seq<Token>>) -> Seq<Seq<Token>> {
    match tokens {
        Some(tokens) => seq![tokens],
        None => Seq::empty(),
    }
}

spec fn all_methods(x: Methods) -> Seq<Seq<Token>> {
    listed(x.into_full) + (listed(x.content) + listed(x.prev_content) + filled(x.fields)) + listed(
        x.redact,
    )
}

/// The methods between braces are parts, and so are those of the accessors.
proof fn lemma_accessor_parts(
    kind: EventKind,
    variants: Seq<Variant>,
    var: EventKindVariation,
    import_path: Seq<Token>,
    site: Span,
)
    requires
        kind.occurs(var),
        is_path(import_path),
    ensures
        ({
            let x = methods_of(kind, variants, var, import_path, site);
            let a = accessor_impl(kind, var, variants, import_path, site);
            a is Some && parts(inside(a.unwrap()), End::Block) == listed(x.content) + listed(
                x.prev_content,
            ) + filled(x.fields)
        }),
{
    let x = methods_of(kind, variants, var, import_path, site);
    let content_enum = kind.content_enum_ident(site);
    let first = content_method(variants, content_enum, site);
    let second = prev_content_method(variants, content_enum, site);
    let all = content_methods(kind, var, variants, site);
    let fields = accessors(kind, var, variants, import_path, site);
    let a = accessor_impl(kind, var, variants, import_path, site);
    reveal(methods_of);
    assert(inside(a.unwrap()) == all + concat(fields)) by {
        broadcast use block_at_end;

    }
    assert(is_part(first, End::Block) && is_part(second, End::Block)) by {
        broadcast use group_code;

    }
    assert forall|i: int| 0 <= i < fields.len() implies is_part(#[trigger] fields[i], End::Block)
        || fields[i].len() == 0 by {
        lemma_accessor_part(all_fields()[i], kind, var, variants, import_path, site);
    }
    lemma_parts_of_filled(fields, End::Block);
    lemma_no_parts(End::Block);
    lemma_one_part(first, End::Block);
    lemma_one_part(second, End::Block);
    lemma_parts_of_two(first, second, End::Block);
    lemma_parts_of_two(all, concat(fields), End::Block);
    assert(listed(x.content) + listed(x.prev_content) =~= parts(all, End::Block));
}

proof fn lemma_accessor_part(
    field: EventField,
    kind: EventKind,
    var: EventKindVariation,
    variants: Seq<Variant>,
    import_path: Seq<Token>,
    site: Span,
)
    requires
        is_path(import_path),
    ensures
        ({
            let tokens = accessor(field, kind, var, variants, import_path, site);
            is_part(tokens, End::Block) || tokens.len() == 0
        }),
{
    broadcast use group_code;

}

proof fn lemma_conversion_part(
    kind: EventKind,
    variants: Seq<Variant>,
    var: EventKindVariation,
    import_path: Seq<Token>,
    site: Span,
)
    requires
        kind.occurs(var),
        is_path(import_path),
    ensures
        ({
            let x = methods_of(kind, variants, var, import_path, site);
            let c = conversion_impl(kind, var, variants, import_path, site);
            listed(x.into_full) == if c is Some && sync_form(var) is None {
                parts(inside(c.unwrap()), End::Block)
            } else {
                Seq::empty()
            }
        }),
{
    reveal(methods_of);
    let x = methods_of(kind, variants, var, import_path, site);
    let c = conversion_impl(kind, var, variants, import_path, site);
    if c is Some && sync_form(var) is None {
        assert(is_part(inside(c.unwrap()), End::Block)) by {
            broadcast use {group_code, block_at_end};

        }
        lemma_one_part(inside(c.unwrap()), End::Block);
    }
}

proof fn lemma_redact_part(
    kind: EventKind,
    variants: Seq<Variant>,
    var: EventKindVariation,
    import_path: Seq<Token>,
    site: Span,
)
    requires
        kind.occurs(var),
        is_path(import_path),
    ensures
        ({
            let x = methods_of(kind, variants, var, import_path, site);
            let r = redact_impl(
                enum_ident(kind, var, site),
                kind,
                var,
                variants,
                import_path,
                site,
            );
            listed(x.redact) == if r is Some {
                parts(inside(r.unwrap()), End::Block)
            } else {
                Seq::empty()
            }
        }),
{
    reveal(methods_of);
    let r = redact_impl(enum_ident(kind, var, site), kind, var, variants, import_path, site);
    if r is Some {
        assert(is_part(inside(r.unwrap()), End::Block)) by {
            broadcast use {group_code, block_at_end};

        }
        lemma_one_part(inside(r.unwrap()), End::Block);
    }
}

proof fn lemma_methods(
    kind: EventKind,
    events: Seq<Event>,
    attrs: Seq<Seq<Token>>,
    variants: Seq<Variant>,
    var: EventKindVariation,
    import_path: Seq<Token>,
    site: Span,
)
    requires
        kind.occurs(var),
        are_attributes(attrs),
        is_path(import_path),
    ensures
        methods(kind, events, attrs, variants, var, import_path, site) == all_methods(
            methods_of(kind, variants, var, import_path, site),
        ),
{
    lemma_select(kind, events, attrs, variants, var, import_path, site);
    lemma_accessor_parts(kind, variants, var, import_path, site);
    lemma_conversion_part(kind, variants, var, import_path, site);
    lemma_redact_part(kind, variants, var, import_path, site);
    let x = items_of(kind, events, attrs, variants, var, import_path, site);
    assert(x.c == conversion_impl(kind, var, variants, import_path, site) && x.a == accessor_impl(
        kind,
        var,
        variants,
        import_path,
        site,
    ) && x.r == redact_impl(enum_ident(kind, var, site), kind, var, variants, import_path, site))
        by {
        reveal(items_of);
    }
}

proof fn lemma_pub_fn(site: Span)
    ensures
        quoted("pub fn"@, site) == seq![Token::Ident("pub"@, site), Token::Ident("fn"@, site)],
        quoted("pub fn content"@, site) == quoted("pub fn"@, site) + seq![
            Token::Ident("content"@, site),
        ],
        quoted("pub fn prev_content"@, site) == quoted("pub fn"@, site) + seq![
            Token::Ident("prev_content"@, site),
        ],
        quoted("pub fn into_full_event"@, site) == quoted("pub fn"@, site) + seq![
            Token::Ident("into_full_event"@, site),
        ],
        quoted("pub fn redact"@, site) == quoted("pub fn"@, site) + seq![
            Token::Ident("redact"@, site),
        ],
{
    reveal_strlit("pub");
    reveal_strlit("fn");
    reveal_strlit("pub fn");
    reveal_strlit("content");
    reveal_strlit("prev_content");
    reveal_strlit("into_full_event");
    reveal_strlit("redact");
    reveal_strlit("pub fn content");
    reveal_strlit("pub fn prev_content");
    reveal_strlit("pub fn into_full_event");
    reveal_strlit("pub fn redact");
    law_template_is_read_word_by_word("pub"@, "fn"@, site);
    law_template_is_read_word_by_word("fn"@, ""@, site);
    law_template_is_read_word_by_word("pub fn"@, "content"@, site);
    law_template_is_read_word_by_word("pub fn"@, "prev_content"@, site);
    law_template_is_read_word_by_word("pub fn"@, "into_full_event"@, site);
    law_template_is_read_word_by_word("pub fn"@, "redact"@, site);
    law_template_is_read_word_by_word("content"@, ""@, site);
    law_template_is_read_word_by_word("prev_content"@, ""@, site);
    law_template_is_read_word_by_word("into_full_event"@, ""@, site);
    law_template_is_read_word_by_word("redact"@, ""@, site);
    assert("pub fn"@ =~= "pub"@.push(' ') + "fn"@);
    assert("pub fn content"@ =~= "pub fn"@.push(' ') + "content"@);
    assert("pub fn prev_content"@ =~= "pub fn"@.push(' ') + "prev_content"@);
    assert("pub fn into_full_event"@ =~= "pub fn"@.push(' ') + "into_full_event"@);
    assert("pub fn redact"@ =~= "pub fn"@.push(' ') + "redact"@);
    assert(quoted("pub fn"@, site) =~= seq![Token::Ident("pub"@, site), Token::Ident("fn"@, site)]);
}

/// The name of a method.
proof fn lemma_method_name(
    docs: Seq<char>,
    text: Seq<char>,
    params: Seq<Token>,
    result: Seq<Token>,
    arms: Seq<Token>,
    site: Span,
)
    ensures
        fn_name(
            method(
                docs,
                quoted("pub fn"@, site) + seq![Token::Ident(text, site)],
                params,
                result,
                arms,
                site,
            ),
        ) == text,
{
    lemma_pub_fn(site);
    lemma_first_words(site);
    let tokens = method(
        docs,
        quoted("pub fn"@, site) + seq![Token::Ident(text, site)],
        params,
        result,
        arms,
        site,
    );
    lemma_fn_name(tokens, text, site);
}

/// The arm of the method `content` for events without a variant.
pub open spec fn custom_content_arm(content_enum: (Seq<char>, Span), site: Span) -> Seq<Token> {
    quoted("Self :: Custom"@, site) + parens(quoted("event"@, site)) + quoted("=>"@, site) + name(
        content_enum,
    ) + quoted(":: Custom"@, site) + parens(
        quoted("event . content . clone"@, site) + parens(Seq::empty()),
    ) + quoted(","@, site)
}

/// The arm of the method `prev_content` for events without a variant.
pub open spec fn custom_prev_content_arm(
    content_enum: (Seq<char>, Span),
    site: Span,
) -> Seq<Token> {
    quoted("Self :: Custom"@, site) + parens(quoted("event"@, site)) + quoted("=>"@, site) + braces(
        quoted("event . prev_content . as_ref"@, site) + parens(Seq::empty()) + quoted(
            ". map"@,
            site,
        ) + parens(
            quoted("| c |"@, site) + name(content_enum) + quoted(":: Custom"@, site) + parens(
                quoted("c . clone"@, site) + parens(Seq::empty()),
            ),
        ),
    ) + quoted(","@, site)
}

/// The arm of the method of a field for events without a variant.
pub open spec fn custom_field_arm(field: EventField, site: Span) -> Seq<Token> {
    quoted("Self :: Custom"@, site) + parens(quoted("event"@, site)) + quoted("=> & event ."@, site)
        + name((field.name(), site)) + quoted(","@, site)
}

proof fn lemma_content_is_method(
    variants: Seq<Variant>,
    content_enum: (Seq<char>, Span),
    site: Span,
)
    ensures
        content_method(variants, content_enum, site) == method(
            " Returns the any content enum for this event."@,
            quoted("pub fn content"@, site),
            quoted("& self"@, site),
            quoted("->"@, site) + name(content_enum),
            concat(content_arms(variants, content_enum, site)) + custom_content_arm(
                content_enum,
                site,
            ),
            site,
        ),
{
    let list = concat(content_arms(variants, content_enum, site));
    let custom = custom_content_arm(content_enum, site);
    let arms = inside(inside(content_method(variants, content_enum, site)));
    assert(arms =~= list + custom);
    assert(content_method(variants, content_enum, site) =~= method(
        " Returns the any content enum for this event."@,
        quoted("pub fn content"@, site),
        quoted("& self"@, site),
        quoted("->"@, site) + name(content_enum),
        arms,
        site,
    ));
}

proof fn lemma_prev_content_is_method(
    variants: Seq<Variant>,
    content_enum: (Seq<char>, Span),
    site: Span,
)
    ensures
        prev_content_method(variants, content_enum, site) == method(
            " Returns the any content enum for this events prev_content."@,
            quoted("pub fn prev_content"@, site),
            quoted("& self"@, site),
            quoted("-> Option <"@, site) + name(content_enum) + quoted(">"@, site),
            concat(prev_content_arms(variants, content_enum, site)) + custom_prev_content_arm(
                content_enum,
                site,
            ),
            site,
        ),
{
    let list = concat(prev_content_arms(variants, content_enum, site));
    let custom = custom_prev_content_arm(content_enum, site);
    let arms = inside(inside(prev_content_method(variants, content_enum, site)));
    assert(arms =~= list + custom);
    assert(prev_content_method(variants, content_enum, site) =~= method(
        " Returns the any content enum for this events prev_content."@,
        quoted("pub fn prev_content"@, site),
        quoted("& self"@, site),
        quoted("-> Option <"@, site) + name(content_enum) + quoted(">"@, site),
        arms,
        site,
    ));
}

proof fn lemma_field_is_method(
    field: EventField,
    kind: EventKind,
    variants: Seq<Variant>,
    var: EventKindVariation,
    import_path: Seq<Token>,
    site: Span,
)
    requires
        field.occurs(kind, var),
    ensures
        accessor(field, kind, var, variants, import_path, site) == method(
            "Returns this events "@ + field.name() + " field."@,
            quoted("pub fn"@, site) + name((field.name(), site)),
            quoted("& self"@, site),
            quoted("-> &"@, site) + field_type(field, var, import_path, site),
            concat(field_arms(variants, (field.name(), site), site)) + custom_field_arm(
                field,
                site,
            ),
            site,
        ),
{
    let list = concat(field_arms(variants, (field.name(), site), site));
    let custom = custom_field_arm(field, site);
    let arms = inside(inside(accessor(field, kind, var, variants, import_path, site)));
    assert(arms =~= list + custom);
    assert(accessor(field, kind, var, variants, import_path, site) =~= method(
        "Returns this events "@ + field.name() + " field."@,
        quoted("pub fn"@, site) + name((field.name(), site)),
        quoted("& self"@, site),
        quoted("-> &"@, site) + field_type(field, var, import_path, site),
        arms,
        site,
    ));
}

proof fn lemma_into_full_is_method(
    kind: EventKind,
    form: EventKindVariation,
    variants: Seq<Variant>,
    var: EventKindVariation,
    import_path: Seq<Token>,
    site: Span,
)
    requires
        kind.occurs(var),
        full_form(var) == Some(form),
    ensures
        ({
            let c = conversion_impl(kind, var, variants, import_path, site);
            let full = enum_ident(kind, form, site);
            c is Some && inside(c.unwrap()) == method(
                " Convert this sync event into a full event, one with a room_id field."@,
                quoted("pub fn into_full_event"@, site),
                quoted("self , room_id :"@, site) + import_path + quoted(
                    ":: exports :: ruma_identifiers :: RoomId"@,
                    site,
                ),
                quoted("->"@, site) + name(full),
                concat(into_full_arms(variants, var, full, site)) + into_full_redaction_arm(
                    kind,
                    var,
                    full,
                    site,
                ) + custom_into_full_arm(full, site),
                site,
            )
        }),
{
    broadcast use block_at_end;

    let full = enum_ident(kind, form, site);
    let c = conversion_impl(kind, var, variants, import_path, site).unwrap();
    let list = concat(into_full_arms(variants, var, full, site)) + into_full_redaction_arm(
        kind,
        var,
        full,
        site,
    );
    assert(inside(c) =~= inside(into_full_impl(
        enum_ident(kind, var, site),
        full,
        list,
        import_path,
        site,
    )));
    let arms = inside(inside(inside(c)));
    assert(arms =~= list + custom_into_full_arm(full, site));
    assert(inside(c) =~= method(
        " Convert this sync event into a full event, one with a room_id field."@,
        quoted("pub fn into_full_event"@, site),
        quoted("self , room_id :"@, site) + import_path + quoted(
            ":: exports :: ruma_identifiers :: RoomId"@,
            site,
        ),
        quoted("->"@, site) + name(full),
        arms,
        site,
    ));
}

/// The arm of the method `into_full_event` for events without a variant.
pub open spec fn custom_into_full_arm(full: (Seq<char>, Span), site: Span) -> Seq<Token> {
    quoted("Self :: Custom"@, site) + parens(quoted("event"@, site)) + quoted("=>"@, site) + braces(
        name(full) + quoted(":: Custom"@, site) + parens(
            quoted("event . into_full_event"@, site) + parens(quoted("room_id"@, site)),
        ),
    ) + quoted(","@, site)
}

proof fn lemma_redact_is_method(
    kind: EventKind,
    form: EventKindVariation,
    variants: Seq<Variant>,
    var: EventKindVariation,
    import_path: Seq<Token>,
    site: Span,
)
    requires
        is_redactable(kind, var),
        redacted_form(var) == Some(form),
    ensures
        ({
            let r = redact_impl(
                enum_ident(kind, var, site),
                kind,
                var,
                variants,
                import_path,
                site,
            );
            let redacted_enum = enum_ident(kind, form, site);
            let redacted_struct = import_path + quoted("::"@, site) + name(
                (kind.event_name(form), site),
            );
            let fields = concat(redacted_fields(kind, var, import_path, site));
            r is Some && inside(r.unwrap()) == method(
                " Redacts `Self` given a valid `Redaction[Sync]Event`."@,
                quoted("pub fn redact"@, site),
                quoted("self , redaction :"@, site) + import_path + quoted(
                    if var == EventKindVariation::Full {
                        ":: room :: redaction :: RedactionEvent"@
                    } else {
                        ":: room :: redaction :: SyncRedactionEvent"@
                    },
                    site,
                ) + quoted(", version :"@, site) + import_path + quoted(
                    ":: exports :: ruma_identifiers :: RoomVersionId ,"@,
                    site,
                ),
                quoted("->"@, site) + name(redacted_enum),
                concat(redact_arms(variants, redacted_enum, redacted_struct, fields, site))
                    + redact_custom_arm(redacted_enum, redacted_struct, fields, site),
                site,
            )
        }),
{
    broadcast use block_at_end;

    let r = redact_impl(
        enum_ident(kind, var, site),
        kind,
        var,
        variants,
        import_path,
        site,
    ).unwrap();
    let redacted_enum = enum_ident(kind, form, site);
    let redacted_struct = import_path + quoted("::"@, site) + name((kind.event_name(form), site));
    let fields = concat(redacted_fields(kind, var, import_path, site));
    let arms = concat(redact_arms(variants, redacted_enum, redacted_struct, fields, site))
        + redact_custom_arm(redacted_enum, redacted_struct, fields, site);
    assert(inside(r) =~= method(
        " Redacts `Self` given a valid `Redaction[Sync]Event`."@,
        quoted("pub fn redact"@, site),
        quoted("self , redaction :"@, site) + import_path + quoted(
            if var == EventKindVariation::Full {
                ":: room :: redaction :: RedactionEvent"@
            } else {
                ":: room :: redaction :: SyncRedactionEvent"@
            },
            site,
        ) + quoted(", version :"@, site) + import_path + quoted(
            ":: exports :: ruma_identifiers :: RoomVersionId ,"@,
            site,
        ),
        quoted("->"@, site) + name(redacted_enum),
        arms,
        site,
    ));
}

/// The name of a field holds its own text.
proof fn lemma_field_token(field: EventField, site: Span)
    ensures
        name((field.name(), site)) == seq![Token::Ident(field.name(), site)],
{
    lemma_field_name(field);
    lemma_ascii_ident(field.name());
}

/// The names of the methods by what they are for.
proof fn lemma_names(
    kind: EventKind,
    variants: Seq<Variant>,
    var: EventKindVariation,
    import_path: Seq<Token>,
    site: Span,
)
    requires
        kind.occurs(var),
    ensures
        ({
            let x = methods_of(kind, variants, var, import_path, site);
            &&& x.into_full matches Some(tokens) ==> fn_name(tokens) == "into_full_event"@
            &&& x.content matches Some(tokens) ==> fn_name(tokens) == "content"@
            &&& x.prev_content matches Some(tokens) ==> fn_name(tokens) == "prev_content"@
            &&& x.redact matches Some(tokens) ==> fn_name(tokens) == "redact"@
            &&& x.fields.len() == 6
            &&& forall|i: int|
                0 <= i < 6 ==> if all_fields()[i].occurs(kind, var) {
                    fn_name(#[trigger] x.fields[i]) == all_fields()[i].name()
                } else {
                    x.fields[i].len() == 0
                }
        }),
{
    let x = methods_of(kind, variants, var, import_path, site);
    let content_enum = kind.content_enum_ident(site);
    lemma_pub_fn(site);
    assert(fn_name(content_method(variants, content_enum, site)) == "content"@) by {
        let arms = inside(inside(content_method(variants, content_enum, site)));
        lemma_content_is_method(variants, content_enum, site);
        lemma_method_name(
            " Returns the any content enum for this event."@,
            "content"@,
            quoted("& self"@, site),
            quoted("->"@, site) + name(content_enum),
            concat(content_arms(variants, content_enum, site)) + custom_content_arm(
                content_enum,
                site,
            ),
            site,
        );
    }
    assert(fn_name(prev_content_method(variants, content_enum, site)) == "prev_content"@) by {
        lemma_prev_content_is_method(variants, content_enum, site);
        lemma_method_name(
            " Returns the any content enum for this events prev_content."@,
            "prev_content"@,
            quoted("& self"@, site),
            quoted("-> Option <"@, site) + name(content_enum) + quoted(">"@, site),
            concat(prev_content_arms(variants, content_enum, site)) + custom_prev_content_arm(
                content_enum,
                site,
            ),
            site,
        );
    }
    assert(x.into_full matches Some(tokens) ==> fn_name(tokens) == "into_full_event"@) by {
        lemma_into_full_name(kind, variants, var, import_path, site);
    }
    assert(x.redact matches Some(tokens) ==> fn_name(tokens) == "redact"@) by {
        lemma_redact_name(kind, variants, var, import_path, site);
    }
    assert(x.fields == accessors(kind, var, variants, import_path, site)) by {
        reveal(methods_of);
    }
    assert(x.content matches Some(tokens) ==> tokens == content_method(
        variants,
        content_enum,
        site,
    )) by {
        reveal(methods_of);
    }
    assert(x.prev_content matches Some(tokens) ==> tokens == prev_content_method(
        variants,
        content_enum,
        site,
    )) by {
        reveal(methods_of);
    }
    assert forall|i: int| 0 <= i < 6 implies if all_fields()[i].occurs(kind, var) {
        fn_name(#[trigger] x.fields[i]) == all_fields()[i].name()
    } else {
        x.fields[i].len() == 0
    } by {
        lemma_field_method_name(all_fields()[i], kind, variants, var, import_path, site);
    }
}

proof fn lemma_into_full_name(
    kind: EventKind,
    variants: Seq<Variant>,
    var: EventKindVariation,
    import_path: Seq<Token>,
    site: Span,
)
    requires
        kind.occurs(var),
    ensures
        methods_of(
            kind,
            variants,
            var,
            import_path,
            site,
        ).into_full matches Some(tokens) ==> fn_name(tokens) == "into_full_event"@,
{
    reveal(methods_of);
    if let Some(form) = full_form(var) {
        let full = enum_ident(kind, form, site);
        lemma_pub_fn(site);
        lemma_into_full_is_method(kind, form, variants, var, import_path, site);
        lemma_method_name(
            " Convert this sync event into a full event, one with a room_id field."@,
            "into_full_event"@,
            quoted("self , room_id :"@, site) + import_path + quoted(
                ":: exports :: ruma_identifiers :: RoomId"@,
                site,
            ),
            quoted("->"@, site) + name(full),
            concat(into_full_arms(variants, var, full, site)) + into_full_redaction_arm(
                kind,
                var,
                full,
                site,
            ) + custom_into_full_arm(full, site),
            site,
        );
    }
}

proof fn lemma_redact_name(
    kind: EventKind,
    variants: Seq<Variant>,
    var: EventKindVariation,
    import_path: Seq<Token>,
    site: Span,
)
    requires
        kind.occurs(var),
    ensures
        methods_of(
            kind,
            variants,
            var,
            import_path,
            site,
        ).redact matches Some(tokens) ==> fn_name(tokens) == "redact"@,
{
    reveal(methods_of);
    if is_redactable(kind, var) {
        let form = redacted_form(var).unwrap();
        let redacted_enum = enum_ident(kind, form, site);
        let redacted_struct = import_path + quoted("::"@, site) + name(
            (kind.event_name(form), site),
        );
        let fields = concat(redacted_fields(kind, var, import_path, site));
        lemma_pub_fn(site);
        lemma_redact_is_method(kind, form, variants, var, import_path, site);
        lemma_method_name(
            " Redacts `Self` given a valid `Redaction[Sync]Event`."@,
            "redact"@,
            quoted("self , redaction :"@, site) + import_path + quoted(
                if var == EventKindVariation::Full {
                    ":: room :: redaction :: RedactionEvent"@
                } else {
                    ":: room :: redaction :: SyncRedactionEvent"@
                },
                site,
            ) + quoted(", version :"@, site) + import_path + quoted(
                ":: exports :: ruma_identifiers :: RoomVersionId ,"@,
                site,
            ),
            quoted("->"@, site) + name(redacted_enum),
            concat(redact_arms(variants, redacted_enum, redacted_struct, fields, site))
                + redact_custom_arm(redacted_enum, redacted_struct, fields, site),
            site,
        );
    }
}

proof fn lemma_field_method_name(
    field: EventField,
    kind: EventKind,
    variants: Seq<Variant>,
    var: EventKindVariation,
    import_path: Seq<Token>,
    site: Span,
)
    ensures
        field.occurs(kind, var) ==> fn_name(
            accessor(field, kind, var, variants, import_path, site),
        ) == field.name(),
        !field.occurs(kind, var) ==> accessor(
            field,
            kind,
            var,
            variants,
            import_path,
            site,
        ).len() == 0,
{
    if field.occurs(kind, var) {
        lemma_field_token(field, site);
        lemma_field_is_method(field, kind, variants, var, import_path, site);
        lemma_method_name(
            "Returns this events "@ + field.name() + " field."@,
            field.name(),
            quoted("& self"@, site),
            quoted("-> &"@, site) + field_type(field, var, import_path, site),
            concat(field_arms(variants, (field.name(), site), site)) + custom_field_arm(
                field,
                site,
            ),
            site,
        );
    }
}

/// The names of methods differ.
proof fn lemma_names_differ()
    ensures
        "into_full_event"@.len() == 15,
        "content"@.len() == 7 && "content"@[0] == 'c',
        "prev_content"@.len() == 12,
        "redact"@.len() == 6 && "redact"@[0] == 'r',
        "origin_server_ts"@.len() == 16,
        "room_id"@.len() == 7 && "room_id"@[0] == 'r',
        "event_id"@.len() == 8 && "event_id"@[0] == 'e',
        "sender"@.len() == 6 && "sender"@[0] == 's',
        "state_key"@.len() == 9,
        "unsigned"@.len() == 8 && "unsigned"@[0] == 'u',
{
    reveal_strlit("into_full_event");
    reveal_strlit("content");
    reveal_strlit("prev_content");
    reveal_strlit("redact");
    reveal_strlit("origin_server_ts");
    reveal_strlit("room_id");
    reveal_strlit("event_id");
    reveal_strlit("sender");
    reveal_strlit("state_key");
    reveal_strlit("unsigned");
}

/// Whether the enum of the events of a kind and variation has a method of this name.
pub open spec fn has_method(kind: EventKind, var: EventKindVariation, text: Seq<char>) -> bool {
    ||| text == "into_full_event"@ && (var == EventKindVariation::Sync || var
        == EventKindVariation::RedactedSync)
    ||| text == "content"@ && !var.redacted()
    ||| text == "prev_content"@ && kind == EventKind::State && (var == EventKindVariation::Full
        || var == EventKindVariation::Sync)
    ||| text == "redact"@ && is_redactable(kind, var)
    ||| exists|field: EventField| field.occurs(kind, var) && text == #[trigger] field.name()
}

spec fn one(tokens: Option<Seq<Token>>, text: Seq<char>, wanted: Seq<char>) -> Seq<Seq<Token>> {
    if text == wanted {
        listed(tokens)
    } else {
        Seq::empty()
    }
}

proof fn lemma_called_listed(tokens: Option<Seq<Token>>, text: Seq<char>, wanted: Seq<char>)
    requires
        tokens matches Some(tokens) ==> fn_name(tokens) == wanted,
    ensures
        called(listed(tokens), text) == one(tokens, text, wanted),
{
    if tokens is Some {
        lemma_called_in_one(tokens.unwrap(), text);
    }
}

/// The methods of a name by what they are for.
proof fn lemma_called(
    kind: EventKind,
    events: Seq<Event>,
    attrs: Seq<Seq<Token>>,
    variants: Seq<Variant>,
    var: EventKindVariation,
    import_path: Seq<Token>,
    site: Span,
    text: Seq<char>,
)
    requires
        kind.occurs(var),
        are_attributes(attrs),
        is_path(import_path),
        text.len() > 0,
    ensures
        ({
            let x = methods_of(kind, variants, var, import_path, site);
            called(methods(kind, events, attrs, variants, var, import_path, site), text) == one(
                x.into_full,
                text,
                "into_full_event"@,
            ) + (one(x.content, text, "content"@) + one(x.prev_content, text, "prev_content"@)
                + called(x.fields, text)) + one(x.redact, text, "redact"@)
        }),
{
    let x = methods_of(kind, variants, var, import_path, site);
    lemma_methods(kind, events, attrs, variants, var, import_path, site);
    lemma_names(kind, variants, var, import_path, site);
    lemma_called_listed(x.into_full, text, "into_full_event"@);
    lemma_called_listed(x.content, text, "content"@);
    lemma_called_listed(x.prev_content, text, "prev_content"@);
    lemma_called_listed(x.redact, text, "redact"@);
    lemma_called_in_filled(x.fields, text);
    let first = listed(x.content) + listed(x.prev_content);
    let second = first + filled(x.fields);
    lemma_called_in_two(listed(x.content), listed(x.prev_content), text);
    lemma_called_in_two(first, filled(x.fields), text);
    lemma_called_in_two(listed(x.into_full), second, text);
    lemma_called_in_two(listed(x.into_full) + second, listed(x.redact), text);
}

/// The method of a field by its name.
proof fn lemma_called_fields(
    kind: EventKind,
    variants: Seq<Variant>,
    var: EventKindVariation,
    import_path: Seq<Token>,
    site: Span,
    text: Seq<char>,
)
    requires
        kind.occurs(var),
        text.len() > 0,
    ensures
        ({
            let fields = methods_of(kind, variants, var, import_path, site).fields;
            &&& forall|field: EventField|
                text == #[trigger] field.name() && field.occurs(kind, var) ==> called(fields, text)
                    == seq![accessor(field, kind, var, variants, import_path, site)]
            &&& (forall|field: EventField|
                text == #[trigger] field.name() ==> !field.occurs(kind, var)) ==> called(
                fields,
                text,
            ).len() == 0
        }),
{
    let fields = methods_of(kind, variants, var, import_path, site).fields;
    assert(fields == accessors(kind, var, variants, import_path, site)) by {
        reveal(methods_of);
    }
    lemma_names(kind, variants, var, import_path, site);
    lemma_names_differ();
    lemma_called_in_six(fields, text);
    assert forall|i: int| 0 <= i < 6 implies (fn_name(#[trigger] fields[i]) == text <==> (
    all_fields()[i].occurs(kind, var) && all_fields()[i].name() == text)) by {
        if fields[i].len() == 0 {
            assert(fn_name(fields[i]).len() == 0);
        }
    }
    assert(fn_name(fields[0]) == text <==> EventField::OriginServerTs.occurs(kind, var)
        && EventField::OriginServerTs.name() == text);
    assert(fn_name(fields[1]) == text <==> EventField::RoomId.occurs(kind, var)
        && EventField::RoomId.name() == text);
    assert(fn_name(fields[2]) == text <==> EventField::EventId.occurs(kind, var)
        && EventField::EventId.name() == text);
    assert(fn_name(fields[3]) == text <==> EventField::Sender.occurs(kind, var)
        && EventField::Sender.name() == text);
    assert(fn_name(fields[4]) == text <==> EventField::StateKey.occurs(kind, var)
        && EventField::StateKey.name() == text);
    assert(fn_name(fields[5]) == text <==> EventField::Unsigned.occurs(kind, var)
        && EventField::Unsigned.name() == text);
}

spec fn if_named(tokens: Seq<Token>, text: Seq<char>) -> Seq<Seq<Token>> {
    if fn_name(tokens) == text {
        seq![tokens]
    } else {
        Seq::empty()
    }
}

proof fn lemma_called_in_six(list: Seq<Seq<Token>>, text: Seq<char>)
    requires
        list.len() == 6,
    ensures
        called(list, text) == if_named(list[0], text) + if_named(list[1], text) + if_named(
            list[2],
            text,
        ) + if_named(list[3], text) + if_named(list[4], text) + if_named(list[5], text),
{
    let a = seq![list[0]];
    let b = a + seq![list[1]];
    let c = b + seq![list[2]];
    let d = c + seq![list[3]];
    let e = d + seq![list[4]];
    assert(e + seq![list[5]] =~= list);
    lemma_called_in_one(list[0], text);
    lemma_called_in_one(list[1], text);
    lemma_called_in_one(list[2], text);
    lemma_called_in_one(list[3], text);
    lemma_called_in_one(list[4], text);
    lemma_called_in_one(list[5], text);
    lemma_called_in_two(a, seq![list[1]], text);
    lemma_called_in_two(b, seq![list[2]], text);
    lemma_called_in_two(c, seq![list[3]], text);
    lemma_called_in_two(d, seq![list[4]], text);
    lemma_called_in_two(e, seq![list[5]], text);
}

/// Which methods an event enum has depends on the kind and the variation of its events alone, not
/// on the entries: `content` unless the events have been redacted; `prev_content` for state events
/// that are full or sync; one method for each field that the events have; `into_full_event` where
/// the room is missing; and `redact` where events can be redacted. Each of them is there once, and
/// no other.
#[verifier::spinoff_prover]
#[verifier::rlimit(40)]
pub proof fn law_methods_of_an_event_enum(
    kind: EventKind,
    events: Seq<Event>,
    attrs: Seq<Seq<Token>>,
    variants: Seq<Variant>,
    var: EventKindVariation,
    import_path: Seq<Token>,
    site: Span,
    text: Seq<char>,
)
    requires
        kind.occurs(var),
        are_attributes(attrs),
        is_path(import_path),
        text.len() > 0,
    ensures
        called(methods(kind, events, attrs, variants, var, import_path, site), text).len() == (if (
        has_method(kind, var, text)) {
            1int
        } else {
            0
        }),
{
    let x = methods_of(kind, variants, var, import_path, site);
    lemma_called(kind, events, attrs, variants, var, import_path, site, text);
    lemma_called_fields(kind, variants, var, import_path, site, text);
    lemma_names_differ();
    assert(x.into_full is Some <==> var == EventKindVariation::Sync || var
        == EventKindVariation::RedactedSync) by {
        reveal(methods_of);
    }
    assert(x.content is Some <==> !var.redacted()) by {
        reveal(methods_of);
    }
    assert(x.prev_content is Some <==> kind == EventKind::State && (var == EventKindVariation::Full
        || var == EventKindVariation::Sync)) by {
        reveal(methods_of);
    }
    assert(x.redact is Some <==> is_redactable(kind, var)) by {
        reveal(methods_of);
    }
    if exists|field: EventField| field.occurs(kind, var) && text == #[trigger] field.name() {
        let field = choose|field: EventField|
            field.occurs(kind, var) && text == #[trigger] field.name();
        assert(called(x.fields, text).len() == 1);
        assert(!(text == "into_full_event"@ || text == "content"@ || text == "prev_content"@ || text
            == "redact"@));
    } else {
        assert(called(x.fields, text).len() == 0);
    }
}

/// The method `content` of events that have not been redacted has an arm for each variant and one
/// for custom events, and gives the content of the event as the variant of the same name of the
/// content enum.
#[verifier::spinoff_prover]
#[verifier::rlimit(40)]
pub proof fn law_content_is_handed_out(
    kind: EventKind,
    events: Seq<Event>,
    attrs: Seq<Seq<Token>>,
    variants: Seq<Variant>,
    var: EventKindVariation,
    import_path: Seq<Token>,
    site: Span,
    i: int,
)
    requires
        kind.occurs(var),
        !var.redacted(),
        are_attributes(attrs),
        are_tidy(variants),
        is_path(import_path),
        0 <= i <= variants.len(),
    ensures
        ({
            let found = called(
                methods(kind, events, attrs, variants, var, import_path, site),
                "content"@,
            );
            let content_enum = (kind.content_enum_name(), site);
            let block = inside(inside(found[0]));
            let arms = parts(block, End::Comma);
            &&& found.len() == 1
            &&& found[0] == method(
                " Returns the any content enum for this event."@,
                quoted("pub fn content"@, site),
                quoted("& self"@, site),
                quoted("->"@, site) + name(content_enum),
                block,
                site,
            )
            &&& is_complete(block, End::Comma)
            &&& arms.len() == variants.len() + 1
            &&& i < variants.len() ==> arms[i] == quoted("Self ::"@, site) + named(variants[i])
                + parens(
                quoted("event"@, site),
            ) + quoted("=>"@, site) + name(content_enum) + quoted("::"@, site) + named(variants[i])
                + parens(quoted("event . content . clone"@, site) + parens(Seq::empty())) + quoted(
                ","@,
                site,
            )
            &&& arms[variants.len() as int] == custom_content_arm(content_enum, site)
        }),
{
    let content_enum = kind.content_enum_ident(site);
    let list = content_arms(variants, content_enum, site);
    let custom = custom_content_arm(content_enum, site);
    lemma_names_differ();
    lemma_called(kind, events, attrs, variants, var, import_path, site, "content"@);
    lemma_called_fields(kind, variants, var, import_path, site, "content"@);
    let x = methods_of(kind, variants, var, import_path, site);
    assert(x.content == Some(content_method(variants, content_enum, site))) by {
        reveal(methods_of);
    }
    assert(called(
        methods(kind, events, attrs, variants, var, import_path, site),
        "content"@,
    ) =~= seq![
        content_method(variants, content_enum, site),
    ]);
    lemma_content_is_method(variants, content_enum, site);
    lemma_method_block(content_method(variants, content_enum, site), concat(list) + custom, site);
    assert forall|j: int| 0 <= j < list.len() implies is_part(#[trigger] list[j], End::Comma) by {
        assert(are_attributes(variants[j].attrs));
        lemma_content_arm_part(variants[j], content_enum, site);
    }
    assert(is_part(custom, End::Comma)) by {
        broadcast use group_code;

    }
    lemma_parts_and_last(list, custom, End::Comma);
}

proof fn lemma_method_block(tokens: Seq<Token>, arms: Seq<Token>, site: Span)
    requires
        tokens.len() > 0,
        tokens.last() == braces(quoted("match self"@, site) + braces(arms))[0],
    ensures
        inside(inside(tokens)) == arms,
{
    broadcast use block_at_end;

}

proof fn lemma_content_arm_part(variant: Variant, content_enum: (Seq<char>, Span), site: Span)
    requires
        are_attributes(variant.attrs),
    ensures
        is_part(content_arm(variant, content_enum, site), End::Comma),
        is_part(prev_content_arm(variant, content_enum, site), End::Comma),
{
    broadcast use group_code;

}

/// The method `prev_content` is there for state events that are full or sync, and for no others,
/// whatever the variants are. It has an arm for each variant and one for custom events, and gives
/// the content that the event replaced, if there was one, as the variant of the same name of the
/// content enum.
#[verifier::spinoff_prover]
#[verifier::rlimit(40)]
pub proof fn law_prev_content_is_handed_out(
    kind: EventKind,
    events: Seq<Event>,
    attrs: Seq<Seq<Token>>,
    variants: Seq<Variant>,
    var: EventKindVariation,
    import_path: Seq<Token>,
    site: Span,
    i: int,
)
    requires
        kind.occurs(var),
        are_attributes(attrs),
        are_tidy(variants),
        is_path(import_path),
        0 <= i <= variants.len(),
    ensures
        ({
            let found = called(
                methods(kind, events, attrs, variants, var, import_path, site),
                "prev_content"@,
            );
            let content_enum = (kind.content_enum_name(), site);
            let block = inside(inside(found[0]));
            let arms = parts(block, End::Comma);
            if kind == EventKind::State && (var == EventKindVariation::Full || var
                == EventKindVariation::Sync) {
                &&& found.len() == 1
                &&& found[0] == method(
                    " Returns the any content enum for this events prev_content."@,
                    quoted("pub fn prev_content"@, site),
                    quoted("& self"@, site),
                    quoted("-> Option <"@, site) + name(content_enum) + quoted(">"@, site),
                    block,
                    site,
                )
                &&& is_complete(block, End::Comma)
                &&& arms.len() == variants.len() + 1
                &&& i < variants.len() ==> arms[i] == quoted("Self ::"@, site) + named(variants[i])
                    + parens(
                    quoted("event"@, site),
                ) + quoted("=>"@, site) + braces(
                    quoted("event . prev_content . as_ref"@, site) + parens(Seq::empty()) + quoted(
                        ". map"@,
                        site,
                    ) + parens(
                        quoted("| c |"@, site) + name(content_enum) + quoted("::"@, site) + named(
                            variants[i],
                        ) + parens(quoted("c . clone"@, site) + parens(Seq::empty())),
                    ),
                ) + quoted(","@, site)
                &&& arms[variants.len() as int] == custom_prev_content_arm(content_enum, site)
            } else {
                found.len() == 0
            }
        }),
{
    let content_enum = kind.content_enum_ident(site);
    let list = prev_content_arms(variants, content_enum, site);
    let custom = custom_prev_content_arm(content_enum, site);
    lemma_names_differ();
    lemma_called(kind, events, attrs, variants, var, import_path, site, "prev_content"@);
    lemma_called_fields(kind, variants, var, import_path, site, "prev_content"@);
    let x = methods_of(kind, variants, var, import_path, site);
    if kind == EventKind::State && (var == EventKindVariation::Full || var
        == EventKindVariation::Sync) {
        assert(x.prev_content == Some(prev_content_method(variants, content_enum, site))) by {
            reveal(methods_of);
        }
        assert(called(
            methods(kind, events, attrs, variants, var, import_path, site),
            "prev_content"@,
        ) =~= seq![
            prev_content_method(variants, content_enum, site),
        ]);
        lemma_prev_content_is_method(variants, content_enum, site);
        lemma_method_block(
            prev_content_method(variants, content_enum, site),
            concat(list) + custom,
            site,
        );
        assert forall|j: int| 0 <= j < list.len() implies is_part(
            #[trigger] list[j],
            End::Comma,
        ) by {
            assert(are_attributes(variants[j].attrs));
            lemma_content_arm_part(variants[j], content_enum, site);
        }
        assert(is_part(custom, End::Comma)) by {
            broadcast use group_code;

        }
        lemma_parts_and_last(list, custom, End::Comma);
    } else {
        assert(x.prev_content is None) by {
            reveal(methods_of);
        }
    }
}

/// The method of a field is there for events that have the field, whatever the variants are. It
/// has an arm for each variant and one for custom events, and refers to the field of that name.
#[verifier::spinoff_prover]
#[verifier::rlimit(40)]
pub proof fn law_fields_are_handed_out(
    kind: EventKind,
    events: Seq<Event>,
    attrs: Seq<Seq<Token>>,
    variants: Seq<Variant>,
    var: EventKindVariation,
    import_path: Seq<Token>,
    site: Span,
    field: EventField,
    i: int,
)
    requires
        kind.occurs(var),
        are_attributes(attrs),
        are_tidy(variants),
        is_path(import_path),
        0 <= i <= variants.len(),
    ensures
        ({
            let found = called(
                methods(kind, events, attrs, variants, var, import_path, site),
                field.name(),
            );
            let block = inside(inside(found[0]));
            let arms = parts(block, End::Comma);
            if field.occurs(kind, var) {
                &&& found.len() == 1
                &&& found[0] == method(
                    "Returns this events "@ + field.name() + " field."@,
                    quoted("pub fn"@, site) + name((field.name(), site)),
                    quoted("& self"@, site),
                    quoted("-> &"@, site) + match field {
                        EventField::OriginServerTs => quoted(":: std :: time :: SystemTime"@, site),
                        EventField::RoomId => import_path + quoted(
                            ":: exports :: ruma_identifiers :: RoomId"@,
                            site,
                        ),
                        EventField::EventId => import_path + quoted(
                            ":: exports :: ruma_identifiers :: EventId"@,
                            site,
                        ),
                        EventField::Sender => import_path + quoted(
                            ":: exports :: ruma_identifiers :: UserId"@,
                            site,
                        ),
                        EventField::StateKey => quoted("str"@, site),
                        EventField::Unsigned => import_path + match var {
                            EventKindVariation::RedactedSync => quoted(
                                ":: RedactedSyncUnsigned"@,
                                site,
                            ),
                            EventKindVariation::Redacted => quoted(":: RedactedUnsigned"@, site),
                            _ => quoted(":: Unsigned"@, site),
                        },
                    },
                    block,
                    site,
                )
                &&& is_complete(block, End::Comma)
                &&& arms.len() == variants.len() + 1
                &&& i < variants.len() ==> arms[i] == quoted("Self ::"@, site) + named(variants[i])
                    + parens(
                    quoted("event"@, site),
                ) + quoted("=> & event ."@, site) + name((field.name(), site)) + quoted(","@, site)
                &&& arms[variants.len() as int] == custom_field_arm(field, site)
            } else {
                found.len() == 0
            }
        }),
{
    let list = field_arms(variants, (field.name(), site), site);
    let custom = custom_field_arm(field, site);
    lemma_names_differ();
    lemma_called(kind, events, attrs, variants, var, import_path, site, field.name());
    lemma_called_fields(kind, variants, var, import_path, site, field.name());
    if field.occurs(kind, var) {
        let tokens = accessor(field, kind, var, variants, import_path, site);
        assert(called(
            methods(kind, events, attrs, variants, var, import_path, site),
            field.name(),
        ) =~= seq![tokens]);
        lemma_field_is_method(field, kind, variants, var, import_path, site);
        lemma_method_block(tokens, concat(list) + custom, site);
        assert forall|j: int| 0 <= j < list.len() implies is_part(
            #[trigger] list[j],
            End::Comma,
        ) by {
            assert(are_attributes(variants[j].attrs));
            lemma_field_arm_part(variants[j], field, site);
        }
        assert(is_part(custom, End::Comma)) by {
            broadcast use group_code;

        }
        lemma_parts_and_last(list, custom, End::Comma);
    } else {
        assert(forall|other: EventField|
            field.name() == #[trigger] other.name() ==> other == field);
    }
}

proof fn lemma_field_arm_part(variant: Variant, field: EventField, site: Span)
    requires
        are_attributes(variant.attrs),
    ensures
        is_part(field_arm(variant, (field.name(), site), site), End::Comma),
{
    broadcast use group_code;

}

/// The method `into_full_event`, as it stands in the code.
pub proof fn lemma_into_full_method(
    kind: EventKind,
    events: Seq<Event>,
    attrs: Seq<Seq<Token>>,
    variants: Seq<Variant>,
    var: EventKindVariation,
    import_path: Seq<Token>,
    site: Span,
    form: EventKindVariation,
)
    requires
        full_form(var) == Some(form),
        kind.occurs(var),
        are_attributes(attrs),
        is_path(import_path),
    ensures
        ({
            let full = enum_ident(kind, form, site);
            let found = called(
                methods(kind, events, attrs, variants, var, import_path, site),
                "into_full_event"@,
            );
            let block = concat(into_full_arms(variants, var, full, site))
                + into_full_redaction_arm(kind, var, full, site) + custom_into_full_arm(full, site);
            &&& found.len() == 1
            &&& inside(inside(found[0])) == block
            &&& found[0] == method(
                " Convert this sync event into a full event, one with a room_id field."@,
                quoted("pub fn into_full_event"@, site),
                quoted("self , room_id :"@, site) + import_path + quoted(
                    ":: exports :: ruma_identifiers :: RoomId"@,
                    site,
                ),
                quoted("->"@, site) + name(full),
                block,
                site,
            )
        }),
{
    let full = enum_ident(kind, form, site);
    let block = concat(into_full_arms(variants, var, full, site)) + into_full_redaction_arm(
        kind,
        var,
        full,
        site,
    ) + custom_into_full_arm(full, site);
    let tokens = inside(conversion_impl(kind, var, variants, import_path, site).unwrap());
    lemma_names_differ();
    lemma_called(kind, events, attrs, variants, var, import_path, site, "into_full_event"@);
    lemma_called_fields(kind, variants, var, import_path, site, "into_full_event"@);
    assert(methods_of(kind, variants, var, import_path, site).into_full == Some(tokens)) by {
        reveal(methods_of);
    }
    assert(called(
        methods(kind, events, attrs, variants, var, import_path, site),
        "into_full_event"@,
    ) =~= seq![tokens]);
    lemma_into_full_is_method(kind, form, variants, var, import_path, site);
    lemma_method_block(tokens, block, site);
}

/// The method `redact`, as it stands in the code.
pub proof fn lemma_redact_method(
    kind: EventKind,
    events: Seq<Event>,
    attrs: Seq<Seq<Token>>,
    variants: Seq<Variant>,
    var: EventKindVariation,
    import_path: Seq<Token>,
    site: Span,
    form: EventKindVariation,
)
    requires
        redacted_form(var) == Some(form),
        is_redactable(kind, var),
        are_attributes(attrs),
        is_path(import_path),
    ensures
        ({
            let redacted_enum = enum_ident(kind, form, site);
            let redacted_struct = import_path + quoted("::"@, site) + name(
                (kind.event_name(form), site),
            );
            let fields = concat(redacted_fields(kind, var, import_path, site));
            let found = called(
                methods(kind, events, attrs, variants, var, import_path, site),
                "redact"@,
            );
            let block = concat(redact_arms(variants, redacted_enum, redacted_struct, fields, site))
                + redact_custom_arm(redacted_enum, redacted_struct, fields, site);
            &&& found.len() == 1
            &&& inside(inside(found[0])) == block
            &&& found[0] == method(
                " Redacts `Self` given a valid `Redaction[Sync]Event`."@,
                quoted("pub fn redact"@, site),
                quoted("self , redaction :"@, site) + import_path + quoted(
                    if var == EventKindVariation::Full {
                        ":: room :: redaction :: RedactionEvent"@
                    } else {
                        ":: room :: redaction :: SyncRedactionEvent"@
                    },
                    site,
                ) + quoted(", version :"@, site) + import_path + quoted(
                    ":: exports :: ruma_identifiers :: RoomVersionId ,"@,
                    site,
                ),
                quoted("->"@, site) + name(redacted_enum),
                block,
                site,
            )
        }),
{
    let redacted_enum = enum_ident(kind, form, site);
    let redacted_struct = import_path + quoted("::"@, site) + name((kind.event_name(form), site));
    let fields = concat(redacted_fields(kind, var, import_path, site));
    let block = concat(redact_arms(variants, redacted_enum, redacted_struct, fields, site))
        + redact_custom_arm(redacted_enum, redacted_struct, fields, site);
    let tokens = inside(
        redact_impl(
            enum_ident(kind, var, site),
            kind,
            var,
            variants,
            import_path,
            site,
        ).unwrap(),
    );
    lemma_names_differ();
    lemma_called(kind, events, attrs, variants, var, import_path, site, "redact"@);
    lemma_called_fields(kind, variants, var, import_path, site, "redact"@);
    assert(methods_of(kind, variants, var, import_path, site).redact == Some(tokens)) by {
        reveal(methods_of);
    }
    assert(called(
        methods(kind, events, attrs, variants, var, import_path, site),
        "redact"@,
    ) =~= seq![tokens]);
    lemma_redact_is_method(kind, form, variants, var, import_path, site);
    lemma_method_block(tokens, block, site);
}

} // verus!
