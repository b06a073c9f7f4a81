//! What the generated code does, told from its tokens.

use crate::code::{
    inside, is_complete, is_part, lemma_comma, lemma_one_part, lemma_parts_and_last, members, parts,
    End,
};
use crate::deserialize::deserialize_impl;
use crate::enum_item::{variant_line, variant_lines};
use crate::event_enum::{
    any_enum, custom_arm, custom_event, custom_line, event_enum_reader, event_paths, read_any,
    read_arm, read_arms,
};
use crate::event_type::{
    content_path, event_name, event_path, has_no_alias, module_steps, modules, without_prefix,
    Event,
};
use crate::items::{
    are_attributes, are_tidy, block_at_end, enum_head, enum_ident, group_code, is_path, items_of,
    lemma_enum_name, lemma_select, read_head,
};
use crate::kind::{EventKind, EventKindVariation};
use crate::laws::{
    law_event_names_are_distinct, law_pieces_make_up_the_text, law_template_is_read_word_by_word,
};
use crate::text::{contains_text, Separator};
use crate::token::{
    braces, brackets, concat, lemma_concat_next, literal, name, operator_tokens, parens, quoted,
    Token,
};
use crate::variant::Variant;
use proc_macro2::Span;
use vstd::prelude::*;

verus! {

/// Whether event types stand in source code as string literals of their text.
pub open spec fn are_written(events: Seq<Event>) -> bool {
    forall|i: int|
        0 <= i < events.len() ==> (#[trigger] events[i]).literal == seq![
            Token::Str(events[i].text, events[i].span),
        ]
}

/// A variant as it is named: its attributes and its name.
pub open spec fn named(variant: Variant) -> Seq<Token> {
    concat(variant.attrs) + name(variant.ident)
}

/// Whether an arm of a `match` on a text takes this text: its pattern is a string literal with
/// this value, or a single name, which takes everything.
pub open spec fn takes(arm: Seq<Token>, text: Seq<char>) -> bool {
    &&& arm.len() > 2
    &&& arm[1] == Token::Punct('=', true)
    &&& arm[2] == Token::Punct('>', false)
    &&& match arm[0] {
        Token::Str(value, _) => value == text,
        Token::Ident(_, _) => true,
        _ => false,
    }
}

/// Whether the arm at `i` is the one that a text comes to: it takes the text, and no arm before it
/// does.
pub open spec fn comes_to(arms: Seq<Seq<Token>>, text: Seq<char>, i: int) -> bool {
    &&& 0 <= i < arms.len()
    &&& takes(arms[i], text)
    &&& forall|j: int| 0 <= j < i ==> !takes(#[trigger] arms[j], text)
}

/// The statements that read an event of type `held` out of JSON text and give it as `variant`.
pub open spec fn reads(
    held: Seq<Token>,
    variant: Seq<Token>,
    import_path: Seq<Token>,
    site: Span,
) -> Seq<Token> {
    quoted("let event ="@, site) + import_path + quoted(
        ":: exports :: serde_json :: from_str :: <"@,
        site,
    ) + held + quoted(">"@, site) + parens(
        quoted("json . get"@, site) + parens(Seq::empty()),
    ) + quoted(". map_err"@, site) + parens(quoted("D :: Error :: custom"@, site)) + quoted(
        "? ;"@,
        site,
    ) + quoted("Ok"@, site) + parens(variant + parens(quoted("event"@, site)))
}

/// What the variant on a line of the definition of an enum holds.
pub open spec fn held_by(line: Seq<Token>) -> Seq<Token> {
    inside(line.drop_last())
}

pub proof fn lemma_arrow(site: Span)
    ensures
        quoted("=>"@, site) == seq![Token::Punct('=', true), Token::Punct('>', false)],
        quoted("event =>"@, site) == seq![
            Token::Ident("event"@, site),
            Token::Punct('=', true),
            Token::Punct('>', false),
        ],
        quoted("ev_type =>"@, site) == seq![
            Token::Ident("ev_type"@, site),
            Token::Punct('=', true),
            Token::Punct('>', false),
        ],
{
    reveal_strlit("=>");
    reveal_strlit("event");
    reveal_strlit("event =>");
    reveal_strlit("ev_type");
    reveal_strlit("ev_type =>");
    law_template_is_read_word_by_word("=>"@, ""@, site);
    law_template_is_read_word_by_word("event"@, "=>"@, site);
    law_template_is_read_word_by_word("ev_type"@, "=>"@, site);
    assert("event =>"@ =~= "event"@.push(' ') + "=>"@);
    assert("ev_type =>"@ =~= "ev_type"@.push(' ') + "=>"@);
    assert(operator_tokens("=>"@) =~= seq![Token::Punct('=', true), Token::Punct('>', false)]);
    assert(quoted("event =>"@, site) =~= seq![
        Token::Ident("event"@, site),
        Token::Punct('=', true),
        Token::Punct('>', false),
    ]);
    assert(quoted("ev_type =>"@, site) =~= seq![
        Token::Ident("ev_type"@, site),
        Token::Punct('=', true),
        Token::Punct('>', false),
    ]);
}

/// The arms of the function that reads events, as they stand in the code.
proof fn lemma_read_arms(
    kind: EventKind,
    events: Seq<Event>,
    attrs: Seq<Seq<Token>>,
    variants: Seq<Variant>,
    var: EventKindVariation,
    import_path: Seq<Token>,
    site: Span,
)
    requires
        kind.occurs(var),
        events.len() == variants.len(),
        are_attributes(attrs),
        are_written(events),
        is_path(import_path),
    ensures
        ({
            let ident = enum_ident(kind, var, site);
            let event_struct = (kind.event_name(var), site);
            let code = any_enum(kind, events, attrs, variants, var, import_path, site).unwrap();
            let functions = members(
                parts(code, End::Block),
                read_head(ident, import_path, site),
                End::Block,
            );
            let arms = inside(inside(functions[0]));
            &&& functions.len() == 1
            &&& functions[0] == read_function(inside(functions[0]), import_path, site)
            &&& inside(functions[0]) == looks_at_type(import_path, site) + braces(arms)
            &&& is_complete(arms, End::Comma)
            &&& parts(arms, End::Comma) == read_arms(
                events,
                variants,
                event_paths(events, event_struct, import_path, site),
                import_path,
                site,
            ).push(custom_arm(event_struct, var, import_path, site))
        }),
{
    let ident = enum_ident(kind, var, site);
    let event_struct = (kind.event_name(var), site);
    let contents = event_paths(events, event_struct, import_path, site);
    let list = read_arms(events, variants, contents, import_path, site);
    let custom = custom_arm(event_struct, var, import_path, site);
    lemma_select(kind, events, attrs, variants, var, import_path, site);
    assert(items_of(kind, events, attrs, variants, var, import_path, site).d == event_enum_reader(
        kind,
        events,
        variants,
        var,
        import_path,
        site,
    )) by {
        reveal(items_of);
    }
    lemma_reader_function(ident, concat(list) + custom, import_path, site);
    assert forall|i: int| 0 <= i < list.len() implies is_part(#[trigger] list[i], End::Comma) by {
        lemma_read_arm(events[i], variants[i], contents[i], import_path, site);
    }
    lemma_custom_arm(event_struct, var, import_path, site);
    lemma_parts_and_last(list, custom, End::Comma);
}

proof fn lemma_read_arm(
    event: Event,
    variant: Variant,
    content: Seq<Token>,
    import_path: Seq<Token>,
    site: Span,
)
    requires
        event.literal == seq![Token::Str(event.text, event.span)],
    ensures
        is_part(read_arm(event, variant, content, import_path, site), End::Comma),
{
    broadcast use group_code;

    assert(event.literal == literal(event.text, event.span));
}

proof fn lemma_custom_arm(
    event_struct: (Seq<char>, Span),
    var: EventKindVariation,
    import_path: Seq<Token>,
    site: Span,
)
    ensures
        is_part(custom_arm(event_struct, var, import_path, site), End::Comma),
{
    broadcast use group_code;

}

/// The implementation of `Deserialize` has a single function.
proof fn lemma_reader_function(
    ident: (Seq<char>, Span),
    arms: Seq<Token>,
    import_path: Seq<Token>,
    site: Span,
)
    requires
        is_path(import_path),
    ensures
        ({
            let item = deserialize_impl(
                ident,
                read_any(arms, import_path, site),
                import_path,
                site,
            );
            let functions = parts(inside(item), End::Block);
            &&& functions.len() == 1
            &&& functions[0] == read_function(read_any(arms, import_path, site), import_path, site)
            &&& inside(functions[0]) == read_any(arms, import_path, site)
            &&& inside(functions[0]) == looks_at_type(import_path, site) + braces(arms)
            &&& inside(inside(functions[0])) == arms
        }),
{
    broadcast use {group_code, block_at_end};

    assert(read_any(arms, import_path, site) =~= looks_at_type(import_path, site) + braces(arms));

    let function = read_function(read_any(arms, import_path, site), import_path, site);
    let item = deserialize_impl(ident, read_any(arms, import_path, site), import_path, site);
    assert(inside(item) == function);
    lemma_one_part(function, End::Block);
}

/// The function that reads a value, with this body.
pub open spec fn read_function(
    body: Seq<Token>,
    import_path: Seq<Token>,
    site: Span,
) -> Seq<Token> {
    quoted("fn deserialize < D >"@, site) + parens(quoted("deserializer : D"@, site)) + quoted(
        "-> Result < Self , D :: Error > where D :"@,
        site,
    ) + import_path + quoted(":: exports :: serde :: de :: Deserializer < ' de > ,"@, site)
        + braces(body)
}

/// What stands before the arms of the function that reads an event: the JSON text is taken, the
/// field `ev_type` is read out of it, and decides.
pub open spec fn looks_at_type(import_path: Seq<Token>, site: Span) -> Seq<Token> {
    let json = import_path + quoted(":: from_raw_json_value"@, site) + parens(
        quoted("& json"@, site),
    ) + quoted("?"@, site);
    quoted("use"@, site) + import_path + quoted(":: exports :: serde :: de :: Error as _ ;"@, site)
        + (quoted("let json = Box :: <"@, site) + import_path + quoted(
        ":: exports :: serde_json :: value :: RawValue > :: deserialize"@,
        site,
    ) + parens(quoted("deserializer"@, site)) + quoted("? ;"@, site)) + (quoted("let"@, site)
        + import_path + quoted(":: EventDeHelper"@, site) + braces(
        quoted("ev_type"@, site) + quoted(", .."@, site),
    ) + quoted("="@, site) + json + quoted(";"@, site)) + quoted("match ev_type . as_str"@, site)
        + parens(Seq::empty())
}

/// An event is read into the variant of its event type. In the implementation of `Deserialize`
/// the type of the event decides by the arms of a `match`: the arm that it comes to is that of the
/// first entry with this type, and reads what the variant of that entry holds, as its definition
/// says, into that variant. A type that no entry has comes to the last arm, which reads the event
/// into `Custom`.
#[verifier::spinoff_prover]
#[verifier::rlimit(40)]
pub proof fn law_event_is_read_into_its_variant(
    kind: EventKind,
    events: Seq<Event>,
    attrs: Seq<Seq<Token>>,
    variants: Seq<Variant>,
    var: EventKindVariation,
    import_path: Seq<Token>,
    site: Span,
    text: Seq<char>,
    i: int,
)
    requires
        kind.occurs(var),
        events.len() == variants.len(),
        are_attributes(attrs),
        are_tidy(variants),
        are_written(events),
        is_path(import_path),
        0 <= i <= events.len(),
        forall|j: int| 0 <= j < i ==> (#[trigger] events[j]).text != text,
        i < events.len() ==> events[i].text == text,
    ensures
        ({
            let ident = enum_ident(kind, var, site);
            let code = any_enum(kind, events, attrs, variants, var, import_path, site).unwrap();
            let items = parts(code, End::Block);
            let lines = members(items, enum_head(attrs, ident, import_path, site), End::Comma);
            let functions = members(items, read_head(ident, import_path, site), End::Block);
            let body = inside(functions[0]);
            let arms = parts(inside(body), End::Comma);
            let value = inside(arms[i].drop_last());
            &&& functions.len() == 1
            &&& functions[0] == read_function(body, import_path, site)
            &&& body == looks_at_type(import_path, site) + braces(inside(body))
            &&& is_complete(inside(body), End::Comma)
            &&& arms.len() == events.len() + 1
            &&& lines.len() == events.len() + 1
            &&& comes_to(arms, text, i)
            &&& i < events.len() ==> {
                &&& arms[i] == events[i].literal + quoted("=>"@, site) + braces(value) + quoted(
                    ","@,
                    site,
                )
                &&& value == reads(
                    held_by(lines[i]),
                    quoted("Self ::"@, site) + named(variants[i]),
                    import_path,
                    site,
                )
            }
            &&& i == events.len() ==> {
                &&& arms[i] == quoted("event =>"@, site) + braces(value) + quoted(","@, site)
                &&& value == reads(
                    held_by(lines[i]) + if var.redacted() {
                        quoted(","@, site)
                    } else {
                        Seq::empty()
                    },
                    quoted("Self :: Custom"@, site),
                    import_path,
                    site,
                )
            }
        }),
{
    let event_struct = (kind.event_name(var), site);
    let contents = event_paths(events, event_struct, import_path, site);
    lemma_read_arms(kind, events, attrs, variants, var, import_path, site);
    lemma_lines(kind, events, attrs, variants, var, import_path, site);
    lemma_comes_to(events, variants, contents, event_struct, var, import_path, site, text, i);
}

/// Which of the arms a text comes to, and what stands there.
proof fn lemma_comes_to(
    events: Seq<Event>,
    variants: Seq<Variant>,
    contents: Seq<Seq<Token>>,
    event_struct: (Seq<char>, Span),
    var: EventKindVariation,
    import_path: Seq<Token>,
    site: Span,
    text: Seq<char>,
    i: int,
)
    requires
        events.len() == variants.len(),
        are_written(events),
        0 <= i <= events.len(),
        forall|j: int| 0 <= j < i ==> (#[trigger] events[j]).text != text,
        i < events.len() ==> events[i].text == text,
    ensures
        ({
            let arms = read_arms(events, variants, contents, import_path, site).push(
                custom_arm(event_struct, var, import_path, site),
            );
            let value = inside(arms[i].drop_last());
            &&& arms.len() == events.len() + 1
            &&& comes_to(arms, text, i)
            &&& i < events.len() ==> {
                &&& arms[i] == events[i].literal + quoted("=>"@, site) + braces(value) + quoted(
                    ","@,
                    site,
                )
                &&& value == reads(
                    contents[i],
                    quoted("Self ::"@, site) + named(variants[i]),
                    import_path,
                    site,
                )
            }
            &&& i == events.len() ==> {
                &&& arms[i] == quoted("event =>"@, site) + braces(value) + quoted(","@, site)
                &&& value == reads(
                    custom_event(event_struct, var, import_path, site) + if var.redacted() {
                        quoted(","@, site)
                    } else {
                        Seq::empty()
                    },
                    quoted("Self :: Custom"@, site),
                    import_path,
                    site,
                )
            }
        }),
{
    let list = read_arms(events, variants, contents, import_path, site);
    let arms = list.push(custom_arm(event_struct, var, import_path, site));
    assert forall|j: int| 0 <= j < i implies !takes(#[trigger] arms[j], text) by {
        assert(arms[j] == list[j]);
        lemma_read_arm_tokens(events[j], variants[j], contents[j], import_path, site);
        assert(events[j].text != text);
    }
    if i < events.len() {
        assert(arms[i] == list[i]);
        lemma_read_arm_tokens(events[i], variants[i], contents[i], import_path, site);
    } else {
        lemma_custom_arm_tokens(event_struct, var, import_path, site);
    }
}

proof fn lemma_read_arm_tokens(
    event: Event,
    variant: Variant,
    content: Seq<Token>,
    import_path: Seq<Token>,
    site: Span,
)
    requires
        event.literal == seq![Token::Str(event.text, event.span)],
    ensures
        ({
            let arm = read_arm(event, variant, content, import_path, site);
            let value = inside(arm.drop_last());
            &&& arm.len() > 2
            &&& arm[0] == Token::Str(event.text, event.span)
            &&& arm[1] == Token::Punct('=', true)
            &&& arm[2] == Token::Punct('>', false)
            &&& arm == event.literal + quoted("=>"@, site) + braces(value) + quoted(","@, site)
            &&& value == reads(
                content,
                quoted("Self ::"@, site) + named(variant),
                import_path,
                site,
            )
        }),
{
    lemma_arrow(site);
    lemma_comma(site);
    let arm = read_arm(event, variant, content, import_path, site);
    let value = reads(content, quoted("Self ::"@, site) + named(variant), import_path, site);
    assert(arm == event.literal + quoted("=>"@, site) + braces(value) + quoted(","@, site));
    assert(arm.drop_last() =~= event.literal + quoted("=>"@, site) + braces(value));
}

proof fn lemma_custom_arm_tokens(
    event_struct: (Seq<char>, Span),
    var: EventKindVariation,
    import_path: Seq<Token>,
    site: Span,
)
    ensures
        ({
            let arm = custom_arm(event_struct, var, import_path, site);
            let value = inside(arm.drop_last());
            let held = custom_event(event_struct, var, import_path, site);
            &&& arm.len() > 2
            &&& arm[0] == Token::Ident("event"@, site)
            &&& arm[1] == Token::Punct('=', true)
            &&& arm[2] == Token::Punct('>', false)
            &&& arm == quoted("event =>"@, site) + braces(value) + quoted(","@, site)
            &&& value == reads(
                held + if var.redacted() {
                    quoted(","@, site)
                } else {
                    Seq::empty()
                },
                quoted("Self :: Custom"@, site),
                import_path,
                site,
            )
        }),
{
    lemma_arrow(site);
    lemma_comma(site);
    let arm = custom_arm(event_struct, var, import_path, site);
    let held = custom_event(event_struct, var, import_path, site);
    assert(held + Seq::<Token>::empty() =~= held);
    let value = reads(
        held + if var.redacted() {
            quoted(","@, site)
        } else {
            Seq::empty()
        },
        quoted("Self :: Custom"@, site),
        import_path,
        site,
    );
    assert(arm == quoted("event =>"@, site) + braces(value) + quoted(","@, site));
    assert(arm.drop_last() =~= quoted("event =>"@, site) + braces(value));
}

/// The lines of the definition of the enum, as they stand in the code.
proof fn lemma_lines(
    kind: EventKind,
    events: Seq<Event>,
    attrs: Seq<Seq<Token>>,
    variants: Seq<Variant>,
    var: EventKindVariation,
    import_path: Seq<Token>,
    site: Span,
)
    requires
        kind.occurs(var),
        events.len() == variants.len(),
        are_attributes(attrs),
        are_tidy(variants),
        is_path(import_path),
    ensures
        ({
            let ident = enum_ident(kind, var, site);
            let event_struct = (kind.event_name(var), site);
            let code = any_enum(kind, events, attrs, variants, var, import_path, site).unwrap();
            let contents = event_paths(events, event_struct, import_path, site);
            let lines = members(
                parts(code, End::Block),
                enum_head(attrs, ident, import_path, site),
                End::Comma,
            );
            &&& lines.len() == events.len() + 1
            &&& forall|i: int|
                0 <= i < events.len() ==> #[trigger] lines[i] == variant_line(
                    events[i],
                    variants[i],
                    contents[i],
                    site,
                ) && held_by(lines[i]) == contents[i]
            &&& lines[events.len() as int] == custom_line(event_struct, var, import_path, site)
            &&& held_by(lines[events.len() as int]) == custom_event(
                event_struct,
                var,
                import_path,
                site,
            )
        }),
{
    let event_struct = (kind.event_name(var), site);
    let contents = event_paths(events, event_struct, import_path, site);
    let list = variant_lines(events, variants, contents, site);
    let custom = custom_line(event_struct, var, import_path, site);
    let ident = enum_ident(kind, var, site);
    lemma_select(kind, events, attrs, variants, var, import_path, site);
    let x = items_of(kind, events, attrs, variants, var, import_path, site);
    assert(inside(x.e) == concat(list) + custom) by {
        broadcast use block_at_end;

        reveal(items_of);
    }
    assert forall|i: int| 0 <= i < list.len() implies is_part(#[trigger] list[i], End::Comma)
        && held_by(list[i]) == contents[i] by {
        lemma_line(events[i], variants[i], contents[i], site);
    }
    lemma_custom_line(event_struct, var, import_path, site);
    lemma_parts_and_last(list, custom, End::Comma);
}

pub proof fn lemma_line(event: Event, variant: Variant, content: Seq<Token>, site: Span)
    requires
        are_attributes(variant.attrs),
    ensures
        is_part(variant_line(event, variant, content, site), End::Comma),
        held_by(variant_line(event, variant, content, site)) == content,
{
    broadcast use group_code;

    lemma_comma(site);
    let line = variant_line(event, variant, content, site);
    assert(line.drop_last().last() == parens(content)[0]);
}

proof fn lemma_custom_line(
    event_struct: (Seq<char>, Span),
    var: EventKindVariation,
    import_path: Seq<Token>,
    site: Span,
)
    ensures
        is_part(custom_line(event_struct, var, import_path, site), End::Comma),
        held_by(custom_line(event_struct, var, import_path, site)) == custom_event(
            event_struct,
            var,
            import_path,
            site,
        ),
{
    broadcast use group_code;

    lemma_comma(site);
    let held = custom_event(event_struct, var, import_path, site);
    let line = custom_line(event_struct, var, import_path, site);
    assert(line.drop_last().last() == parens(held)[0]);
}

/// The steps of a path behind its beginning: `::` and a name for each.
pub open spec fn steps(names: Seq<Seq<char>>, span: Span, site: Span) -> Seq<Token>
    decreases names.len(),
{
    if names.len() == 0 {
        Seq::empty()
    } else {
        steps(names.drop_last(), span, site) + quoted("::"@, site) + name((names.last(), span))
    }
}

/// The item of this name in the module of an event.
pub open spec fn item_of(
    event: Event,
    item: Seq<char>,
    import_path: Seq<Token>,
    site: Span,
) -> Seq<Token> {
    import_path + steps(modules(event.text), event.span, site) + quoted("::"@, site) + name(
        (item, site),
    )
}

/// The event struct of a kind and variation with this content.
pub open spec fn struct_with(
    kind: EventKind,
    var: EventKindVariation,
    content: Seq<Token>,
    import_path: Seq<Token>,
    site: Span,
) -> Seq<Token> {
    import_path + quoted("::"@, site) + name((kind.event_name(var), site)) + quoted("<"@, site)
        + content + quoted(">"@, site)
}

/// The variant of an event type holds the type that belongs to the event type, the kind and the
/// variation, whatever the event type is. Full events have a type of their own in the module of
/// the event; those to devices, and all other events that have not been redacted, are written as
/// the event struct with the content of the event; redacted events as the event struct with its
/// redacted content. Redactions among messages are held in their own structs until they are
/// redacted themselves.
#[verifier::spinoff_prover]
#[verifier::rlimit(40)]
pub proof fn law_type_that_a_variant_holds(
    kind: EventKind,
    var: EventKindVariation,
    event: Event,
    import_path: Seq<Token>,
    site: Span,
)
    requires
        kind.occurs(var),
    ensures
        ({
            let held = event_path(event, (kind.event_name(var), site), import_path, site);
            let base = event_name(event.text);
            let is_redaction = kind == EventKind::Message && event.text == "m.room.redaction"@;
            match var {
                EventKindVariation::Full if is_redaction => held == import_path + quoted(
                    ":: room :: redaction :: RedactionEvent"@,
                    site,
                ),
                EventKindVariation::Sync if is_redaction => held == import_path + quoted(
                    ":: room :: redaction :: SyncRedactionEvent"@,
                    site,
                ),
                EventKindVariation::Full if kind != EventKind::ToDevice => held == item_of(
                    event,
                    base + "Event"@,
                    import_path,
                    site,
                ),
                EventKindVariation::Redacted
                | EventKindVariation::RedactedSync
                | EventKindVariation::RedactedStripped => held == struct_with(
                    kind,
                    var,
                    item_of(event, "Redacted"@ + base + "EventContent"@, import_path, site),
                    import_path,
                    site,
                ),
                _ => held == struct_with(
                    kind,
                    var,
                    item_of(event, base + "EventContent"@, import_path, site),
                    import_path,
                    site,
                ),
            }
        }),
{
    lemma_struct_names(kind, var);
    lemma_steps(event, modules(event.text).len() as int, site);
    let path = modules(event.text);
    let all = module_steps(event, site);
    assert(path.take(path.len() as int) =~= path);
    assert(all.take(path.len() as int) =~= all);
    let held = event_path(event, (kind.event_name(var), site), import_path, site);
    let base = event_name(event.text);
    let content = item_of(event, base + "EventContent"@, import_path, site);
    let redacted = item_of(event, "Redacted"@ + base + "EventContent"@, import_path, site);
    assert(concat(all) == steps(path, event.span, site));
}

/// The content of an event type is an item in the module of the event, whatever the event type
/// is.
#[verifier::spinoff_prover]
#[verifier::rlimit(40)]
pub proof fn law_type_of_a_content(event: Event, import_path: Seq<Token>, site: Span)
    ensures
        content_path(event, import_path, site) == item_of(
            event,
            event_name(event.text) + "EventContent"@,
            import_path,
            site,
        ),
{
    let path = modules(event.text);
    let all = module_steps(event, site);
    lemma_steps(event, path.len() as int, site);
    assert(path.take(path.len() as int) =~= path);
    assert(all.take(path.len() as int) =~= all);
}

proof fn lemma_steps(event: Event, n: int, site: Span)
    requires
        0 <= n <= modules(event.text).len(),
    ensures
        concat(module_steps(event, site).take(n)) == steps(
            modules(event.text).take(n),
            event.span,
            site,
        ),
    decreases n,
{
    let all = module_steps(event, site);
    let path = modules(event.text);
    if n > 0 {
        lemma_steps(event, n - 1, site);
        lemma_concat_next(all, n - 1);
        assert(path.take(n).drop_last() =~= path.take(n - 1));
        assert(concat(all.take(n)) =~= steps(path.take(n), event.span, site));
    } else {
        assert(all.take(0) =~= Seq::empty());
        assert(path.take(0) =~= Seq::empty());
    }
}

/// What the name of an event struct tells of its kind and variation.
proof fn lemma_struct_names(kind: EventKind, var: EventKindVariation)
    requires
        kind.occurs(var),
    ensures
        contains_text(kind.event_name(var), "Redacted"@) <==> var.redacted(),
        has_no_alias(kind.event_name(var)) <==> !var.redacted() && (var != EventKindVariation::Full
            || kind == EventKind::ToDevice),
        kind.event_name(var) == "MessageEvent"@ <==> kind == EventKind::Message && var
            == EventKindVariation::Full,
        kind.event_name(var) == "SyncMessageEvent"@ <==> kind == EventKind::Message && var
            == EventKindVariation::Sync,
{
    reveal_strlit("");
    reveal_strlit("Sync");
    reveal_strlit("Stripped");
    reveal_strlit("Initial");
    reveal_strlit("Redacted");
    reveal_strlit("RedactedSync");
    reveal_strlit("RedactedStripped");
    reveal_strlit("BasicEvent");
    reveal_strlit("EphemeralRoomEvent");
    reveal_strlit("MessageEvent");
    reveal_strlit("StateEvent");
    reveal_strlit("ToDeviceEvent");
    reveal_strlit("SyncStateEvent");
    reveal_strlit("StrippedStateEvent");
    reveal_strlit("InitialStateEvent");
    reveal_strlit("SyncMessageEvent");
    reveal_strlit("SyncEphemeralRoomEvent");
    let text = kind.event_name(var);
    assert("ToDeviceEvent"@[0] == 'T' && "ToDeviceEvent"@.len() == 13);
    assert("SyncStateEvent"@[0] == 'S' && "SyncStateEvent"@.len() == 14);
    assert("StrippedStateEvent"@[0] == 'S' && "StrippedStateEvent"@.len() == 18);
    assert("InitialStateEvent"@[0] == 'I' && "InitialStateEvent"@.len() == 17);
    assert("SyncMessageEvent"@[0] == 'S' && "SyncMessageEvent"@.len() == 16);
    assert("SyncEphemeralRoomEvent"@[0] == 'S' && "SyncEphemeralRoomEvent"@.len() == 22);
    if var.redacted() {
        let n = "Redacted"@.len() as int;
        assert(text.subrange(0, 0 + n) =~= "Redacted"@);
        assert(text[0] == 'R');
    } else {
        assert forall|i: int| 0 <= i && i + "Redacted"@.len() <= text.len() implies #[trigger]
            text.subrange(i, i + "Redacted"@.len()) != "Redacted"@ by {
            assert(text.subrange(i, i + "Redacted"@.len())[0] == text[i]);
            assert(text.subrange(i, i + "Redacted"@.len())[1] == text[i + 1]);
            assert("Redacted"@[0] == 'R' && "Redacted"@[1] == 'e');
        }
        if var == EventKindVariation::Sync {
            assert("Sync"@ + "StateEvent"@ =~= "SyncStateEvent"@);
            assert("Sync"@ + "MessageEvent"@ =~= "SyncMessageEvent"@);
            assert("Sync"@ + "EphemeralRoomEvent"@ =~= "SyncEphemeralRoomEvent"@);
        }
        if var == EventKindVariation::Stripped {
            assert("Stripped"@ + "StateEvent"@ =~= "StrippedStateEvent"@);
        }
        if var == EventKindVariation::Initial {
            assert("Initial"@ + "StateEvent"@ =~= "InitialStateEvent"@);
        }
        if var == EventKindVariation::Full {
            assert(text =~= kind.name());
            assert("EphemeralRoomEvent"@[0] == 'E');
        }
    }
}

/// What a redacted enum holds is held by no enum of events that have not been redacted.
#[verifier::spinoff_prover]
#[verifier::rlimit(40)]
pub proof fn law_redacted_types_are_others(
    kind: EventKind,
    var: EventKindVariation,
    event: Event,
    other_kind: EventKind,
    other_var: EventKindVariation,
    other_event: Event,
    import_path: Seq<Token>,
    site: Span,
)
    requires
        kind.occurs(var),
        var.redacted(),
        other_kind.occurs(other_var),
        !other_var.redacted(),
    ensures
        event_path(event, (kind.event_name(var), site), import_path, site) != event_path(
            other_event,
            (other_kind.event_name(other_var), site),
            import_path,
            site,
        ),
{
    let held = event_path(event, (kind.event_name(var), site), import_path, site);
    let other = event_path(
        other_event,
        (other_kind.event_name(other_var), site),
        import_path,
        site,
    );
    let n = import_path.len() as int;
    law_type_that_a_variant_holds(kind, var, event, import_path, site);
    law_type_that_a_variant_holds(other_kind, other_var, other_event, import_path, site);
    law_pieces_make_up_the_text(without_prefix(other_event.text), Separator::Dot, '.');
    lemma_colons(site);
    lemma_first_steps(modules(other_event.text), other_event.span, site);
    lemma_enum_name(kind, var, site);
    lemma_enum_name(other_kind, other_var, site);
    if kind.event_name(var) == other_kind.event_name(other_var) {
        law_event_names_are_distinct(kind, var, other_kind, other_var);
    }
    assert(held[n + 2] == name((kind.event_name(var), site))[0]);
    assert(held[n + 3] == Token::Punct('<', false));
    let is_redaction = other_kind == EventKind::Message && other_event.text
        == "m.room.redaction"@ && (other_var == EventKindVariation::Full || other_var
        == EventKindVariation::Sync);
    if is_redaction || other_var == EventKindVariation::Full && other_kind != EventKind::ToDevice {
        assert(other[n + 3] == Token::Punct(':', true));
    } else {
        assert(other[n + 2] == name((other_kind.event_name(other_var), site))[0]);
    }
}

proof fn lemma_first_steps(names: Seq<Seq<char>>, span: Span, site: Span)
    ensures
        steps(names, span, site).len() == 3 * names.len(),
        names.len() > 1 ==> steps(names, span, site)[3] == Token::Punct(':', true),
    decreases names.len(),
{
    lemma_colons(site);
    if names.len() > 0 {
        lemma_first_steps(names.drop_last(), span, site);
        let all = steps(names, span, site);
        let start = steps(names.drop_last(), span, site);
        if names.len() == 2 {
            assert(all[3] == quoted("::"@, site)[0]);
        } else if names.len() > 2 {
            assert(all[3] == start[3]);
        }
    }
}

proof fn lemma_colons(site: Span)
    ensures
        quoted("::"@, site) == seq![Token::Punct(':', true), Token::Punct(':', false)],
        quoted("<"@, site) == seq![Token::Punct('<', false)],
        quoted(":: room :: redaction :: RedactionEvent"@, site).len() > 3,
        quoted(":: room :: redaction :: RedactionEvent"@, site)[3] == Token::Punct(':', true),
        quoted(":: room :: redaction :: SyncRedactionEvent"@, site).len() > 3,
        quoted(":: room :: redaction :: SyncRedactionEvent"@, site)[3] == Token::Punct(':', true),
{
    reveal_strlit("::");
    reveal_strlit("<");
    reveal_strlit("room");
    reveal_strlit("redaction :: RedactionEvent");
    reveal_strlit(":: redaction :: RedactionEvent");
    reveal_strlit("room :: redaction :: RedactionEvent");
    reveal_strlit(":: room :: redaction :: RedactionEvent");
    reveal_strlit("redaction :: SyncRedactionEvent");
    reveal_strlit(":: redaction :: SyncRedactionEvent");
    reveal_strlit("room :: redaction :: SyncRedactionEvent");
    reveal_strlit(":: room :: redaction :: SyncRedactionEvent");
    law_template_is_read_word_by_word("<"@, ""@, site);
    law_template_is_read_word_by_word("::"@, "room :: redaction :: RedactionEvent"@, site);
    law_template_is_read_word_by_word("room"@, ":: redaction :: RedactionEvent"@, site);
    law_template_is_read_word_by_word("::"@, "redaction :: RedactionEvent"@, site);
    law_template_is_read_word_by_word("::"@, "room :: redaction :: SyncRedactionEvent"@, site);
    law_template_is_read_word_by_word("room"@, ":: redaction :: SyncRedactionEvent"@, site);
    law_template_is_read_word_by_word("::"@, "redaction :: SyncRedactionEvent"@, site);
    assert(":: room :: redaction :: RedactionEvent"@ =~= "::"@.push(' ')
        + "room :: redaction :: RedactionEvent"@);
    assert("room :: redaction :: RedactionEvent"@ =~= "room"@.push(' ')
        + ":: redaction :: RedactionEvent"@);
    assert(":: redaction :: RedactionEvent"@ =~= "::"@.push(' ') + "redaction :: RedactionEvent"@);
    assert(":: room :: redaction :: SyncRedactionEvent"@ =~= "::"@.push(' ')
        + "room :: redaction :: SyncRedactionEvent"@);
    assert("room :: redaction :: SyncRedactionEvent"@ =~= "room"@.push(' ')
        + ":: redaction :: SyncRedactionEvent"@);
    assert(":: redaction :: SyncRedactionEvent"@ =~= "::"@.push(' ')
        + "redaction :: SyncRedactionEvent"@);
    assert(operator_tokens("::"@) =~= seq![Token::Punct(':', true), Token::Punct(':', false)]);
    assert(operator_tokens("<"@) =~= seq![Token::Punct('<', false)]);
}

/// An event enum is defined with one variant for each entry, in the order of the entries, and
/// `Custom` behind them. A variant carries the event type as its documentation, then the
/// attributes of the entry, and holds the event type's own type.
#[verifier::spinoff_prover]
#[verifier::rlimit(40)]
pub proof fn law_every_entry_is_a_variant_of_the_enum(
    kind: EventKind,
    events: Seq<Event>,
    attrs: Seq<Seq<Token>>,
    variants: Seq<Variant>,
    var: EventKindVariation,
    import_path: Seq<Token>,
    site: Span,
    i: int,
)
    requires
        kind.occurs(var),
        events.len() == variants.len(),
        are_attributes(attrs),
        are_tidy(variants),
        is_path(import_path),
        0 <= i <= events.len(),
    ensures
        ({
            let ident = enum_ident(kind, var, site);
            let event_struct = (kind.event_name(var), site);
            let code = any_enum(kind, events, attrs, variants, var, import_path, site).unwrap();
            let lines = members(
                parts(code, End::Block),
                enum_head(attrs, ident, import_path, site),
                End::Comma,
            );
            &&& lines.len() == events.len() + 1
            &&& i < events.len() ==> lines[i] == quoted("#"@, site) + brackets(
                quoted("doc ="@, site) + events[i].literal,
            ) + named(variants[i]) + parens(
                event_path(events[i], event_struct, import_path, site),
            ) + quoted(","@, site)
            &&& lines[events.len() as int] == quoted("#"@, site) + brackets(
                quoted("doc ="@, site) + literal(
                    if var.redacted() {
                        " A redacted event not defined by the Matrix specification"@
                    } else {
                        " An event not defined by the Matrix specification"@
                    },
                    site,
                ),
            ) + quoted("Custom"@, site) + parens(
                import_path + quoted("::"@, site) + name(event_struct) + quoted("<"@, site)
                    + import_path + quoted(
                    if var.redacted() {
                        ":: custom :: RedactedCustomEventContent >"@
                    } else {
                        ":: custom :: CustomEventContent >"@
                    },
                    site,
                ),
            ) + quoted(","@, site)
        }),
{
    lemma_lines(kind, events, attrs, variants, var, import_path, site);
}

} // verus!
