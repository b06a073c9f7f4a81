//! The content enum and the enum of events that may have been redacted, told from the tokens of the
//! generated code.

use crate::code::{
    inside, is_complete, is_part, lemma_comma, lemma_no_parts, lemma_one_part, lemma_parts_and_last,
    lemma_parts_of_two, parts, End,
};
use crate::content::{
    content_enum, content_paths, custom_content_line, event_type_arm, event_type_arms,
    event_type_fn, from_parts_arm, from_parts_arms, from_parts_fn, marker_impl, marker_impls,
};
use crate::deserialize::deserialize_impl;
use crate::enum_item::{enum_item, variant_lines};
use crate::event_enum::any_enum;
use crate::event_type::{content_path, Event};
use crate::generated::{are_written, comes_to, lemma_arrow, lemma_line, named, read_function, takes};
use crate::items::{
    are_attributes, are_tidy, block_at_end, enum_head, enum_ident, group_code, is_path, items_of,
    lemma_items_of, lemma_possibly_parts, read_head,
};
use crate::kind::{EventKind, EventKindVariation};
use crate::methods::is_redactable;
use crate::redaction::{
    either_enum, possibly_redacted_enum, possibly_redacted_name, read_possibly_redacted,
    redacted_form,
};
use crate::token::{braces, brackets, concat, literal, name, parens, quoted, Token};
use crate::variant::Variant;
use proc_macro2::Span;
use vstd::prelude::*;

verus! {

/// The name of the content enum of a kind.
pub open spec fn content_ident(kind: EventKind, site: Span) -> (Seq<char>, Span) {
    (kind.content_enum_name(), site)
}

/// The item that marks a type by a trait.
pub open spec fn marks(
    marker: Seq<char>,
    kind: EventKind,
    import_path: Seq<Token>,
    site: Span,
) -> Seq<Token> {
    quoted("impl"@, site) + import_path + quoted(marker, site) + quoted("for"@, site) + name(
        content_ident(kind, site),
    ) + braces(Seq::empty())
}

/// The traits that mark the contents of a kind.
pub open spec fn markers(kind: EventKind) -> Seq<Seq<char>> {
    match kind {
        EventKind::State => seq![":: RoomEventContent"@, ":: StateEventContent"@],
        EventKind::Message => seq![":: RoomEventContent"@, ":: MessageEventContent"@],
        EventKind::Ephemeral => seq![":: EphemeralRoomEventContent"@],
        EventKind::Basic => seq![":: BasicEventContent"@],
        EventKind::ToDevice => Seq::empty(),
    }
}

/// How the implementation of `EventContent` begins.
pub open spec fn content_head(
    kind: EventKind,
    import_path: Seq<Token>,
    site: Span,
) -> Seq<Token> {
    quoted("impl"@, site) + import_path + quoted(":: EventContent for"@, site) + name(
        content_ident(kind, site),
    )
}

/// The content enum of a kind is defined, implements `EventContent` with two functions, and is
/// marked by the traits of the kind, whatever the entries are.
#[verifier::spinoff_prover]
#[verifier::rlimit(40)]
pub proof fn law_items_of_the_content_enum(
    kind: EventKind,
    events: Seq<Event>,
    attrs: Seq<Seq<Token>>,
    variants: Seq<Variant>,
    import_path: Seq<Token>,
    site: Span,
)
    requires
        are_attributes(attrs),
        is_path(import_path),
    ensures
        ({
            let code = content_enum(kind, events, attrs, variants, import_path, site);
            let items = parts(code, End::Block);
            &&& is_complete(code, End::Block)
            &&& items.len() == 2 + markers(kind).len()
            &&& items[0] == enum_head(attrs, content_ident(kind, site), import_path, site) + braces(
                inside(items[0]),
            )
            &&& items[1] == content_head(kind, import_path, site) + braces(inside(items[1]))
            &&& parts(inside(items[1]), End::Block).len() == 2
            &&& is_complete(inside(items[1]), End::Block)
            &&& forall|j: int|
                0 <= j < markers(kind).len() ==> #[trigger] items[j + 2] == marks(
                    markers(kind)[j],
                    kind,
                    import_path,
                    site,
                )
        }),
{
    lemma_content_items(kind, events, attrs, variants, import_path, site);
    lemma_content_functions(
        events,
        variants,
        content_paths(events, import_path, site),
        import_path,
        site,
    );
}

spec fn content_definition(
    kind: EventKind,
    events: Seq<Event>,
    attrs: Seq<Seq<Token>>,
    variants: Seq<Variant>,
    import_path: Seq<Token>,
    site: Span,
) -> Seq<Token> {
    let contents = content_paths(events, import_path, site);
    enum_head(attrs, content_ident(kind, site), import_path, site) + braces(
        concat(variant_lines(events, variants, contents, site)) + custom_content_line(
            import_path,
            site,
        ),
    )
}

spec fn content_functions(
    kind: EventKind,
    events: Seq<Event>,
    variants: Seq<Variant>,
    import_path: Seq<Token>,
    site: Span,
) -> Seq<Token> {
    let contents = content_paths(events, import_path, site);
    content_head(kind, import_path, site) + braces(
        event_type_fn(variants, site) + from_parts_fn(
            events,
            variants,
            contents,
            import_path,
            site,
        ),
    )
}

proof fn lemma_content_items(
    kind: EventKind,
    events: Seq<Event>,
    attrs: Seq<Seq<Token>>,
    variants: Seq<Variant>,
    import_path: Seq<Token>,
    site: Span,
)
    requires
        are_attributes(attrs),
        is_path(import_path),
    ensures
        ({
            let code = content_enum(kind, events, attrs, variants, import_path, site);
            let items = parts(code, End::Block);
            let contents = content_paths(events, import_path, site);
            &&& is_complete(code, End::Block)
            &&& items.len() == 2 + markers(kind).len()
            &&& items[0] == enum_head(attrs, content_ident(kind, site), import_path, site) + braces(
                inside(items[0]),
            )
            &&& items[1] == content_head(kind, import_path, site) + braces(inside(items[1]))
            &&& inside(items[0]) == concat(variant_lines(events, variants, contents, site))
                + custom_content_line(import_path, site)
            &&& inside(items[1]) == event_type_fn(variants, site) + from_parts_fn(
                events,
                variants,
                contents,
                import_path,
                site,
            )
            &&& forall|j: int|
                0 <= j < markers(kind).len() ==> #[trigger] items[j + 2] == marks(
                    markers(kind)[j],
                    kind,
                    import_path,
                    site,
                )
        }),
{
    let e = content_definition(kind, events, attrs, variants, import_path, site);
    let f = content_functions(kind, events, variants, import_path, site);
    let m = marker_impls(kind, import_path, site);
    let code = content_enum(kind, events, attrs, variants, import_path, site);
    lemma_content_code(kind, events, attrs, variants, import_path, site);
    assert(is_part(e, End::Block) && is_part(f, End::Block)) by {
        broadcast use group_code;

    }
    assert(inside(e) == concat(
        variant_lines(events, variants, content_paths(events, import_path, site), site),
    ) + custom_content_line(import_path, site)) by {
        broadcast use block_at_end;

    }
    assert(inside(f) == event_type_fn(variants, site) + from_parts_fn(
        events,
        variants,
        content_paths(events, import_path, site),
        import_path,
        site,
    )) by {
        broadcast use block_at_end;

    }
    lemma_one_part(e, End::Block);
    lemma_one_part(f, End::Block);
    lemma_markers(kind, import_path, site);
    lemma_parts_of_two(e, f, End::Block);
    lemma_parts_of_two(e + f, m, End::Block);
    let items = parts(code, End::Block);
    assert(items == seq![e] + seq![f] + parts(m, End::Block));
    assert forall|j: int| 0 <= j < markers(kind).len() implies #[trigger] items[j + 2] == marks(
        markers(kind)[j],
        kind,
        import_path,
        site,
    ) by {
        assert(items[j + 2] == parts(m, End::Block)[j]);
    }
}

proof fn lemma_content_code(
    kind: EventKind,
    events: Seq<Event>,
    attrs: Seq<Seq<Token>>,
    variants: Seq<Variant>,
    import_path: Seq<Token>,
    site: Span,
)
    ensures
        content_enum(kind, events, attrs, variants, import_path, site) == content_definition(
            kind,
            events,
            attrs,
            variants,
            import_path,
            site,
        ) + content_functions(kind, events, variants, import_path, site) + marker_impls(
            kind,
            import_path,
            site,
        ),
{
    let e = content_definition(kind, events, attrs, variants, import_path, site);
    let f = content_functions(kind, events, variants, import_path, site);
    let contents = content_paths(events, import_path, site);
    let body = concat(variant_lines(events, variants, contents, site)) + custom_content_line(
        import_path,
        site,
    );
    assert(enum_item(attrs, content_ident(kind, site), body, import_path, site) =~= e);
    assert(content_enum(kind, events, attrs, variants, import_path, site) =~= e + f + marker_impls(
        kind,
        import_path,
        site,
    ));
}

proof fn lemma_markers(kind: EventKind, import_path: Seq<Token>, site: Span)
    requires
        is_path(import_path),
    ensures
        ({
            let tokens = marker_impls(kind, import_path, site);
            let items = parts(tokens, End::Block);
            &&& is_complete(tokens, End::Block)
            &&& items.len() == markers(kind).len()
            &&& forall|j: int|
                0 <= j < items.len() ==> #[trigger] items[j] == marks(
                    markers(kind)[j],
                    kind,
                    import_path,
                    site,
                )
        }),
{
    lemma_no_parts(End::Block);
    if markers(kind).len() > 0 {
        let first = marks(markers(kind)[0], kind, import_path, site);
        lemma_mark(markers(kind)[0], kind, import_path, site);
        if markers(kind).len() > 1 {
            let second = marks(markers(kind)[1], kind, import_path, site);
            lemma_mark(markers(kind)[1], kind, import_path, site);
            lemma_parts_of_two(first, second, End::Block);
        }
    }
}

proof fn lemma_mark(marker: Seq<char>, kind: EventKind, import_path: Seq<Token>, site: Span)
    requires
        is_path(import_path),
    ensures
        marker_impl(marker, content_ident(kind, site), import_path, site) == marks(
            marker,
            kind,
            import_path,
            site,
        ),
        parts(marks(marker, kind, import_path, site), End::Block) == seq![
            marks(marker, kind, import_path, site),
        ],
        is_complete(marks(marker, kind, import_path, site), End::Block),
{
    assert(is_part(marks(marker, kind, import_path, site), End::Block)) by {
        broadcast use group_code;

    }
    lemma_one_part(marks(marker, kind, import_path, site), End::Block);
}

proof fn lemma_content_functions(
    events: Seq<Event>,
    variants: Seq<Variant>,
    contents: Seq<Seq<Token>>,
    import_path: Seq<Token>,
    site: Span,
)
    requires
        is_path(import_path),
    ensures
        ({
            let a = event_type_fn(variants, site);
            let b = from_parts_fn(events, variants, contents, import_path, site);
            &&& parts(a + b, End::Block) == seq![a, b]
            &&& is_complete(a + b, End::Block)
        }),
{
    let a = event_type_fn(variants, site);
    let b = from_parts_fn(events, variants, contents, import_path, site);
    assert(is_part(a, End::Block) && is_part(b, End::Block)) by {
        broadcast use group_code;

    }
    lemma_one_part(a, End::Block);
    lemma_one_part(b, End::Block);
    lemma_parts_of_two(a, b, End::Block);
    assert(seq![a] + seq![b] =~= seq![a, b]);
}

/// The content enum is defined with one variant for each entry, in the order of the entries, and
/// `Custom` behind them. A variant holds the content of its event type.
#[verifier::spinoff_prover]
#[verifier::rlimit(40)]
pub proof fn law_every_entry_is_a_variant_of_the_content_enum(
    kind: EventKind,
    events: Seq<Event>,
    attrs: Seq<Seq<Token>>,
    variants: Seq<Variant>,
    import_path: Seq<Token>,
    site: Span,
    i: int,
)
    requires
        events.len() == variants.len(),
        are_attributes(attrs),
        are_tidy(variants),
        is_path(import_path),
        0 <= i <= events.len(),
    ensures
        ({
            let code = content_enum(kind, events, attrs, variants, import_path, site);
            let block = inside(parts(code, End::Block)[0]);
            let lines = parts(block, End::Comma);
            &&& is_complete(block, End::Comma)
            &&& lines.len() == events.len() + 1
            &&& i < events.len() ==> lines[i] == quoted("#"@, site) + brackets(
                quoted("doc ="@, site) + events[i].literal,
            ) + named(variants[i]) + parens(content_path(events[i], import_path, site)) + quoted(
                ","@,
                site,
            )
            &&& lines[events.len() as int] == quoted("#"@, site) + brackets(
                quoted("doc ="@, site) + literal(
                    " Content of an event not defined by the Matrix specification."@,
                    site,
                ),
            ) + quoted("Custom"@, site) + parens(
                import_path + quoted(":: custom :: CustomEventContent"@, site),
            ) + quoted(","@, site)
        }),
{
    let contents = content_paths(events, import_path, site);
    let list = variant_lines(events, variants, contents, site);
    let custom = custom_content_line(import_path, site);
    lemma_content_items(kind, events, attrs, variants, import_path, site);
    assert forall|j: int| 0 <= j < list.len() implies is_part(#[trigger] list[j], End::Comma) by {
        lemma_line(events[j], variants[j], contents[j], site);
    }
    assert(is_part(custom, End::Comma)) by {
        broadcast use group_code;

    }
    lemma_parts_and_last(list, custom, End::Comma);
}

/// The function `event_type` of the content enum has an arm for each variant and one for custom
/// contents, and asks the content for its event type.
#[verifier::spinoff_prover]
#[verifier::rlimit(40)]
pub proof fn law_contents_tell_their_event_type(
    kind: EventKind,
    events: Seq<Event>,
    attrs: Seq<Seq<Token>>,
    variants: Seq<Variant>,
    import_path: Seq<Token>,
    site: Span,
    i: int,
)
    requires
        are_attributes(attrs),
        are_tidy(variants),
        is_path(import_path),
        0 <= i <= variants.len(),
    ensures
        ({
            let code = content_enum(kind, events, attrs, variants, import_path, site);
            let function = parts(inside(parts(code, End::Block)[1]), End::Block)[0];
            let block = inside(inside(function));
            let arms = parts(block, End::Comma);
            &&& function == quoted("fn event_type"@, site) + parens(quoted("& self"@, site))
                + quoted("-> & str"@, site) + braces(
                quoted("match self"@, site) + braces(block),
            )
            &&& is_complete(block, End::Comma)
            &&& arms.len() == variants.len() + 1
            &&& i < variants.len() ==> arms[i] == quoted("Self ::"@, site) + named(variants[i])
                + parens(quoted("content"@, site)) + quoted("=> content . event_type"@, site)
                + parens(Seq::empty()) + quoted(","@, site)
            &&& arms[variants.len() as int] == quoted("Self :: Custom"@, site) + parens(
                quoted("content"@, site),
            ) + quoted("=> content . event_type"@, site) + parens(Seq::empty()) + quoted(","@, site)
        }),
{
    let list = event_type_arms(variants, site);
    let custom = quoted("Self :: Custom"@, site) + parens(quoted("content"@, site)) + quoted(
        "=> content . event_type"@,
        site,
    ) + parens(Seq::empty()) + quoted(","@, site);
    let contents = content_paths(events, import_path, site);
    let function = event_type_fn(variants, site);
    lemma_content_items(kind, events, attrs, variants, import_path, site);
    lemma_content_functions(events, variants, contents, import_path, site);
    assert(inside(inside(function)) =~= concat(list) + custom) by {
        broadcast use block_at_end;

    }
    assert(function =~= quoted("fn event_type"@, site) + parens(quoted("& self"@, site)) + quoted(
        "-> & str"@,
        site,
    ) + braces(quoted("match self"@, site) + braces(inside(inside(function)))));
    assert forall|j: int| 0 <= j < list.len() implies is_part(#[trigger] list[j], End::Comma) by {
        assert(are_attributes(variants[j].attrs));
        lemma_event_type_arm_part(variants[j], site);
    }
    assert(is_part(custom, End::Comma)) by {
        broadcast use group_code;

    }
    lemma_parts_and_last(list, custom, End::Comma);
}

proof fn lemma_event_type_arm_part(variant: Variant, site: Span)
    requires
        are_attributes(variant.attrs),
    ensures
        is_part(event_type_arm(variant, site), End::Comma),
{
    broadcast use group_code;

}

/// The statements that read a content out of JSON text by `from_parts` of `held` and give it as
/// `variant`.
pub open spec fn reads_content(
    held: Seq<Token>,
    binding: Seq<Token>,
    variant: Seq<Token>,
    site: Span,
) -> Seq<Token> {
    quoted("let content ="@, site) + held + parens(binding) + quoted("? ; Ok"@, site) + parens(
        variant + parens(quoted("content"@, site)),
    )
}

/// A content is read into the variant of its event type. In the function `from_parts` the event
/// type decides by the arms of a `match`: the arm that it comes to is that of the first entry with
/// this type, and reads the content of that type into the variant of that entry. A type that no
/// entry has comes to the last arm, which reads the content into `Custom`.
#[verifier::spinoff_prover]
#[verifier::rlimit(40)]
pub proof fn law_content_is_read_into_its_variant(
    kind: EventKind,
    events: Seq<Event>,
    attrs: Seq<Seq<Token>>,
    variants: Seq<Variant>,
    import_path: Seq<Token>,
    site: Span,
    text: Seq<char>,
    i: int,
)
    requires
        events.len() == variants.len(),
        are_attributes(attrs),
        are_written(events),
        is_path(import_path),
        0 <= i <= events.len(),
        forall|j: int| 0 <= j < i ==> (#[trigger] events[j]).text != text,
        i < events.len() ==> events[i].text == text,
    ensures
        ({
            let code = content_enum(kind, events, attrs, variants, import_path, site);
            let function = parts(inside(parts(code, End::Block)[1]), End::Block)[1];
            let block = inside(inside(function));
            let arms = parts(block, End::Comma);
            &&& function == quoted("fn from_parts"@, site) + parens(
                quoted("event_type : & str , input : Box <"@, site) + import_path + quoted(
                    ":: exports :: serde_json :: value :: RawValue > ,"@,
                    site,
                ),
            ) + quoted("-> Result < Self ,"@, site) + import_path + quoted(
                ":: exports :: serde_json :: Error >"@,
                site,
            ) + braces(quoted("match event_type"@, site) + braces(block))
            &&& is_complete(block, End::Comma)
            &&& arms.len() == events.len() + 1
            &&& comes_to(arms, text, i)
            &&& i < events.len() ==> arms[i] == events[i].literal + quoted("=>"@, site) + braces(
                reads_content(
                    content_path(events[i], import_path, site) + quoted(":: from_parts"@, site),
                    quoted("event_type , input"@, site),
                    quoted("Self ::"@, site) + named(variants[i]),
                    site,
                ),
            ) + quoted(","@, site)
            &&& i == events.len() ==> arms[i] == quoted("ev_type =>"@, site) + braces(
                reads_content(
                    import_path + quoted(":: custom :: CustomEventContent :: from_parts"@, site),
                    quoted("ev_type , input"@, site),
                    quoted("Self :: Custom"@, site),
                    site,
                ),
            ) + quoted(","@, site)
        }),
{
    let contents = content_paths(events, import_path, site);
    let list = from_parts_arms(events, variants, contents, site);
    let custom = custom_parts_arm(import_path, site);
    let function = from_parts_fn(events, variants, contents, import_path, site);
    lemma_content_items(kind, events, attrs, variants, import_path, site);
    lemma_content_functions(events, variants, contents, import_path, site);
    lemma_from_parts_block(events, variants, contents, import_path, site);
    assert forall|j: int| 0 <= j < list.len() implies is_part(#[trigger] list[j], End::Comma) by {
        lemma_from_parts_arm(events[j], variants[j], contents[j], site);
    }
    lemma_custom_parts_arm(import_path, site);
    lemma_parts_and_last(list, custom, End::Comma);
    let arms = list.push(custom);
    assert forall|j: int| 0 <= j < i implies !takes(#[trigger] arms[j], text) by {
        assert(arms[j] == list[j]);
        lemma_from_parts_arm(events[j], variants[j], contents[j], site);
        assert(events[j].text != text);
    }
    if i < events.len() {
        assert(arms[i] == list[i]);
        lemma_from_parts_arm(events[i], variants[i], contents[i], site);
    }
}

/// The last arm of the function `from_parts`.
spec fn custom_parts_arm(import_path: Seq<Token>, site: Span) -> Seq<Token> {
    quoted("ev_type =>"@, site) + braces(
        reads_content(
            import_path + quoted(":: custom :: CustomEventContent :: from_parts"@, site),
            quoted("ev_type , input"@, site),
            quoted("Self :: Custom"@, site),
            site,
        ),
    ) + quoted(","@, site)
}

proof fn lemma_custom_parts_arm(import_path: Seq<Token>, site: Span)
    ensures
        ({
            let arm = custom_parts_arm(import_path, site);
            &&& is_part(arm, End::Comma)
            &&& arm.len() > 2
            &&& arm[0] == Token::Ident("ev_type"@, site)
            &&& arm[1] == Token::Punct('=', true)
            &&& arm[2] == Token::Punct('>', false)
        }),
{
    broadcast use group_code;

    lemma_arrow(site);
}

proof fn lemma_from_parts_block(
    events: Seq<Event>,
    variants: Seq<Variant>,
    contents: Seq<Seq<Token>>,
    import_path: Seq<Token>,
    site: Span,
)
    ensures
        ({
            let function = from_parts_fn(events, variants, contents, import_path, site);
            let block = concat(from_parts_arms(events, variants, contents, site))
                + custom_parts_arm(import_path, site);
            &&& inside(inside(function)) == block
            &&& function == quoted("fn from_parts"@, site) + parens(
                quoted("event_type : & str , input : Box <"@, site) + import_path + quoted(
                    ":: exports :: serde_json :: value :: RawValue > ,"@,
                    site,
                ),
            ) + quoted("-> Result < Self ,"@, site) + import_path + quoted(
                ":: exports :: serde_json :: Error >"@,
                site,
            ) + braces(quoted("match event_type"@, site) + braces(block))
        }),
{
    broadcast use block_at_end;

    let function = from_parts_fn(events, variants, contents, import_path, site);
    let list = concat(from_parts_arms(events, variants, contents, site));
    let held = import_path + quoted(":: custom :: CustomEventContent :: from_parts"@, site);
    let value = inside(inside(inside(function)).drop_last());
    lemma_comma(site);
    assert(inside(inside(function)).drop_last() =~= list + quoted("ev_type =>"@, site) + braces(
        value,
    ));
    assert(value =~= reads_content(
        held,
        quoted("ev_type , input"@, site),
        quoted("Self :: Custom"@, site),
        site,
    ));
    assert(inside(inside(function)) =~= list + custom_parts_arm(import_path, site));
}

proof fn lemma_from_parts_arm(event: Event, variant: Variant, content: Seq<Token>, site: Span)
    requires
        event.literal == seq![Token::Str(event.text, event.span)],
    ensures
        ({
            let arm = from_parts_arm(event, variant, content, site);
            &&& is_part(arm, End::Comma)
            &&& arm.len() > 2
            &&& arm[0] == Token::Str(event.text, event.span)
            &&& arm[1] == Token::Punct('=', true)
            &&& arm[2] == Token::Punct('>', false)
            &&& arm == event.literal + quoted("=>"@, site) + braces(
                reads_content(
                    content + quoted(":: from_parts"@, site),
                    quoted("event_type , input"@, site),
                    quoted("Self ::"@, site) + named(variant),
                    site,
                ),
            ) + quoted(","@, site)
        }),
{
    broadcast use group_code;

    lemma_arrow(site);
    lemma_comma(site);
    assert(event.literal == literal(event.text, event.span));
    let arm = from_parts_arm(event, variant, content, site);
    let value = inside(arm.drop_last());
    assert(arm.drop_last() =~= event.literal + quoted("=>"@, site) + braces(value));
    assert(value =~= reads_content(
        content + quoted(":: from_parts"@, site),
        quoted("event_type , input"@, site),
        quoted("Self ::"@, site) + named(variant),
        site,
    ));
}

/// Whether there is a conversion between events that name their room and events that do not.
pub open spec fn is_convertible(kind: EventKind, var: EventKindVariation) -> bool {
    match var {
        EventKindVariation::Full | EventKindVariation::Sync => kind == EventKind::Ephemeral || kind
            == EventKind::Message || kind == EventKind::State,
        EventKindVariation::Redacted | EventKindVariation::RedactedSync => kind
            == EventKind::Message || kind == EventKind::State,
        _ => false,
    }
}

/// The statements that read an event which may have been redacted: if the field `unsigned` gives a
/// reason for a redaction, it is read as a redacted event, otherwise as a regular one.
pub open spec fn reads_either(import_path: Seq<Token>, site: Span) -> Seq<Token> {
    let json = import_path + quoted(":: from_raw_json_value"@, site) + parens(
        quoted("& json"@, site),
    ) + quoted("?"@, site);
    quoted("let json = Box :: <"@, site) + import_path + quoted(
        ":: exports :: serde_json :: value :: RawValue > :: deserialize"@,
        site,
    ) + parens(quoted("deserializer"@, site)) + quoted("? ;"@, site) + (quoted("let"@, site)
        + import_path + quoted(":: EventDeHelper"@, site) + braces(
        quoted("unsigned"@, site) + quoted(", .."@, site),
    ) + quoted("="@, site) + json + quoted(";"@, site)) + quoted("Ok"@, site) + parens(
        quoted("match unsigned"@, site) + braces(
            quoted("Some"@, site) + parens(quoted("unsigned"@, site)) + quoted(
                "if unsigned . redacted_because . is_some"@,
                site,
            ) + parens(Seq::empty()) + quoted("=>"@, site) + braces(
                quoted("Self :: Redacted"@, site) + parens(json),
            ) + quoted("_ => Self :: Regular"@, site) + parens(json) + quoted(","@, site),
        ),
    )
}

/// The code for the events of a kind and variation consists of the event enum, its conversion, its
/// methods, how it is redacted and how it is read, as far as the kind and the variation have them,
/// whatever the entries are. Where events can be redacted, an enum follows that holds an event or
/// its redacted form, and how that enum is read.
#[verifier::spinoff_prover]
#[verifier::rlimit(40)]
pub proof fn law_items_of_the_code(
    kind: EventKind,
    events: Seq<Event>,
    attrs: Seq<Seq<Token>>,
    variants: Seq<Variant>,
    var: EventKindVariation,
    form: EventKindVariation,
    import_path: Seq<Token>,
    site: Span,
)
    requires
        kind.occurs(var),
        are_attributes(attrs),
        is_path(import_path),
        var == EventKindVariation::Full && form == EventKindVariation::Redacted || var
            == EventKindVariation::Sync && form == EventKindVariation::RedactedSync || var
            == EventKindVariation::Stripped && form == EventKindVariation::RedactedStripped
            || !is_redactable(kind, var),
    ensures
        ({
            let code = any_enum(kind, events, attrs, variants, var, import_path, site).unwrap();
            let items = parts(code, End::Block);
            let n = items.len() as int;
            let maybe = (possibly_redacted_name(kind, var), site);
            &&& is_complete(code, End::Block)
            &&& n == 3 + (if is_convertible(kind, var) {
                1int
            } else {
                0
            }) + if is_redactable(kind, var) {
                3int
            } else {
                0
            }
            &&& is_redactable(kind, var) ==> {
                &&& items[n - 2] == enum_of_either(
                    maybe,
                    enum_ident(kind, var, site),
                    enum_ident(kind, form, site),
                    import_path,
                    site,
                )
                &&& items[n - 1] == read_head(maybe, import_path, site) + braces(
                    read_function(reads_either(import_path, site), import_path, site),
                )
            }
        }),
{
    let maybe = (possibly_redacted_name(kind, var), site);
    let x = items_of(kind, events, attrs, variants, var, import_path, site);
    lemma_items_of(kind, events, attrs, variants, var, import_path, site);
    let p = lemma_possibly_parts(kind, var, import_path, site);
    assert(x.p == p && (x.c is Some <==> is_convertible(kind, var)) && x.a is Some && (x.r is Some
        <==> is_redactable(kind, var))) by {
        reveal(items_of);
    }
    assert(possibly_redacted_enum(kind, var, import_path, site) is Some <==> is_redactable(
        kind,
        var,
    ));
    if is_redactable(kind, var) {
        lemma_either(kind, var, form, import_path, site);
        let all = possibly_redacted_enum(kind, var, import_path, site).unwrap();
        let second = read_head(maybe, import_path, site) + braces(
            read_function(reads_either(import_path, site), import_path, site),
        );
        let first = enum_of_either(
            maybe,
            enum_ident(kind, var, site),
            enum_ident(kind, form, site),
            import_path,
            site,
        );
        assert(p[0] =~= all.take(all.len() - p[1].len()));
        assert(first =~= all.take(all.len() - second.len()));
    }
}

/// The definition of an enum that holds an event or its redacted form.
pub open spec fn enum_of_either(
    ident: (Seq<char>, Span),
    regular: (Seq<char>, Span),
    redacted: (Seq<char>, Span),
    import_path: Seq<Token>,
    site: Span,
) -> Seq<Token> {
    quoted("#"@, site) + brackets(
        quoted("doc ="@, site) + literal(
            " An enum that holds either regular un-redacted events or redacted events."@,
            site,
        ),
    ) + quoted("#"@, site) + brackets(
        quoted("derive"@, site) + parens(
            quoted("Clone , Debug ,"@, site) + import_path + quoted(
                ":: exports :: serde :: Serialize"@,
                site,
            ),
        ),
    ) + quoted("#"@, site) + brackets(quoted("serde"@, site) + parens(quoted("untagged"@, site)))
        + quoted("pub enum"@, site) + name(ident) + braces(
        quoted("#"@, site) + brackets(
            quoted("doc ="@, site) + literal(" An un-redacted event."@, site),
        ) + quoted("Regular"@, site) + parens(name(regular)) + quoted(","@, site) + quoted(
            "#"@,
            site,
        ) + brackets(quoted("doc ="@, site) + literal(" A redacted event."@, site)) + quoted(
            "Redacted"@,
            site,
        ) + parens(name(redacted)) + quoted(","@, site),
    )
}

proof fn lemma_either(
    kind: EventKind,
    var: EventKindVariation,
    form: EventKindVariation,
    import_path: Seq<Token>,
    site: Span,
)
    requires
        is_redactable(kind, var),
        redacted_form(var) == Some(form),
    ensures
        ({
            let maybe = (possibly_redacted_name(kind, var), site);
            let reader = read_head(maybe, import_path, site) + braces(
                read_function(reads_either(import_path, site), import_path, site),
            );
            &&& deserialize_impl(
                maybe,
                read_possibly_redacted(import_path, site),
                import_path,
                site,
            ) == reader
            &&& possibly_redacted_enum(kind, var, import_path, site) == Some(
                enum_of_either(
                    maybe,
                    enum_ident(kind, var, site),
                    enum_ident(kind, form, site),
                    import_path,
                    site,
                ) + reader,
            )
        }),
{
    let maybe = (possibly_redacted_name(kind, var), site);
    let regular = enum_ident(kind, var, site);
    let redacted = enum_ident(kind, form, site);
    let reader = read_head(maybe, import_path, site) + braces(
        read_function(reads_either(import_path, site), import_path, site),
    );
    assert(read_possibly_redacted(import_path, site) =~= reads_either(import_path, site));
    assert(deserialize_impl(
        maybe,
        read_possibly_redacted(import_path, site),
        import_path,
        site,
    ) =~= reader);
    let definition = enum_of_either(maybe, regular, redacted, import_path, site);
    let all = either_enum(maybe, regular, redacted, import_path, site);
    let body = inside(all.take(all.len() - reader.len()));
    assert(body =~= inside(definition));
    assert(all =~= definition + reader);
}

} // verus!
