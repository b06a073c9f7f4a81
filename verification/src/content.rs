//! The enum of event contents.

use crate::enum_item::{enum_item, enum_item_new, least, smaller, variant_lines, variant_lines_new};
use crate::event_type::{
    can_name_event, content_path, events_of, named_at, to_event_content_path, Event, NamedEvent,
};
use crate::ident::Ident;
use crate::kind::EventKind;
use crate::token::{
    append, braces, concat, copy, doc_comment, doc_comment_new, is_template, lemma_concat_next,
    name, parens, put_braces, put_name, put_parens, quote, quote_new, quoted, tokens_of,
    tokens_of_each, Token,
};
use crate::variant::{variant_tokens, variants_of, EventEnumVariant, Variant};
use proc_macro2::{Span, TokenStream};
use vstd::prelude::*;

verus! {

broadcast use crate::template::law_templates_consist_of_tokens;

/// Whether every event type gives names that Rust accepts.
pub open spec fn can_name_events(events: Seq<Event>) -> bool {
    forall|i: int| 0 <= i < events.len() ==> can_name_event((#[trigger] events[i]).text)
}

/// The types of the contents of the event types.
pub open spec fn content_paths(
    events: Seq<Event>,
    import_path: Seq<Token>,
    site: Span,
) -> Seq<Seq<Token>> {
    Seq::new(events.len(), |i: int| content_path(events[i], import_path, site))
}

fn content_paths_new(events: &[NamedEvent], import_path: &TokenStream, site: Span) -> (r: Vec<
    TokenStream,
>)
    requires
        named_at(events@, site),
    ensures
        tokens_of_each(r@) == content_paths(events_of(events@), tokens_of(*import_path), site),
{
    let mut paths: Vec<TokenStream> = Vec::new();
    let n: usize = events.len();
    let ghost parts = content_paths(events_of(events@), tokens_of(*import_path), site);
    for i in 0..n
        invariant
            n == events@.len(),
            named_at(events@, site),
            parts == content_paths(events_of(events@), tokens_of(*import_path), site),
            paths@.len() == i,
            forall|j: int| 0 <= j < i ==> tokens_of(#[trigger] paths@[j]) == parts[j],
    {
        paths.push(to_event_content_path(&events[i], import_path));
    }
    assert(tokens_of_each(paths@) =~= parts);
    paths
}

/// The arm that asks the content of a variant for its event type.
pub open spec fn event_type_arm(variant: Variant, site: Span) -> Seq<Token> {
    quoted("Self ::"@, site)
        + variant_tokens(variant)
        + parens(quoted("content"@, site))
        + quoted("=> content . event_type"@, site)
        + parens(Seq::empty())
        + quoted(","@, site)
}

fn event_type_arm_new(variant: &EventEnumVariant, site: Span) -> (r: TokenStream)
    ensures
        tokens_of(r) == event_type_arm(variant@, site),
{
    let mut arm = quote_new("Self ::", site);
    variant.to_tokens(&mut arm);
    put_parens(&mut arm, quote_new("content", site));
    quote(&mut arm, "=> content . event_type", site);
    put_parens(&mut arm, TokenStream::new());
    quote(&mut arm, ",", site);
    arm
}

/// The arms that ask the content of the variants for its event type.
pub open spec fn event_type_arms(variants: Seq<Variant>, site: Span) -> Seq<Seq<Token>> {
    Seq::new(variants.len(), |i: int| event_type_arm(variants[i], site))
}

fn event_type_arms_new(variants: &[EventEnumVariant], site: Span) -> (r: TokenStream)
    ensures
        tokens_of(r) == concat(event_type_arms(variants_of(variants@), site)),
{
    let mut arms = TokenStream::new();
    let n: usize = variants.len();
    let ghost parts = event_type_arms(variants_of(variants@), site);
    for i in 0..n
        invariant
            n == parts.len(),
            parts == event_type_arms(variants_of(variants@), site),
            n == variants@.len(),
            tokens_of(arms) == concat(parts.take(i as int)),
    {
        append(&mut arms, &event_type_arm_new(&variants[i], site));
        proof {
            lemma_concat_next(parts, i as int);
        }
    }
    assert(parts.take(n as int) =~= parts);
    arms
}

/// The arm that reads the content of an event type into its variant.
pub open spec fn from_parts_arm(
    event: Event,
    variant: Variant,
    content: Seq<Token>,
    site: Span,
) -> Seq<Token> {
    event.literal
        + quoted("=>"@, site)
        + braces(
            quoted("let content ="@, site)
                + content
                + quoted(":: from_parts"@, site)
                + parens(quoted("event_type , input"@, site))
                + quoted("? ; Ok"@, site)
                + parens(
                    quoted("Self ::"@, site)
                        + variant_tokens(variant)
                        + parens(quoted("content"@, site)),
                ),
        )
        + quoted(","@, site)
}

fn from_parts_arm_new(
    event: &NamedEvent,
    variant: &EventEnumVariant,
    content: &TokenStream,
    site: Span,
) -> (r: TokenStream)
    ensures
        tokens_of(r) == from_parts_arm(event.event(), variant@, tokens_of(*content), site),
{
    let mut arm = copy(event.literal());
    quote(&mut arm, "=>", site);
    let mut body = quote_new("let content =", site);
    append(&mut body, content);
    quote(&mut body, ":: from_parts", site);
    put_parens(&mut body, quote_new("event_type , input", site));
    quote(&mut body, "? ; Ok", site);
    let mut value = quote_new("Self ::", site);
    variant.to_tokens(&mut value);
    put_parens(&mut value, quote_new("content", site));
    put_parens(&mut body, value);
    put_braces(&mut arm, body);
    quote(&mut arm, ",", site);
    arm
}

/// The arms that read the contents of the event types into their variants.
pub open spec fn from_parts_arms(
    events: Seq<Event>,
    variants: Seq<Variant>,
    contents: Seq<Seq<Token>>,
    site: Span,
) -> Seq<Seq<Token>> {
    Seq::new(
        least(events.len(), variants.len()),
        |i: int| from_parts_arm(events[i], variants[i], contents[i], site),
    )
}

fn from_parts_arms_new(
    events: &[NamedEvent],
    variants: &[EventEnumVariant],
    contents: &Vec<TokenStream>,
    site: Span,
) -> (r: TokenStream)
    requires
        contents@.len() == events@.len(),
    ensures
        tokens_of(r) == concat(from_parts_arms(
            events_of(events@),
            variants_of(variants@),
            tokens_of_each(contents@),
            site,
        )),
{
    let mut arms = TokenStream::new();
    let n: usize = smaller(events.len(), variants.len());
    let ghost parts = from_parts_arms(
        events_of(events@),
        variants_of(variants@),
        tokens_of_each(contents@),
        site,
    );
    for i in 0..n
        invariant
            n == parts.len(),
            parts == from_parts_arms(
                events_of(events@),
                variants_of(variants@),
                tokens_of_each(contents@),
                site,
            ),
            n <= events@.len(),
            n <= variants@.len(),
            contents@.len() == events@.len(),
            tokens_of(arms) == concat(parts.take(i as int)),
    {
        assert(parts[i as int] == from_parts_arm(
            events@[i as int].event(),
            variants@[i as int]@,
            tokens_of(contents@[i as int]),
            site,
        ));
        append(&mut arms, &from_parts_arm_new(&events[i], &variants[i], &contents[i], site));
        proof {
            lemma_concat_next(parts, i as int);
        }
    }
    assert(parts.take(n as int) =~= parts);
    arms
}

/// The last variant of a content enum, for events that have no variant of their own.
pub open spec fn custom_content_line(import_path: Seq<Token>, site: Span) -> Seq<Token> {
    doc_comment(
        " Content of an event not defined by the Matrix specification."@,
        site,
    )
        + quoted("Custom"@, site)
        + parens(import_path + quoted(":: custom :: CustomEventContent"@, site))
        + quoted(","@, site)
}

fn custom_content_line_new(import_path: &TokenStream, site: Span) -> (r: TokenStream)
    ensures
        tokens_of(r) == custom_content_line(tokens_of(*import_path), site),
{
    let mut line = doc_comment_new(
        " Content of an event not defined by the Matrix specification.",
        site,
    );
    quote(&mut line, "Custom", site);
    let mut content = copy(import_path);
    quote(&mut content, ":: custom :: CustomEventContent", site);
    put_parens(&mut line, content);
    quote(&mut line, ",", site);
    line
}

/// The function of a content enum that tells the event type of a content.
pub open spec fn event_type_fn(variants: Seq<Variant>, site: Span) -> Seq<Token> {
    quoted("fn event_type"@, site)
        + parens(quoted("& self"@, site))
        + quoted("-> & str"@, site)
        + braces(
            quoted("match self"@, site)
                + braces(
                    concat(event_type_arms(variants, site))
                        + quoted("Self :: Custom"@, site)
                        + parens(quoted("content"@, site))
                        + quoted("=> content . event_type"@, site)
                        + parens(Seq::empty())
                        + quoted(","@, site),
                ),
        )
}

fn event_type_fn_new(variants: &[EventEnumVariant], site: Span) -> (r: TokenStream)
    ensures
        tokens_of(r) == event_type_fn(variants_of(variants@), site),
{
    let mut function = quote_new("fn event_type", site);
    put_parens(&mut function, quote_new("& self", site));
    quote(&mut function, "-> & str", site);
    let mut body = quote_new("match self", site);
    let mut arms = event_type_arms_new(variants, site);
    quote(&mut arms, "Self :: Custom", site);
    put_parens(&mut arms, quote_new("content", site));
    quote(&mut arms, "=> content . event_type", site);
    put_parens(&mut arms, TokenStream::new());
    quote(&mut arms, ",", site);
    put_braces(&mut body, arms);
    put_braces(&mut function, body);
    function
}

/// The function of a content enum that reads the content of an event type. An event type
/// without a variant is read as custom content.
pub open spec fn from_parts_fn(
    events: Seq<Event>,
    variants: Seq<Variant>,
    contents: Seq<Seq<Token>>,
    import_path: Seq<Token>,
    site: Span,
) -> Seq<Token> {
    quoted("fn from_parts"@, site)
        + parens(
            quoted("event_type : & str , input : Box <"@, site)
                + import_path
                + quoted(":: exports :: serde_json :: value :: RawValue > ,"@, site),
        )
        + quoted("-> Result < Self ,"@, site)
        + import_path
        + quoted(":: exports :: serde_json :: Error >"@, site)
        + braces(
            quoted("match event_type"@, site)
                + braces(
                    concat(from_parts_arms(events, variants, contents, site))
                        + quoted("ev_type =>"@, site)
                        + braces(
                            quoted("let content ="@, site)
                                + import_path
                                + quoted(":: custom :: CustomEventContent :: from_parts"@, site)
                                + parens(quoted("ev_type , input"@, site))
                                + quoted("? ; Ok"@, site)
                                + parens(
                                    quoted("Self :: Custom"@, site)
                                        + parens(quoted("content"@, site)),
                                ),
                        )
                        + quoted(","@, site),
                ),
        )
}

fn from_parts_fn_new(
    events: &[NamedEvent],
    variants: &[EventEnumVariant],
    contents: &Vec<TokenStream>,
    import_path: &TokenStream,
    site: Span,
) -> (r: TokenStream)
    requires
        contents@.len() == events@.len(),
    ensures
        tokens_of(r) == from_parts_fn(
            events_of(events@),
            variants_of(variants@),
            tokens_of_each(contents@),
            tokens_of(*import_path),
            site,
        ),
{
    let mut function = quote_new("fn from_parts", site);
    let mut params = quote_new("event_type : & str , input : Box <", site);
    append(&mut params, import_path);
    quote(&mut params, ":: exports :: serde_json :: value :: RawValue > ,", site);
    put_parens(&mut function, params);
    quote(&mut function, "-> Result < Self ,", site);
    append(&mut function, import_path);
    quote(&mut function, ":: exports :: serde_json :: Error >", site);
    let mut body = quote_new("match event_type", site);
    let mut arms = from_parts_arms_new(events, variants, contents, site);
    quote(&mut arms, "ev_type =>", site);
    let mut custom = quote_new("let content =", site);
    append(&mut custom, import_path);
    quote(&mut custom, ":: custom :: CustomEventContent :: from_parts", site);
    put_parens(&mut custom, quote_new("ev_type , input", site));
    quote(&mut custom, "? ; Ok", site);
    let mut value = quote_new("Self :: Custom", site);
    put_parens(&mut value, quote_new("content", site));
    put_parens(&mut custom, value);
    put_braces(&mut arms, custom);
    quote(&mut arms, ",", site);
    put_braces(&mut body, arms);
    put_braces(&mut function, body);
    function
}

/// The implementation of a trait that asks for nothing.
pub open spec fn marker_impl(
    marker: Seq<char>,
    ident: (Seq<char>, Span),
    import_path: Seq<Token>,
    site: Span,
) -> Seq<Token> {
    quoted("impl"@, site)
        + import_path
        + quoted(marker, site)
        + quoted("for"@, site)
        + name(ident)
        + braces(Seq::empty())
}

fn marker_impl_new(
    marker: &str,
    ident: &Ident,
    import_path: &TokenStream,
    site: Span,
) -> (r: TokenStream)
    requires
        is_template(marker@),
    ensures
        tokens_of(r) == marker_impl(marker@, ident@, tokens_of(*import_path), site),
{
    let mut item = quote_new("impl", site);
    append(&mut item, import_path);
    append(&mut item, &quote_new(marker, site));
    quote(&mut item, "for", site);
    put_name(&mut item, ident);
    put_braces(&mut item, TokenStream::new());
    item
}

/// The traits that mark the content enum of a kind.
pub open spec fn marker_impls(kind: EventKind, import_path: Seq<Token>, site: Span) -> Seq<Token> {
    let ident = kind.content_enum_ident(site);
    match kind {
        EventKind::State => {
            marker_impl(":: RoomEventContent"@, ident, import_path, site)
                + marker_impl(":: StateEventContent"@, ident, import_path, site)
        },
        EventKind::Message => {
            marker_impl(":: RoomEventContent"@, ident, import_path, site)
                + marker_impl(":: MessageEventContent"@, ident, import_path, site)
        },
        EventKind::Ephemeral => {
            marker_impl(":: EphemeralRoomEventContent"@, ident, import_path, site)
        },
        EventKind::Basic => {
            marker_impl(":: BasicEventContent"@, ident, import_path, site)
        },
        EventKind::ToDevice => Seq::empty(),
    }
}

/// Marks the content enum of a kind with the traits that the kind calls for.
pub fn marker_traits(kind: &EventKind, import_path: &TokenStream, site: Span) -> (r: TokenStream)
    ensures
        tokens_of(r) == marker_impls(*kind, tokens_of(*import_path), site),
{
    let ident = kind.to_content_enum(site);
    match kind {
        EventKind::State => {
            let mut items = marker_impl_new(":: RoomEventContent", &ident, import_path, site);
            append(&mut items, &marker_impl_new(":: StateEventContent", &ident, import_path, site));
            items
        },
        EventKind::Message => {
            let mut items = marker_impl_new(":: RoomEventContent", &ident, import_path, site);
            append(
                &mut items,
                &marker_impl_new(":: MessageEventContent", &ident, import_path, site),
            );
            items
        },
        EventKind::Ephemeral => {
            marker_impl_new(":: EphemeralRoomEventContent", &ident, import_path, site)
        },
        EventKind::Basic => {
            marker_impl_new(":: BasicEventContent", &ident, import_path, site)
        },
        EventKind::ToDevice => TokenStream::new(),
    }
}

/// The code of a content enum: its definition, what it implements, and the traits that mark it.
pub open spec fn content_enum(
    kind: EventKind,
    events: Seq<Event>,
    attrs: Seq<Seq<Token>>,
    variants: Seq<Variant>,
    import_path: Seq<Token>,
    site: Span,
) -> Seq<Token> {
    let ident = kind.content_enum_ident(site);
    let contents = content_paths(events, import_path, site);
    enum_item(
        attrs,
        ident,
        concat(variant_lines(events, variants, contents, site))
            + custom_content_line(import_path, site),
        import_path,
        site,
    )
        + quoted("impl"@, site)
        + import_path
        + quoted(":: EventContent for"@, site)
        + name(ident)
        + braces(
            event_type_fn(variants, site)
                + from_parts_fn(events, variants, contents, import_path, site),
        )
        + marker_impls(kind, import_path, site)
}

/// Writes the enum of the contents of all event types, with what it implements.
pub fn expand_content_enum(
    kind: &EventKind,
    events: &[NamedEvent],
    attrs: &Vec<TokenStream>,
    variants: &[EventEnumVariant],
    import_path: &TokenStream,
    site: Span,
) -> (r: TokenStream)
    requires
        named_at(events@, site),
    ensures
        tokens_of(r) == content_enum(
            *kind,
            events_of(events@),
            tokens_of_each(attrs@),
            variants_of(variants@),
            tokens_of(*import_path),
            site,
        ),
{
    let ident = kind.to_content_enum(site);
    let contents = content_paths_new(events, import_path, site);
    assert(tokens_of_each(contents@).len() == events@.len());
    let mut body = variant_lines_new(events, variants, &contents, site);
    append(&mut body, &custom_content_line_new(import_path, site));
    let mut code = enum_item_new(attrs, &ident, body, import_path, site);
    quote(&mut code, "impl", site);
    append(&mut code, import_path);
    quote(&mut code, ":: EventContent for", site);
    put_name(&mut code, &ident);
    let mut functions = event_type_fn_new(variants, site);
    append(&mut functions, &from_parts_fn_new(events, variants, &contents, import_path, site));
    put_braces(&mut code, functions);
    append(&mut code, &marker_traits(kind, import_path, site));
    code
}

} // verus!
