//! The expansion of an event enum.

use crate::accessor::{accessor_impl, accessor_methods};
use crate::content::{can_name_events, content_enum, expand_content_enum};
use crate::conversion::{conversion_impl, expand_conversion_impl};
use crate::deserialize::{
    deserialize_impl, deserialize_impl_new, read_event, read_event_new, read_helper,
    read_helper_new, take_json, take_json_new,
};
use crate::enum_item::{enum_item, enum_item_new, least, smaller, variant_lines, variant_lines_new};
use crate::event_type::{
    can_name_event, can_name_variant, check_event_name, check_variant_name, event_path, events_of,
    is_well_known, named_at, prefix_message, starts_with_prefix, to_event_path, Event, EventType,
    EventTypeError, NamedEvent,
};
use crate::ident::{is_ascii_text, Ident};
use crate::kind::{EventKind, EventKindVariation};
use crate::redaction::{expand_redact, expand_redacted_enum, possibly_redacted_enum, redact_impl};
use crate::token::{
    append, braces, concat, copy, doc_comment, doc_comment_new, lemma_concat_next, name, parens,
    present, present_new, put_braces, put_name, put_parens, put_present, quote, quote_new, quoted,
    tokens_in, tokens_of, tokens_of_each, Token,
};
use crate::variant::{
    entry_variant, variant_tokens, variants_of, EventEnumEntry, EventEnumInput,
    EventEnumVariant, Variant,
};
use proc_macro2::{Span, TokenStream};
use vstd::prelude::*;

verus! {

broadcast use crate::template::law_templates_consist_of_tokens;

/// Names the event struct and the event enum for a kind and variation.
pub fn generate_event_idents(kind: &EventKind, var: &EventKindVariation, site: Span) -> (r: Option<
    (Ident, Ident),
>)
    ensures
        r is Some <==> kind.occurs(*var),
        r matches Some(idents) ==> {
            &&& idents.0@ == (kind.event_name(*var), site)
            &&& idents.1@ == (kind.event_enum_name(*var), site)
        },
{
    Some((kind.to_event_ident(var, site)?, kind.to_event_enum_ident(var, site)?))
}

/// What the content of an event is called that has no variant of its own.
pub open spec fn custom_content(var: EventKindVariation) -> Seq<char> {
    if var.redacted() {
        ":: custom :: RedactedCustomEventContent >"@
    } else {
        ":: custom :: CustomEventContent >"@
    }
}

fn custom_content_of(var: &EventKindVariation) -> (r: &'static str)
    ensures
        r@ == custom_content(*var),
{
    if var.is_redacted() {
        ":: custom :: RedactedCustomEventContent >"
    } else {
        ":: custom :: CustomEventContent >"
    }
}

/// The type of the events that have no variant of their own.
pub open spec fn custom_event(
    event_struct: (Seq<char>, Span),
    var: EventKindVariation,
    import_path: Seq<Token>,
    site: Span,
) -> Seq<Token> {
    import_path
        + quoted("::"@, site)
        + name(event_struct)
        + quoted("<"@, site)
        + import_path
        + quoted(custom_content(var), site)
}

fn custom_event_new(
    event_struct: &Ident,
    var: &EventKindVariation,
    import_path: &TokenStream,
    site: Span,
) -> (r: TokenStream)
    ensures
        tokens_of(r) == custom_event(event_struct@, *var, tokens_of(*import_path), site),
{
    let mut path = copy(import_path);
    quote(&mut path, "::", site);
    put_name(&mut path, event_struct);
    quote(&mut path, "<", site);
    append(&mut path, import_path);
    append(&mut path, &quote_new(custom_content_of(var), site));
    path
}

/// What is said of the variant for events that have no variant of their own.
pub open spec fn custom_docs(var: EventKindVariation) -> Seq<char> {
    if var.redacted() {
        " A redacted event not defined by the Matrix specification"@
    } else {
        " An event not defined by the Matrix specification"@
    }
}

fn custom_docs_of(var: &EventKindVariation) -> (r: &'static str)
    ensures
        r@ == custom_docs(*var),
{
    if var.is_redacted() {
        " A redacted event not defined by the Matrix specification"
    } else {
        " An event not defined by the Matrix specification"
    }
}

/// The last variant of an event enum, for events that have no variant of their own.
pub open spec fn custom_line(
    event_struct: (Seq<char>, Span),
    var: EventKindVariation,
    import_path: Seq<Token>,
    site: Span,
) -> Seq<Token> {
    doc_comment(custom_docs(var), site)
        + quoted("Custom"@, site)
        + parens(custom_event(event_struct, var, import_path, site))
        + quoted(","@, site)
}

fn custom_line_new(
    event_struct: &Ident,
    var: &EventKindVariation,
    import_path: &TokenStream,
    site: Span,
) -> (r: TokenStream)
    ensures
        tokens_of(r) == custom_line(event_struct@, *var, tokens_of(*import_path), site),
{
    let mut line = doc_comment_new(custom_docs_of(var), site);
    quote(&mut line, "Custom", site);
    put_parens(&mut line, custom_event_new(event_struct, var, import_path, site));
    quote(&mut line, ",", site);
    line
}

/// The type of the events without a variant as the arm that reads them names it: with a comma
/// behind it if they have been redacted.
pub open spec fn custom_argument(
    event_struct: (Seq<char>, Span),
    var: EventKindVariation,
    import_path: Seq<Token>,
    site: Span,
) -> Seq<Token> {
    if var.redacted() {
        custom_event(event_struct, var, import_path, site) + quoted(","@, site)
    } else {
        custom_event(event_struct, var, import_path, site)
    }
}

/// The last arm of the function that reads an event, for events that have no variant of their
/// own.
pub open spec fn custom_arm(
    event_struct: (Seq<char>, Span),
    var: EventKindVariation,
    import_path: Seq<Token>,
    site: Span,
) -> Seq<Token> {
    quoted("event =>"@, site)
        + braces(
            read_event(
                custom_argument(event_struct, var, import_path, site),
                import_path,
                site,
            )
                + quoted("Ok"@, site)
                + parens(quoted("Self :: Custom"@, site) + parens(quoted("event"@, site))),
        )
        + quoted(","@, site)
}

fn custom_arm_new(
    event_struct: &Ident,
    var: &EventKindVariation,
    import_path: &TokenStream,
    site: Span,
) -> (r: TokenStream)
    ensures
        tokens_of(r) == custom_arm(event_struct@, *var, tokens_of(*import_path), site),
{
    let mut event = custom_event_new(event_struct, var, import_path, site);
    if var.is_redacted() {
        quote(&mut event, ",", site);
    }
    let mut arm = quote_new("event =>", site);
    let mut body = read_event_new(&event, import_path, site);
    quote(&mut body, "Ok", site);
    let mut value = quote_new("Self :: Custom", site);
    put_parens(&mut value, quote_new("event", site));
    put_parens(&mut body, value);
    put_braces(&mut arm, body);
    quote(&mut arm, ",", site);
    arm
}

/// Writes the variant for events that have no variant of their own, and the arm that reads them.
pub fn generate_custom_variant(
    event_struct: &Ident,
    var: &EventKindVariation,
    import_path: &TokenStream,
    site: Span,
) -> (r: (TokenStream, TokenStream))
    ensures
        tokens_of(r.0) == custom_line(event_struct@, *var, tokens_of(*import_path), site),
        tokens_of(r.1) == custom_arm(event_struct@, *var, tokens_of(*import_path), site),
{
    (
        custom_line_new(event_struct, var, import_path, site),
        custom_arm_new(event_struct, var, import_path, site),
    )
}

/// The types that the variants of an event enum hold.
pub open spec fn event_paths(
    events: Seq<Event>,
    event_struct: (Seq<char>, Span),
    import_path: Seq<Token>,
    site: Span,
) -> Seq<Seq<Token>> {
    Seq::new(events.len(), |i: int| event_path(events[i], event_struct, import_path, site))
}

fn event_paths_new(
    events: &[NamedEvent],
    event_struct: &Ident,
    import_path: &TokenStream,
    site: Span,
) -> (r: Vec<TokenStream>)
    requires
        named_at(events@, site),
    ensures
        tokens_of_each(r@) == event_paths(
            events_of(events@),
            event_struct@,
            tokens_of(*import_path),
            site,
        ),
{
    let mut paths: Vec<TokenStream> = Vec::new();
    let n: usize = events.len();
    let ghost parts = event_paths(
        events_of(events@),
        event_struct@,
        tokens_of(*import_path),
        site,
    );
    for i in 0..n
        invariant
            n == events@.len(),
            named_at(events@, site),
            parts == event_paths(
                events_of(events@),
                event_struct@,
                tokens_of(*import_path),
                site,
            ),
            paths@.len() == i,
            forall|j: int| 0 <= j < i ==> tokens_of(#[trigger] paths@[j]) == parts[j],
    {
        paths.push(to_event_path(&events[i], event_struct, import_path));
    }
    assert(tokens_of_each(paths@) =~= parts);
    paths
}

/// The arm that reads an event of an event type into its variant.
pub open spec fn read_arm(
    event: Event,
    variant: Variant,
    content: Seq<Token>,
    import_path: Seq<Token>,
    site: Span,
) -> Seq<Token> {
    event.literal
        + quoted("=>"@, site)
        + braces(
            read_event(content, import_path, site)
                + quoted("Ok"@, site)
                + parens(
                    quoted("Self ::"@, site)
                        + variant_tokens(variant)
                        + parens(quoted("event"@, site)),
                ),
        )
        + quoted(","@, site)
}

fn read_arm_new(
    event: &NamedEvent,
    variant: &EventEnumVariant,
    content: &TokenStream,
    import_path: &TokenStream,
    site: Span,
) -> (r: TokenStream)
    ensures
        tokens_of(r) == read_arm(
            event.event(),
            variant@,
            tokens_of(*content),
            tokens_of(*import_path),
            site,
        ),
{
    let mut arm = copy(event.literal());
    quote(&mut arm, "=>", site);
    let mut body = read_event_new(content, import_path, site);
    quote(&mut body, "Ok", site);
    let mut value = quote_new("Self ::", site);
    variant.to_tokens(&mut value);
    put_parens(&mut value, quote_new("event", site));
    put_parens(&mut body, value);
    put_braces(&mut arm, body);
    quote(&mut arm, ",", site);
    arm
}

/// The arms that read the events of the event types into their variants.
pub open spec fn read_arms(
    events: Seq<Event>,
    variants: Seq<Variant>,
    contents: Seq<Seq<Token>>,
    import_path: Seq<Token>,
    site: Span,
) -> Seq<Seq<Token>> {
    Seq::new(
        least(events.len(), variants.len()),
        |i: int| read_arm(events[i], variants[i], contents[i], import_path, site),
    )
}

fn read_arms_new(
    events: &[NamedEvent],
    variants: &[EventEnumVariant],
    contents: &Vec<TokenStream>,
    import_path: &TokenStream,
    site: Span,
) -> (r: TokenStream)
    requires
        contents@.len() == events@.len(),
    ensures
        tokens_of(r) == concat(read_arms(
            events_of(events@),
            variants_of(variants@),
            tokens_of_each(contents@),
            tokens_of(*import_path),
            site,
        )),
{
    let mut arms = TokenStream::new();
    let n: usize = smaller(events.len(), variants.len());
    let ghost parts = read_arms(
        events_of(events@),
        variants_of(variants@),
        tokens_of_each(contents@),
        tokens_of(*import_path),
        site,
    );
    for i in 0..n
        invariant
            n == parts.len(),
            parts == read_arms(
                events_of(events@),
                variants_of(variants@),
                tokens_of_each(contents@),
                tokens_of(*import_path),
                site,
            ),
            n <= events@.len(),
            n <= variants@.len(),
            contents@.len() == events@.len(),
            tokens_of(arms) == concat(parts.take(i as int)),
    {
        assert(parts[i as int] == read_arm(
            events@[i as int].event(),
            variants@[i as int]@,
            tokens_of(contents@[i as int]),
            tokens_of(*import_path),
            site,
        ));
        let arm = read_arm_new(&events[i], &variants[i], &contents[i], import_path, site);
        append(&mut arms, &arm);
        proof {
            lemma_concat_next(parts, i as int);
        }
    }
    assert(parts.take(n as int) =~= parts);
    arms
}

/// The body of the function that reads an event: its type decides which variant it becomes.
pub open spec fn read_any(arms: Seq<Token>, import_path: Seq<Token>, site: Span) -> Seq<Token> {
    quoted("use"@, site)
        + import_path
        + quoted(":: exports :: serde :: de :: Error as _ ;"@, site)
        + take_json(import_path, site)
        + read_helper("ev_type"@, import_path, site)
        + quoted("match ev_type . as_str"@, site)
        + parens(Seq::empty())
        + braces(arms)
}

fn read_any_new(arms: &TokenStream, import_path: &TokenStream, site: Span) -> (r: TokenStream)
    ensures
        tokens_of(r) == read_any(tokens_of(*arms), tokens_of(*import_path), site),
{
    let mut body = quote_new("use", site);
    append(&mut body, import_path);
    quote(&mut body, ":: exports :: serde :: de :: Error as _ ;", site);
    append(&mut body, &take_json_new(import_path, site));
    append(&mut body, &read_helper_new("ev_type", import_path, site));
    quote(&mut body, "match ev_type . as_str", site);
    put_parens(&mut body, TokenStream::new());
    put_braces(&mut body, copy(arms));
    body
}

/// The definition of the enum of the events of one kind and variation.
pub open spec fn event_enum_item(
    kind: EventKind,
    events: Seq<Event>,
    attrs: Seq<Seq<Token>>,
    variants: Seq<Variant>,
    var: EventKindVariation,
    import_path: Seq<Token>,
    site: Span,
) -> Seq<Token> {
    let event_struct = (kind.event_name(var), site);
    enum_item(
        attrs,
        (kind.event_enum_name(var), site),
        concat(
            variant_lines(
                events,
                variants,
                event_paths(events, event_struct, import_path, site),
                site,
            ),
        )
            + custom_line(event_struct, var, import_path, site),
        import_path,
        site,
    )
}

/// The implementation that reads the events of one kind and variation.
pub open spec fn event_enum_reader(
    kind: EventKind,
    events: Seq<Event>,
    variants: Seq<Variant>,
    var: EventKindVariation,
    import_path: Seq<Token>,
    site: Span,
) -> Seq<Token> {
    let event_struct = (kind.event_name(var), site);
    deserialize_impl(
        (kind.event_enum_name(var), site),
        read_any(
            concat(
                read_arms(
                    events,
                    variants,
                    event_paths(events, event_struct, import_path, site),
                    import_path,
                    site,
                ),
            )
                + custom_arm(event_struct, var, import_path, site),
            import_path,
            site,
        ),
        import_path,
        site,
    )
}

/// All code for the events of one kind and variation: the event enum, its conversion, its
/// methods, how it is redacted and how it is read, and the enum of events that may have been
/// redacted. There is none if the kind does not occur in the variation.
#[verifier::opaque]
pub open spec fn any_enum(
    kind: EventKind,
    events: Seq<Event>,
    attrs: Seq<Seq<Token>>,
    variants: Seq<Variant>,
    var: EventKindVariation,
    import_path: Seq<Token>,
    site: Span,
) -> Option<Seq<Token>> {
    let ident = (kind.event_enum_name(var), site);
    if kind.occurs(var) {
        Some(
            event_enum_item(kind, events, attrs, variants, var, import_path, site)
                + present(conversion_impl(kind, var, variants, import_path, site))
                + present(accessor_impl(kind, var, variants, import_path, site))
                + present(redact_impl(ident, kind, var, variants, import_path, site))
                + event_enum_reader(kind, events, variants, var, import_path, site)
                + present(possibly_redacted_enum(kind, var, import_path, site)),
        )
    } else {
        None
    }
}

/// Writes all code for the events of one kind and variation.
pub fn expand_any_with_deser(
    kind: &EventKind,
    events: &[NamedEvent],
    attrs: &Vec<TokenStream>,
    variants: &[EventEnumVariant],
    var: &EventKindVariation,
    import_path: &TokenStream,
    site: Span,
) -> (r: Option<TokenStream>)
    requires
        named_at(events@, site),
    ensures
        tokens_in(r) == any_enum(
            *kind,
            events_of(events@),
            tokens_of_each(attrs@),
            variants_of(variants@),
            *var,
            tokens_of(*import_path),
            site,
        ),
{
    reveal(any_enum);
    let (event_struct, ident) = generate_event_idents(kind, var, site)?;
    let contents = event_paths_new(events, &event_struct, import_path, site);
    assert(tokens_of_each(contents@).len() == events@.len());
    let (custom_variant, custom_deserialize) = generate_custom_variant(
        &event_struct,
        var,
        import_path,
        site,
    );
    let mut body = variant_lines_new(events, variants, &contents, site);
    append(&mut body, &custom_variant);
    let mut arms = read_arms_new(events, variants, &contents, import_path, site);
    append(&mut arms, &custom_deserialize);
    let mut code = enum_item_new(attrs, &ident, body, import_path, site);
    put_present(&mut code, &expand_conversion_impl(kind, var, variants, import_path, site));
    put_present(&mut code, &accessor_methods(kind, var, variants, import_path, site));
    put_present(&mut code, &expand_redact(&ident, kind, var, variants, import_path, site));
    let reader = deserialize_impl_new(
        &ident,
        read_any_new(&arms, import_path, site),
        import_path,
        site,
    );
    append(&mut code, &reader);
    put_present(&mut code, &expand_redacted_enum(kind, var, import_path, site));
    Some(code)
}

/// All code for the redacted events of a kind: three event enums for state events, two for
/// message events, none for other kinds.
pub open spec fn redacted_enums(
    kind: EventKind,
    events: Seq<Event>,
    attrs: Seq<Seq<Token>>,
    variants: Seq<Variant>,
    import_path: Seq<Token>,
    site: Span,
) -> Seq<Token> {
    let code = |var: EventKindVariation|
        present(any_enum(kind, events, attrs, variants, var, import_path, site));
    match kind {
        EventKind::State => code(EventKindVariation::Redacted)
            + code(EventKindVariation::RedactedSync)
            + code(EventKindVariation::RedactedStripped),
        EventKind::Message => code(EventKindVariation::Redacted)
            + code(EventKindVariation::RedactedSync),
        _ => Seq::empty(),
    }
}

/// Writes all code for the redacted events of a kind.
pub fn expand_any_redacted(
    kind: &EventKind,
    events: &[NamedEvent],
    attrs: &Vec<TokenStream>,
    variants: &[EventEnumVariant],
    import_path: &TokenStream,
    site: Span,
) -> (r: TokenStream)
    requires
        named_at(events@, site),
    ensures
        tokens_of(r) == redacted_enums(
            *kind,
            events_of(events@),
            tokens_of_each(attrs@),
            variants_of(variants@),
            tokens_of(*import_path),
            site,
        ),
{
    if kind.is_state() {
        let full = expand_any_with_deser(
            kind,
            events,
            attrs,
            variants,
            &EventKindVariation::Redacted,
            import_path,
            site,
        );
        let sync = expand_any_with_deser(
            kind,
            events,
            attrs,
            variants,
            &EventKindVariation::RedactedSync,
            import_path,
            site,
        );
        let stripped = expand_any_with_deser(
            kind,
            events,
            attrs,
            variants,
            &EventKindVariation::RedactedStripped,
            import_path,
            site,
        );
        let mut code = present_new(&full);
        put_present(&mut code, &sync);
        put_present(&mut code, &stripped);
        code
    } else if kind.is_message() {
        let full = expand_any_with_deser(
            kind,
            events,
            attrs,
            variants,
            &EventKindVariation::Redacted,
            import_path,
            site,
        );
        let sync = expand_any_with_deser(
            kind,
            events,
            attrs,
            variants,
            &EventKindVariation::RedactedSync,
            import_path,
            site,
        );
        let mut code = present_new(&full);
        put_present(&mut code, &sync);
        code
    } else {
        TokenStream::new()
    }
}

/// The event types of the entries.
pub open spec fn entry_events(entries: Seq<EventEnumEntry>) -> Seq<Event> {
    Seq::new(entries.len(), |i: int| entries[i].ev_type@)
}

/// The variants that the entries become.
pub open spec fn entry_variants(entries: Seq<EventEnumEntry>) -> Seq<Variant> {
    Seq::new(entries.len(), |i: int| entry_variant(entries[i]))
}

/// Whether the event types before `i` all start with `m.`.
pub open spec fn well_known_before(entries: Seq<EventEnumEntry>, i: int) -> bool {
    forall|j: int| 0 <= j < i ==> is_well_known((#[trigger] entries[j]).ev_type@.text)
}

/// Whether every name that is formed from the entries is one that Rust accepts. Entries behind
/// one whose event type is rejected do not matter.
pub open spec fn can_expand(entries: Seq<EventEnumEntry>) -> bool {
    &&& forall|i: int|
        0 <= i < entries.len() && well_known_before(entries, i) ==> can_name_variant(
            (#[trigger] entries[i]).ev_type@.text,
        )
    &&& well_known_before(entries, entries.len() as int) ==> can_name_events(entry_events(entries))
}

/// Whether every name that is formed from the entries is ASCII. Entries behind one whose event
/// type is rejected do not matter, nor does that one.
pub open spec fn has_ascii_names(entries: Seq<EventEnumEntry>) -> bool {
    forall|i: int|
        0 <= i < entries.len() && well_known_before(entries, i + 1) ==> is_ascii_text(
            (#[trigger] entries[i]).ev_type@.text,
        )
}

/// The code for an event enum: the event enums of each variation, those for redacted events, and
/// the content enum.
pub open spec fn expansion(
    kind: EventKind,
    attrs: Seq<Seq<Token>>,
    events: Seq<Event>,
    variants: Seq<Variant>,
    import_path: Seq<Token>,
    site: Span,
) -> Seq<Token> {
    let code = |var: EventKindVariation|
        present(any_enum(kind, events, attrs, variants, var, import_path, site));
    code(EventKindVariation::Full)
        + code(EventKindVariation::Sync)
        + code(EventKindVariation::Stripped)
        + code(EventKindVariation::Initial)
        + redacted_enums(kind, events, attrs, variants, import_path, site)
        + content_enum(kind, events, attrs, variants, import_path, site)
}

/// What becomes of the event enum that `input` asks for: its code if all event types start with
/// `m.`, otherwise an error at the first that does not.
pub open spec fn is_expansion(
    r: Result<TokenStream, EventTypeError>,
    input: EventEnumInput,
    import_path: TokenStream,
    site: Span,
) -> bool {
    match r {
        Ok(code) => {
            &&& well_known_before(input.events@, input.events@.len() as int)
            &&& tokens_of(code) == expansion(
                input.name,
                tokens_of_each(input.attrs@),
                entry_events(input.events@),
                entry_variants(input.events@),
                tokens_of(import_path),
                site,
            )
        },
        Err(error) => exists|i: int|
            {
                &&& 0 <= i < input.events@.len()
                &&& well_known_before(input.events@, i)
                &&& !is_well_known((#[trigger] input.events@[i]).ev_type@.text)
                &&& error.span == input.events@[i].ev_type@.span
                &&& error.message@ == prefix_message(input.events@[i].ev_type@.text)
            },
    }
}

fn variants_new(entries: &Vec<EventEnumEntry>) -> (r: Option<
    Result<Vec<EventEnumVariant>, EventTypeError>,
>)
    requires
        can_expand(entries@),
    ensures
        match r {
            Some(Ok(variants)) => {
                &&& well_known_before(entries@, entries@.len() as int)
                &&& variants_of(variants@) == entry_variants(entries@)
            },
            Some(Err(error)) => exists|i: int|
                {
                    &&& 0 <= i < entries@.len()
                    &&& well_known_before(entries@, i)
                    &&& !is_well_known((#[trigger] entries@[i]).ev_type@.text)
                    &&& error.span == entries@[i].ev_type@.span
                    &&& error.message@ == prefix_message(entries@[i].ev_type@.text)
                },
            None => !has_ascii_names(entries@),
        },
{
    let mut variants: Vec<EventEnumVariant> = Vec::new();
    let n: usize = entries.len();
    for i in 0..n
        invariant
            n == entries@.len(),
            can_expand(entries@),
            well_known_before(entries@, i as int),
            variants@.len() == i,
            forall|j: int| 0 <= j < i ==> (#[trigger] variants@[j])@ == entry_variant(entries@[j]),
    {
        assert(can_name_variant(entries@[i as int].ev_type@.text));
        match entries[i].to_variant() {
            Some(Ok(variant)) => {
                variants.push(variant);
            },
            Some(Err(error)) => {
                return Some(Err(error));
            },
            None => {
                assert(well_known_before(entries@, i + 1));
                assert(!is_ascii_text(entries@[i as int].ev_type@.text));
                return None;
            },
        }
    }
    assert(variants_of(variants@) =~= entry_variants(entries@));
    Some(Ok(variants))
}

fn named_events_new(entries: &Vec<EventEnumEntry>, site: Span) -> (r: Option<Vec<NamedEvent>>)
    requires
        can_name_events(entry_events(entries@)),
    ensures
        match r {
            Some(events) => {
                &&& events_of(events@) == entry_events(entries@)
                &&& named_at(events@, site)
            },
            None => exists|i: int|
                0 <= i < entries@.len() && !is_ascii_text((#[trigger] entries@[i]).ev_type@.text),
        },
{
    let mut events: Vec<NamedEvent> = Vec::new();
    let n: usize = entries.len();
    for i in 0..n
        invariant
            n == entries@.len(),
            can_name_events(entry_events(entries@)),
            events@.len() == i,
            named_at(events@, site),
            forall|j: int| 0 <= j < i ==> (#[trigger] events@[j]).event() == entries@[j].ev_type@,
    {
        let ev_type = &entries[i].ev_type;
        assert(can_name_event(entry_events(entries@)[i as int].text));
        let event = EventType {
            value: ev_type.value.clone(),
            span: ev_type.span,
            literal: copy(&ev_type.literal),
        };
        match NamedEvent::new(event, site) {
            Some(named) => {
                events.push(named);
            },
            None => {
                assert(!is_ascii_text(entries@[i as int].ev_type@.text));
                return None;
            },
        }
    }
    assert(events_of(events@) =~= entry_events(entries@));
    Some(events)
}

/// Writes the code for an event enum, once all events and variants have their names.
pub fn expand_named_events(
    kind: &EventKind,
    attrs: &Vec<TokenStream>,
    events: &[NamedEvent],
    variants: &[EventEnumVariant],
    import_path: &TokenStream,
    site: Span,
) -> (r: TokenStream)
    requires
        named_at(events@, site),
    ensures
        tokens_of(r) == expansion(
            *kind,
            tokens_of_each(attrs@),
            events_of(events@),
            variants_of(variants@),
            tokens_of(*import_path),
            site,
        ),
{
    let full = expand_any_with_deser(
        kind,
        events,
        attrs,
        variants,
        &EventKindVariation::Full,
        import_path,
        site,
    );
    let sync = expand_any_with_deser(
        kind,
        events,
        attrs,
        variants,
        &EventKindVariation::Sync,
        import_path,
        site,
    );
    let stripped = expand_any_with_deser(
        kind,
        events,
        attrs,
        variants,
        &EventKindVariation::Stripped,
        import_path,
        site,
    );
    let initial = expand_any_with_deser(
        kind,
        events,
        attrs,
        variants,
        &EventKindVariation::Initial,
        import_path,
        site,
    );
    let redacted = expand_any_redacted(kind, events, attrs, variants, import_path, site);
    let contents = expand_content_enum(kind, events, attrs, variants, import_path, site);
    let mut code = present_new(&full);
    put_present(&mut code, &sync);
    put_present(&mut code, &stripped);
    put_present(&mut code, &initial);
    append(&mut code, &redacted);
    append(&mut code, &contents);
    code
}

/// Writes the code for the event enum that `input` asks for. Items of the events library are
/// named under `import_path`; names that no event type gives carry the span `site`. There is no
/// code if a name is beyond ASCII and the compiler does not know a letter of it.
pub fn expand_event_enum_at(
    input: &EventEnumInput,
    import_path: &TokenStream,
    site: Span,
) -> (r: Option<Result<TokenStream, EventTypeError>>)
    requires
        can_expand(input.events@),
    ensures
        match r {
            Some(result) => is_expansion(result, *input, *import_path, site),
            None => !has_ascii_names(input.events@),
        },
{
    let variants = match variants_new(&input.events)? {
        Ok(variants) => variants,
        Err(error) => {
            return Some(Err(error));
        },
    };
    let events = named_events_new(&input.events, site)?;
    Some(
        Ok(
            expand_named_events(
                &input.name,
                &input.attrs,
                events.as_slice(),
                variants.as_slice(),
                import_path,
                site,
            ),
        ),
    )
}

/// `proc_macro2::Span::call_site`: the place of the macro call that is being expanded. Nothing is
/// said of it, as it depends on where the expansion runs.
pub assume_specification[ Span::call_site ]() -> Span
;

/// Writes the code for the event enum that `input` asks for, with the place of the macro call as
/// the span of every name that no event type gives. There is no code if a name is beyond ASCII
/// and the compiler does not know a letter of it.
pub fn expand_event_enum(input: EventEnumInput, import_path: &TokenStream) -> (r: Option<
    Result<TokenStream, EventTypeError>,
>)
    requires
        can_expand(input.events@),
    ensures
        match r {
            Some(result) => exists|site: Span| is_expansion(result, input, *import_path, site),
            None => !has_ascii_names(input.events@),
        },
{
    let site = Span::call_site();
    expand_event_enum_at(&input, import_path, site)
}

/// Tells whether every name that is formed from the entries is one that Rust accepts.
pub fn check_entries(entries: &Vec<EventEnumEntry>) -> (r: bool)
    ensures
        r == can_expand(entries@),
{
    let n: usize = entries.len();
    for i in 0..n
        invariant
            n == entries@.len(),
            well_known_before(entries@, i as int),
            forall|j: int| 0 <= j < i ==> can_name_variant((#[trigger] entries@[j]).ev_type@.text),
    {
        if !check_variant_name(&entries[i].ev_type) {
            assert(!can_name_variant(entries@[i as int].ev_type@.text));
            return false;
        }
        if !starts_with_prefix(entries[i].ev_type.value.as_str()) {
            assert forall|j: int|
                0 <= j < entries@.len() && well_known_before(
                    entries@,
                    j,
                ) implies can_name_variant((#[trigger] entries@[j]).ev_type@.text) by {
                if j > i {
                    assert(is_well_known(entries@[i as int].ev_type@.text));
                }
            }
            assert(!is_well_known(entries@[i as int].ev_type@.text));
            return true;
        }
    }
    for i in 0..n
        invariant
            n == entries@.len(),
            well_known_before(entries@, n as int),
            forall|j: int|
                0 <= j < i ==> can_name_event((#[trigger] entry_events(entries@)[j]).text),
    {
        if !check_event_name(&entries[i].ev_type) {
            assert(!can_name_event(entry_events(entries@)[i as int].text));
            return false;
        }
    }
    true
}

/// Writes the code for the event enum that `input` asks for, or nothing if a name is formed from
/// the entries that Rust does not accept. In ASCII it is known which names those are; beyond, the
/// compiler may not know a letter.
pub fn try_expand_event_enum(input: EventEnumInput, import_path: &TokenStream) -> (r: Option<
    Result<TokenStream, EventTypeError>,
>)
    ensures
        match r {
            Some(result) => {
                &&& can_expand(input.events@)
                &&& exists|site: Span| is_expansion(result, input, *import_path, site)
            },
            None => !(can_expand(input.events@) && has_ascii_names(input.events@)),
        },
{
    if check_entries(&input.events) {
        expand_event_enum(input, import_path)
    } else {
        None
    }
}

} // verus!
