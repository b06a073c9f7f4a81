//! The items that the code for the events of one kind and variation consists of.

use crate::accessor::accessor_impl;
use crate::code::{
    group_unbroken, inside, is_complete, is_part, lemma_members_of_one, lemma_members_of_two,
    lemma_no_parts, lemma_one_part, lemma_parts_of_two, lemma_quoted_unbroken, members, parts,
    unbroken, End,
};
use crate::conversion::{conversion_impl, sync_form};
use crate::deserialize::{deserialize_impl, serialize_attrs};
use crate::event_enum::{any_enum, event_enum_item, event_enum_reader};
use crate::event_type::Event;
use crate::ident::is_ascii_text;
use crate::kind::{lemma_event_name, EventKind, EventKindVariation};
use crate::laws::{law_enum_names_are_distinct, law_template_is_read_word_by_word};
use crate::redaction::{
    possibly_redacted_enum, possibly_redacted_name, read_possibly_redacted, redact_impl,
};
use crate::token::{
    braces, brackets, concat, doc_comment, name, operator_tokens, parens, present, quoted,
    Delimiter, Token,
};
use crate::variant::Variant;
use proc_macro2::Span;
use vstd::prelude::*;

verus! {

/// Whether the tokens are an attribute: `#` and brackets.
pub open spec fn is_attribute(tokens: Seq<Token>) -> bool {
    &&& tokens.len() == 2
    &&& tokens[0] matches Token::Punct(c, _) && c == '#'
    &&& tokens[1] matches Token::Group(delimiter, _) && delimiter == Delimiter::Bracket
}

/// Whether the lists of tokens are attributes.
pub open spec fn are_attributes(list: Seq<Seq<Token>>) -> bool {
    forall|i: int| 0 <= i < list.len() ==> is_attribute(#[trigger] list[i])
}

/// Whether the tokens are a path: names and colons.
pub open spec fn is_path(tokens: Seq<Token>) -> bool {
    forall|i: int|
        0 <= i < tokens.len() ==> match #[trigger] tokens[i] {
            Token::Ident(_, _) => true,
            Token::Punct(c, _) => c == ':',
            _ => false,
        }
}

/// Whether what the variants carry are attributes.
pub open spec fn are_tidy(variants: Seq<Variant>) -> bool {
    forall|i: int| 0 <= i < variants.len() ==> are_attributes((#[trigger] variants[i]).attrs)
}

/// The name of the enum of the events of a kind and variation.
pub open spec fn enum_ident(kind: EventKind, var: EventKindVariation, site: Span) -> (
    Seq<char>,
    Span,
) {
    (kind.event_enum_name(var), site)
}

/// How the implementation of the methods of a type begins.
pub open spec fn impl_head(ident: (Seq<char>, Span), site: Span) -> Seq<Token> {
    quoted("impl"@, site) + name(ident)
}

/// How the implementation of `From` begins.
pub open spec fn from_head(
    from: (Seq<char>, Span),
    to: (Seq<char>, Span),
    site: Span,
) -> Seq<Token> {
    quoted("impl From <"@, site) + name(from) + quoted("> for"@, site) + name(to)
}

/// How the implementation of `Deserialize` begins.
pub open spec fn read_head(
    ident: (Seq<char>, Span),
    import_path: Seq<Token>,
    site: Span,
) -> Seq<Token> {
    quoted("impl < ' de >"@, site) + import_path + quoted(
        ":: exports :: serde :: de :: Deserialize < ' de > for"@,
        site,
    ) + name(ident)
}

/// How the definition of an enum begins that carries the attributes `attrs`.
pub open spec fn enum_head(
    attrs: Seq<Seq<Token>>,
    ident: (Seq<char>, Span),
    import_path: Seq<Token>,
    site: Span,
) -> Seq<Token> {
    concat(attrs) + quoted("#"@, site) + brackets(
        quoted("derive"@, site) + parens(
            quoted("Clone , Debug ,"@, site) + import_path + quoted(
                ":: exports :: serde :: Serialize"@,
                site,
            ),
        ),
    ) + quoted("#"@, site) + brackets(quoted("serde"@, site) + parens(quoted("untagged"@, site)))
        + quoted("#"@, site) + brackets(
        quoted("allow"@, site) + parens(quoted("clippy :: large_enum_variant"@, site)),
    ) + quoted("pub enum"@, site) + name(ident)
}

/// The templates without a comma that stand in arms, variants and fields.
pub open spec fn is_comma_free(template: Seq<char>) -> bool {
    ||| template == "Self ::"@
    ||| template == "=>"@
    ||| template == "::"@
    ||| template == "#"@
    ||| template == "event"@
    ||| template == ":: RoomRedaction"@
    ||| template == "Self :: RoomRedaction"@
    ||| template == "=> Self :: RoomRedaction"@
    ||| template == "=> & event ."@
    ||| template == "Self :: Custom"@
    ||| template == ":: Custom"@
    ||| template == "Custom"@
    ||| template == "event =>"@
    ||| template == "ev_type =>"@
    ||| template == "=> content . event_type"@
    ||| template == "Regular"@
    ||| template == "Redacted"@
    ||| template == "unsigned :"@
    ||| template == ": event ."@
    ||| template == ":: RedactedSyncUnsigned"@
    ||| template == ":: RedactedUnsigned"@
    ||| template == "content"@
}

pub broadcast proof fn comma_free(template: Seq<char>, site: Span)
    requires
        is_comma_free(template),
    ensures
        #[trigger] unbroken(quoted(template, site), End::Comma),
{
    reveal_strlit("Self ::");
    reveal_strlit("=>");
    reveal_strlit("::");
    reveal_strlit("#");
    reveal_strlit("event");
    reveal_strlit(":: RoomRedaction");
    reveal_strlit("Self :: RoomRedaction");
    reveal_strlit("=> Self :: RoomRedaction");
    reveal_strlit("=> & event .");
    reveal_strlit("Self :: Custom");
    reveal_strlit(":: Custom");
    reveal_strlit("Custom");
    reveal_strlit("event =>");
    reveal_strlit("ev_type =>");
    reveal_strlit("=> content . event_type");
    reveal_strlit("Regular");
    reveal_strlit("Redacted");
    reveal_strlit("unsigned :");
    reveal_strlit(": event .");
    reveal_strlit(":: RedactedSyncUnsigned");
    reveal_strlit(":: RedactedUnsigned");
    reveal_strlit("content");
    lemma_quoted_unbroken(template, site);
}

pub broadcast proof fn unbroken_path(tokens: Seq<Token>, end: End)
    requires
        is_path(tokens),
    ensures
        #[trigger] unbroken(tokens, end),
{
    reveal(unbroken);
}

pub broadcast proof fn unbroken_attributes(list: Seq<Seq<Token>>, end: End)
    requires
        are_attributes(list),
    ensures
        #[trigger] unbroken(concat(list), end),
    decreases list.len(),
{
    reveal(unbroken);
    if list.len() > 0 {
        assert(is_attribute(list[list.len() - 1]));
        assert forall|i: int| 0 <= i < list.len() - 1 implies is_attribute(
            #[trigger] list.drop_last()[i],
        ) by {
            assert(is_attribute(list[i]));
        }
        unbroken_attributes(list.drop_last(), end);
    }
}

pub broadcast group group_code {
    group_unbroken,
    comma_free,
    unbroken_path,
    unbroken_attributes,
}

/// Attributes begin with `#`.
proof fn lemma_attributes_begin(list: Seq<Seq<Token>>)
    requires
        are_attributes(list),
        list.len() > 0,
    ensures
        concat(list).len() > 0,
        concat(list)[0] matches Token::Punct(c, _) && c == '#',
    decreases list.len(),
{
    let last = list.last();
    let start = list.drop_last();
    assert(is_attribute(list[list.len() - 1]));
    if list.len() > 1 {
        assert forall|i: int| 0 <= i < start.len() implies is_attribute(#[trigger] start[i]) by {
            assert(is_attribute(list[i]));
        }
        lemma_attributes_begin(start);
        assert(concat(list)[0] == concat(start)[0]);
    } else {
        assert(concat(start) =~= Seq::empty());
        assert(concat(list) =~= last);
    }
}

/// What stands before and in the braces at the end.
pub broadcast proof fn block_at_end(start: Seq<Token>, inner: Seq<Token>)
    ensures
        #![trigger start + braces(inner)]
        (start + braces(inner)).drop_last() == start,
        inside(start + braces(inner)) == inner,
{
    assert((start + braces(inner)).drop_last() =~= start);
}

/// How the items begin, token by token.
pub proof fn lemma_first_words(site: Span)
    ensures
        quoted("impl"@, site) == seq![Token::Ident("impl"@, site)],
        quoted("impl From <"@, site) == seq![
            Token::Ident("impl"@, site),
            Token::Ident("From"@, site),
            Token::Punct('<', false),
        ],
        quoted("> for"@, site) == seq![Token::Punct('>', false), Token::Ident("for"@, site)],
        quoted("impl < ' de >"@, site).len() > 1,
        quoted("impl < ' de >"@, site)[0] == Token::Ident("impl"@, site),
        quoted("impl < ' de >"@, site)[1] == Token::Punct('<', false),
        quoted("#"@, site) == seq![Token::Punct('#', false)],
{
    reveal_strlit("impl");
    reveal_strlit("From");
    reveal_strlit("From <");
    reveal_strlit("<");
    reveal_strlit(">");
    reveal_strlit("for");
    reveal_strlit("> for");
    reveal_strlit("' de >");
    reveal_strlit("< ' de >");
    reveal_strlit("impl < ' de >");
    reveal_strlit("impl From <");
    reveal_strlit("#");
    law_template_is_read_word_by_word("impl"@, "From <"@, site);
    law_template_is_read_word_by_word("From"@, "<"@, site);
    law_template_is_read_word_by_word("<"@, "' de >"@, site);
    law_template_is_read_word_by_word(">"@, "for"@, site);
    law_template_is_read_word_by_word("for"@, ""@, site);
    law_template_is_read_word_by_word("impl"@, "< ' de >"@, site);
    law_template_is_read_word_by_word("#"@, ""@, site);
    assert("impl From <"@ =~= "impl"@.push(' ') + "From <"@);
    assert("From <"@ =~= "From"@.push(' ') + "<"@);
    assert("> for"@ =~= ">"@.push(' ') + "for"@);
    assert("impl < ' de >"@ =~= "impl"@.push(' ') + "< ' de >"@);
    assert("< ' de >"@ =~= "<"@.push(' ') + "' de >"@);
    assert(operator_tokens("<"@) =~= seq![Token::Punct('<', false)]);
    assert(operator_tokens(">"@) =~= seq![Token::Punct('>', false)]);
    assert(operator_tokens("#"@) =~= seq![Token::Punct('#', false)]);
    assert(quoted("impl From <"@, site) =~= seq![
        Token::Ident("impl"@, site),
        Token::Ident("From"@, site),
        Token::Punct('<', false),
    ]);
    assert(quoted("> for"@, site) =~= seq![Token::Punct('>', false), Token::Ident("for"@, site)]);
}

/// What there is, as a list.
pub open spec fn listed(tokens: Option<Seq<Token>>) -> Seq<Seq<Token>> {
    match tokens {
        Some(tokens) => seq![tokens],
        None => Seq::empty(),
    }
}

proof fn lemma_listed(tokens: Option<Seq<Token>>)
    requires
        tokens matches Some(tokens) ==> is_part(tokens, End::Block),
    ensures
        parts(present(tokens), End::Block) == listed(tokens),
        is_complete(present(tokens), End::Block),
{
    lemma_no_parts(End::Block);
    if tokens is Some {
        lemma_one_part(tokens.unwrap(), End::Block);
    }
}

proof fn lemma_item_parts(
    kind: EventKind,
    events: Seq<Event>,
    attrs: Seq<Seq<Token>>,
    variants: Seq<Variant>,
    var: EventKindVariation,
    import_path: Seq<Token>,
    site: Span,
)
    requires
        kind.occurs(var),
        are_attributes(attrs),
        is_path(import_path),
    ensures
        is_part(event_enum_item(kind, events, attrs, variants, var, import_path, site), End::Block),
        conversion_impl(kind, var, variants, import_path, site) matches Some(tokens) ==> is_part(
            tokens,
            End::Block,
        ),
        accessor_impl(kind, var, variants, import_path, site) matches Some(tokens) && is_part(
            tokens,
            End::Block,
        ),
        redact_impl(
            enum_ident(kind, var, site),
            kind,
            var,
            variants,
            import_path,
            site,
        ) matches Some(tokens) ==> is_part(tokens, End::Block),
        is_part(event_enum_reader(kind, events, variants, var, import_path, site), End::Block),
{
    broadcast use group_code;

}

pub proof fn lemma_possibly_parts(
    kind: EventKind,
    var: EventKindVariation,
    import_path: Seq<Token>,
    site: Span,
) -> (r: Seq<Seq<Token>>)
    requires
        is_path(import_path),
    ensures
        parts(present(possibly_redacted_enum(kind, var, import_path, site)), End::Block) == r,
        is_complete(present(possibly_redacted_enum(kind, var, import_path, site)), End::Block),
        possibly_redacted_enum(kind, var, import_path, site) is None ==> r.len() == 0,
        possibly_redacted_enum(kind, var, import_path, site) is Some ==> {
            let ident = (possibly_redacted_name(kind, var), site);
            &&& r.len() == 2
            &&& r[1] == deserialize_impl(
                ident,
                read_possibly_redacted(import_path, site),
                import_path,
                site,
            )
            &&& r[0] + r[1] == possibly_redacted_enum(kind, var, import_path, site).unwrap()
            &&& r[0].len() > 1
            &&& r[0][0] == Token::Punct('#', false)
            &&& r[0][r[0].len() - 2] == name(ident)[0]
        },
{
    broadcast use group_code;

    lemma_no_parts(End::Block);
    if possibly_redacted_enum(kind, var, import_path, site) is Some {
        let all = possibly_redacted_enum(kind, var, import_path, site).unwrap();
        let ident = (possibly_redacted_name(kind, var), site);
        let reader = deserialize_impl(
            ident,
            read_possibly_redacted(import_path, site),
            import_path,
            site,
        );
        let definition = all.take(all.len() - reader.len());
        lemma_first_words(site);
        assert(is_part(reader, End::Block));
        let head = doc_comment(
            " An enum that holds either regular un-redacted events or redacted events."@,
            site,
        ) + serialize_attrs(import_path, site) + quoted("pub enum"@, site) + name(ident);
        let body = inside(definition);
        assert(definition =~= head + braces(body));
        assert(is_part(head + braces(body), End::Block));
        assert(definition + reader =~= all);
        lemma_one_part(definition, End::Block);
        lemma_one_part(reader, End::Block);
        lemma_parts_of_two(definition, reader, End::Block);
        assert(seq![definition] + seq![reader] =~= seq![definition, reader]);
        seq![definition, reader]
    } else {
        Seq::empty()
    }
}

/// The items of the code for the events of a kind and variation.
proof fn lemma_items(
    kind: EventKind,
    events: Seq<Event>,
    attrs: Seq<Seq<Token>>,
    variants: Seq<Variant>,
    var: EventKindVariation,
    import_path: Seq<Token>,
    site: Span,
)
    requires
        kind.occurs(var),
        are_attributes(attrs),
        is_path(import_path),
    ensures
        ({
            let code = any_enum(kind, events, attrs, variants, var, import_path, site);
            &&& code is Some
            &&& is_complete(code.unwrap(), End::Block)
            &&& parts(code.unwrap(), End::Block) == seq![
                event_enum_item(kind, events, attrs, variants, var, import_path, site),
            ] + listed(conversion_impl(kind, var, variants, import_path, site)) + listed(
                accessor_impl(kind, var, variants, import_path, site),
            ) + listed(
                redact_impl(
                    enum_ident(kind, var, site),
                    kind,
                    var,
                    variants,
                    import_path,
                    site,
                ),
            ) + seq![event_enum_reader(kind, events, variants, var, import_path, site)] + parts(
                present(possibly_redacted_enum(kind, var, import_path, site)),
                End::Block,
            )
        }),
{
    let e = event_enum_item(kind, events, attrs, variants, var, import_path, site);
    let c = conversion_impl(kind, var, variants, import_path, site);
    let a = accessor_impl(kind, var, variants, import_path, site);
    let r = redact_impl(enum_ident(kind, var, site), kind, var, variants, import_path, site);
    let d = event_enum_reader(kind, events, variants, var, import_path, site);
    let p = present(possibly_redacted_enum(kind, var, import_path, site));
    assert(any_enum(kind, events, attrs, variants, var, import_path, site) == Some(
        e + present(c) + present(a) + present(r) + d + p,
    )) by {
        reveal(any_enum);
    }
    lemma_item_parts(kind, events, attrs, variants, var, import_path, site);
    let _ = lemma_possibly_parts(kind, var, import_path, site);
    lemma_one_part(e, End::Block);
    lemma_listed(c);
    lemma_listed(a);
    lemma_listed(r);
    lemma_one_part(d, End::Block);
    lemma_parts_of_two(e, present(c), End::Block);
    lemma_parts_of_two(e + present(c), present(a), End::Block);
    lemma_parts_of_two(e + present(c) + present(a), present(r), End::Block);
    lemma_parts_of_two(e + present(c) + present(a) + present(r), d, End::Block);
    lemma_parts_of_two(e + present(c) + present(a) + present(r) + d, p, End::Block);
}

/// The names of enums hold their own text.
pub proof fn lemma_enum_name(kind: EventKind, var: EventKindVariation, site: Span)
    ensures
        name((kind.event_name(var), site)) == seq![Token::Ident(kind.event_name(var), site)],
        name((kind.event_enum_name(var), site)) == seq![
            Token::Ident(kind.event_enum_name(var), site),
        ],
        name((kind.content_enum_name(), site)) == seq![
            Token::Ident(kind.content_enum_name(), site),
        ],
        name((possibly_redacted_name(kind, var), site)) == seq![
            Token::Ident(possibly_redacted_name(kind, var), site),
        ],
{
    reveal_strlit("Any");
    reveal_strlit("Content");
    reveal_strlit("AnyPossiblyRedacted");
    reveal_strlit("");
    lemma_event_name(kind, var);
    lemma_event_name(kind, EventKindVariation::Full);
    assert(kind.event_name(EventKindVariation::Full) =~= kind.name());
    assert(is_ascii_text(kind.event_name(var)));
    assert(is_ascii_text(kind.event_enum_name(var)));
    assert(is_ascii_text(kind.content_enum_name()));
    assert(is_ascii_text(possibly_redacted_name(kind, var)));
}

/// How the items of the code for the events of a kind and variation begin.
proof fn lemma_heads(
    kind: EventKind,
    events: Seq<Event>,
    attrs: Seq<Seq<Token>>,
    variants: Seq<Variant>,
    var: EventKindVariation,
    import_path: Seq<Token>,
    site: Span,
)
    requires
        kind.occurs(var),
        are_attributes(attrs),
    ensures
        ({
            let ident = enum_ident(kind, var, site);
            let e = event_enum_item(kind, events, attrs, variants, var, import_path, site);
            let c = conversion_impl(kind, var, variants, import_path, site);
            let a = accessor_impl(kind, var, variants, import_path, site);
            let r = redact_impl(ident, kind, var, variants, import_path, site);
            let d = event_enum_reader(kind, events, variants, var, import_path, site);
            &&& e.drop_last() == enum_head(attrs, ident, import_path, site)
            &&& c is Some ==> match sync_form(var) {
                Some(form) => c.unwrap().drop_last() == from_head(
                    ident,
                    enum_ident(kind, form, site),
                    site,
                ),
                None => c.unwrap().drop_last() == impl_head(ident, site),
            }
            &&& a is Some && a.unwrap().drop_last() == impl_head(ident, site)
            &&& r is Some ==> r.unwrap().drop_last() == impl_head(ident, site)
            &&& d.drop_last() == read_head(ident, import_path, site)
        }),
{
    broadcast use block_at_end;

    let ident = enum_ident(kind, var, site);
    let e = event_enum_item(kind, events, attrs, variants, var, import_path, site);
    assert(e.drop_last() =~= enum_head(attrs, ident, import_path, site));
}

/// How the beginnings of items differ.
proof fn lemma_heads_differ(
    kind: EventKind,
    attrs: Seq<Seq<Token>>,
    var: EventKindVariation,
    form: EventKindVariation,
    import_path: Seq<Token>,
    site: Span,
)
    requires
        are_attributes(attrs),
    ensures
        ({
            let ident = enum_ident(kind, var, site);
            let other = enum_ident(kind, form, site);
            let maybe = (possibly_redacted_name(kind, var), site);
            let definition = enum_head(attrs, ident, import_path, site);
            let methods = impl_head(ident, site);
            let from = from_head(ident, other, site);
            let reader = read_head(ident, import_path, site);
            let maybe_reader = read_head(maybe, import_path, site);
            &&& definition.len() > 0
            &&& definition[0] matches Token::Punct(c, _) && c == '#'
            &&& definition.last() == name(ident)[0]
            &&& methods.len() == 2 && methods[0] == Token::Ident("impl"@, site)
            &&& from.len() == 7 && from[0] == Token::Ident("impl"@, site) && from[1]
                == Token::Ident("From"@, site)
            &&& reader.len() > 5 && reader[0] == Token::Ident("impl"@, site) && reader[1]
                == Token::Punct('<', false)
            &&& maybe_reader.len() > 5 && maybe_reader[0] == Token::Ident("impl"@, site)
                && maybe_reader[1] == Token::Punct('<', false)
            &&& reader != maybe_reader
            &&& name(ident)[0] != name(maybe)[0]
        }),
{
    let ident = enum_ident(kind, var, site);
    let maybe = (possibly_redacted_name(kind, var), site);
    let definition = enum_head(attrs, ident, import_path, site);
    let reader = read_head(ident, import_path, site);
    let maybe_reader = read_head(maybe, import_path, site);
    lemma_first_words(site);
    lemma_enum_name(kind, var, site);
    lemma_enum_name(kind, form, site);
    law_enum_names_are_distinct(kind, var, kind, var);
    lemma_impl_reader(site);
    assert(reader.last() == name(ident)[0]);
    assert(maybe_reader.last() == name(maybe)[0]);
    if attrs.len() > 0 {
        lemma_attributes_begin(attrs);
        assert(definition[0] == concat(attrs)[0]);
    } else {
        assert(concat(attrs) =~= Seq::empty());
        assert(definition[0] == quoted("#"@, site)[0]);
    }
}

proof fn lemma_impl_reader(site: Span)
    ensures
        quoted("impl < ' de >"@, site).len() == 5,
{
    reveal_strlit("impl");
    reveal_strlit("<");
    reveal_strlit("'");
    reveal_strlit("de");
    reveal_strlit(">");
    reveal_strlit("de >");
    reveal_strlit("' de >");
    reveal_strlit("< ' de >");
    reveal_strlit("impl < ' de >");
    law_template_is_read_word_by_word("impl"@, "< ' de >"@, site);
    law_template_is_read_word_by_word("<"@, "' de >"@, site);
    law_template_is_read_word_by_word("'"@, "de >"@, site);
    law_template_is_read_word_by_word("de"@, ">"@, site);
    law_template_is_read_word_by_word(">"@, ""@, site);
    assert("impl < ' de >"@ =~= "impl"@.push(' ') + "< ' de >"@);
    assert("< ' de >"@ =~= "<"@.push(' ') + "' de >"@);
    assert("' de >"@ =~= "'"@.push(' ') + "de >"@);
    assert("de >"@ =~= "de"@.push(' ') + ">"@);
}

/// The items of the code for the events of a kind and variation: the definition of the enum, its
/// conversion, its methods, how it is redacted and how it is read, and those for events that may
/// have been redacted.
pub ghost struct Items {
    pub e: Seq<Token>,
    pub c: Option<Seq<Token>>,
    pub a: Option<Seq<Token>>,
    pub r: Option<Seq<Token>>,
    pub d: Seq<Token>,
    pub p: Seq<Seq<Token>>,
}

#[verifier::opaque]
pub open spec fn items_of(
    kind: EventKind,
    events: Seq<Event>,
    attrs: Seq<Seq<Token>>,
    variants: Seq<Variant>,
    var: EventKindVariation,
    import_path: Seq<Token>,
    site: Span,
) -> Items {
    Items {
        e: event_enum_item(kind, events, attrs, variants, var, import_path, site),
        c: conversion_impl(kind, var, variants, import_path, site),
        a: accessor_impl(kind, var, variants, import_path, site),
        r: redact_impl(enum_ident(kind, var, site), kind, var, variants, import_path, site),
        d: event_enum_reader(kind, events, variants, var, import_path, site),
        p: parts(present(possibly_redacted_enum(kind, var, import_path, site)), End::Block),
    }
}

pub open spec fn all_items(x: Items) -> Seq<Seq<Token>> {
    seq![x.e] + listed(x.c) + listed(x.a) + listed(x.r) + seq![x.d] + x.p
}

pub proof fn lemma_items_of(
    kind: EventKind,
    events: Seq<Event>,
    attrs: Seq<Seq<Token>>,
    variants: Seq<Variant>,
    var: EventKindVariation,
    import_path: Seq<Token>,
    site: Span,
)
    requires
        kind.occurs(var),
        are_attributes(attrs),
        is_path(import_path),
    ensures
        ({
            let code = any_enum(kind, events, attrs, variants, var, import_path, site);
            let x = items_of(kind, events, attrs, variants, var, import_path, site);
            code is Some && is_complete(code.unwrap(), End::Block) && parts(
                code.unwrap(),
                End::Block,
            ) == all_items(x)
        }),
{
    reveal(items_of);
    lemma_items(kind, events, attrs, variants, var, import_path, site);
}

proof fn lemma_heads_of(
    kind: EventKind,
    events: Seq<Event>,
    attrs: Seq<Seq<Token>>,
    variants: Seq<Variant>,
    var: EventKindVariation,
    import_path: Seq<Token>,
    site: Span,
)
    requires
        kind.occurs(var),
        are_attributes(attrs),
    ensures
        ({
            let ident = enum_ident(kind, var, site);
            let x = items_of(kind, events, attrs, variants, var, import_path, site);
            &&& x.e.drop_last() == enum_head(attrs, ident, import_path, site)
            &&& x.c is Some ==> match sync_form(var) {
                Some(form) => x.c.unwrap().drop_last() == from_head(
                    ident,
                    enum_ident(kind, form, site),
                    site,
                ),
                None => x.c.unwrap().drop_last() == impl_head(ident, site),
            }
            &&& x.a is Some && x.a.unwrap().drop_last() == impl_head(ident, site)
            &&& x.r is Some ==> x.r.unwrap().drop_last() == impl_head(ident, site)
            &&& x.d.drop_last() == read_head(ident, import_path, site)
        }),
{
    reveal(items_of);
    lemma_heads(kind, events, attrs, variants, var, import_path, site);
}

proof fn lemma_heads_of_possibly(
    kind: EventKind,
    events: Seq<Event>,
    attrs: Seq<Seq<Token>>,
    variants: Seq<Variant>,
    var: EventKindVariation,
    import_path: Seq<Token>,
    site: Span,
)
    requires
        is_path(import_path),
    ensures
        ({
            let maybe = (possibly_redacted_name(kind, var), site);
            let x = items_of(kind, events, attrs, variants, var, import_path, site);
            &&& x.p.len() == 0 || x.p.len() == 2
            &&& x.p.len() == 2 ==> {
                &&& x.p[1].drop_last() == read_head(maybe, import_path, site)
                &&& x.p[0].len() > 1
                &&& x.p[0].drop_last()[0] == Token::Punct('#', false)
                &&& x.p[0].drop_last().last() == name(maybe)[0]
            }
        }),
{
    broadcast use block_at_end;

    reveal(items_of);
    let p = lemma_possibly_parts(kind, var, import_path, site);
    if p.len() == 2 {
        assert(p[0].drop_last()[0] == p[0][0]);
        assert(p[0].drop_last().last() == p[0][p[0].len() - 2]);
    }
}

/// The members of the enum, of its methods and of what it implements.
pub proof fn lemma_select(
    kind: EventKind,
    events: Seq<Event>,
    attrs: Seq<Seq<Token>>,
    variants: Seq<Variant>,
    var: EventKindVariation,
    import_path: Seq<Token>,
    site: Span,
)
    requires
        kind.occurs(var),
        are_attributes(attrs),
        is_path(import_path),
    ensures
        ({
            let ident = enum_ident(kind, var, site);
            let code = any_enum(kind, events, attrs, variants, var, import_path, site);
            let items = parts(code.unwrap(), End::Block);
            let x = items_of(kind, events, attrs, variants, var, import_path, site);
            &&& code is Some && x.a is Some
            &&& members(items, enum_head(attrs, ident, import_path, site), End::Comma) == parts(
                inside(x.e),
                End::Comma,
            )
            &&& members(items, impl_head(ident, site), End::Block) == (if x.c is Some && sync_form(
                var,
            ) is None {
                parts(inside(x.c.unwrap()), End::Block)
            } else {
                Seq::empty()
            }) + parts(inside(x.a.unwrap()), End::Block) + (if x.r is Some {
                parts(inside(x.r.unwrap()), End::Block)
            } else {
                Seq::empty()
            })
            &&& members(items, read_head(ident, import_path, site), End::Block) == parts(
                inside(x.d),
                End::Block,
            )
            &&& sync_form(var) matches Some(form) ==> members(
                items,
                from_head(ident, enum_ident(kind, form, site), site),
                End::Block,
            ) == (if x.c is Some {
                parts(inside(x.c.unwrap()), End::Block)
            } else {
                Seq::empty()
            })
        }),
{
    let ident = enum_ident(kind, var, site);
    let x = items_of(kind, events, attrs, variants, var, import_path, site);
    let form = match sync_form(var) {
        Some(form) => form,
        None => var,
    };
    let definition = enum_head(attrs, ident, import_path, site);
    let methods = impl_head(ident, site);
    let reader = read_head(ident, import_path, site);
    let from = from_head(ident, enum_ident(kind, form, site), site);
    lemma_items_of(kind, events, attrs, variants, var, import_path, site);
    lemma_heads_of(kind, events, attrs, variants, var, import_path, site);
    lemma_heads_of_possibly(kind, events, attrs, variants, var, import_path, site);
    lemma_heads_differ(kind, attrs, var, form, import_path, site);
    lemma_choose(x, definition, methods, reader, from, sync_form(var) is Some);
}

/// Items that begin differently have their own members.
proof fn lemma_choose(
    x: Items,
    definition: Seq<Token>,
    methods: Seq<Token>,
    reader: Seq<Token>,
    from: Seq<Token>,
    is_from: bool,
)
    requires
        x.p.len() == 0 || x.p.len() == 2,
        definition != methods,
        definition != reader,
        definition != from,
        methods != reader,
        methods != from,
        reader != from,
        x.e.drop_last() == definition,
        x.c is Some ==> x.c.unwrap().drop_last() == if is_from {
            from
        } else {
            methods
        },
        x.a is Some && x.a.unwrap().drop_last() == methods,
        x.r is Some ==> x.r.unwrap().drop_last() == methods,
        x.d.drop_last() == reader,
        x.p.len() == 2 ==> {
            &&& x.p[0].drop_last() != definition && x.p[0].drop_last() != methods
            &&& x.p[0].drop_last() != reader && x.p[0].drop_last() != from
            &&& x.p[1].drop_last() != definition && x.p[1].drop_last() != methods
            &&& x.p[1].drop_last() != reader && x.p[1].drop_last() != from
        },
    ensures
        members(all_items(x), definition, End::Comma) == parts(inside(x.e), End::Comma),
        members(all_items(x), reader, End::Block) == parts(inside(x.d), End::Block),
        members(all_items(x), methods, End::Block) == (if x.c is Some && !is_from {
            parts(inside(x.c.unwrap()), End::Block)
        } else {
            Seq::empty()
        }) + parts(inside(x.a.unwrap()), End::Block) + (if x.r is Some {
            parts(inside(x.r.unwrap()), End::Block)
        } else {
            Seq::empty()
        }),
        is_from ==> members(all_items(x), from, End::Block) == (if x.c is Some {
            parts(inside(x.c.unwrap()), End::Block)
        } else {
            Seq::empty()
        }),
{
    lemma_members_of_each(x, definition, End::Comma);
    lemma_members_of_each(x, methods, End::Block);
    lemma_members_of_each(x, reader, End::Block);
    lemma_members_of_each(x, from, End::Block);
}

/// The members of the items, one item behind the other.
proof fn lemma_members_of_each(x: Items, head: Seq<Token>, end: End)
    requires
        x.p.len() == 0 || x.p.len() == 2,
    ensures
        members(all_items(x), head, end) == chosen(Some(x.e), head, end) + chosen(x.c, head, end)
            + chosen(x.a, head, end) + chosen(x.r, head, end) + chosen(Some(x.d), head, end) + (
        if x.p.len() == 2 {
            chosen(Some(x.p[0]), head, end) + chosen(Some(x.p[1]), head, end)
        } else {
            Seq::empty()
        }),
{
    lemma_members_of_one(x.e, head, end);
    lemma_members_of_one(x.d, head, end);
    lemma_members_listed(x.c, head, end);
    lemma_members_listed(x.a, head, end);
    lemma_members_listed(x.r, head, end);
    let start = seq![x.e];
    lemma_members_of_two(start, listed(x.c), head, end);
    lemma_members_of_two(start + listed(x.c), listed(x.a), head, end);
    lemma_members_of_two(start + listed(x.c) + listed(x.a), listed(x.r), head, end);
    lemma_members_of_two(start + listed(x.c) + listed(x.a) + listed(x.r), seq![x.d], head, end);
    lemma_members_of_two(
        start + listed(x.c) + listed(x.a) + listed(x.r) + seq![x.d],
        x.p,
        head,
        end,
    );
    if x.p.len() == 2 {
        lemma_members_of_one(x.p[0], head, end);
        lemma_members_of_one(x.p[1], head, end);
        lemma_members_of_two(seq![x.p[0]], seq![x.p[1]], head, end);
        assert(seq![x.p[0]] + seq![x.p[1]] =~= x.p);
    }
}

proof fn lemma_members_listed(item: Option<Seq<Token>>, head: Seq<Token>, end: End)
    ensures
        members(listed(item), head, end) == chosen(item, head, end),
{
    if item is Some {
        lemma_members_of_one(item.unwrap(), head, end);
    }
}

/// The members of an item, if there is one and it begins with `head`.
spec fn chosen(item: Option<Seq<Token>>, head: Seq<Token>, end: End) -> Seq<Seq<Token>> {
    match item {
        Some(item) if item.drop_last() == head => parts(inside(item), end),
        _ => Seq::empty(),
    }
}

} // verus!
