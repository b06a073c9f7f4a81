//! The expansion consists of tokens that Rust accepts.

use crate::accessor::{accessor, accessor_impl, content_methods};
use crate::content::{
    can_name_events, content_enum, content_paths, custom_content_line, event_type_fn, from_parts_fn,
    marker_impls,
};
use crate::conversion::conversion_impl;
use crate::deserialize::deserialize_impl;
use crate::enum_item::{enum_item, variant_lines};
use crate::event_enum::{
    any_enum, can_expand, custom_arm, custom_line, entry_events, entry_variants, event_enum_item,
    event_enum_reader, event_paths, expansion, is_expansion, read_any, read_arms,
    well_known_before,
};
use crate::event_type::{
    can_name_event, can_name_variant, content_path, event_path, lemma_item_names, Event,
};
use crate::field::{lemma_field_name, EventField};
use crate::ident::{is_ascii_ident, is_ident};
use crate::kind::{lemma_event_name, lemma_letters_ident, EventKind, EventKindVariation};
use crate::redaction::{possibly_redacted_enum, possibly_redacted_name, redact_impl};
use crate::template::law_templates_consist_of_tokens;
use crate::text::{pieces, Separator};
use crate::token::{
    all_word_tokens, braces, brackets, concat, is_punct, is_template, is_word, kept_text, literal,
    name, parens, present, quoted, tokens_of, tokens_of_each, Token,
};
use crate::variant::{variant_tokens, EventEnumInput, Variant};
use proc_macro2::{Span, TokenStream};
use vstd::prelude::*;

verus! {

/// Whether `text` is what an identifier holds that was made of an identifier or a keyword of Rust.
/// For a text in ASCII that is to be one.
pub open spec fn is_made_of_ident(text: Seq<char>, span: Span) -> bool {
    exists|source: Seq<char>| #[trigger] is_ident(source) && text == kept_text(source, span)
}

/// Whether a token is one that Rust accepts, and so are all tokens inside it.
pub open spec fn lexical_token(token: Token) -> bool
    decreases token,
{
    match token {
        Token::Ident(text, span) => is_made_of_ident(text, span),
        Token::Punct(c, _) => is_punct(c),
        Token::Group(_, inner) => forall|i: int|
            0 <= i < inner.len() ==> lexical_token(#[trigger] inner[i]),
        _ => true,
    }
}

/// Whether all tokens are ones that Rust accepts.
#[verifier::opaque]
pub open spec fn lexical(tokens: Seq<Token>) -> bool {
    forall|i: int| 0 <= i < tokens.len() ==> lexical_token(#[trigger] tokens[i])
}

/// Whether all parts consist of tokens that Rust accepts.
pub open spec fn all_lexical(parts: Seq<Seq<Token>>) -> bool {
    forall|i: int| 0 <= i < parts.len() ==> lexical(#[trigger] parts[i])
}

/// Whether the attributes and the name of every variant are ones that Rust accepts.
pub open spec fn lexical_variants(variants: Seq<Variant>) -> bool {
    forall|i: int|
        0 <= i < variants.len() ==> all_lexical((#[trigger] variants[i]).attrs) && is_ident(
            variants[i].ident.0,
        )
}

/// Whether every event type stands in source code as tokens that Rust accepts.
pub open spec fn lexical_events(events: Seq<Event>) -> bool {
    forall|i: int| 0 <= i < events.len() ==> lexical((#[trigger] events[i]).literal)
}

broadcast proof fn lexical_add(a: Seq<Token>, b: Seq<Token>)
    requires
        lexical(a),
        lexical(b),
    ensures
        #[trigger] lexical(a + b),
{
    reveal(lexical);
}

broadcast proof fn lexical_empty()
    ensures
        #[trigger] lexical(Seq::<Token>::empty()),
{
    reveal(lexical);
}

broadcast proof fn lexical_name(ident: (Seq<char>, Span))
    requires
        is_ident(ident.0),
    ensures
        #[trigger] lexical(name(ident)),
{
    reveal(lexical);
}

broadcast proof fn lexical_literal(value: Seq<char>, span: Span)
    ensures
        #[trigger] lexical(literal(value, span)),
{
    reveal(lexical);
}

broadcast proof fn lexical_parens(inner: Seq<Token>)
    requires
        lexical(inner),
    ensures
        #[trigger] lexical(parens(inner)),
{
    reveal(lexical);
}

broadcast proof fn lexical_braces(inner: Seq<Token>)
    requires
        lexical(inner),
    ensures
        #[trigger] lexical(braces(inner)),
{
    reveal(lexical);
}

broadcast proof fn lexical_brackets(inner: Seq<Token>)
    requires
        lexical(inner),
    ensures
        #[trigger] lexical(brackets(inner)),
{
    reveal(lexical);
}

broadcast proof fn lexical_quoted(template: Seq<char>, site: Span)
    requires
        is_template(template),
    ensures
        #[trigger] lexical(quoted(template, site)),
{
    reveal(is_template);
    lemma_words_lexical(pieces(template, Separator::Space), site);
}

proof fn lemma_words_lexical(words: Seq<Seq<char>>, site: Span)
    requires
        forall|i: int| 0 <= i < words.len() ==> is_word(#[trigger] words[i]),
    ensures
        lexical(all_word_tokens(words, site)),
    decreases words.len(),
{
    reveal(lexical);
    if words.len() > 0 {
        let word = words.last();
        lemma_words_lexical(words.drop_last(), site);
        assert(is_word(word));
        if is_ascii_ident(word) {
            assert(is_ident(word) && kept_text(word, site) == word);
        }
    }
}

broadcast proof fn lexical_concat(parts: Seq<Seq<Token>>)
    requires
        all_lexical(parts),
    ensures
        #[trigger] lexical(concat(parts)),
    decreases parts.len(),
{
    reveal(lexical);
    if parts.len() > 0 {
        lexical_concat(parts.drop_last());
    }
}

broadcast group group_lexical {
    lexical_add,
    lexical_empty,
    lexical_name,
    lexical_literal,
    lexical_parens,
    lexical_braces,
    lexical_brackets,
    lexical_quoted,
    lexical_concat,
    law_templates_consist_of_tokens,
}

proof fn lemma_names(kind: EventKind, var: EventKindVariation)
    ensures
        is_ident(kind.event_name(var)),
        is_ident(kind.event_enum_name(var)),
        is_ident(kind.content_enum_name()),
        is_ident(possibly_redacted_name(kind, var)),
{
    reveal_strlit("Any");
    reveal_strlit("Content");
    reveal_strlit("AnyPossiblyRedacted");
    reveal_strlit("");
    lemma_event_name(kind, var);
    lemma_event_name(kind, EventKindVariation::Full);
    assert(kind.event_name(EventKindVariation::Full) =~= kind.name());
    lemma_letters_ident(kind.event_name(var));
    lemma_letters_ident(kind.event_enum_name(var));
    lemma_letters_ident(kind.content_enum_name());
    lemma_letters_ident(possibly_redacted_name(kind, var));
}

proof fn lemma_every_name(kind: EventKind)
    ensures
        forall|var: EventKindVariation| is_ident(#[trigger] kind.event_name(var)),
        forall|var: EventKindVariation| is_ident(#[trigger] kind.event_enum_name(var)),
        is_ident(kind.content_enum_name()),
        forall|field: EventField| is_ident(#[trigger] field.name()),
{
    assert forall|field: EventField| is_ident(#[trigger] field.name()) by {
        lemma_field_name(field);
    }
    assert forall|var: EventKindVariation|
        is_ident(#[trigger] kind.event_name(var)) && is_ident(kind.event_enum_name(var)) by {
        lemma_names(kind, var);
    }
    assert forall|var: EventKindVariation| is_ident(#[trigger] kind.event_enum_name(var)) by {
        lemma_names(kind, var);
    }
    lemma_names(kind, EventKindVariation::Full);
}

broadcast proof fn lexical_variant(variants: Seq<Variant>, i: int)
    requires
        lexical_variants(variants),
        0 <= i < variants.len(),
    ensures
        #[trigger] lexical(variant_tokens(variants[i])),
{
    broadcast use group_lexical;

}

proof fn lemma_conversion(
    kind: EventKind,
    var: EventKindVariation,
    variants: Seq<Variant>,
    import_path: Seq<Token>,
    site: Span,
)
    requires
        lexical_variants(variants),
        lexical(import_path),
    ensures
        lexical(present(conversion_impl(kind, var, variants, import_path, site))),
{
    broadcast use {group_lexical, lexical_variant};

    lemma_every_name(kind);
}

proof fn lemma_accessor(
    field: EventField,
    kind: EventKind,
    var: EventKindVariation,
    variants: Seq<Variant>,
    import_path: Seq<Token>,
    site: Span,
)
    requires
        lexical_variants(variants),
        lexical(import_path),
    ensures
        lexical(accessor(field, kind, var, variants, import_path, site)),
{
    broadcast use {group_lexical, lexical_variant};

    lemma_every_name(kind);
}

proof fn lemma_content_methods(
    kind: EventKind,
    var: EventKindVariation,
    variants: Seq<Variant>,
    site: Span,
)
    requires
        lexical_variants(variants),
    ensures
        lexical(content_methods(kind, var, variants, site)),
{
    broadcast use {group_lexical, lexical_variant};

    lemma_every_name(kind);
}

proof fn lemma_accessors(
    kind: EventKind,
    var: EventKindVariation,
    variants: Seq<Variant>,
    import_path: Seq<Token>,
    site: Span,
)
    requires
        lexical_variants(variants),
        lexical(import_path),
    ensures
        lexical(present(accessor_impl(kind, var, variants, import_path, site))),
{
    broadcast use group_lexical;

    lemma_every_name(kind);
    lemma_content_methods(kind, var, variants, site);
    assert forall|field: EventField|
        lexical(#[trigger] accessor(field, kind, var, variants, import_path, site)) by {
        lemma_accessor(field, kind, var, variants, import_path, site);
    }
}

proof fn lemma_redact(
    ident: (Seq<char>, Span),
    kind: EventKind,
    var: EventKindVariation,
    variants: Seq<Variant>,
    import_path: Seq<Token>,
    site: Span,
)
    requires
        is_ident(ident.0),
        lexical_variants(variants),
        lexical(import_path),
    ensures
        lexical(present(redact_impl(ident, kind, var, variants, import_path, site))),
{
    broadcast use {group_lexical, lexical_variant};

    lemma_every_name(kind);
}

proof fn lemma_possibly_redacted(
    kind: EventKind,
    var: EventKindVariation,
    import_path: Seq<Token>,
    site: Span,
)
    requires
        lexical(import_path),
    ensures
        lexical(present(possibly_redacted_enum(kind, var, import_path, site))),
{
    broadcast use group_lexical;

    lemma_every_name(kind);
    lemma_names(kind, var);
}

proof fn lemma_event_paths(
    event: Event,
    event_struct: (Seq<char>, Span),
    import_path: Seq<Token>,
    site: Span,
)
    requires
        can_name_event(event.text),
        is_ident(event_struct.0),
        lexical(import_path),
    ensures
        lexical(event_path(event, event_struct, import_path, site)),
        lexical(content_path(event, import_path, site)),
{
    broadcast use group_lexical;

    lemma_item_names(event.text);
}

proof fn lemma_enum_item(
    attrs: Seq<Seq<Token>>,
    ident: (Seq<char>, Span),
    body: Seq<Token>,
    import_path: Seq<Token>,
    site: Span,
)
    requires
        all_lexical(attrs),
        is_ident(ident.0),
        lexical(body),
        lexical(import_path),
    ensures
        lexical(enum_item(attrs, ident, body, import_path, site)),
{
    broadcast use group_lexical;

}

proof fn lemma_variant_lines(
    events: Seq<Event>,
    variants: Seq<Variant>,
    contents: Seq<Seq<Token>>,
    site: Span,
)
    requires
        lexical_events(events),
        lexical_variants(variants),
        all_lexical(contents),
        contents.len() == events.len(),
    ensures
        lexical(concat(variant_lines(events, variants, contents, site))),
{
    broadcast use {group_lexical, lexical_variant};

}

proof fn lemma_custom(
    event_struct: (Seq<char>, Span),
    var: EventKindVariation,
    import_path: Seq<Token>,
    site: Span,
)
    requires
        is_ident(event_struct.0),
        lexical(import_path),
    ensures
        lexical(custom_line(event_struct, var, import_path, site)),
        lexical(custom_arm(event_struct, var, import_path, site)),
{
    broadcast use group_lexical;

}

proof fn lemma_read_arms(
    events: Seq<Event>,
    variants: Seq<Variant>,
    contents: Seq<Seq<Token>>,
    import_path: Seq<Token>,
    site: Span,
)
    requires
        lexical_events(events),
        lexical_variants(variants),
        all_lexical(contents),
        contents.len() == events.len(),
        lexical(import_path),
    ensures
        lexical(concat(read_arms(events, variants, contents, import_path, site))),
{
    broadcast use {group_lexical, lexical_variant};

}

proof fn lemma_reader(
    ident: (Seq<char>, Span),
    arms: Seq<Token>,
    import_path: Seq<Token>,
    site: Span,
)
    requires
        is_ident(ident.0),
        lexical(arms),
        lexical(import_path),
    ensures
        lexical(
            deserialize_impl(ident, read_any(arms, import_path, site), import_path, site),
        ),
{
    broadcast use group_lexical;

}

proof fn lemma_definition(
    kind: EventKind,
    events: Seq<Event>,
    attrs: Seq<Seq<Token>>,
    variants: Seq<Variant>,
    var: EventKindVariation,
    import_path: Seq<Token>,
    site: Span,
)
    requires
        lexical_events(events),
        can_name_events(events),
        all_lexical(attrs),
        lexical_variants(variants),
        lexical(import_path),
    ensures
        lexical(event_enum_item(kind, events, attrs, variants, var, import_path, site)),
        lexical(event_enum_reader(kind, events, variants, var, import_path, site)),
{
    broadcast use lexical_add;

    lemma_names(kind, var);
    let ident = (kind.event_enum_name(var), site);
    let event_struct = (kind.event_name(var), site);
    let contents = event_paths(events, event_struct, import_path, site);
    assert forall|i: int| 0 <= i < contents.len() implies lexical(#[trigger] contents[i]) by {
        lemma_event_paths(events[i], event_struct, import_path, site);
    }
    let lines = concat(variant_lines(events, variants, contents, site));
    let arms = concat(read_arms(events, variants, contents, import_path, site));
    let custom_line = custom_line(event_struct, var, import_path, site);
    let custom_arm = custom_arm(event_struct, var, import_path, site);
    lemma_variant_lines(events, variants, contents, site);
    lemma_read_arms(events, variants, contents, import_path, site);
    lemma_custom(event_struct, var, import_path, site);
    lemma_enum_item(attrs, ident, lines + custom_line, import_path, site);
    lemma_reader(ident, arms + custom_arm, import_path, site);
}

proof fn lemma_any_enum(
    kind: EventKind,
    events: Seq<Event>,
    attrs: Seq<Seq<Token>>,
    variants: Seq<Variant>,
    var: EventKindVariation,
    import_path: Seq<Token>,
    site: Span,
)
    requires
        lexical_events(events),
        can_name_events(events),
        all_lexical(attrs),
        lexical_variants(variants),
        lexical(import_path),
    ensures
        lexical(present(any_enum(kind, events, attrs, variants, var, import_path, site))),
{
    broadcast use lexical_empty;

    reveal(any_enum);
    let ident = (kind.event_enum_name(var), site);
    lemma_names(kind, var);
    lemma_definition(kind, events, attrs, variants, var, import_path, site);
    lemma_conversion(kind, var, variants, import_path, site);
    lemma_accessors(kind, var, variants, import_path, site);
    lemma_redact(ident, kind, var, variants, import_path, site);
    lemma_possibly_redacted(kind, var, import_path, site);
    lemma_six(
        event_enum_item(kind, events, attrs, variants, var, import_path, site),
        present(conversion_impl(kind, var, variants, import_path, site)),
        present(accessor_impl(kind, var, variants, import_path, site)),
        present(redact_impl(ident, kind, var, variants, import_path, site)),
        event_enum_reader(kind, events, variants, var, import_path, site),
        present(possibly_redacted_enum(kind, var, import_path, site)),
    );
}

proof fn lemma_six(
    a: Seq<Token>,
    b: Seq<Token>,
    c: Seq<Token>,
    d: Seq<Token>,
    e: Seq<Token>,
    f: Seq<Token>,
)
    requires
        lexical(a),
        lexical(b),
        lexical(c),
        lexical(d),
        lexical(e),
        lexical(f),
    ensures
        lexical(a + b + c + d + e + f),
{
    broadcast use lexical_add;

}

proof fn lemma_content_functions(
    events: Seq<Event>,
    variants: Seq<Variant>,
    contents: Seq<Seq<Token>>,
    import_path: Seq<Token>,
    site: Span,
)
    requires
        lexical_events(events),
        lexical_variants(variants),
        all_lexical(contents),
        contents.len() == events.len(),
        lexical(import_path),
    ensures
        lexical(event_type_fn(variants, site)),
        lexical(from_parts_fn(events, variants, contents, import_path, site)),
{
    broadcast use {group_lexical, lexical_variant};

}

proof fn lemma_content_items(kind: EventKind, import_path: Seq<Token>, site: Span)
    requires
        lexical(import_path),
    ensures
        lexical(custom_content_line(import_path, site)),
        lexical(marker_impls(kind, import_path, site)),
{
    broadcast use group_lexical;

    lemma_names(kind, EventKindVariation::Full);
}

proof fn lemma_content_impl(
    ident: (Seq<char>, Span),
    functions: Seq<Token>,
    import_path: Seq<Token>,
    site: Span,
)
    requires
        is_ident(ident.0),
        lexical(functions),
        lexical(import_path),
    ensures
        lexical(quoted("impl"@, site)),
        lexical(quoted(":: EventContent for"@, site)),
        lexical(name(ident)),
        lexical(braces(functions)),
{
    broadcast use group_lexical;

}

proof fn lemma_content_enum(
    kind: EventKind,
    events: Seq<Event>,
    attrs: Seq<Seq<Token>>,
    variants: Seq<Variant>,
    import_path: Seq<Token>,
    site: Span,
)
    requires
        lexical_events(events),
        can_name_events(events),
        all_lexical(attrs),
        lexical_variants(variants),
        lexical(import_path),
    ensures
        lexical(content_enum(kind, events, attrs, variants, import_path, site)),
{
    broadcast use lexical_add;

    lemma_names(kind, EventKindVariation::Full);
    let ident = kind.content_enum_ident(site);
    let contents = content_paths(events, import_path, site);
    assert forall|i: int| 0 <= i < contents.len() implies lexical(#[trigger] contents[i]) by {
        lemma_event_paths(events[i], ident, import_path, site);
    }
    let lines = concat(variant_lines(events, variants, contents, site));
    let functions = event_type_fn(variants, site) + from_parts_fn(
        events,
        variants,
        contents,
        import_path,
        site,
    );
    lemma_variant_lines(events, variants, contents, site);
    lemma_content_items(kind, import_path, site);
    lemma_content_functions(events, variants, contents, import_path, site);
    lemma_content_impl(ident, functions, import_path, site);
    lemma_enum_item(
        attrs,
        ident,
        lines + custom_content_line(import_path, site),
        import_path,
        site,
    );
}

proof fn lemma_expansion(
    kind: EventKind,
    attrs: Seq<Seq<Token>>,
    events: Seq<Event>,
    variants: Seq<Variant>,
    import_path: Seq<Token>,
    site: Span,
)
    requires
        lexical_events(events),
        can_name_events(events),
        all_lexical(attrs),
        lexical_variants(variants),
        lexical(import_path),
    ensures
        lexical(expansion(kind, attrs, events, variants, import_path, site)),
{
    broadcast use group_lexical;

    assert forall|var: EventKindVariation|
        lexical(
            present(#[trigger] any_enum(kind, events, attrs, variants, var, import_path, site)),
        ) by {
        lemma_any_enum(kind, events, attrs, variants, var, import_path, site);
    }
    lemma_content_enum(kind, events, attrs, variants, import_path, site);
}

/// Code that is written for an event enum holds no token that Rust does not accept, unless the
/// attributes, the event types or the path of the events library bring one with them.
pub proof fn law_expansion_is_lexical(
    input: EventEnumInput,
    code: TokenStream,
    import_path: TokenStream,
    site: Span,
)
    requires
        can_expand(input.events@),
        is_expansion(Ok(code), input, import_path, site),
        all_lexical(tokens_of_each(input.attrs@)),
        forall|i: int|
            0 <= i < input.events@.len() ==> all_lexical(
                tokens_of_each((#[trigger] input.events@[i]).attrs@),
            ),
        lexical_events(entry_events(input.events@)),
        lexical(tokens_of(import_path)),
    ensures
        lexical(tokens_of(code)),
{
    let variants = entry_variants(input.events@);
    assert forall|i: int| 0 <= i < variants.len() implies all_lexical(
        (#[trigger] variants[i]).attrs,
    ) && is_ident(variants[i].ident.0) by {
        assert(well_known_before(input.events@, i));
        assert(can_name_variant(input.events@[i].ev_type@.text));
    }
    lemma_expansion(
        input.name,
        tokens_of_each(input.attrs@),
        entry_events(input.events@),
        variants,
        tokens_of(import_path),
        site,
    );
}

} // verus!
