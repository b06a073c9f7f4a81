//! The names that event types give, and what becomes of the entries as a whole.

use crate::content::content_enum;
use crate::event_enum::{
    any_enum, can_expand, entry_events, entry_variants, has_ascii_names, is_expansion,
    well_known_before,
};
use crate::event_type::{
    can_cut_prefix, can_name_event, can_name_variant, event_name, is_well_known, modules,
    prefix_message, variant_name, without_prefix, Event, EventTypeError,
};
use crate::ident::{
    continues_ident, is_ascii, is_ascii_letter, is_ascii_text, is_ascii_word, is_ident,
};
use crate::kind::{EventKind, EventKindVariation};
use crate::laws::{joined, law_pieces_make_up_the_text, law_variations_of_each_kind};
use crate::text::{
    camel, can_camel, can_capitalize, capitalized, lemma_camel_first, pieces, upper, Separator,
};
use crate::token::{tokens_of, tokens_of_each, Token};
use crate::variant::{EventEnumEntry, EventEnumInput, Variant};
use proc_macro2::{Span, TokenStream};
use vstd::prelude::*;

verus! {

/// Whether a text starts with `m.`.
pub open spec fn starts_with_m(text: Seq<char>) -> bool {
    text.len() >= 2 && text.take(2) == "m."@
}

/// An event type that starts with `m.` is that, and then its modules with a dot between any two;
/// no module holds a dot. Event types that do not start with `m.` are those that are rejected.
pub proof fn law_modules_make_up_the_event_type(text: Seq<char>)
    ensures
        is_well_known(text) <==> starts_with_m(text),
        is_well_known(text) ==> text == "m."@ + joined(modules(text), '.'),
        modules(text).len() > 0,
        forall|i: int, j: int|
            0 <= i < modules(text).len() && 0 <= j < modules(text)[i].len() ==> #[trigger] modules(
                text,
            )[i][j] != '.',
{
    reveal_strlit("m.");
    law_pieces_make_up_the_text(without_prefix(text), Separator::Dot, '.');
    if text.len() >= 2 {
        assert(text.take(2)[0] == text[0] && text.take(2)[1] == text[1]);
        if is_well_known(text) {
            assert(text.take(2) =~= "m."@);
            assert(text =~= "m."@ + text.skip(2));
        }
    }
}

/// The capital of a letter from `a` to `z`; any other character as it is.
pub open spec fn capital(c: char) -> char {
    if 'a' <= c <= 'z' {
        (c as int - 'a' as int + 'A' as int) as char
    } else {
        c
    }
}

/// The text without its separators, with a capital where it began and behind each separator.
pub open spec fn title(text: Seq<char>, separator: Separator) -> Seq<char>
    decreases text.len(),
{
    if text.len() == 0 {
        Seq::empty()
    } else {
        let start = text.drop_last();
        let c = text.last();
        if separator.cuts(c) {
            title(start, separator)
        } else if start.len() == 0 || separator.cuts(start.last()) {
            title(start, separator).push(capital(c))
        } else {
            title(start, separator).push(c)
        }
    }
}

/// The names that an event type gives are its characters behind the `m.` without the separators,
/// with a capital at the beginning and behind each separator: all of them for the variant, those
/// of the last module for the event. Nothing else changes, however long the event type is.
pub proof fn law_names_are_the_event_type_in_camel_case(text: Seq<char>)
    ensures
        can_camel(pieces(without_prefix(text), Separator::DotOrUnderscore)) ==> variant_name(text)
            == title(text.skip(2), Separator::DotOrUnderscore),
        can_camel(pieces(modules(text).last(), Separator::Underscore)) ==> event_name(text)
            == title(modules(text).last(), Separator::Underscore),
{
    lemma_title(without_prefix(text), Separator::DotOrUnderscore);
    lemma_title(modules(text).last(), Separator::Underscore);
    lemma_started(pieces(without_prefix(text), Separator::DotOrUnderscore));
    lemma_started(pieces(modules(text).last(), Separator::Underscore));
}

/// What is formed from pieces of which the last may still be empty.
spec fn started(list: Seq<Seq<char>>) -> Seq<char> {
    camel(list.drop_last()) + if list.last().len() == 0 {
        Seq::empty()
    } else {
        capitalized(list.last())
    }
}

proof fn lemma_started(list: Seq<Seq<char>>)
    ensures
        list.len() > 0 && can_camel(list) ==> camel(list) == started(list),
{
    if list.len() > 0 && can_camel(list) {
        assert(can_capitalize(list[list.len() - 1]));
    }
}

proof fn lemma_title(text: Seq<char>, separator: Separator)
    ensures
        pieces(text, separator).len() > 0,
        (text.len() == 0 || separator.cuts(text.last())) <==> pieces(text, separator).last().len()
            == 0,
        (forall|i: int|
            0 <= i < pieces(text, separator).len() - 1 ==> (#[trigger] pieces(
                text,
                separator,
            )[i]).len() > 0) ==> started(pieces(text, separator)) == title(text, separator),
    decreases text.len(),
{
    let after = pieces(text, separator);
    if text.len() == 0 {
        assert(after.drop_last() =~= Seq::empty());
        assert(started(after) =~= Seq::empty());
    } else {
        let start = text.drop_last();
        let c = text.last();
        let before = pieces(start, separator);
        lemma_title(start, separator);
        if forall|i: int| 0 <= i < after.len() - 1 ==> (#[trigger] after[i]).len() > 0 {
            assert forall|i: int| 0 <= i < before.len() - 1 implies (#[trigger] before[i]).len()
                > 0 by {
                assert(after[i] == before[i]);
            }
            assert(started(before) == title(start, separator));
            if separator.cuts(c) {
                assert(after.drop_last() =~= before);
                assert(after[before.len() - 1] == before.last());
                assert(camel(before) == camel(before.drop_last()) + capitalized(before.last()));
                assert(started(after) =~= started(before));
            } else {
                assert(after.drop_last() =~= before.drop_last());
                let word = before.last();
                if word.len() == 0 {
                    assert(word.push(c) =~= seq![c]);
                    assert(capitalized(seq![c]) =~= seq![capital(c)]);
                    assert(started(after) =~= started(before).push(capital(c)));
                } else {
                    assert(capitalized(word.push(c)) =~= capitalized(word).push(c));
                    assert(started(after) =~= started(before).push(c));
                }
            }
        }
    }
}

/// Whether the character ends a word of an event type.
pub open spec fn is_joint(c: char) -> bool {
    c == '.' || c == '_'
}

/// Whether a text is made of words with a dot or an underscore between any two, each of ASCII
/// letters and digits and beginning with a letter, but for the last one, which may be missing.
pub open spec fn begins_plainly(text: Seq<char>) -> bool {
    forall|i: int|
        #![trigger text[i]]
        0 <= i < text.len() ==> {
            &&& is_ascii_letter(text[i]) || '0' <= text[i] <= '9' || is_joint(text[i])
            &&& i == 0 || is_joint(text[i - 1]) ==> is_ascii_letter(text[i])
        }
}

/// Whether a text is made of words with a dot or an underscore between any two, each of ASCII
/// letters and digits and beginning with a letter.
pub open spec fn is_plain(text: Seq<char>) -> bool {
    text.len() > 0 && !is_joint(text.last()) && begins_plainly(text)
}

/// Event types that consist of `m.` and plain words can always be expanded, however many there
/// are and however long they are.
pub proof fn law_plain_event_types_can_be_expanded(entries: Seq<EventEnumEntry>)
    requires
        forall|i: int|
            0 <= i < entries.len() ==> starts_with_m((#[trigger] entries[i]).ev_type@.text)
                && is_plain(entries[i].ev_type@.text.skip(2)),
    ensures
        can_expand(entries),
        has_ascii_names(entries),
{
    assert forall|i: int| 0 <= i < entries.len() implies can_name_variant(
        (#[trigger] entries[i]).ev_type@.text,
    ) && can_name_event(entries[i].ev_type@.text) && is_ascii_text(entries[i].ev_type@.text) by {
        lemma_plain_event_type(entries[i].ev_type@.text);
    }
    assert forall|i: int| 0 <= i < entries.len() implies can_name_event(
        (#[trigger] entry_events(entries)[i]).text,
    ) by {
        assert(can_name_event(entries[i].ev_type@.text));
    }
}

proof fn lemma_plain_event_type(text: Seq<char>)
    requires
        starts_with_m(text),
        is_plain(text.skip(2)),
    ensures
        can_name_variant(text),
        can_name_event(text),
        is_ascii_text(text),
{
    let inner = text.skip(2);
    let words = pieces(inner, Separator::DotOrUnderscore);
    let path = modules(text);
    law_modules_make_up_the_event_type(text);
    lemma_plain_pieces(inner, Separator::DotOrUnderscore);
    lemma_plain_pieces(inner, Separator::Dot);
    lemma_plain_pieces(path.last(), Separator::Underscore);
    law_pieces_make_up_the_text(inner, Separator::DotOrUnderscore, '.');
    law_pieces_make_up_the_text(path.last(), Separator::Underscore, '_');
    assert forall|i: int| 0 <= i < text.len() implies is_ascii(#[trigger] text[i]) by {
        if i >= 2 {
            assert(inner[i - 2] == text[i]);
        }
    }
    assert forall|i: int| 0 <= i < words.len() implies is_plain(#[trigger] words[i])
        && has_no_joint(words[i]) by {
        assert forall|j: int| 0 <= j < words[i].len() implies !is_joint(#[trigger] words[i][j]) by {
            assert(!Separator::DotOrUnderscore.cuts(words[i][j]));
        }
    }
    lemma_plain_camel(words);
    assert forall|i: int| 0 <= i < path.len() implies is_ident(#[trigger] path[i]) by {
        assert(is_plain(path[i]));
        let word = path[i];
        assert(is_ascii_letter(word[0]));
        assert forall|j: int| 1 <= j < word.len() implies continues_ident(#[trigger] word[j]) by {
            assert(path[i][j] != '.');
        }
    }
    let last = pieces(path.last(), Separator::Underscore);
    assert forall|i: int| 0 <= i < last.len() implies is_plain(#[trigger] last[i])
        && has_no_joint(last[i]) by {
        assert forall|j: int| 0 <= j < last[i].len() implies !is_joint(#[trigger] last[i][j]) by {
            assert(!Separator::Underscore.cuts(last[i][j]));
            lemma_pieces_hold(path.last(), Separator::Underscore, i, j);
            assert(path[path.len() - 1].contains(last[i][j]));
        }
    }
    lemma_plain_camel(last);
}

spec fn has_no_joint(text: Seq<char>) -> bool {
    forall|j: int| 0 <= j < text.len() ==> !is_joint(#[trigger] text[j])
}

/// The characters of the pieces are characters of the text.
proof fn lemma_pieces_hold(text: Seq<char>, separator: Separator, i: int, j: int)
    requires
        0 <= i < pieces(text, separator).len(),
        0 <= j < pieces(text, separator)[i].len(),
    ensures
        text.contains(pieces(text, separator)[i][j]),
    decreases text.len(),
{
    if text.len() > 0 {
        let before = pieces(text.drop_last(), separator);
        let c = pieces(text, separator)[i][j];
        law_pieces_make_up_the_text(text.drop_last(), separator, '.');
        if separator.cuts(text.last()) {
            lemma_pieces_hold(text.drop_last(), separator, i, j);
        } else if i < before.len() - 1 || j < before.last().len() {
            lemma_pieces_hold(text.drop_last(), separator, i, j);
        } else {
            assert(c == text[text.len() - 1]);
        }
        if text.drop_last().contains(c) {
            let k = choose|k: int| 0 <= k < text.drop_last().len() && text.drop_last()[k] == c;
            assert(text[k] == c);
        }
    }
}

/// The pieces of a plain text are plain.
proof fn lemma_plain_pieces(text: Seq<char>, separator: Separator)
    requires
        begins_plainly(text),
        separator != Separator::Space,
    ensures
        ({
            let list = pieces(text, separator);
            &&& list.len() > 0
            &&& forall|i: int| 0 <= i < list.len() - 1 ==> is_plain(#[trigger] list[i])
            &&& begins_plainly(list.last())
            &&& text.len() > 0 && !separator.cuts(text.last()) ==> list.last().len() > 0
                && list.last().last() == text.last()
            &&& text.len() == 0 || separator.cuts(text.last()) ==> list.last().len() == 0
            &&& is_plain(text) ==> forall|i: int|
                0 <= i < list.len() ==> is_plain(#[trigger] list[i])
        }),
    decreases text.len(),
{
    if text.len() > 0 {
        let start = text.drop_last();
        let c = text.last();
        assert forall|i: int| #![trigger start[i]] 0 <= i < start.len() implies {
            &&& is_ascii_letter(start[i]) || '0' <= start[i] <= '9' || is_joint(start[i])
            &&& i == 0 || is_joint(start[i - 1]) ==> is_ascii_letter(start[i])
        } by {
            assert(text[i] == start[i]);
        }
        lemma_plain_pieces(start, separator);
        let before = pieces(start, separator);
        let list = pieces(text, separator);
        assert(text[text.len() - 1] == c);
        if separator.cuts(c) {
            assert(start.len() > 0 && !is_joint(start.last()));
            assert(is_plain(before.last()));
            assert(list.drop_last() =~= before);
        } else {
            let word = before.last();
            assert(list.last() == word.push(c));
            assert forall|i: int| #![trigger list.last()[i]] 0 <= i < list.last().len() implies {
                &&& is_ascii_letter(list.last()[i]) || '0' <= list.last()[i] <= '9' || is_joint(
                    list.last()[i],
                )
                &&& i == 0 || is_joint(list.last()[i - 1]) ==> is_ascii_letter(list.last()[i])
            } by {
                if i < word.len() {
                    assert(word[i] == list.last()[i]);
                    if i > 0 {
                        assert(word[i - 1] == list.last()[i - 1]);
                    }
                } else if i > 0 {
                    assert(list.last()[i - 1] == word.last());
                    assert(word.last() == start.last());
                } else {
                    assert(start.len() == 0 || is_joint(start.last()));
                }
            }
        }
    }
}

/// What is formed from plain words is an identifier.
proof fn lemma_plain_camel(list: Seq<Seq<char>>)
    requires
        list.len() > 0,
        forall|i: int|
            0 <= i < list.len() ==> is_plain(#[trigger] list[i]) && has_no_joint(list[i]),
    ensures
        can_camel(list),
        is_ident(camel(list)),
{
    assert forall|i: int| 0 <= i < list.len() implies can_capitalize(#[trigger] list[i]) by {
        assert(is_ascii_letter(list[i][0]));
    }
    lemma_plain_camel_words(list);
    lemma_camel_first(list);
    assert(is_plain(list[0]) && is_ascii_letter(list[0][0]));
    assert forall|i: int| 1 <= i < camel(list).len() implies continues_ident(
        #[trigger] camel(list)[i],
    ) by {
        assert(is_ascii_word(camel(list)[i]));
    }
}

proof fn lemma_plain_camel_words(list: Seq<Seq<char>>)
    requires
        forall|i: int|
            0 <= i < list.len() ==> is_plain(#[trigger] list[i]) && has_no_joint(list[i]),
    ensures
        forall|i: int| 0 <= i < camel(list).len() ==> is_ascii_word(#[trigger] camel(list)[i]),
    decreases list.len(),
{
    if list.len() > 0 {
        let word = list.last();
        assert(is_plain(list[list.len() - 1]));
        assert forall|i: int| 0 <= i < list.len() - 1 implies is_plain(
            #[trigger] list.drop_last()[i],
        ) && has_no_joint(list.drop_last()[i]) by {
            assert(is_plain(list[i]));
        }
        lemma_plain_camel_words(list.drop_last());
        assert forall|i: int| 0 <= i < capitalized(word).len() implies is_ascii_word(
            #[trigger] capitalized(word)[i],
        ) by {
            assert(!is_joint(word[i]));
            if i == 0 {
                assert(capitalized(word)[0] == upper(word[0]));
            } else {
                assert(capitalized(word)[i] == word[i]);
            }
        }
        let start = camel(list.drop_last());
        assert forall|i: int| 0 <= i < camel(list).len() implies is_ascii_word(
            #[trigger] camel(list)[i],
        ) by {
            if i < start.len() {
                assert(camel(list)[i] == start[i]);
            } else {
                assert(camel(list)[i] == capitalized(word)[i - start.len()]);
            }
        }
    }
}

/// There is code if and only if every event type starts with `m.`. Otherwise there is an error at
/// the place of the first that does not, and its message quotes that event type.
pub proof fn law_event_types_decide_between_code_and_error(
    r: Result<TokenStream, EventTypeError>,
    input: EventEnumInput,
    import_path: TokenStream,
    site: Span,
)
    requires
        is_expansion(r, input, import_path, site),
    ensures
        r is Ok <==> forall|i: int|
            0 <= i < input.events@.len() ==> starts_with_m(
                (#[trigger] input.events@[i]).ev_type@.text,
            ),
        r matches Err(error) ==> exists|i: int|
            {
                &&& 0 <= i < input.events@.len()
                &&& !starts_with_m((#[trigger] input.events@[i]).ev_type@.text)
                &&& forall|j: int|
                    0 <= j < i ==> starts_with_m((#[trigger] input.events@[j]).ev_type@.text)
                &&& error.span == input.events@[i].ev_type@.span
                &&& error.message@ == "well-known matrix events have to start with `m.` found `"@
                    + input.events@[i].ev_type@.text + "`"@
            },
{
    assert forall|text: Seq<char>| is_well_known(text) <==> #[trigger] starts_with_m(text) by {
        law_modules_make_up_the_event_type(text);
    }
    if let Ok(_) = r {
        assert forall|i: int| 0 <= i < input.events@.len() implies starts_with_m(
            (#[trigger] input.events@[i]).ev_type@.text,
        ) by {
            assert(is_well_known(input.events@[i].ev_type@.text));
        }
    }
    if let Err(error) = r {
        let i = choose|i: int|
            {
                &&& 0 <= i < input.events@.len()
                &&& well_known_before(input.events@, i)
                &&& !is_well_known((#[trigger] input.events@[i]).ev_type@.text)
                &&& error.span == input.events@[i].ev_type@.span
                &&& error.message@ == prefix_message(
                    input.events@[i].ev_type@.text,
                )
            };
        assert(!starts_with_m(input.events@[i].ev_type@.text));
        assert forall|j: int| 0 <= j < i implies starts_with_m(
            (#[trigger] input.events@[j]).ev_type@.text,
        ) by {
            assert(is_well_known(input.events@[j].ev_type@.text));
        }
    }
}

/// The code for an event enum is written for the entries as they are: for the event types in their
/// order, for variants with the attributes of the entries and the names that the event types give,
/// and with the attributes of the input on every enum. It is the code of the variations in which
/// the kind occurs, and then that of the content enum.
pub proof fn law_code_is_made_of_the_entries(
    code: TokenStream,
    input: EventEnumInput,
    path: TokenStream,
    site: Span,
    events: Seq<Event>,
    attrs: Seq<Seq<Token>>,
    variants: Seq<Variant>,
)
    requires
        is_expansion(Ok(code), input, path, site),
        attrs.len() == input.attrs@.len(),
        forall|i: int| 0 <= i < attrs.len() ==> #[trigger] attrs[i] == tokens_of(input.attrs@[i]),
        events.len() == input.events@.len(),
        forall|i: int| 0 <= i < events.len() ==> #[trigger] events[i] == input.events@[i].ev_type@,
        variants.len() == input.events@.len(),
        forall|i: int|
            0 <= i < variants.len() ==> (#[trigger] variants[i]).ident == (
                variant_name(input.events@[i].ev_type@.text),
                input.events@[i].ev_type@.span,
            ),
        forall|i: int|
            0 <= i < variants.len() ==> (#[trigger] variants[i]).attrs.len()
                == input.events@[i].attrs@.len(),
        forall|i: int, j: int|
            0 <= i < variants.len() && 0 <= j < variants[i].attrs.len()
                ==> #[trigger] variants[i].attrs[j] == tokens_of(input.events@[i].attrs@[j]),
    ensures
        ({
            let p = tokens_of(path);
            let part = |var: EventKindVariation|
                any_enum(input.name, events, attrs, variants, var, p, site).unwrap();
            let contents = content_enum(input.name, events, attrs, variants, p, site);
            match input.name {
                EventKind::State => tokens_of(code) == part(EventKindVariation::Full) + part(
                    EventKindVariation::Sync,
                ) + part(EventKindVariation::Stripped) + part(EventKindVariation::Initial) + part(
                    EventKindVariation::Redacted,
                ) + part(EventKindVariation::RedactedSync) + part(
                    EventKindVariation::RedactedStripped,
                ) + contents,
                EventKind::Message => tokens_of(code) == part(EventKindVariation::Full) + part(
                    EventKindVariation::Sync,
                ) + part(EventKindVariation::Redacted) + part(EventKindVariation::RedactedSync)
                    + contents,
                EventKind::Ephemeral => tokens_of(code) == part(EventKindVariation::Full) + part(
                    EventKindVariation::Sync,
                ) + contents,
                _ => tokens_of(code) == part(EventKindVariation::Full) + contents,
            }
        }),
{
    assert(attrs =~= tokens_of_each(input.attrs@));
    assert(events =~= entry_events(input.events@));
    let made = entry_variants(input.events@);
    assert forall|i: int| 0 <= i < variants.len() implies #[trigger] variants[i] == made[i] by {
        assert(variants[i].attrs =~= tokens_of_each(input.events@[i].attrs@));
    }
    assert(variants =~= made);
    law_variations_of_each_kind(input.name, attrs, events, variants, tokens_of(path), site);
}

/// An ASCII event type of two characters or more that does not start with `m.` is judged, and
/// rejected with an error.
pub proof fn law_ascii_event_types_are_judged(text: Seq<char>)
    requires
        is_ascii_text(text),
        text.len() >= 2,
        !starts_with_m(text),
    ensures
        can_name_variant(text),
        !is_well_known(text),
{
    law_modules_make_up_the_event_type(text);
    assert(is_ascii(text[0]) && is_ascii(text[1]));
}

/// Whether a word begins, with an ASCII character, where the text begins and behind each
/// separator.
pub open spec fn words_begin(text: Seq<char>, separator: Separator) -> bool {
    forall|i: int|
        #![trigger begins_word(text, separator, i)]
        0 <= i <= text.len() && begins_word(text, separator, i) ==> i < text.len()
            && !separator.cuts(text[i]) && is_ascii(text[i])
}

/// Whether a word is to begin at `i`.
pub open spec fn begins_word(text: Seq<char>, separator: Separator, i: int) -> bool {
    i == 0 || separator.cuts(text[i - 1])
}

/// Names can be formed from the pieces of a text if and only if a word begins where the text begins
/// and behind each separator.
pub proof fn law_names_are_formed_of_words(text: Seq<char>, separator: Separator)
    ensures
        can_camel(pieces(text, separator)) <==> words_begin(text, separator),
{
    let list = pieces(text, separator);
    let n = text.len() as int;
    lemma_words_so_far(text, separator);
    if can_camel(list) {
        assert(can_capitalize(list[list.len() - 1]));
    }
    if words_begin(text, separator) {
        assert(begins_word(text, separator, n) ==> n < text.len());
        assert(words_so_far(text, separator)) by {
            assert forall|i: int|
                #![trigger begins_word(text, separator, i)]
                0 <= i < n && begins_word(text, separator, i) implies !separator.cuts(text[i])
                && is_ascii(text[i]) by {}
        }
        assert forall|i: int| 0 <= i < list.len() implies can_capitalize(#[trigger] list[i]) by {
            if i == list.len() - 1 {
                assert(list[i] == list.last());
            }
        }
    }
}

/// Whether every word that has begun begins with an ASCII character.
spec fn words_so_far(text: Seq<char>, separator: Separator) -> bool {
    forall|i: int|
        #![trigger begins_word(text, separator, i)]
        0 <= i < text.len() && begins_word(text, separator, i) ==> !separator.cuts(text[i])
            && is_ascii(text[i])
}

proof fn lemma_words_so_far(text: Seq<char>, separator: Separator)
    ensures
        ({
            let list = pieces(text, separator);
            let n = text.len() as int;
            &&& list.len() > 0
            &&& list.last().len() == 0 <==> begins_word(text, separator, n)
            &&& words_so_far(text, separator) <==> (forall|i: int|
                0 <= i < list.len() - 1 ==> can_capitalize(#[trigger] list[i])) && (
            list.last().len() > 0 ==> can_capitalize(list.last()))
        }),
    decreases text.len(),
{
    let list = pieces(text, separator);
    let n = text.len() as int;
    if n > 0 {
        let start = text.drop_last();
        let before = pieces(start, separator);
        lemma_words_so_far(start, separator);
        assert(forall|i: int|
            0 <= i < n ==> (#[trigger] begins_word(start, separator, i) <==> begins_word(
                text,
                separator,
                i,
            )));
        let ok = begins_word(text, separator, n - 1) ==> !separator.cuts(text[n - 1]) && is_ascii(
            text[n - 1],
        );
        assert(words_so_far(text, separator) <==> words_so_far(start, separator) && ok) by {
            if words_so_far(text, separator) {
                assert forall|i: int|
                    #![trigger begins_word(start, separator, i)]
                    0 <= i < start.len() && begins_word(start, separator, i) implies
                    !separator.cuts(start[i]) && is_ascii(start[i]) by {
                    assert(begins_word(text, separator, i));
                }
            }
            if words_so_far(start, separator) && ok {
                assert forall|i: int|
                    #![trigger begins_word(text, separator, i)]
                    0 <= i < n && begins_word(text, separator, i) implies !separator.cuts(text[i])
                    && is_ascii(text[i]) by {
                    if i < n - 1 {
                        assert(begins_word(start, separator, i));
                        assert(start[i] == text[i]);
                    }
                }
            }
        }
        if separator.cuts(text.last()) {
            assert(list.drop_last() =~= before);
            assert(forall|i: int| 0 <= i < before.len() ==> #[trigger] list[i] == before[i]);
            assert(list[before.len() - 1] == before.last());
            if forall|i: int| 0 <= i < list.len() - 1 ==> can_capitalize(#[trigger] list[i]) {
                assert(can_capitalize(list[before.len() - 1]));
                assert forall|i: int| 0 <= i < before.len() - 1 implies can_capitalize(
                    #[trigger] before[i],
                ) by {
                    assert(can_capitalize(list[i]));
                }
            }
            if words_so_far(text, separator) {
                assert forall|i: int| 0 <= i < list.len() - 1 implies can_capitalize(
                    #[trigger] list[i],
                ) by {
                    if i < before.len() - 1 {
                        assert(can_capitalize(before[i]));
                    }
                }
            }
        } else {
            assert(list.drop_last() =~= before.drop_last());
            let word = before.last();
            assert(list.last() == word.push(text.last()));
            assert(list.last()[0] == if word.len() == 0 {
                text.last()
            } else {
                word[0]
            });
            if forall|i: int| 0 <= i < list.len() - 1 ==> can_capitalize(#[trigger] list[i]) {
                assert forall|i: int| 0 <= i < before.len() - 1 implies can_capitalize(
                    #[trigger] before[i],
                ) by {
                    assert(list[i] == before[i]);
                }
            }
            if words_so_far(start, separator) {
                assert forall|i: int| 0 <= i < list.len() - 1 implies can_capitalize(
                    #[trigger] list[i],
                ) by {
                    assert(list[i] == before[i]);
                }
            }
        }
    }
}

/// Whether the name of the variant can be formed from an event type that starts with `m.`.
pub open spec fn gives_variant(text: Seq<char>) -> bool {
    words_begin(text.skip(2), Separator::DotOrUnderscore) && is_ident(
        title(text.skip(2), Separator::DotOrUnderscore),
    )
}

/// Whether the names of the modules and of the event can be formed from an event type that starts
/// with `m.`.
pub open spec fn gives_event(text: Seq<char>) -> bool {
    let last = modules(text).last();
    &&& forall|i: int| 0 <= i < modules(text).len() ==> is_ident(#[trigger] modules(text)[i])
    &&& words_begin(last, Separator::Underscore)
    &&& is_ident(title(last, Separator::Underscore))
}

/// Entries can be expanded if and only if every name can be formed that the code is to hold. Up to
/// the first event type that does not start with `m.`, that is the name of its variant; if all do,
/// also those of the modules and events. The one that does not has at least to be cut behind its
/// second byte.
pub proof fn law_entries_that_can_be_expanded(entries: Seq<EventEnumEntry>)
    ensures
        can_expand(entries) <==> {
            &&& forall|i: int|
                0 <= i < entries.len() && (forall|j: int|
                    0 <= j < i ==> starts_with_m((#[trigger] entries[j]).ev_type@.text)) ==> if (
                starts_with_m((#[trigger] entries[i]).ev_type@.text)) {
                    gives_variant(entries[i].ev_type@.text)
                } else {
                    can_cut_prefix(entries[i].ev_type@.text)
                }
            &&& (forall|i: int|
                0 <= i < entries.len() ==> starts_with_m((#[trigger] entries[i]).ev_type@.text))
                ==> forall|i: int|
                0 <= i < entries.len() ==> gives_event((#[trigger] entries[i]).ev_type@.text)
        },
{
    assert forall|text: Seq<char>| is_well_known(text) <==> #[trigger] starts_with_m(text) by {
        law_modules_make_up_the_event_type(text);
    }
    assert forall|text: Seq<char>|
        #[trigger] can_name_variant(text) <==> if starts_with_m(text) {
            gives_variant(text)
        } else {
            can_cut_prefix(text)
        } by {
        law_modules_make_up_the_event_type(text);
        law_names_are_formed_of_words(text.skip(2), Separator::DotOrUnderscore);
        law_names_are_the_event_type_in_camel_case(text);
    }
    assert forall|text: Seq<char>|
        #[trigger] can_name_event(text) <==> starts_with_m(text) && gives_event(text) by {
        law_modules_make_up_the_event_type(text);
        law_names_are_formed_of_words(modules(text).last(), Separator::Underscore);
        law_names_are_the_event_type_in_camel_case(text);
    }
    let events = entry_events(entries);
    assert forall|i: int| 0 <= i <= entries.len() implies (#[trigger] well_known_before(entries, i)
        <==> forall|j: int|
        0 <= j < i ==> starts_with_m((#[trigger] entries[j]).ev_type@.text)) by {
        if well_known_before(entries, i) {
            assert forall|j: int| 0 <= j < i implies starts_with_m(
                (#[trigger] entries[j]).ev_type@.text,
            ) by {
                assert(is_well_known(entries[j].ev_type@.text));
            }
        } else {
            let j = choose|j: int|
                0 <= j < i && !is_well_known((#[trigger] entries[j]).ev_type@.text);
            assert(!starts_with_m(entries[j].ev_type@.text));
        }
    }
    assert(well_known_before(entries, entries.len() as int) <==> forall|j: int|
        0 <= j < entries.len() ==> starts_with_m((#[trigger] entries[j]).ev_type@.text));
    if can_expand(entries) {
        assert forall|i: int|
            0 <= i < entries.len() && (forall|j: int|
                0 <= j < i ==> starts_with_m((#[trigger] entries[j]).ev_type@.text)) implies if (
        starts_with_m((#[trigger] entries[i]).ev_type@.text)) {
            gives_variant(entries[i].ev_type@.text)
        } else {
            can_cut_prefix(entries[i].ev_type@.text)
        } by {
            assert(well_known_before(entries, i));
            assert(can_name_variant(entries[i].ev_type@.text));
        }
        if well_known_before(entries, entries.len() as int) {
            assert forall|i: int| 0 <= i < entries.len() implies gives_event(
                (#[trigger] entries[i]).ev_type@.text,
            ) by {
                assert(can_name_event(events[i].text));
            }
        }
    }
    if (forall|i: int|
        0 <= i < entries.len() && (forall|j: int|
            0 <= j < i ==> starts_with_m((#[trigger] entries[j]).ev_type@.text)) ==> if (
        starts_with_m((#[trigger] entries[i]).ev_type@.text)) {
            gives_variant(entries[i].ev_type@.text)
        } else {
            can_cut_prefix(entries[i].ev_type@.text)
        }) && ((forall|i: int|
        0 <= i < entries.len() ==> starts_with_m((#[trigger] entries[i]).ev_type@.text)) ==> forall|
        i: int,
    | 0 <= i < entries.len() ==> gives_event((#[trigger] entries[i]).ev_type@.text)) {
        assert forall|i: int|
            0 <= i < entries.len() && well_known_before(entries, i) implies can_name_variant(
            (#[trigger] entries[i]).ev_type@.text,
        ) by {
            assert(forall|j: int|
                0 <= j < i ==> starts_with_m((#[trigger] entries[j]).ev_type@.text));
        }
        if well_known_before(entries, entries.len() as int) {
            assert forall|i: int| 0 <= i < events.len() implies can_name_event(
                (#[trigger] events[i]).text,
            ) by {
                assert(gives_event(entries[i].ev_type@.text));
            }
        }
    }
}

} // verus!
