//! Code as a reader of Rust sees it: where an item, a variant, a field or an arm of a `match`
//! ends in a list of tokens.

use crate::laws::law_template_is_read_word_by_word;
use crate::text::{pieces, Separator};
use crate::token::{
    all_word_tokens, braces, brackets, concat, literal, name, operator_token, operator_tokens,
    parens, quoted, word_tokens, Delimiter, Token,
};
use proc_macro2::Span;
use vstd::prelude::*;

verus! {

/// What ends a part of a list of tokens: a comma, or a block in braces.
pub ghost enum End {
    Comma,
    Block,
}

/// Whether a part ends with this token.
pub open spec fn ends(token: Token, end: End) -> bool {
    match (end, token) {
        (End::Comma, Token::Punct(c, _)) => c == ',',
        (End::Block, Token::Group(delimiter, _)) => delimiter == Delimiter::Brace,
        _ => false,
    }
}

/// The parts that are complete, each with its end, and the tokens behind the last end. What lies
/// inside brackets does not count.
pub open spec fn cut_up(tokens: Seq<Token>, end: End) -> (Seq<Seq<Token>>, Seq<Token>)
    decreases tokens.len(),
{
    if tokens.len() == 0 {
        (Seq::empty(), Seq::empty())
    } else {
        let (done, rest) = cut_up(tokens.drop_last(), end);
        if ends(tokens.last(), end) {
            (done.push(rest.push(tokens.last())), Seq::empty())
        } else {
            (done, rest.push(tokens.last()))
        }
    }
}

/// The parts of a list of tokens: items and methods end with a block, variants, fields and arms
/// with a comma, or the latter with a block as well.
#[verifier::opaque]
pub open spec fn parts(tokens: Seq<Token>, end: End) -> Seq<Seq<Token>> {
    cut_up(tokens, end).0
}

/// Whether nothing stands behind the last part.
#[verifier::opaque]
pub open spec fn is_complete(tokens: Seq<Token>, end: End) -> bool {
    cut_up(tokens, end).1.len() == 0
}

/// What stands in the brackets at the end of a list of tokens.
pub open spec fn inside(tokens: Seq<Token>) -> Seq<Token> {
    match tokens.last() {
        Token::Group(_, inner) => inner,
        _ => Seq::empty(),
    }
}

/// The members of all items that begin with `head`, in order.
pub open spec fn members(items: Seq<Seq<Token>>, head: Seq<Token>, end: End) -> Seq<Seq<Token>>
    decreases items.len(),
{
    if items.len() == 0 {
        Seq::empty()
    } else {
        members(items.drop_last(), head, end) + if items.last().drop_last() == head {
            parts(inside(items.last()), end)
        } else {
            Seq::empty()
        }
    }
}

/// The name of a function: what stands behind the first `fn`.
pub open spec fn fn_name(tokens: Seq<Token>) -> Seq<char>
    decreases tokens.len(),
{
    if tokens.len() < 2 {
        Seq::empty()
    } else {
        match (tokens[0], tokens[1]) {
            (Token::Ident(word, _), Token::Ident(text, _)) if word == "fn"@ => text,
            _ => fn_name(tokens.skip(1)),
        }
    }
}

/// The functions of this name.
pub open spec fn called(functions: Seq<Seq<Token>>, text: Seq<char>) -> Seq<Seq<Token>>
    decreases functions.len(),
{
    if functions.len() == 0 {
        Seq::empty()
    } else if fn_name(functions.last()) == text {
        called(functions.drop_last(), text).push(functions.last())
    } else {
        called(functions.drop_last(), text)
    }
}

/// Whether no part ends among the tokens.
#[verifier::opaque]
pub open spec fn unbroken(tokens: Seq<Token>, end: End) -> bool {
    forall|i: int| 0 <= i < tokens.len() ==> !ends(#[trigger] tokens[i], end)
}

/// Whether the tokens are one part.
#[verifier::opaque]
pub open spec fn is_part(tokens: Seq<Token>, end: End) -> bool {
    tokens.len() > 0 && unbroken(tokens.drop_last(), end) && ends(tokens.last(), end)
}

proof fn lemma_unbroken(tokens: Seq<Token>, end: End)
    requires
        unbroken(tokens, end),
    ensures
        cut_up(tokens, end) == (Seq::<Seq<Token>>::empty(), tokens),
    decreases tokens.len(),
{
    reveal(unbroken);
    if tokens.len() > 0 {
        let start = tokens.drop_last();
        assert(unbroken(start, end));
        lemma_unbroken(start, end);
        assert(!ends(tokens[tokens.len() - 1], end));
        assert(start.push(tokens.last()) =~= tokens);
    } else {
        assert(tokens =~= Seq::empty());
    }
}

/// The tokens of one part have that part.
pub proof fn lemma_one_part(tokens: Seq<Token>, end: End)
    requires
        is_part(tokens, end),
    ensures
        parts(tokens, end) == seq![tokens],
        is_complete(tokens, end),
{
    reveal(parts);
    reveal(is_complete);
    reveal(is_part);
    lemma_unbroken(tokens.drop_last(), end);
    assert(tokens.drop_last().push(tokens.last()) =~= tokens);
    assert(parts(tokens, end) =~= seq![tokens]);
}

/// Without tokens there are no parts.
pub proof fn lemma_no_parts(end: End)
    ensures
        parts(Seq::empty(), end) == Seq::<Seq<Token>>::empty(),
        is_complete(Seq::empty(), end),
{
    reveal(parts);
    reveal(is_complete);
}

/// Where the first tokens end with a part, the parts of all are those of both.
pub proof fn lemma_parts_of_two(a: Seq<Token>, b: Seq<Token>, end: End)
    requires
        is_complete(a, end),
    ensures
        parts(a + b, end) == parts(a, end) + parts(b, end),
        is_complete(a + b, end) == is_complete(b, end),
    decreases b.len(),
{
    reveal(parts);
    reveal(is_complete);
    lemma_cut_two(a, b, end);
}

proof fn lemma_cut_two(a: Seq<Token>, b: Seq<Token>, end: End)
    requires
        cut_up(a, end).1.len() == 0,
    ensures
        cut_up(a + b, end) == (cut_up(a, end).0 + cut_up(b, end).0, cut_up(b, end).1),
    decreases b.len(),
{
    if b.len() == 0 {
        assert(a + b =~= a);
        assert(cut_up(a, end).0 + cut_up(b, end).0 =~= cut_up(a, end).0);
        assert(cut_up(a, end).1 =~= Seq::empty());
    } else {
        lemma_cut_two(a, b.drop_last(), end);
        assert((a + b).drop_last() =~= a + b.drop_last());
        assert(cut_up(a + b, end).0 =~= cut_up(a, end).0 + cut_up(b, end).0);
    }
}

/// The lists of tokens that are not empty.
pub open spec fn filled(list: Seq<Seq<Token>>) -> Seq<Seq<Token>>
    decreases list.len(),
{
    if list.len() == 0 {
        Seq::empty()
    } else if list.last().len() == 0 {
        filled(list.drop_last())
    } else {
        filled(list.drop_last()).push(list.last())
    }
}

/// Parts one behind the other are parts; empty ones do not count.
pub proof fn lemma_parts_of_filled(list: Seq<Seq<Token>>, end: End)
    requires
        forall|i: int|
            0 <= i < list.len() ==> is_part(#[trigger] list[i], end) || list[i].len() == 0,
    ensures
        parts(concat(list), end) == filled(list),
        is_complete(concat(list), end),
    decreases list.len(),
{
    lemma_no_parts(end);
    if list.len() > 0 {
        let start = list.drop_last();
        let last = list.last();
        assert forall|i: int| 0 <= i < start.len() implies is_part(#[trigger] start[i], end)
            || start[i].len() == 0 by {
            assert(start[i] == list[i]);
        }
        lemma_parts_of_filled(start, end);
        assert(last == list[list.len() - 1]);
        lemma_parts_of_two(concat(start), last, end);
        if last.len() == 0 {
            assert(last =~= Seq::empty());
            assert(filled(start) + Seq::<Seq<Token>>::empty() =~= filled(start));
        } else {
            lemma_one_part(last, end);
            assert(filled(start) + seq![last] =~= filled(start).push(last));
        }
    }
}

/// Parts one behind the other are parts.
pub proof fn lemma_parts_of_all(list: Seq<Seq<Token>>, end: End)
    requires
        forall|i: int| 0 <= i < list.len() ==> is_part(#[trigger] list[i], end),
    ensures
        parts(concat(list), end) == list,
        is_complete(concat(list), end),
{
    lemma_parts_of_filled(list, end);
    lemma_all_filled(list, end);
}

proof fn lemma_all_filled(list: Seq<Seq<Token>>, end: End)
    requires
        forall|i: int| 0 <= i < list.len() ==> is_part(#[trigger] list[i], end),
    ensures
        filled(list) == list,
    decreases list.len(),
{
    reveal(is_part);
    if list.len() > 0 {
        assert(is_part(list[list.len() - 1], end));
        assert forall|i: int| 0 <= i < list.len() - 1 implies is_part(
            #[trigger] list.drop_last()[i],
            end,
        ) by {
            assert(is_part(list[i], end));
        }
        lemma_all_filled(list.drop_last(), end);
    }
    assert(filled(list) =~= list);
}

/// The parts of a list of parts with one more part behind them.
pub proof fn lemma_parts_and_last(list: Seq<Seq<Token>>, last: Seq<Token>, end: End)
    requires
        forall|i: int| 0 <= i < list.len() ==> is_part(#[trigger] list[i], end),
        is_part(last, end),
    ensures
        parts(concat(list) + last, end) == list.push(last),
        is_complete(concat(list) + last, end),
{
    lemma_parts_of_all(list, end);
    lemma_one_part(last, end);
    lemma_parts_of_two(concat(list), last, end);
    assert(list + seq![last] =~= list.push(last));
}

/// The parts of a list of parts, some of them empty, with one that may be empty and one more part
/// behind them.
pub proof fn lemma_parts_and_two(
    list: Seq<Seq<Token>>,
    extra: Seq<Token>,
    last: Seq<Token>,
    end: End,
)
    requires
        forall|i: int|
            0 <= i < list.len() ==> is_part(#[trigger] list[i], end) || list[i].len() == 0,
        is_part(extra, end) || extra.len() == 0,
        is_part(last, end),
    ensures
        parts(concat(list) + extra + last, end) == filled(list) + (if extra.len() > 0 {
            seq![extra]
        } else {
            Seq::empty()
        }) + seq![last],
        is_complete(concat(list) + extra + last, end),
{
    lemma_no_parts(end);
    lemma_parts_of_filled(list, end);
    lemma_parts_of_two(concat(list), extra, end);
    if extra.len() > 0 {
        lemma_one_part(extra, end);
    } else {
        assert(extra =~= Seq::empty());
    }
    lemma_one_part(last, end);
    lemma_parts_of_two(concat(list) + extra, last, end);
}

/// The members of two lists of items are those of the first and then those of the second.
pub proof fn lemma_members_of_two(
    a: Seq<Seq<Token>>,
    b: Seq<Seq<Token>>,
    head: Seq<Token>,
    end: End,
)
    ensures
        members(a + b, head, end) == members(a, head, end) + members(b, head, end),
    decreases b.len(),
{
    if b.len() == 0 {
        assert(a + b =~= a);
        assert(members(a, head, end) + members(b, head, end) =~= members(a, head, end));
    } else {
        lemma_members_of_two(a, b.drop_last(), head, end);
        assert((a + b).drop_last() =~= a + b.drop_last());
        assert(members(a + b, head, end) =~= members(a, head, end) + members(b, head, end));
    }
}

/// The members of a single item.
pub proof fn lemma_members_of_one(item: Seq<Token>, head: Seq<Token>, end: End)
    ensures
        members(seq![item], head, end) == if item.drop_last() == head {
            parts(inside(item), end)
        } else {
            Seq::empty()
        },
{
    let items = seq![item];
    assert(items.drop_last() =~= Seq::empty());
    assert(members(items.drop_last(), head, end) =~= Seq::empty());
    assert(members(items, head, end) =~= if item.drop_last() == head {
        parts(inside(item), end)
    } else {
        Seq::empty()
    });
}

/// The name of a function with one attribute that is public.
pub proof fn lemma_fn_name(tokens: Seq<Token>, text: Seq<char>, site: Span)
    requires
        tokens.len() > 4,
        tokens[0] is Punct,
        tokens[1] is Group,
        tokens[2] == Token::Ident("pub"@, site),
        tokens[3] == Token::Ident("fn"@, site),
        tokens[4] == Token::Ident(text, site),
    ensures
        fn_name(tokens) == text,
{
    reveal_strlit("pub");
    reveal_strlit("fn");
    assert("pub"@[0] != "fn"@[0]);
    reveal_with_fuel(fn_name, 5);
    assert(tokens.skip(1).skip(1) =~= tokens.skip(2));
    assert(tokens.skip(2).skip(1) =~= tokens.skip(3));
}

/// The functions of a name in two lists are those in the first and then those in the second.
pub proof fn lemma_called_in_two(a: Seq<Seq<Token>>, b: Seq<Seq<Token>>, text: Seq<char>)
    ensures
        called(a + b, text) == called(a, text) + called(b, text),
    decreases b.len(),
{
    if b.len() == 0 {
        assert(a + b =~= a);
        assert(called(a, text) + called(b, text) =~= called(a, text));
    } else {
        lemma_called_in_two(a, b.drop_last(), text);
        assert((a + b).drop_last() =~= a + b.drop_last());
        assert(called(a + b, text) =~= called(a, text) + called(b, text));
    }
}

/// The functions of a name in a list of one.
pub proof fn lemma_called_in_one(function: Seq<Token>, text: Seq<char>)
    ensures
        called(seq![function], text) == if fn_name(function) == text {
            seq![function]
        } else {
            Seq::empty()
        },
{
    let list = seq![function];
    assert(list.drop_last() =~= Seq::empty());
    assert(called(list.drop_last(), text) =~= Seq::empty());
    assert(called(list, text) =~= if fn_name(function) == text {
        seq![function]
    } else {
        Seq::empty()
    });
}

/// Where there is nothing, there is no function.
pub proof fn lemma_called_in_filled(list: Seq<Seq<Token>>, text: Seq<char>)
    requires
        text.len() > 0,
    ensures
        called(filled(list), text) == called(list, text),
    decreases list.len(),
{
    if list.len() > 0 {
        lemma_called_in_filled(list.drop_last(), text);
        if list.last().len() > 0 {
            assert(filled(list).drop_last() =~= filled(list.drop_last()));
        }
    }
}

/// How many of the first lists are not empty.
pub open spec fn count_filled(list: Seq<Seq<Token>>, n: int) -> int
    decreases n,
{
    if n <= 0 {
        0
    } else {
        count_filled(list, n - 1) + if list[n - 1].len() > 0 {
            1int
        } else {
            0
        }
    }
}

/// Where a list that is not empty stands among all of those.
pub proof fn lemma_place_in_filled(list: Seq<Seq<Token>>)
    ensures
        filled(list).len() == count_filled(list, list.len() as int),
        forall|i: int|
            0 <= i < list.len() && (#[trigger] list[i]).len() > 0 ==> 0 <= count_filled(list, i)
                < filled(list).len() && filled(list)[count_filled(list, i)] == list[i],
    decreases list.len(),
{
    if list.len() > 0 {
        let start = list.drop_last();
        lemma_place_in_filled(start);
        lemma_count_same(list, start, start.len() as int);
        assert forall|i: int| 0 <= i < list.len() && (#[trigger] list[i]).len() > 0 implies 0
            <= count_filled(list, i) < filled(list).len() && filled(list)[count_filled(list, i)]
            == list[i] by {
            if i < start.len() {
                assert(start[i] == list[i]);
                lemma_count_same(list, start, i);
            }
        }
    }
}

proof fn lemma_count_same(list: Seq<Seq<Token>>, start: Seq<Seq<Token>>, n: int)
    requires
        0 <= n <= start.len() <= list.len(),
        forall|i: int| 0 <= i < start.len() ==> #[trigger] start[i] == list[i],
    ensures
        count_filled(list, n) == count_filled(start, n),
    decreases n,
{
    if n > 0 {
        lemma_count_same(list, start, n - 1);
        assert(start[n - 1] == list[n - 1]);
    }
}

pub broadcast proof fn unbroken_add(a: Seq<Token>, b: Seq<Token>, end: End)
    requires
        unbroken(a, end),
        unbroken(b, end),
    ensures
        #[trigger] unbroken(a + b, end),
{
    reveal(unbroken);
}

pub broadcast proof fn unbroken_empty(end: End)
    ensures
        #[trigger] unbroken(Seq::<Token>::empty(), end),
{
    reveal(unbroken);
}

pub broadcast proof fn unbroken_name(ident: (Seq<char>, Span), end: End)
    ensures
        #[trigger] unbroken(name(ident), end),
{
    reveal(unbroken);
}

pub broadcast proof fn unbroken_literal(value: Seq<char>, span: Span, end: End)
    ensures
        #[trigger] unbroken(literal(value, span), end),
{
    reveal(unbroken);
}

pub broadcast proof fn unbroken_parens(inner: Seq<Token>, end: End)
    ensures
        #[trigger] unbroken(parens(inner), end),
{
    reveal(unbroken);
}

pub broadcast proof fn unbroken_brackets(inner: Seq<Token>, end: End)
    ensures
        #[trigger] unbroken(brackets(inner), end),
{
    reveal(unbroken);
}

pub broadcast proof fn unbroken_braces(inner: Seq<Token>)
    ensures
        #[trigger] unbroken(braces(inner), End::Comma),
{
    reveal(unbroken);
}

pub broadcast proof fn unbroken_quoted(template: Seq<char>, site: Span)
    ensures
        #[trigger] unbroken(quoted(template, site), End::Block),
{
    lemma_words_unbroken(pieces(template, Separator::Space), site);
}

proof fn lemma_words_unbroken(words: Seq<Seq<char>>, site: Span)
    ensures
        unbroken(all_word_tokens(words, site), End::Block),
    decreases words.len(),
{
    reveal(unbroken);
    if words.len() > 0 {
        lemma_words_unbroken(words.drop_last(), site);
        let word = words.last();
        assert(unbroken(word_tokens(word, site), End::Block)) by {
            let tokens = operator_tokens(word);
            assert forall|i: int| 0 <= i < tokens.len() implies !ends(
                #[trigger] tokens[i],
                End::Block,
            ) by {
                assert(tokens[i] == operator_token(word, i));
            }
        }
    }
}

/// Whether a template has no comma.
pub open spec fn has_no_comma(template: Seq<char>) -> bool {
    forall|i: int| 0 <= i < template.len() ==> #[trigger] template[i] != ','
}

/// The tokens of a template without a comma hold none.
pub proof fn lemma_quoted_unbroken(template: Seq<char>, site: Span)
    requires
        has_no_comma(template),
    ensures
        unbroken(quoted(template, site), End::Comma),
    decreases template.len(),
{
    lemma_pieces_without_comma(template);
    lemma_words_without_comma(pieces(template, Separator::Space), site);
}

proof fn lemma_pieces_without_comma(text: Seq<char>)
    requires
        has_no_comma(text),
    ensures
        pieces(text, Separator::Space).len() > 0,
        forall|i: int|
            0 <= i < pieces(text, Separator::Space).len() ==> has_no_comma(
                #[trigger] pieces(text, Separator::Space)[i],
            ),
    decreases text.len(),
{
    if text.len() > 0 {
        lemma_pieces_without_comma(text.drop_last());
        assert(text[text.len() - 1] != ',');
    }
}

proof fn lemma_words_without_comma(words: Seq<Seq<char>>, site: Span)
    requires
        forall|i: int| 0 <= i < words.len() ==> has_no_comma(#[trigger] words[i]),
    ensures
        unbroken(all_word_tokens(words, site), End::Comma),
    decreases words.len(),
{
    reveal(unbroken);
    if words.len() > 0 {
        let word = words.last();
        lemma_words_without_comma(words.drop_last(), site);
        assert(has_no_comma(words[words.len() - 1]));
        assert(unbroken(word_tokens(word, site), End::Comma)) by {
            let tokens = operator_tokens(word);
            assert forall|i: int| 0 <= i < tokens.len() implies !ends(
                #[trigger] tokens[i],
                End::Comma,
            ) by {
                assert(tokens[i] == operator_token(word, i));
                assert(word[i] != ',');
            }
        }
    }
}

/// What is put in braces at the end makes a part.
pub broadcast proof fn part_with_block(start: Seq<Token>, inner: Seq<Token>)
    requires
        unbroken(start, End::Block),
    ensures
        #[trigger] is_part(start + braces(inner), End::Block),
{
    reveal(is_part);
    assert((start + braces(inner)).drop_last() =~= start);
}

/// A comma at the end makes a part.
pub broadcast proof fn part_with_comma(start: Seq<Token>, site: Span)
    requires
        unbroken(start, End::Comma),
    ensures
        #[trigger] is_part(start + quoted(","@, site), End::Comma),
{
    reveal(is_part);
    lemma_comma(site);
    assert((start + quoted(","@, site)).drop_last() =~= start);
}

/// A comma is a single token.
pub proof fn lemma_comma(site: Span)
    ensures
        quoted(","@, site) == seq![Token::Punct(',', false)],
{
    reveal_strlit(",");
    law_template_is_read_word_by_word(","@, ""@, site);
    assert(operator_tokens(","@) =~= seq![Token::Punct(',', false)]);
}

pub broadcast group group_unbroken {
    unbroken_add,
    unbroken_empty,
    unbroken_name,
    unbroken_literal,
    unbroken_parens,
    unbroken_brackets,
    unbroken_braces,
    unbroken_quoted,
    part_with_block,
    part_with_comma,
}

} // verus!
