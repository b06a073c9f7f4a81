//! Token streams: what one holds, and how the expansion writes to one.

use crate::ident::{check_ident, is_ascii_ident, is_ascii_text, is_ident, Ident};
use crate::text::{pieces, split, texts, Separator};
use proc_macro2::{Span, TokenStream};
use quote::{ToTokens, TokenStreamExt};
use vstd::prelude::*;

verus! {

/// The brackets around a group of tokens.
#[derive(Clone, Copy, Debug, PartialEq, Eq, Structural)]
pub enum Delimiter {
    Parenthesis,
    Brace,
    Bracket,
    Invisible,
}

/// One token, or one group of tokens with its brackets.
pub ghost enum Token {
    /// An identifier or a keyword.
    Ident(Seq<char>, Span),
    /// A punctuation character; `true` where it is joined to the token behind it.
    Punct(char, bool),
    /// A string literal, by its value.
    Str(Seq<char>, Span),
    /// Any other literal, by its source text.
    Literal(Seq<char>, Span),
    /// Tokens between brackets.
    Group(Delimiter, Seq<Token>),
}

/// `proc_macro2::TokenStream`, a list of tokens. Streams and spans that a running macro was given
/// do not mix with those made outside one: what goes into one expansion comes from one side.
#[verifier::external_type_specification]
#[verifier::external_body]
pub struct ExTokenStream(TokenStream);

/// The tokens that a stream holds, in order.
pub uninterp spec fn tokens_of(stream: TokenStream) -> Seq<Token>;

/// `TokenStream::new` gives a stream without tokens.
pub assume_specification[ TokenStream::new ]() -> (r: TokenStream)
    ensures
        tokens_of(r) == Seq::<Token>::empty(),
;

/// Whether `c` can be a punctuation token.
pub open spec fn is_punct(c: char) -> bool {
    ||| c == '!' || c == '#' || c == '$' || c == '%' || c == '&' || c == '\'' || c == '*'
    ||| c == '+' || c == ',' || c == '-' || c == '.' || c == '/' || c == ':' || c == ';' || c == '<'
    ||| c == '=' || c == '>' || c == '?' || c == '@' || c == '^' || c == '|' || c == '~'
}

/// Appends an identifier in ASCII: `proc_macro2::Ident::new`, then `append` of `quote`. The first
/// panics unless the text is an identifier or a keyword; otherwise the stream ends in an
/// identifier with that text and span.
#[verifier::external_body]
pub(crate) fn append_ident(stream: &mut TokenStream, text: &str, span: Span)
    requires
        is_ascii_ident(text@),
    ensures
        tokens_of(*final(stream)) == tokens_of(*old(stream)) + seq![Token::Ident(text@, span)],
{
    stream.append(proc_macro2::Ident::new(text, span));
}

/// The text of the identifier that `syn` parses out of a text beyond ASCII.
pub uninterp spec fn ident_text(text: Seq<char>, span: Span) -> Seq<char>;

/// The text of the identifier that is made of `text`: in ASCII, the text itself.
pub open spec fn kept_text(text: Seq<char>, span: Span) -> Seq<char> {
    if is_ascii_text(text) {
        text
    } else {
        ident_text(text, span)
    }
}

/// Makes an identifier beyond ASCII: `syn` parses it with `IdentExt::parse_any`, `set_span` of
/// `proc_macro2` gives it its span, and `into_token_stream` of `quote` makes it a stream. The
/// stream then holds one identifier with that span. Its text has a name here and no definition:
/// outside a macro it is the text as it was, and inside a running macro the compiler reads the
/// text and brings it into its composed form. Nothing is said of when there is an identifier:
/// inside a macro the compiler's own Unicode tables decide which letters it knows. Where it does
/// not take the text, the parser hands back an error, whereas `proc_macro2::Ident::new` would
/// panic.
#[verifier::external_body]
pub(crate) fn parse_ident(text: &str, span: Span) -> (r: Option<TokenStream>)
    requires
        is_ident(text@),
        !is_ascii_text(text@),
    ensures
        r matches Some(stream) ==> tokens_of(stream) == seq![
            Token::Ident(ident_text(text@, span), span),
        ],
{
    match syn::parse::Parser::parse_str(<syn::Ident as syn::ext::IdentExt>::parse_any, text) {
        Ok(mut ident) => {
            ident.set_span(span);
            Some(ident.into_token_stream())
        },
        Err(_) => None,
    }
}

/// Appends a punctuation character: `proc_macro2::Punct::new`, then `append` of `quote`. The
/// first panics on a character that is no punctuation; otherwise the stream ends in that
/// character with that spacing. Nothing is said of its span, which is the place of the macro call
/// that is being expanded.
#[verifier::external_body]
fn append_punct(stream: &mut TokenStream, ch: char, joint: bool)
    requires
        is_punct(ch),
    ensures
        tokens_of(*final(stream)) == tokens_of(*old(stream)) + seq![Token::Punct(ch, joint)],
{
    let spacing = match joint {
        true => proc_macro2::Spacing::Joint,
        false => proc_macro2::Spacing::Alone,
    };
    stream.append(proc_macro2::Punct::new(ch, spacing));
}

/// Appends a string literal: `syn::LitStr::new`, then its `to_tokens`. The stream ends in a
/// string literal with that value and span.
#[verifier::external_body]
fn append_str(stream: &mut TokenStream, value: &str, span: Span)
    ensures
        tokens_of(*final(stream)) == tokens_of(*old(stream)) + seq![Token::Str(value@, span)],
{
    syn::LitStr::new(value, span).to_tokens(stream);
}

/// Appends a group: `proc_macro2::Group::new`, then `append` of `quote`. The stream ends in a
/// group that holds the tokens of `inner` between the brackets asked for. Nothing is said of the
/// span of the brackets, which is the place of the macro call that is being expanded.
#[verifier::external_body]
fn append_group(stream: &mut TokenStream, delimiter: Delimiter, inner: TokenStream)
    ensures
        tokens_of(*final(stream)) == tokens_of(*old(stream)) + seq![
            Token::Group(delimiter, tokens_of(inner)),
        ],
{
    let delimiter = match delimiter {
        Delimiter::Parenthesis => proc_macro2::Delimiter::Parenthesis,
        Delimiter::Brace => proc_macro2::Delimiter::Brace,
        Delimiter::Bracket => proc_macro2::Delimiter::Bracket,
        Delimiter::Invisible => proc_macro2::Delimiter::None,
    };
    stream.append(proc_macro2::Group::new(delimiter, inner));
}

/// Appends all tokens of another stream: `to_tokens` of `quote` for `TokenStream`.
#[verifier::external_body]
pub(crate) fn append(stream: &mut TokenStream, tail: &TokenStream)
    ensures
        tokens_of(*final(stream)) == tokens_of(*old(stream)) + tokens_of(*tail),
{
    tail.to_tokens(stream);
}

/// An identifier.
pub open spec fn name(ident: (Seq<char>, Span)) -> Seq<Token> {
    seq![Token::Ident(kept_text(ident.0, ident.1), ident.1)]
}

/// A string literal.
pub open spec fn literal(value: Seq<char>, span: Span) -> Seq<Token> {
    seq![Token::Str(value, span)]
}

/// Tokens between parentheses.
pub open spec fn parens(inner: Seq<Token>) -> Seq<Token> {
    seq![Token::Group(Delimiter::Parenthesis, inner)]
}

/// Tokens between braces.
pub open spec fn braces(inner: Seq<Token>) -> Seq<Token> {
    seq![Token::Group(Delimiter::Brace, inner)]
}

/// Tokens between square brackets.
pub open spec fn brackets(inner: Seq<Token>) -> Seq<Token> {
    seq![Token::Group(Delimiter::Bracket, inner)]
}

/// Appends an identifier.
pub fn put_name(stream: &mut TokenStream, ident: &Ident)
    ensures
        tokens_of(*final(stream)) == tokens_of(*old(stream)) + name(ident@),
{
    append(stream, ident.tokens());
}

/// Appends a string literal.
pub fn put_literal(stream: &mut TokenStream, value: &str, span: Span)
    ensures
        tokens_of(*final(stream)) == tokens_of(*old(stream)) + literal(value@, span),
{
    append_str(stream, value, span);
}

/// Appends tokens between parentheses.
pub fn put_parens(stream: &mut TokenStream, inner: TokenStream)
    ensures
        tokens_of(*final(stream)) == tokens_of(*old(stream)) + parens(tokens_of(inner)),
{
    append_group(stream, Delimiter::Parenthesis, inner);
}

/// Appends tokens between braces.
pub fn put_braces(stream: &mut TokenStream, inner: TokenStream)
    ensures
        tokens_of(*final(stream)) == tokens_of(*old(stream)) + braces(tokens_of(inner)),
{
    append_group(stream, Delimiter::Brace, inner);
}

/// Appends tokens between square brackets.
pub fn put_brackets(stream: &mut TokenStream, inner: TokenStream)
    ensures
        tokens_of(*final(stream)) == tokens_of(*old(stream)) + brackets(tokens_of(inner)),
{
    append_group(stream, Delimiter::Bracket, inner);
}

/// Whether every character of `word` is punctuation.
pub open spec fn is_operator(word: Seq<char>) -> bool {
    forall|i: int| 0 <= i < word.len() ==> is_punct(#[trigger] word[i])
}

/// The tokens of an operator: its characters, each joined to the next. The apostrophe of a
/// lifetime is joined to the name behind it.
pub open spec fn operator_tokens(word: Seq<char>) -> Seq<Token> {
    Seq::new(word.len(), |i: int| operator_token(word, i))
}

/// The token of the character of an operator at `i`.
pub open spec fn operator_token(word: Seq<char>, i: int) -> Token {
    Token::Punct(word[i], i + 1 < word.len() || word[i] == '\'')
}

/// Whether a template can hold this word: an identifier in ASCII, or an operator of one character
/// or more.
pub open spec fn is_word(word: Seq<char>) -> bool {
    is_ascii_ident(word) || word.len() > 0 && is_operator(word)
}

/// Whether every piece of `text` between spaces is an identifier or an operator, so that no part
/// of the text is anything but a token.
#[verifier::opaque]
pub open spec fn is_template(text: Seq<char>) -> bool {
    forall|i: int|
        0 <= i < pieces(text, Separator::Space).len() ==> is_word(
            #[trigger] pieces(text, Separator::Space)[i],
        )
}

/// The tokens of one word of a template: an identifier with the span `site`, or the characters of
/// an operator.
pub open spec fn word_tokens(word: Seq<char>, site: Span) -> Seq<Token> {
    if is_ascii_ident(word) {
        seq![Token::Ident(word, site)]
    } else {
        operator_tokens(word)
    }
}

/// The tokens of the words in turn.
pub open spec fn all_word_tokens(words: Seq<Seq<char>>, site: Span) -> Seq<Token>
    decreases words.len(),
{
    if words.len() == 0 {
        Seq::empty()
    } else {
        all_word_tokens(words.drop_last(), site) + word_tokens(words.last(), site)
    }
}

/// The tokens of a template: Rust tokens without brackets, with a space between any two.
pub open spec fn quoted(template: Seq<char>, site: Span) -> Seq<Token> {
    all_word_tokens(pieces(template, Separator::Space), site)
}

/// Appends the tokens of one word of a template.
fn put_word(stream: &mut TokenStream, word: &str, site: Span)
    requires
        is_word(word@),
    ensures
        tokens_of(*final(stream)) == tokens_of(*old(stream)) + word_tokens(word@, site),
{
    if check_ident(word) {
        assert(is_ascii_ident(word@)) by {
            if is_operator(word@) {
                assert(is_punct(word@[0]));
            }
        }
        append_ident(stream, word, site);
    } else {
        assert(!is_ascii_ident(word@) && is_operator(word@));
        let n: usize = word.unicode_len();
        let ghost before = tokens_of(*stream);
        let ghost tokens = operator_tokens(word@);
        assert(tokens.len() == word@.len());
        assert(before + tokens.take(0) =~= before);
        for i in 0..n
            invariant
                n == word@.len(),
                is_operator(word@),
                tokens_of(*stream) == before + operator_tokens(word@).take(i as int),
        {
            let c = word.get_char(i);
            append_punct(stream, c, i + 1 < n || c == '\'');
            assert(operator_tokens(word@).take(i + 1) =~= operator_tokens(word@).take(
                i as int,
            ).push(operator_tokens(word@)[i as int]));
        }
        assert(operator_tokens(word@).take(n as int) =~= operator_tokens(word@));
    }
}

/// Appends the tokens of a template, with the span `site` for its identifiers.
pub fn quote(stream: &mut TokenStream, template: &str, site: Span)
    requires
        is_template(template@),
    ensures
        tokens_of(*final(stream)) == tokens_of(*old(stream)) + quoted(template@, site),
{
    let words = split(template, Separator::Space);
    let n: usize = words.len();
    let ghost before = tokens_of(*stream);
    for i in 0..n
        invariant
            n == words@.len(),
            is_template(template@),
            texts(words@) == pieces(template@, Separator::Space),
            tokens_of(*stream) == before + all_word_tokens(texts(words@).take(i as int), site),
    {
        assert(is_word(texts(words@)[i as int])) by {
            reveal(is_template);
        }
        put_word(stream, words[i].as_str(), site);
        assert(texts(words@).take(i + 1).drop_last() =~= texts(words@).take(i as int));
    }
    assert(texts(words@).take(n as int) =~= texts(words@));
}

/// A new stream with the tokens of a template.
pub fn quote_new(template: &str, site: Span) -> (r: TokenStream)
    requires
        is_template(template@),
    ensures
        tokens_of(r) == quoted(template@, site),
{
    let mut stream = TokenStream::new();
    quote(&mut stream, template, site);
    assert(Seq::<Token>::empty() + quoted(template@, site) =~= quoted(template@, site));
    stream
}

/// A new stream with one identifier.
pub fn name_new(ident: &Ident) -> (r: TokenStream)
    ensures
        tokens_of(r) == name(ident@),
{
    let mut stream = TokenStream::new();
    put_name(&mut stream, ident);
    assert(Seq::<Token>::empty() + name(ident@) =~= name(ident@));
    stream
}

/// A new stream with one string literal.
pub fn literal_new(value: &str, span: Span) -> (r: TokenStream)
    ensures
        tokens_of(r) == literal(value@, span),
{
    let mut stream = TokenStream::new();
    put_literal(&mut stream, value, span);
    assert(Seq::<Token>::empty() + literal(value@, span) =~= literal(value@, span));
    stream
}

/// A new stream with the tokens of another.
pub fn copy(source: &TokenStream) -> (r: TokenStream)
    ensures
        tokens_of(r) == tokens_of(*source),
{
    let mut stream = TokenStream::new();
    append(&mut stream, source);
    assert(Seq::<Token>::empty() + tokens_of(*source) =~= tokens_of(*source));
    stream
}

/// What an optional stream holds.
pub open spec fn tokens_in(stream: Option<TokenStream>) -> Option<Seq<Token>> {
    match stream {
        Some(stream) => Some(tokens_of(stream)),
        None => None,
    }
}

/// The tokens of something that may be absent, which then has none.
pub open spec fn present(tokens: Option<Seq<Token>>) -> Seq<Token> {
    match tokens {
        Some(tokens) => tokens,
        None => Seq::empty(),
    }
}

/// Appends the tokens of a stream, if there is one.
pub fn put_present(stream: &mut TokenStream, tail: &Option<TokenStream>)
    ensures
        tokens_of(*final(stream)) == tokens_of(*old(stream)) + present(tokens_in(*tail)),
{
    match tail {
        Some(tail) => append(stream, tail),
        None => {
            assert(tokens_of(*stream) + Seq::<Token>::empty() =~= tokens_of(*stream));
        },
    }
}

/// A new stream with the tokens of another, if there is one.
pub fn present_new(source: &Option<TokenStream>) -> (r: TokenStream)
    ensures
        tokens_of(r) == present(tokens_in(*source)),
{
    match source {
        Some(source) => copy(source),
        None => TokenStream::new(),
    }
}

/// What the streams of a list hold.
pub open spec fn tokens_of_each(list: Seq<TokenStream>) -> Seq<Seq<Token>> {
    Seq::new(list.len(), |i: int| tokens_of(list[i]))
}

/// The parts one behind the other.
pub open spec fn concat(parts: Seq<Seq<Token>>) -> Seq<Token>
    decreases parts.len(),
{
    if parts.len() == 0 {
        Seq::empty()
    } else {
        concat(parts.drop_last()) + parts.last()
    }
}

/// The first parts and the next one are the first parts with one more.
pub proof fn lemma_concat_next(parts: Seq<Seq<Token>>, i: int)
    requires
        0 <= i < parts.len(),
    ensures
        concat(parts.take(i + 1)) == concat(parts.take(i)) + parts[i],
{
    assert(parts.take(i + 1).drop_last() =~= parts.take(i));
}

/// A new stream with the tokens of the streams of a list, one behind the other.
pub fn concat_new(list: &Vec<TokenStream>) -> (r: TokenStream)
    ensures
        tokens_of(r) == concat(tokens_of_each(list@)),
{
    let mut stream = TokenStream::new();
    let n: usize = list.len();
    let ghost parts = tokens_of_each(list@);
    for i in 0..n
        invariant
            n == list@.len(),
            parts == tokens_of_each(list@),
            tokens_of(stream) == concat(parts.take(i as int)),
    {
        append(&mut stream, &list[i]);
        proof {
            lemma_concat_next(parts, i as int);
        }
    }
    assert(parts.take(n as int) =~= parts);
    stream
}

/// The attribute that a doc comment stands for, with `value` for its text.
pub open spec fn doc_attribute(value: Seq<Token>, site: Span) -> Seq<Token> {
    quoted("#"@, site) + brackets(quoted("doc ="@, site) + value)
}

/// A new stream with the attribute that a doc comment stands for.
pub fn doc_attribute_new(value: &TokenStream, site: Span) -> (r: TokenStream)
    ensures
        tokens_of(r) == doc_attribute(tokens_of(*value), site),
{
    broadcast use crate::template::law_templates_consist_of_tokens;

    let mut inner = quote_new("doc =", site);
    append(&mut inner, value);
    let mut stream = quote_new("#", site);
    put_brackets(&mut stream, inner);
    stream
}

/// The attribute that a doc comment with this text stands for.
pub open spec fn doc_comment(text: Seq<char>, site: Span) -> Seq<Token> {
    doc_attribute(literal(text, site), site)
}

/// A new stream with the attribute that a doc comment with this text stands for.
pub fn doc_comment_new(text: &str, site: Span) -> (r: TokenStream)
    ensures
        tokens_of(r) == doc_comment(text@, site),
{
    doc_attribute_new(&literal_new(text, site), site)
}

} // verus!
