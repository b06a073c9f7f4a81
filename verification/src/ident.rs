//! Rust identifiers.

use crate::token::{append_ident, name, parse_ident, tokens_of};
use proc_macro2::{Span, TokenStream};
use vstd::prelude::*;

verus! {

/// A place in source code, as `proc_macro2` hands it out. The expansion carries spans from its
/// input to its output and never looks into one.
#[verifier::external_type_specification]
#[verifier::external_body]
pub struct ExSpan(Span);

/// Whether `c` is one of the characters that a single byte holds in UTF-8.
pub open spec fn is_ascii(c: char) -> bool {
    (c as int) < 128
}

/// Whether `c` is an ASCII letter.
pub open spec fn is_ascii_letter(c: char) -> bool {
    'a' <= c <= 'z' || 'A' <= c <= 'Z'
}

/// Whether `c` is an ASCII letter, an ASCII digit or the underscore.
pub open spec fn is_ascii_word(c: char) -> bool {
    is_ascii_letter(c) || '0' <= c <= '9' || c == '_'
}

/// Whether a character beyond ASCII has the Unicode property `XID_Start`.
pub uninterp spec fn xid_start(c: char) -> bool;

/// Whether a character beyond ASCII has the Unicode property `XID_Continue`.
pub uninterp spec fn xid_continue(c: char) -> bool;

/// `unicode_ident::is_xid_start`: true of the ASCII letters and of no other ASCII character;
/// beyond ASCII it is the Unicode property, which has a name here and no definition.
pub assume_specification[ unicode_ident::is_xid_start ](ch: char) -> (r: bool)
    ensures
        is_ascii(ch) ==> r == is_ascii_letter(ch),
        !is_ascii(ch) ==> r == xid_start(ch),
;

/// `unicode_ident::is_xid_continue`: true of the ASCII letters and digits and of the
/// underscore, and of no other ASCII character; beyond ASCII it is the Unicode property, which
/// has a name here and no definition.
pub assume_specification[ unicode_ident::is_xid_continue ](ch: char) -> (r: bool)
    ensures
        is_ascii(ch) ==> r == is_ascii_word(ch),
        !is_ascii(ch) ==> r == xid_continue(ch),
;

/// Whether an identifier may begin with `c`.
pub open spec fn starts_ident(c: char) -> bool {
    c == '_' || if is_ascii(c) {
        is_ascii_letter(c)
    } else {
        xid_start(c)
    }
}

/// Whether `c` may stand in an identifier behind the first character.
pub open spec fn continues_ident(c: char) -> bool {
    if is_ascii(c) {
        is_ascii_word(c)
    } else {
        xid_continue(c)
    }
}

/// Whether `text` is an identifier or a keyword of Rust.
pub open spec fn is_ident(text: Seq<char>) -> bool {
    &&& text.len() > 0
    &&& starts_ident(text[0])
    &&& forall|i: int| 1 <= i < text.len() ==> continues_ident(#[trigger] text[i])
}

/// Whether `text` consists of ASCII characters.
pub open spec fn is_ascii_text(text: Seq<char>) -> bool {
    forall|i: int| 0 <= i < text.len() ==> is_ascii(#[trigger] text[i])
}

/// Whether `text` is an identifier or a keyword of Rust, written in ASCII.
pub open spec fn is_ascii_ident(text: Seq<char>) -> bool {
    &&& text.len() > 0
    &&& is_ascii_letter(text[0]) || text[0] == '_'
    &&& forall|i: int| 0 <= i < text.len() ==> is_ascii_word(#[trigger] text[i])
}

/// Tells whether `text` is an identifier or a keyword of Rust.
pub fn check_ident(text: &str) -> (r: bool)
    ensures
        r == is_ident(text@),
{
    let mut first: bool = true;
    for c in it: text.chars()
        invariant
            it.seq() == text@,
            first == (it.index() == 0),
            it.index() > 0 ==> is_ident(text@.take(it.index() as int)),
    {
        let ghost i = it.index() as int;
        let ghost before = text@.take(i);
        let ghost after = text@.take(i + 1);
        if first {
            if c != '_' && !unicode_ident::is_xid_start(c) {
                return false;
            }
            first = false;
        } else {
            if !unicode_ident::is_xid_continue(c) {
                return false;
            }
            assert forall|j: int| 1 <= j < after.len() implies continues_ident(
                #[trigger] after[j],
            ) by {
                if j < i {
                    assert(after[j] == before[j]);
                }
            }
        }
    }
    assert(text@.take(text@.len() as int) =~= text@);
    !first
}

/// Tells whether `text` consists of ASCII characters.
pub fn check_ascii(text: &str) -> (r: bool)
    ensures
        r == is_ascii_text(text@),
{
    for c in it: text.chars()
        invariant
            it.seq() == text@,
            forall|i: int| 0 <= i < it.index() ==> is_ascii(#[trigger] text@[i]),
    {
        if c > '\u{7f}' {
            assert(!is_ascii(text@[it.index() as int]));
            return false;
        }
    }
    true
}

/// An identifier in ASCII is one by the rules for ASCII alone.
pub proof fn lemma_ascii_ident(text: Seq<char>)
    ensures
        is_ascii_ident(text) <==> is_ident(text) && is_ascii_text(text),
{
    if is_ident(text) && is_ascii_text(text) {
        assert forall|i: int| 0 <= i < text.len() implies is_ascii_word(#[trigger] text[i]) by {
            assert(is_ascii(text[i]));
        }
    }
}

/// An identifier and the place it stands for.
pub struct Ident {
    text: String,
    span: Span,
    stream: TokenStream,
}

impl View for Ident {
    type V = (Seq<char>, Span);

    closed spec fn view(&self) -> (Seq<char>, Span) {
        (self.text@, self.span)
    }
}

impl Ident {
    #[verifier::type_invariant]
    spec fn is_valid(self) -> bool {
        is_ident(self.text@) && tokens_of(self.stream) == name((self.text@, self.span))
    }

    /// The identifier with the given text and span. There is none if the text is no identifier.
    /// In ASCII there is one otherwise; beyond ASCII the compiler may not know a letter.
    pub fn new(text: String, span: Span) -> (r: Option<Ident>)
        ensures
            r matches Some(ident) ==> is_ident(text@) && ident@ == (text@, span),
            is_ascii_ident(text@) ==> r is Some,
    {
        proof {
            lemma_ascii_ident(text@);
        }
        if !check_ident(text.as_str()) {
            None
        } else if check_ascii(text.as_str()) {
            Some(Ident::ascii(text, span))
        } else {
            let stream = parse_ident(text.as_str(), span)?;
            Some(Ident { text, span, stream })
        }
    }

    /// The identifier with the given text, which is ASCII, and the given span.
    pub fn ascii(text: String, span: Span) -> (r: Ident)
        requires
            is_ascii_ident(text@),
        ensures
            r@ == (text@, span),
    {
        let mut stream = TokenStream::new();
        append_ident(&mut stream, text.as_str(), span);
        proof {
            lemma_ascii_ident(text@);
            assert(tokens_of(stream) =~= name((text@, span)));
        }
        Ident { text, span, stream }
    }

    /// The text of the identifier, which is one that Rust accepts.
    pub fn text(&self) -> (r: &str)
        ensures
            r@ == self@.0,
            is_ident(r@),
    {
        proof {
            use_type_invariant(self);
        }
        self.text.as_str()
    }

    /// The identifier as it is written.
    pub fn tokens(&self) -> (r: &TokenStream)
        ensures
            tokens_of(*r) == name(self@),
    {
        proof {
            use_type_invariant(self);
        }
        &self.stream
    }
}

/// An identifier stays one when characters are put behind it that may stand there.
pub proof fn lemma_ident_append(text: Seq<char>, tail: Seq<char>)
    requires
        is_ident(text),
        forall|i: int| 0 <= i < tail.len() ==> continues_ident(#[trigger] tail[i]),
    ensures
        is_ident(text + tail),
{
}

} // verus!
