//! Text as the expansion sees it: where it is cut, what it contains, and its camel case.

use crate::ident::{is_ascii, is_ascii_text};
use vstd::prelude::*;

verus! {

/// The characters at which a text is cut into pieces.
#[derive(Clone, Copy, Debug, PartialEq, Eq, Structural)]
pub enum Separator {
    Space,
    Dot,
    Underscore,
    DotOrUnderscore,
}

impl Separator {
    /// Whether a text is cut at `c`.
    pub open spec fn cuts(self, c: char) -> bool {
        match self {
            Separator::Space => c == ' ',
            Separator::Dot => c == '.',
            Separator::Underscore => c == '_',
            Separator::DotOrUnderscore => c == '.' || c == '_',
        }
    }

    fn is_cut(self, c: char) -> (r: bool)
        ensures
            r == self.cuts(c),
    {
        match self {
            Separator::Space => c == ' ',
            Separator::Dot => c == '.',
            Separator::Underscore => c == '_',
            Separator::DotOrUnderscore => c == '.' || c == '_',
        }
    }
}

/// The pieces of `text` between the separators, in order: one more than there are separators,
/// so that a text without any is its own only piece.
pub open spec fn pieces(text: Seq<char>, separator: Separator) -> Seq<Seq<char>>
    decreases text.len(),
{
    if text.len() == 0 {
        seq![Seq::empty()]
    } else {
        let before = pieces(text.drop_last(), separator);
        if separator.cuts(text.last()) {
            before.push(Seq::empty())
        } else {
            before.drop_last().push(before.last().push(text.last()))
        }
    }
}

/// What the strings of `list` hold.
pub open spec fn texts(list: Seq<String>) -> Seq<Seq<char>> {
    Seq::new(list.len(), |i: int| list[i]@)
}

/// Appends one character to a string: `String::push`.
pub assume_specification[ String::push ](s: &mut String, ch: char)
    ensures
        final(s)@ == old(s)@.push(ch),
;

/// Cuts `text` at the separators.
pub fn split(text: &str, separator: Separator) -> (r: Vec<String>)
    ensures
        texts(r@) == pieces(text@, separator),
        r@.len() > 0,
{
    let mut done: Vec<String> = Vec::new();
    let mut piece = String::new();
    assert(texts(done@).push(piece@) =~= seq![Seq::empty()]);
    for c in it: text.chars()
        invariant
            it.seq() == text@,
            texts(done@).push(piece@) == pieces(text@.take(it.index() as int), separator),
    {
        let ghost before = text@.take(it.index() as int);
        let ghost after = text@.take(it.index() + 1);
        let ghost held = texts(done@);
        assert(after.drop_last() =~= before);
        assert(texts(done@).push(piece@).drop_last() =~= held);
        if separator.is_cut(c) {
            done.push(piece);
            assert(texts(done@) =~= pieces(before, separator));
            piece = String::new();
        } else {
            piece.push(c);
        }
    }
    let ghost held = texts(done@);
    let ghost last = piece@;
    done.push(piece);
    assert(texts(done@) =~= held.push(last));
    assert(text@.take(text@.len() as int) =~= text@);
    done
}

/// Tells whether two texts are the same.
pub fn same(a: &str, b: &str) -> (r: bool)
    ensures
        r == (a@ == b@),
{
    a.to_owned() == b.to_owned()
}

/// Whether `part` stands somewhere in `text`.
pub open spec fn contains_text(text: Seq<char>, part: Seq<char>) -> bool {
    exists|i: int|
        0 <= i && i + part.len() <= text.len() && #[trigger] text.subrange(i, i + part.len())
            == part
}

/// Tells whether `part` stands somewhere in `text`.
pub fn contains(text: &str, part: &str) -> (r: bool)
    ensures
        r == contains_text(text@, part@),
{
    let n: usize = text.unicode_len();
    let m: usize = part.unicode_len();
    if m > n {
        return false;
    }
    for i in 0..n - m
        invariant
            n == text@.len(),
            m == part@.len(),
            m <= n,
            forall|j: int| 0 <= j < i ==> #[trigger] text@.subrange(j, j + m) != part@,
    {
        if same(text.substring_char(i, i + m), part) {
            return true;
        }
    }
    assert(text@.subrange(n - m, n - m + m) == text@.subrange(n - m, n as int));
    same(text.substring_char(n - m, n), part)
}

/// Whether `c` is one of the small letters from `a` to `z`.
pub open spec fn is_small_letter(c: char) -> bool {
    'a' <= c <= 'z'
}

/// The capital letter for an ASCII small letter; any other ASCII character is its own.
pub open spec fn upper(c: char) -> char {
    if is_small_letter(c) {
        (c as int - 32) as char
    } else {
        c
    }
}

/// Whether the first character can be exchanged for a capital: there is one, and it takes one
/// byte.
pub open spec fn can_capitalize(piece: Seq<char>) -> bool {
    piece.len() > 0 && is_ascii(piece[0])
}

/// The text with its first character as a capital letter.
pub open spec fn capitalized(piece: Seq<char>) -> Seq<char> {
    seq![upper(piece[0])] + piece.skip(1)
}

/// The pieces one behind the other, each with its first character as a capital letter.
pub open spec fn camel(list: Seq<Seq<char>>) -> Seq<char>
    decreases list.len(),
{
    if list.len() == 0 {
        Seq::empty()
    } else {
        camel(list.drop_last()) + capitalized(list.last())
    }
}

/// Whether `camel` can be formed from the pieces.
pub open spec fn can_camel(list: Seq<Seq<char>>) -> bool {
    forall|i: int| 0 <= i < list.len() ==> can_capitalize(#[trigger] list[i])
}

/// What is formed from at least one piece starts with the capital of the first piece.
pub proof fn lemma_camel_first(list: Seq<Seq<char>>)
    requires
        can_camel(list),
        list.len() > 0,
    ensures
        camel(list).len() > 0,
        camel(list)[0] == upper(list[0][0]),
        is_ascii(list[0][0]),
    decreases list.len(),
{
    assert(can_capitalize(list[0]));
    if list.len() > 1 {
        lemma_camel_first(list.drop_last());
    } else {
        assert(camel(list.drop_last()) =~= Seq::empty());
    }
}

/// The pieces of an ASCII text are ASCII.
pub proof fn lemma_ascii_pieces(text: Seq<char>, separator: Separator)
    requires
        is_ascii_text(text),
    ensures
        pieces(text, separator).len() > 0,
        forall|i: int|
            0 <= i < pieces(text, separator).len() ==> is_ascii_text(
                #[trigger] pieces(text, separator)[i],
            ),
    decreases text.len(),
{
    if text.len() > 0 {
        lemma_ascii_pieces(text.drop_last(), separator);
        assert(is_ascii(text[text.len() - 1]));
    }
}

/// What is formed from ASCII pieces is ASCII.
pub proof fn lemma_ascii_camel(list: Seq<Seq<char>>)
    requires
        can_camel(list),
        forall|i: int| 0 <= i < list.len() ==> is_ascii_text(#[trigger] list[i]),
    ensures
        is_ascii_text(camel(list)),
    decreases list.len(),
{
    if list.len() > 0 {
        let last = list.last();
        assert(can_capitalize(last) && is_ascii_text(last));
        lemma_ascii_camel(list.drop_last());
        assert forall|i: int| 0 <= i < capitalized(last).len() implies is_ascii(
            #[trigger] capitalized(last)[i],
        ) by {
            assert(is_ascii(last[i]));
        }
    }
}

fn to_upper(c: char) -> (r: char)
    ensures
        r == upper(c),
{
    if 'a' <= c && c <= 'z' {
        (c as u8 - 32) as char
    } else {
        c
    }
}

/// Puts the pieces one behind the other, each with its first character as a capital letter.
pub fn camel_case(list: &Vec<String>) -> (r: String)
    requires
        can_camel(texts(list@)),
    ensures
        r@ == camel(texts(list@)),
{
    let mut r = String::new();
    let n: usize = list.len();
    for i in 0..n
        invariant
            n == list@.len(),
            can_camel(texts(list@)),
            r@ == camel(texts(list@).take(i as int)),
    {
        assert(can_capitalize(texts(list@)[i as int]));
        let piece = list[i].as_str();
        let len: usize = piece.unicode_len();
        let ghost before = r@;
        r.push(to_upper(piece.get_char(0)));
        r.append(piece.substring_char(1, len));
        assert(texts(list@).take(i + 1).drop_last() =~= texts(list@).take(i as int));
        assert(r@ =~= before + capitalized(piece@));
    }
    assert(texts(list@).take(n as int) =~= texts(list@));
    r
}

/// Tells whether `camel_case` accepts the pieces.
pub fn check_camel(list: &Vec<String>) -> (r: bool)
    ensures
        r == can_camel(texts(list@)),
{
    let n: usize = list.len();
    for i in 0..n
        invariant
            n == list@.len(),
            forall|j: int| 0 <= j < i ==> can_capitalize(#[trigger] texts(list@)[j]),
    {
        let piece = list[i].as_str();
        assert(texts(list@)[i as int] == piece@);
        if piece.unicode_len() == 0 || piece.get_char(0) as u32 >= 128 {
            return false;
        }
    }
    true
}

} // verus!
