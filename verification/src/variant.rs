//! The entries of an event enum and the variants that they become.

use crate::event_type::{
    can_name_variant, is_well_known, prefix_message, to_camel_case, variant_name, EventType,
    EventTypeError,
};
use crate::ident::{is_ascii_text, Ident};
use crate::kind::EventKind;
use crate::token::{
    append, concat, concat_new, copy, name, put_name, tokens_of, tokens_of_each, Token,
};
use proc_macro2::{Span, TokenStream};
use vstd::prelude::*;

verus! {

/// One event type of an event enum, with the attributes that its variant is to carry.
pub struct EventEnumEntry {
    pub attrs: Vec<TokenStream>,
    pub ev_type: EventType,
}

/// An event enum as it is asked for: attributes for the enums, the kind of the events, and an
/// entry for each event type.
pub struct EventEnumInput {
    pub attrs: Vec<TokenStream>,
    pub name: EventKind,
    pub events: Vec<EventEnumEntry>,
}

/// A variant of an event enum.
pub struct EventEnumVariant {
    pub attrs: Vec<TokenStream>,
    pub ident: Ident,
}

/// What a variant of an event enum holds.
pub ghost struct Variant {
    pub attrs: Seq<Seq<Token>>,
    pub ident: (Seq<char>, Span),
}

impl View for EventEnumVariant {
    type V = Variant;

    open spec fn view(&self) -> Variant {
        Variant { attrs: tokens_of_each(self.attrs@), ident: self.ident@ }
    }
}

/// What the variants of a list hold.
pub open spec fn variants_of(list: Seq<EventEnumVariant>) -> Seq<Variant> {
    Seq::new(list.len(), |i: int| list[i]@)
}

/// A variant as it is written: its attributes, then its name.
pub open spec fn variant_tokens(variant: Variant) -> Seq<Token> {
    concat(variant.attrs) + name(variant.ident)
}

impl EventEnumVariant {
    /// Appends the attributes of the variant, then its name.
    pub fn to_tokens(&self, tokens: &mut TokenStream)
        ensures
            tokens_of(*final(tokens)) == tokens_of(*old(tokens)) + variant_tokens(self@),
    {
        let mut variant = concat_new(&self.attrs);
        put_name(&mut variant, &self.ident);
        append(tokens, &variant);
    }
}

/// The variant that an entry becomes.
pub open spec fn entry_variant(entry: EventEnumEntry) -> Variant {
    Variant {
        attrs: tokens_of_each(entry.attrs@),
        ident: (variant_name(entry.ev_type@.text), entry.ev_type@.span),
    }
}

impl EventEnumEntry {
    /// Turns the entry into a variant. An event type that does not start with `m.` is an error.
    /// There is no variant if its name is beyond ASCII and the compiler does not know a letter of
    /// it.
    pub fn to_variant(&self) -> (r: Option<Result<EventEnumVariant, EventTypeError>>)
        requires
            can_name_variant(self.ev_type@.text),
        ensures
            !is_well_known(self.ev_type@.text) ==> (r matches Some(Err(error)) && error.span
                == self.ev_type@.span && error.message@ == prefix_message(self.ev_type@.text)),
            is_well_known(self.ev_type@.text) ==> match r {
                Some(Ok(variant)) => variant@ == entry_variant(*self),
                Some(Err(_)) => false,
                None => !is_ascii_text(self.ev_type@.text),
            },
    {
        match to_camel_case(&self.ev_type)? {
            Err(error) => Some(Err(error)),
            Ok(ident) => {
                let mut attrs: Vec<TokenStream> = Vec::new();
                let n: usize = self.attrs.len();
                for i in 0..n
                    invariant
                        n == self.attrs@.len(),
                        attrs@.len() == i,
                        forall|j: int|
                            0 <= j < i ==> tokens_of(#[trigger] attrs@[j]) == tokens_of(
                                self.attrs@[j],
                            ),
                {
                    attrs.push(copy(&self.attrs[i]));
                }
                assert(tokens_of_each(attrs@) =~= tokens_of_each(self.attrs@));
                Some(Ok(EventEnumVariant { attrs, ident }))
            },
        }
    }
}

} // verus!
