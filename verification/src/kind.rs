//! The kinds of events, the variations in which each kind occurs, and what they are called.

use crate::ident::{is_ascii_ident, is_ascii_letter, is_ident, Ident};
use proc_macro2::Span;
use vstd::prelude::*;

verus! {

/// What an event is about.
#[derive(Clone, Copy, Debug, PartialEq, Eq, Structural)]
pub enum EventKind {
    Basic,
    Ephemeral,
    Message,
    State,
    ToDevice,
}

/// The form in which an event is sent.
#[derive(Clone, Copy, Debug, PartialEq, Eq, Structural)]
pub enum EventKindVariation {
    Full,
    Sync,
    Stripped,
    Initial,
    Redacted,
    RedactedSync,
    RedactedStripped,
}

impl EventKindVariation {
    /// What the name of an event struct of this variation begins with.
    pub open spec fn prefix(self) -> Seq<char> {
        match self {
            EventKindVariation::Full => ""@,
            EventKindVariation::Sync => "Sync"@,
            EventKindVariation::Stripped => "Stripped"@,
            EventKindVariation::Initial => "Initial"@,
            EventKindVariation::Redacted => "Redacted"@,
            EventKindVariation::RedactedSync => "RedactedSync"@,
            EventKindVariation::RedactedStripped => "RedactedStripped"@,
        }
    }

    fn name_prefix(self) -> (r: &'static str)
        ensures
            r@ == self.prefix(),
    {
        match self {
            EventKindVariation::Full => "",
            EventKindVariation::Sync => "Sync",
            EventKindVariation::Stripped => "Stripped",
            EventKindVariation::Initial => "Initial",
            EventKindVariation::Redacted => "Redacted",
            EventKindVariation::RedactedSync => "RedactedSync",
            EventKindVariation::RedactedStripped => "RedactedStripped",
        }
    }

    /// Whether events of this variation have been redacted.
    pub open spec fn redacted(self) -> bool {
        match self {
            EventKindVariation::Redacted => true,
            EventKindVariation::RedactedSync => true,
            EventKindVariation::RedactedStripped => true,
            _ => false,
        }
    }

    /// Tells whether events of this variation have been redacted.
    pub fn is_redacted(self) -> (r: bool)
        ensures
            r == self.redacted(),
    {
        match self {
            EventKindVariation::Redacted => true,
            EventKindVariation::RedactedSync => true,
            EventKindVariation::RedactedStripped => true,
            _ => false,
        }
    }
}

impl EventKind {
    /// What the event struct of this kind is called.
    pub open spec fn name(self) -> Seq<char> {
        match self {
            EventKind::Basic => "BasicEvent"@,
            EventKind::Ephemeral => "EphemeralRoomEvent"@,
            EventKind::Message => "MessageEvent"@,
            EventKind::State => "StateEvent"@,
            EventKind::ToDevice => "ToDeviceEvent"@,
        }
    }

    fn struct_name(self) -> (r: &'static str)
        ensures
            r@ == self.name(),
    {
        match self {
            EventKind::Basic => "BasicEvent",
            EventKind::Ephemeral => "EphemeralRoomEvent",
            EventKind::Message => "MessageEvent",
            EventKind::State => "StateEvent",
            EventKind::ToDevice => "ToDeviceEvent",
        }
    }

    /// Whether events of this kind occur in this variation.
    pub open spec fn occurs(self, var: EventKindVariation) -> bool {
        match var {
            EventKindVariation::Full => true,
            EventKindVariation::Sync => self == EventKind::Ephemeral || self == EventKind::Message
                || self == EventKind::State,
            EventKindVariation::Redacted => self == EventKind::Message || self == EventKind::State,
            EventKindVariation::RedactedSync => self == EventKind::Message || self
                == EventKind::State,
            EventKindVariation::Stripped => self == EventKind::State,
            EventKindVariation::Initial => self == EventKind::State,
            EventKindVariation::RedactedStripped => self == EventKind::State,
        }
    }

    fn has_variation(self, var: EventKindVariation) -> (r: bool)
        ensures
            r == self.occurs(var),
    {
        match var {
            EventKindVariation::Full => true,
            EventKindVariation::Sync => self == EventKind::Ephemeral || self == EventKind::Message
                || self == EventKind::State,
            EventKindVariation::Redacted | EventKindVariation::RedactedSync => self
                == EventKind::Message || self == EventKind::State,
            EventKindVariation::Stripped
            | EventKindVariation::Initial
            | EventKindVariation::RedactedStripped => self == EventKind::State,
        }
    }

    /// Whether this is the kind of state events.
    pub fn is_state(&self) -> (r: bool)
        ensures
            r == (*self == EventKind::State),
    {
        *self == EventKind::State
    }

    /// Whether this is the kind of message events.
    pub fn is_message(&self) -> (r: bool)
        ensures
            r == (*self == EventKind::Message),
    {
        *self == EventKind::Message
    }

    /// The name of the event struct for this kind and variation.
    pub open spec fn event_name(self, var: EventKindVariation) -> Seq<char> {
        var.prefix() + self.name()
    }

    /// The name of the enum of events of this kind and variation.
    pub open spec fn event_enum_name(self, var: EventKindVariation) -> Seq<char> {
        "Any"@ + self.event_name(var)
    }

    /// The name of the enum of event contents of this kind.
    pub open spec fn content_enum_name(self) -> Seq<char> {
        "Any"@ + self.name() + "Content"@
    }

    /// The identifier of the event struct, if the kind occurs in the variation.
    pub open spec fn event_ident(self, var: EventKindVariation, site: Span) -> Option<
        (Seq<char>, Span),
    > {
        if self.occurs(var) {
            Some((self.event_name(var), site))
        } else {
            None
        }
    }

    /// The identifier of the event enum, if the kind occurs in the variation.
    pub open spec fn event_enum_ident(self, var: EventKindVariation, site: Span) -> Option<
        (Seq<char>, Span),
    > {
        if self.occurs(var) {
            Some((self.event_enum_name(var), site))
        } else {
            None
        }
    }

    /// The identifier of the content enum.
    pub open spec fn content_enum_ident(self, site: Span) -> (Seq<char>, Span) {
        (self.content_enum_name(), site)
    }

    /// Names the event struct for this kind and variation, such as `SyncStateEvent`.
    pub fn to_event_ident(&self, var: &EventKindVariation, site: Span) -> (r: Option<Ident>)
        ensures
            ident_of(r) == self.event_ident(*var, site),
    {
        if !self.has_variation(*var) {
            return None;
        }
        let mut text = var.name_prefix().to_owned();
        text.append(self.struct_name());
        proof {
            lemma_event_name(*self, *var);
            lemma_letters_ident(self.event_name(*var));
        }
        Some(Ident::ascii(text, site))
    }

    /// Names the enum of events of this kind and variation, such as `AnySyncStateEvent`.
    pub fn to_event_enum_ident(&self, var: &EventKindVariation, site: Span) -> (r: Option<Ident>)
        ensures
            ident_of(r) == self.event_enum_ident(*var, site),
    {
        if !self.has_variation(*var) {
            return None;
        }
        let mut text = "Any".to_owned();
        text.append(var.name_prefix());
        text.append(self.struct_name());
        proof {
            reveal_strlit("Any");
            lemma_event_name(*self, *var);
            assert("Any"@ + var.prefix() + self.name() =~= self.event_enum_name(*var));
            lemma_letters_ident(self.event_enum_name(*var));
        }
        Some(Ident::ascii(text, site))
    }

    /// Names the enum of event contents of this kind, such as `AnyStateEventContent`.
    pub fn to_content_enum(&self, site: Span) -> (r: Ident)
        ensures
            r@ == self.content_enum_ident(site),
    {
        let mut text = "Any".to_owned();
        text.append(self.struct_name());
        text.append("Content");
        proof {
            reveal_strlit("Any");
            reveal_strlit("Content");
            lemma_name(*self);
            lemma_letters_ident(self.content_enum_name());
        }
        Ident::ascii(text, site)
    }
}

/// What an optional identifier holds.
pub open spec fn ident_of(ident: Option<Ident>) -> Option<(Seq<char>, Span)> {
    match ident {
        Some(ident) => Some(ident@),
        None => None,
    }
}

/// Whether every character of `text` is an ASCII letter.
pub open spec fn all_letters(text: Seq<char>) -> bool {
    forall|i: int| 0 <= i < text.len() ==> is_ascii_letter(#[trigger] text[i])
}

/// A text of ASCII letters is an identifier, unless it is empty.
pub proof fn lemma_letters_ident(text: Seq<char>)
    requires
        all_letters(text),
        text.len() > 0,
    ensures
        is_ascii_ident(text),
        is_ident(text),
{
}

/// The name of an event struct consists of ASCII letters.
pub proof fn lemma_event_name(kind: EventKind, var: EventKindVariation)
    ensures
        all_letters(kind.event_name(var)),
        kind.event_name(var).len() > 0,
{
    lemma_prefix(var);
    lemma_name(kind);
}

proof fn lemma_prefix(var: EventKindVariation)
    ensures
        all_letters(var.prefix()),
{
    reveal_strlit("");
    reveal_strlit("Sync");
    reveal_strlit("Stripped");
    reveal_strlit("Initial");
    reveal_strlit("Redacted");
    reveal_strlit("RedactedSync");
    reveal_strlit("RedactedStripped");
}

proof fn lemma_name(kind: EventKind)
    ensures
        all_letters(kind.name()),
        kind.name().len() > 0,
{
    reveal_strlit("BasicEvent");
    reveal_strlit("EphemeralRoomEvent");
    reveal_strlit("MessageEvent");
    reveal_strlit("StateEvent");
    reveal_strlit("ToDeviceEvent");
}

} // verus!
