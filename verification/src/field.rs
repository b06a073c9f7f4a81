//! The fields that events share, and which events have them.

use crate::ident::{is_ascii_ident, is_ident, Ident};
use crate::kind::{EventKind, EventKindVariation};
use proc_macro2::Span;
use vstd::prelude::*;

verus! {

/// A field of an event that every variant of an event enum has.
#[derive(Clone, Copy, Debug, PartialEq, Eq, Structural)]
pub enum EventField {
    OriginServerTs,
    RoomId,
    EventId,
    Sender,
    StateKey,
    Unsigned,
}

/// Whether the kind is that of events in a room's history.
pub open spec fn is_room_kind(kind: EventKind) -> bool {
    kind == EventKind::Message || kind == EventKind::State
}

/// Whether events are room events that have been neither stripped nor just initialized.
pub open spec fn non_stripped_room_event(kind: EventKind, var: EventKindVariation) -> bool {
    &&& is_room_kind(kind)
    &&& var == EventKindVariation::Full || var == EventKindVariation::Sync || var
        == EventKindVariation::Redacted || var == EventKindVariation::RedactedSync
}

/// Tells whether events are room events that have been neither stripped nor just initialized.
pub fn is_non_stripped_room_event(kind: &EventKind, var: &EventKindVariation) -> (r: bool)
    ensures
        r == non_stripped_room_event(*kind, *var),
{
    matches!(kind, EventKind::Message | EventKind::State) && matches!(
        var,
        EventKindVariation::Full
        | EventKindVariation::Sync
        | EventKindVariation::Redacted
        | EventKindVariation::RedactedSync
    )
}

/// Whether events hold the content that they replace.
pub open spec fn prev_content_field(kind: EventKind, var: EventKindVariation) -> bool {
    kind == EventKind::State && (var == EventKindVariation::Full || var
        == EventKindVariation::Sync)
}

/// Tells whether events hold the content that they replace.
pub fn has_prev_content_field(kind: &EventKind, var: &EventKindVariation) -> (r: bool)
    ensures
        r == prev_content_field(*kind, *var),
{
    matches!(kind, EventKind::State) && matches!(
        var,
        EventKindVariation::Full | EventKindVariation::Sync
    )
}

/// All fields, in the order in which code for them is written.
pub open spec fn all_fields() -> Seq<EventField> {
    seq![
        EventField::OriginServerTs,
        EventField::RoomId,
        EventField::EventId,
        EventField::Sender,
        EventField::StateKey,
        EventField::Unsigned,
    ]
}

/// Lists all fields, in the order in which code for them is written.
pub fn event_fields() -> (r: Vec<EventField>)
    ensures
        r@ == all_fields(),
{
    vec![
        EventField::OriginServerTs,
        EventField::RoomId,
        EventField::EventId,
        EventField::Sender,
        EventField::StateKey,
        EventField::Unsigned,
    ]
}

/// The name of a field is an identifier.
pub proof fn lemma_field_name(field: EventField)
    ensures
        is_ascii_ident(field.name()),
        is_ident(field.name()),
{
    reveal_strlit("origin_server_ts");
    reveal_strlit("room_id");
    reveal_strlit("event_id");
    reveal_strlit("sender");
    reveal_strlit("state_key");
    reveal_strlit("unsigned");
}

impl EventField {
    /// What the field is called.
    pub open spec fn name(self) -> Seq<char> {
        match self {
            EventField::OriginServerTs => "origin_server_ts"@,
            EventField::RoomId => "room_id"@,
            EventField::EventId => "event_id"@,
            EventField::Sender => "sender"@,
            EventField::StateKey => "state_key"@,
            EventField::Unsigned => "unsigned"@,
        }
    }

    /// Tells what the field is called.
    pub fn to_str(self) -> (r: &'static str)
        ensures
            r@ == self.name(),
    {
        match self {
            EventField::OriginServerTs => "origin_server_ts",
            EventField::RoomId => "room_id",
            EventField::EventId => "event_id",
            EventField::Sender => "sender",
            EventField::StateKey => "state_key",
            EventField::Unsigned => "unsigned",
        }
    }

    /// Names the field.
    pub fn to_ident(self, site: Span) -> (r: Ident)
        ensures
            r@ == (self.name(), site),
    {
        proof {
            lemma_field_name(self);
        }
        Ident::ascii(self.to_str().to_owned(), site)
    }

    /// Whether events of a kind and variation have the field.
    pub open spec fn occurs(self, kind: EventKind, var: EventKindVariation) -> bool {
        match self {
            EventField::OriginServerTs => non_stripped_room_event(kind, var),
            EventField::RoomId => is_room_kind(kind) && (var == EventKindVariation::Full || var
                == EventKindVariation::Redacted),
            EventField::EventId => non_stripped_room_event(kind, var),
            EventField::Sender => (is_room_kind(kind) || kind == EventKind::ToDevice) && var
                != EventKindVariation::Initial,
            EventField::StateKey => kind == EventKind::State,
            EventField::Unsigned => non_stripped_room_event(kind, var),
        }
    }

    /// Tells whether events of a kind and variation have the field.
    pub fn is_field_of(self, kind: &EventKind, var: &EventKindVariation) -> (r: bool)
        ensures
            r == self.occurs(*kind, *var),
    {
        match self {
            EventField::OriginServerTs | EventField::EventId | EventField::Unsigned => {
                is_non_stripped_room_event(kind, var)
            },
            EventField::RoomId => matches!(kind, EventKind::Message | EventKind::State)
                && matches!(var, EventKindVariation::Full | EventKindVariation::Redacted),
            EventField::Sender => matches!(
                kind,
                EventKind::Message | EventKind::State | EventKind::ToDevice
            ) && *var != EventKindVariation::Initial,
            EventField::StateKey => matches!(kind, EventKind::State),
        }
    }
}

} // verus!
