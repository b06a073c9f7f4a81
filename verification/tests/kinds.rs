use event_enum::field::{
    event_fields, has_prev_content_field, is_non_stripped_room_event, EventField,
};
use event_enum::ident::Ident;
use event_enum::kind::{EventKind, EventKindVariation};
use event_enum::redaction::inner_enum_idents;
use event_enum::event_enum::generate_event_idents;
use proc_macro2::Span;

const KINDS: [EventKind; 5] = [
    EventKind::Basic,
    EventKind::Ephemeral,
    EventKind::Message,
    EventKind::State,
    EventKind::ToDevice,
];

const VARIATIONS: [EventKindVariation; 7] = [
    EventKindVariation::Full,
    EventKindVariation::Sync,
    EventKindVariation::Stripped,
    EventKindVariation::Initial,
    EventKindVariation::Redacted,
    EventKindVariation::RedactedSync,
    EventKindVariation::RedactedStripped,
];

fn text(ident: Option<Ident>) -> Option<String> {
    ident.map(|ident| ident.text().to_string())
}

fn struct_names(kind: EventKind) -> Vec<String> {
    VARIATIONS.iter().filter_map(|var| text(kind.to_event_ident(var, Span::call_site()))).collect()
}

#[test]
fn kinds_occur_in_their_variations() {
    assert_eq!(struct_names(EventKind::Basic), ["BasicEvent"]);
    assert_eq!(struct_names(EventKind::ToDevice), ["ToDeviceEvent"]);
    assert_eq!(
        struct_names(EventKind::Ephemeral),
        ["EphemeralRoomEvent", "SyncEphemeralRoomEvent"]
    );
    assert_eq!(
        struct_names(EventKind::Message),
        ["MessageEvent", "SyncMessageEvent", "RedactedMessageEvent", "RedactedSyncMessageEvent"]
    );
    assert_eq!(
        struct_names(EventKind::State),
        [
            "StateEvent",
            "SyncStateEvent",
            "StrippedStateEvent",
            "InitialStateEvent",
            "RedactedStateEvent",
            "RedactedSyncStateEvent",
            "RedactedStrippedStateEvent",
        ]
    );
}

#[test]
fn enums_are_named_after_structs() {
    for kind in KINDS {
        for var in VARIATIONS {
            let name = text(kind.to_event_ident(&var, Span::call_site()));
            let enum_name = text(kind.to_event_enum_ident(&var, Span::call_site()));
            assert_eq!(enum_name, name.clone().map(|name| format!("Any{}", name)));
            let both = generate_event_idents(&kind, &var, Span::call_site());
            assert_eq!(both.is_some(), name.is_some());
            if let Some((a, b)) = both {
                assert_eq!(Some(a.text().to_string()), name);
                assert_eq!(Some(b.text().to_string()), enum_name);
            }
        }
    }
    assert_eq!(
        EventKind::State.to_content_enum(Span::call_site()).text(),
        "AnyStateEventContent"
    );
    assert_eq!(
        EventKind::Ephemeral.to_content_enum(Span::call_site()).text(),
        "AnyEphemeralRoomEventContent"
    );
}

#[test]
fn no_two_structs_share_a_name() {
    let mut names: Vec<String> = KINDS.iter().flat_map(|kind| struct_names(*kind)).collect();
    assert_eq!(names.len(), 15);
    names.sort();
    names.dedup();
    assert_eq!(names.len(), 15);
}

#[test]
fn only_state_is_state_and_only_message_is_message() {
    for kind in KINDS {
        assert_eq!(kind.is_state(), kind == EventKind::State);
        assert_eq!(kind.is_message(), kind == EventKind::Message);
    }
}

#[test]
fn enums_before_and_after_redaction() {
    let names = |kind: EventKind, var: EventKindVariation| {
        let (a, b) = inner_enum_idents(&kind, &var, Span::call_site());
        (text(a), text(b))
    };
    assert_eq!(
        names(EventKind::Message, EventKindVariation::Sync),
        (Some("AnySyncMessageEvent".to_string()), Some("AnyRedactedSyncMessageEvent".to_string()))
    );
    assert_eq!(
        names(EventKind::State, EventKindVariation::Stripped),
        (
            Some("AnyStrippedStateEvent".to_string()),
            Some("AnyRedactedStrippedStateEvent".to_string())
        )
    );
    assert_eq!(
        names(EventKind::State, EventKindVariation::Initial),
        (Some("AnyInitialStateEvent".to_string()), None)
    );
    assert_eq!(
        names(EventKind::Basic, EventKindVariation::Full),
        (Some("AnyBasicEvent".to_string()), None)
    );
    assert_eq!(names(EventKind::State, EventKindVariation::Redacted), (None, None));
}

fn fields_of(kind: EventKind, var: EventKindVariation) -> Vec<&'static str> {
    event_fields()
        .into_iter()
        .filter(|field| field.is_field_of(&kind, &var))
        .map(|field| field.to_str())
        .collect()
}

#[test]
fn events_have_the_fields_of_their_kind_and_variation() {
    assert_eq!(
        fields_of(EventKind::State, EventKindVariation::Full),
        ["origin_server_ts", "room_id", "event_id", "sender", "state_key", "unsigned"]
    );
    assert_eq!(
        fields_of(EventKind::Message, EventKindVariation::Sync),
        ["origin_server_ts", "event_id", "sender", "unsigned"]
    );
    assert_eq!(
        fields_of(EventKind::State, EventKindVariation::Stripped),
        ["sender", "state_key"]
    );
    assert_eq!(fields_of(EventKind::State, EventKindVariation::Initial), ["state_key"]);
    assert_eq!(fields_of(EventKind::ToDevice, EventKindVariation::Full), ["sender"]);
    assert!(fields_of(EventKind::Basic, EventKindVariation::Full).is_empty());
    assert!(fields_of(EventKind::Ephemeral, EventKindVariation::Sync).is_empty());
    assert_eq!(EventField::RoomId.to_ident(Span::call_site()).text(), "room_id");
}

#[test]
fn redaction_keeps_fields() {
    for kind in KINDS {
        for (var, form) in [
            (EventKindVariation::Full, EventKindVariation::Redacted),
            (EventKindVariation::Sync, EventKindVariation::RedactedSync),
            (EventKindVariation::Stripped, EventKindVariation::RedactedStripped),
        ] {
            assert_eq!(fields_of(kind, var), fields_of(kind, form));
        }
    }
}

#[test]
fn previous_content_belongs_to_full_and_sync_state() {
    for kind in KINDS {
        for var in VARIATIONS {
            let expected = kind == EventKind::State
                && (var == EventKindVariation::Full || var == EventKindVariation::Sync);
            assert_eq!(has_prev_content_field(&kind, &var), expected);
        }
    }
}

#[test]
fn room_events_that_are_not_stripped() {
    assert!(is_non_stripped_room_event(&EventKind::State, &EventKindVariation::RedactedSync));
    assert!(is_non_stripped_room_event(&EventKind::Message, &EventKindVariation::Full));
    assert!(!is_non_stripped_room_event(&EventKind::State, &EventKindVariation::Initial));
    assert!(!is_non_stripped_room_event(&EventKind::State, &EventKindVariation::RedactedStripped));
    assert!(!is_non_stripped_room_event(&EventKind::Ephemeral, &EventKindVariation::Full));
}
