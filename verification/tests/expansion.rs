use event_enum::accessor::{accessor_methods, field_return_type, redacted_accessor_methods};
use event_enum::content::marker_traits;
use event_enum::conversion::expand_conversion_impl;
use event_enum::event_enum::{
    check_entries, expand_any_redacted, expand_any_with_deser, expand_event_enum,
    expand_event_enum_at, generate_custom_variant, try_expand_event_enum,
};
use event_enum::event_type::EventType;
use event_enum::field::EventField;
use event_enum::ident::Ident;
use event_enum::kind::{EventKind, EventKindVariation};
use event_enum::redaction::{expand_redact, expand_redacted_enum, generate_redacted_fields};
use event_enum::token::literal_new;
use event_enum::variant::{EventEnumEntry, EventEnumInput, EventEnumVariant};
use proc_macro2::{Span, TokenStream};

fn site() -> Span {
    Span::call_site()
}

fn parse(code: &str) -> TokenStream {
    code.parse().unwrap()
}

fn path() -> TokenStream {
    parse("::ruma_events")
}

fn flat(stream: TokenStream) -> String {
    stream.to_string().replace(' ', "").replace('\n', "")
}

fn entry(ev_type: &str) -> EventEnumEntry {
    EventEnumEntry {
        attrs: vec![],
        ev_type: EventType {
            value: ev_type.to_string(),
            span: site(),
            literal: literal_new(ev_type, site()),
        },
    }
}

fn input(name: EventKind, types: &[&str]) -> EventEnumInput {
    EventEnumInput { attrs: vec![], name, events: types.iter().map(|t| entry(t)).collect() }
}

fn expand(name: EventKind, types: &[&str]) -> TokenStream {
    match try_expand_event_enum(input(name, types), &path()) {
        Some(Ok(code)) => code,
        _ => panic!("no code"),
    }
}

fn items(name: EventKind, types: &[&str]) -> Vec<syn::Item> {
    syn::parse2::<syn::File>(expand(name, types)).unwrap().items
}

fn enums(name: EventKind, types: &[&str]) -> Vec<syn::ItemEnum> {
    items(name, types)
        .into_iter()
        .filter_map(|item| match item {
            syn::Item::Enum(item) => Some(item),
            _ => None,
        })
        .collect()
}

/// The methods in the inherent implementations of a type.
fn methods(items: &[syn::Item], ty: &str) -> Vec<String> {
    let mut names = Vec::new();
    for item in items {
        if let syn::Item::Impl(block) = item {
            let is_ty = match &*block.self_ty {
                syn::Type::Path(path) => path.path.is_ident(ty),
                _ => false,
            };
            if block.trait_.is_none() && is_ty {
                for inner in &block.items {
                    if let syn::ImplItem::Method(method) = inner {
                        names.push(method.sig.ident.to_string());
                    }
                }
            }
        }
    }
    names
}

fn variants(names: &[&str]) -> Vec<EventEnumVariant> {
    names
        .iter()
        .map(|name| EventEnumVariant {
            attrs: vec![],
            ident: Ident::new(name.to_string(), site()).unwrap(),
        })
        .collect()
}

#[test]
fn each_kind_has_its_enums() {
    let names = |kind, types: &[&str]| {
        enums(kind, types).iter().map(|item| item.ident.to_string()).collect::<Vec<_>>()
    };
    assert_eq!(
        names(EventKind::State, &["m.room.name"]),
        [
            "AnyStateEvent",
            "AnyPossiblyRedactedStateEvent",
            "AnySyncStateEvent",
            "AnyPossiblyRedactedSyncStateEvent",
            "AnyStrippedStateEvent",
            "AnyPossiblyRedactedStrippedStateEvent",
            "AnyInitialStateEvent",
            "AnyRedactedStateEvent",
            "AnyRedactedSyncStateEvent",
            "AnyRedactedStrippedStateEvent",
            "AnyStateEventContent",
        ]
    );
    assert_eq!(
        names(EventKind::Message, &["m.room.message"]),
        [
            "AnyMessageEvent",
            "AnyPossiblyRedactedMessageEvent",
            "AnySyncMessageEvent",
            "AnyPossiblyRedactedSyncMessageEvent",
            "AnyRedactedMessageEvent",
            "AnyRedactedSyncMessageEvent",
            "AnyMessageEventContent",
        ]
    );
    assert_eq!(
        names(EventKind::Ephemeral, &["m.typing"]),
        ["AnyEphemeralRoomEvent", "AnySyncEphemeralRoomEvent", "AnyEphemeralRoomEventContent"]
    );
    assert_eq!(
        names(EventKind::Basic, &["m.direct"]),
        ["AnyBasicEvent", "AnyBasicEventContent"]
    );
    assert_eq!(
        names(EventKind::ToDevice, &["m.dummy"]),
        ["AnyToDeviceEvent", "AnyToDeviceEventContent"]
    );
}

#[test]
fn every_entry_has_a_variant() {
    for item in enums(EventKind::Message, &["m.room.message", "m.call.answer", "m.reaction"]) {
        let names: Vec<String> = item.variants.iter().map(|v| v.ident.to_string()).collect();
        if item.ident.to_string().starts_with("AnyPossiblyRedacted") {
            assert_eq!(names, ["Regular", "Redacted"]);
        } else {
            assert_eq!(names, ["RoomMessage", "CallAnswer", "Reaction", "Custom"]);
        }
    }
}

#[test]
fn redacted_events_hand_out_no_content() {
    let items = items(EventKind::State, &["m.room.name"]);
    assert_eq!(
        methods(&items, "AnyStateEvent"),
        [
            "content",
            "prev_content",
            "origin_server_ts",
            "room_id",
            "event_id",
            "sender",
            "state_key",
            "unsigned",
            "redact",
        ]
    );
    assert_eq!(
        methods(&items, "AnyRedactedStateEvent"),
        ["origin_server_ts", "room_id", "event_id", "sender", "state_key", "unsigned"]
    );
    assert_eq!(
        methods(&items, "AnyStrippedStateEvent"),
        ["content", "sender", "state_key", "redact"]
    );
    assert_eq!(methods(&items, "AnyRedactedStrippedStateEvent"), ["sender", "state_key"]);
    assert_eq!(methods(&items, "AnyInitialStateEvent"), ["content", "state_key"]);
    assert_eq!(
        methods(&items, "AnyRedactedSyncStateEvent"),
        ["into_full_event", "origin_server_ts", "event_id", "sender", "state_key", "unsigned"]
    );
}

#[test]
fn an_empty_list_gives_enums_of_custom_events() {
    for item in enums(EventKind::Basic, &[]) {
        assert_eq!(item.variants.len(), 1);
        assert_eq!(item.variants[0].ident.to_string(), "Custom");
    }
}

#[test]
fn the_first_rejected_entry_decides() {
    for types in [
        &["m.room.name", "org.example.a", "org.example.b"][..],
        &["m.room.topic", "org.example.a", ""][..],
    ] {
        match try_expand_event_enum(input(EventKind::State, types), &path()) {
            Some(Err(error)) => assert_eq!(
                error.message,
                "well-known matrix events have to start with `m.` found `org.example.a`"
            ),
            _ => panic!("no error"),
        }
    }
}

#[test]
fn names_that_rust_rejects_give_nothing() {
    for types in [&["m."][..], &[""], &["m.room.name", "m.1st"], &["m.room.2nd"], &["m.a b"]] {
        let input = input(EventKind::State, types);
        assert!(!check_entries(&input.events));
        assert!(try_expand_event_enum(input, &path()).is_none());
    }
    assert!(check_entries(&input(EventKind::State, &["m.room.name"]).events));
    assert!(check_entries(&input(EventKind::State, &["room", "m."]).events));
}

#[test]
fn names_beyond_ascii_are_expanded() {
    let code = flat(expand(EventKind::Basic, &["m.na\u{ef}ve", "m.re\u{301}sum"]));
    assert!(code.contains("Na\u{ef}ve(::ruma_events::na\u{ef}ve::Na\u{ef}veEvent)"));
    assert!(code.contains("Re\u{301}sum(::ruma_events::re\u{301}sum::Re\u{301}sumEvent)"));
}

#[test]
fn event_types_are_written_as_they_stand() {
    let mut input = input(EventKind::Basic, &["m.direct"]);
    input.events[0].ev_type.literal = parse("r#\"m.direct\"#");
    match try_expand_event_enum(input, &path()) {
        Some(Ok(code)) => {
            let code = flat(code);
            assert_eq!(code.matches("#[doc=r#\"m.direct\"#]Direct(").count(), 2);
            assert_eq!(code.matches("r#\"m.direct\"#=>{").count(), 2);
        }
        _ => panic!("no code"),
    }
}

#[test]
fn the_expansion_is_determined() {
    let types = ["m.room.message", "m.room.redaction"];
    let at = expand_event_enum_at(&input(EventKind::Message, &types), &path(), site());
    let plain = expand_event_enum(input(EventKind::Message, &types), &path());
    match (at, plain) {
        (Some(Ok(at)), Some(Ok(plain))) => {
            assert_eq!(at.to_string(), plain.to_string());
            assert_eq!(at.to_string(), expand(EventKind::Message, &types).to_string());
        }
        _ => panic!("no code"),
    }
}

#[test]
fn absent_variations_give_nothing() {
    for (kind, var) in [
        (EventKind::Basic, EventKindVariation::Sync),
        (EventKind::Ephemeral, EventKindVariation::Redacted),
        (EventKind::Message, EventKindVariation::Stripped),
        (EventKind::ToDevice, EventKindVariation::Initial),
    ] {
        let code = expand_any_with_deser(&kind, &[], &vec![], &[], &var, &path(), site());
        assert!(code.is_none());
        assert!(accessor_methods(&kind, &var, &[], &path(), site()).is_none());
        assert!(expand_conversion_impl(&kind, &var, &[], &path(), site()).is_none());
    }
    for kind in [EventKind::Basic, EventKind::Ephemeral, EventKind::ToDevice] {
        assert!(expand_any_redacted(&kind, &[], &vec![], &[], &path(), site()).is_empty());
    }
}

#[test]
fn conversions_come_in_pairs() {
    let has = |kind: EventKind, var: EventKindVariation| {
        expand_conversion_impl(&kind, &var, &[], &path(), site()).is_some()
    };
    for kind in [
        EventKind::Basic,
        EventKind::Ephemeral,
        EventKind::Message,
        EventKind::State,
        EventKind::ToDevice,
    ] {
        assert_eq!(has(kind, EventKindVariation::Full), has(kind, EventKindVariation::Sync));
        assert_eq!(
            has(kind, EventKindVariation::Redacted),
            has(kind, EventKindVariation::RedactedSync)
        );
        assert!(!has(kind, EventKindVariation::Stripped));
        assert!(!has(kind, EventKindVariation::Initial));
    }
    assert!(has(EventKind::Ephemeral, EventKindVariation::Full));
    assert!(!has(EventKind::ToDevice, EventKindVariation::Full));
}

#[test]
fn redactions_are_converted_apart() {
    let list = variants(&["RoomRedaction", "RoomMessage"]);
    let code = |kind: EventKind, var: EventKindVariation| {
        flat(expand_conversion_impl(&kind, &var, &list, &path(), site()).unwrap())
    };
    let full = code(EventKind::Message, EventKindVariation::Full);
    assert_eq!(full.matches("RoomRedaction(event)=>").count(), 1);
    assert!(full.contains("redaction::SyncRedactionEvent::from(event)"));
    let redacted = code(EventKind::Message, EventKindVariation::Redacted);
    assert_eq!(redacted.matches("RoomRedaction(event)=>").count(), 1);
    assert!(!redacted.contains("SyncRedactionEvent"));
    // An arm has the same variant on both sides.
    assert!(full.contains("RoomRedaction(event)=>Self::RoomRedaction("));
    assert!(full.contains("AnyMessageEvent::RoomMessage(event)=>{Self::RoomMessage("));
    let sync = code(EventKind::Message, EventKindVariation::Sync);
    assert!(sync.contains("Self::RoomRedaction(event)=>{AnyMessageEvent::RoomRedaction("));
    assert!(sync.contains("Self::RoomMessage(event)=>{AnyMessageEvent::RoomMessage("));
    // Among state events a redaction has no arm at all.
    assert!(!code(EventKind::State, EventKindVariation::Sync).contains("RoomRedaction"));
    assert!(code(EventKind::State, EventKindVariation::Sync).contains("RoomMessage"));
}

#[test]
fn redactable_events_may_be_redacted() {
    let ident = Ident::new("Name".to_string(), site()).unwrap();
    for kind in [EventKind::Basic, EventKind::Ephemeral, EventKind::Message, EventKind::State] {
        for var in [
            EventKindVariation::Full,
            EventKindVariation::Sync,
            EventKindVariation::Stripped,
            EventKindVariation::Initial,
            EventKindVariation::Redacted,
        ] {
            assert_eq!(
                expand_redact(&ident, &kind, &var, &[], &path(), site()).is_some(),
                expand_redacted_enum(&kind, &var, &path(), site()).is_some()
            );
        }
    }
    assert!(expand_redacted_enum(
        &EventKind::State,
        &EventKindVariation::Stripped,
        &path(),
        site()
    )
    .is_some());
}

#[test]
fn redacted_fields_hold_the_redaction() {
    let field = |field, var| {
        flat(generate_redacted_fields(field, &EventKind::Message, &var, &path(), site()))
    };
    assert_eq!(field(EventField::Sender, EventKindVariation::Full), "sender:event.sender,");
    assert_eq!(field(EventField::StateKey, EventKindVariation::Full), "");
    assert_eq!(
        field(EventField::Unsigned, EventKindVariation::Full),
        "unsigned:::ruma_events::RedactedUnsigned{redacted_because:Some(::std::boxed::Box::new(redaction)),},"
    );
    assert_eq!(
        field(EventField::Unsigned, EventKindVariation::Sync),
        "unsigned:::ruma_events::RedactedSyncUnsigned{redacted_because:Some(::std::boxed::Box::new(redaction)),},"
    );
}

#[test]
fn accessors_refer_to_the_types_of_fields() {
    let ty = |field, var| flat(field_return_type(field, &var, &path(), site()));
    let full = EventKindVariation::Full;
    assert_eq!(ty(EventField::OriginServerTs, full), "::std::time::SystemTime");
    assert_eq!(ty(EventField::RoomId, full), "::ruma_events::exports::ruma_identifiers::RoomId");
    assert_eq!(ty(EventField::EventId, full), "::ruma_events::exports::ruma_identifiers::EventId");
    assert_eq!(ty(EventField::Sender, full), "::ruma_events::exports::ruma_identifiers::UserId");
    assert_eq!(ty(EventField::StateKey, full), "str");
    assert_eq!(ty(EventField::Unsigned, full), "::ruma_events::Unsigned");
    assert_eq!(
        ty(EventField::Unsigned, EventKindVariation::Redacted),
        "::ruma_events::RedactedUnsigned"
    );
    assert_eq!(
        ty(EventField::Unsigned, EventKindVariation::RedactedSync),
        "::ruma_events::RedactedSyncUnsigned"
    );
}

#[test]
fn redacted_accessors_are_those_of_the_fields() {
    let code = |kind, var| {
        let list = variants(&["RoomName"]);
        flat(redacted_accessor_methods(&kind, &var, &list, &path(), site()).unwrap())
    };
    assert_eq!(
        code(EventKind::State, EventKindVariation::RedactedStripped)
            .matches("pubfn")
            .count(),
        2
    );
    assert_eq!(
        code(EventKind::ToDevice, EventKindVariation::Full),
        "implAnyToDeviceEvent{#[doc=\"Returnsthiseventssenderfield.\"]pubfnsender(&self)->&::ruma_events::exports::ruma_identifiers::UserId{matchself{Self::RoomName(event)=>&event.sender,Self::Custom(event)=>&event.sender,}}}"
    );
}

#[test]
fn kinds_are_marked_by_their_traits() {
    let code = |kind| flat(marker_traits(&kind, &path(), site()));
    assert_eq!(
        code(EventKind::State),
        "impl::ruma_events::RoomEventContentforAnyStateEventContent{}impl::ruma_events::StateEventContentforAnyStateEventContent{}"
    );
    assert_eq!(
        code(EventKind::Basic),
        "impl::ruma_events::BasicEventContentforAnyBasicEventContent{}"
    );
    assert_eq!(code(EventKind::ToDevice), "");
}

#[test]
fn custom_events_of_redacted_enums_have_redacted_content() {
    let ident = Ident::new("RedactedStateEvent".to_string(), site()).unwrap();
    let (line, arm) =
        generate_custom_variant(&ident, &EventKindVariation::Redacted, &path(), site());
    assert_eq!(
        flat(line),
        "#[doc=\"AredactedeventnotdefinedbytheMatrixspecification\"]Custom(::ruma_events::RedactedStateEvent<::ruma_events::custom::RedactedCustomEventContent>),"
    );
    assert!(flat(arm).contains("RedactedCustomEventContent>,>(json.get())"));
}

#[test]
fn attributes_stand_before_the_name_of_a_variant() {
    let variant = EventEnumVariant {
        attrs: vec![parse("#[cfg(a)]"), parse("#[cfg(b)]")],
        ident: Ident::new("RoomName".to_string(), site()).unwrap(),
    };
    let mut tokens = parse("Self ::");
    variant.to_tokens(&mut tokens);
    assert_eq!(flat(tokens), "Self::#[cfg(a)]#[cfg(b)]RoomName");
}
