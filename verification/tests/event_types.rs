use event_enum::event_type::{
    check_event_name, check_variant_name, to_camel_case, to_event_content_path, to_event_path,
    EventType, NamedEvent,
};
use event_enum::ident::Ident;
use event_enum::token::literal_new;
use proc_macro2::{Span, TokenStream};

fn event(value: &str) -> EventType {
    EventType {
        value: value.to_string(),
        span: Span::call_site(),
        literal: literal_new(value, Span::call_site()),
    }
}

fn camel(value: &str) -> Result<String, String> {
    match to_camel_case(&event(value)).unwrap() {
        Ok(ident) => Ok(ident.text().to_string()),
        Err(error) => Err(error.message),
    }
}

fn named(value: &str) -> NamedEvent {
    NamedEvent::new(event(value), Span::call_site()).unwrap()
}

fn path() -> TokenStream {
    "::ruma_events".parse().unwrap()
}

fn event_path(value: &str, struct_name: &str) -> String {
    let struct_name = Ident::new(struct_name.to_string(), Span::call_site()).unwrap();
    to_event_path(&named(value), &struct_name, &path())
        .to_string()
        .replace(' ', "")
}

#[test]
fn variant_names_are_camel_case() {
    assert_eq!(camel("m.room.message"), Ok("RoomMessage".to_string()));
    assert_eq!(camel("m.direct"), Ok("Direct".to_string()));
    assert_eq!(camel("m.push_rules"), Ok("PushRules".to_string()));
    assert_eq!(camel("m.key.verification.start"), Ok("KeyVerificationStart".to_string()));
    assert_eq!(camel("m.room.third_party_invite"), Ok("RoomThirdPartyInvite".to_string()));
    assert_eq!(camel("m.Room.X1"), Ok("RoomX1".to_string()));
    assert_eq!(camel("m.call.2nd_answer"), Ok("Call2ndAnswer".to_string()));
}

#[test]
fn event_types_without_the_prefix_are_rejected() {
    assert_eq!(
        camel("room.message"),
        Err("well-known matrix events have to start with `m.` found `room.message`".to_string())
    );
    assert_eq!(
        camel("mx"),
        Err("well-known matrix events have to start with `m.` found `mx`".to_string())
    );
    assert_eq!(
        camel("\u{e9}"),
        Err("well-known matrix events have to start with `m.` found `\u{e9}`".to_string())
    );
}

#[test]
fn malformed_event_types_are_recognized() {
    assert!(check_variant_name(&event("m.room.message")));
    assert!(check_variant_name(&event("room")));
    assert!(check_variant_name(&event("\u{e9}")));
    assert!(check_variant_name(&event("m.ro\u{f6}m")));
    // Too short to hold a prefix, or the prefix would end inside a character.
    assert!(!check_variant_name(&event("")));
    assert!(!check_variant_name(&event("m")));
    assert!(!check_variant_name(&event("m\u{e9}")));
    assert!(!check_variant_name(&event("\u{65e5}\u{672c}")));
    // A piece is empty or starts with a character of more than one byte.
    assert!(!check_variant_name(&event("m.")));
    assert!(!check_variant_name(&event("m..a")));
    assert!(!check_variant_name(&event("m.a__b")));
    assert!(!check_variant_name(&event("m.a.\u{e9}b")));
    // The name is no identifier.
    assert!(!check_variant_name(&event("m.1st")));
    assert!(!check_variant_name(&event("m.a-b")));
}

#[test]
fn malformed_event_names_are_recognized() {
    assert!(check_event_name(&event("m.room.message")));
    assert!(check_event_name(&event("m.some.type")));
    assert!(check_event_name(&event("m.ro\u{f6}m")));
    assert!(!check_event_name(&event("room.message")));
    assert!(!check_event_name(&event("m.call.2nd_answer")));
    assert!(!check_event_name(&event("m.a b.c")));
    assert!(!check_event_name(&event("m.a._b")));
}

#[test]
fn event_paths_depend_on_the_struct() {
    let content = "::ruma_events::room::power_levels::PowerLevelsEventContent";
    for name in [
        "ToDeviceEvent",
        "SyncStateEvent",
        "StrippedStateEvent",
        "InitialStateEvent",
        "SyncMessageEvent",
        "SyncEphemeralRoomEvent",
    ] {
        assert_eq!(
            event_path("m.room.power_levels", name),
            format!("::ruma_events::{}<{}>", name, content)
        );
    }
    for name in ["RedactedStateEvent", "RedactedSyncMessageEvent", "RedactedStrippedStateEvent"] {
        assert_eq!(
            event_path("m.room.power_levels", name),
            format!(
                "::ruma_events::{}<::ruma_events::room::power_levels::RedactedPowerLevelsEventContent>",
                name
            )
        );
    }
    for name in ["StateEvent", "MessageEvent", "BasicEvent", "EphemeralRoomEvent"] {
        assert_eq!(
            event_path("m.room.power_levels", name),
            "::ruma_events::room::power_levels::PowerLevelsEvent"
        );
    }
}

#[test]
fn redactions_have_structs_of_their_own() {
    assert_eq!(
        event_path("m.room.redaction", "MessageEvent"),
        "::ruma_events::room::redaction::RedactionEvent"
    );
    assert_eq!(
        event_path("m.room.redaction", "SyncMessageEvent"),
        "::ruma_events::room::redaction::SyncRedactionEvent"
    );
    assert_eq!(
        event_path("m.room.redaction", "RedactedMessageEvent"),
        "::ruma_events::RedactedMessageEvent<::ruma_events::room::redaction::RedactedRedactionEventContent>"
    );
}

#[test]
fn content_paths_lead_to_the_content() {
    let tokens = to_event_content_path(&named("m.direct"), &path());
    assert_eq!(tokens.to_string().replace(' ', ""), "::ruma_events::direct::DirectEventContent");
}

#[test]
fn variant_name_ends_in_event_name() {
    for value in ["m.direct", "m.room.power_levels", "m.key.verification.start"] {
        let variant = camel(value).unwrap();
        let content = to_event_content_path(&named(value), &path())
            .to_string()
            .replace(' ', "");
        let name = content.rsplit("::").next().unwrap().strip_suffix("EventContent").unwrap();
        assert!(variant.ends_with(name));
    }
}

#[test]
fn names_beyond_ascii_lead_to_events() {
    assert_eq!(camel("m.ro\u{f6}m"), Ok("Ro\u{f6}m".to_string()));
    assert_eq!(
        event_path("m.ro\u{f6}m.na\u{ef}ve", "StateEvent"),
        "::ruma_events::ro\u{f6}m::na\u{ef}ve::Na\u{ef}veEvent"
    );
    assert_eq!(
        event_path("m.ro\u{f6}m.e\u{301}", "RedactedStateEvent"),
        "::ruma_events::RedactedStateEvent<::ruma_events::ro\u{f6}m::e\u{301}::\
         RedactedE\u{301}EventContent>"
    );
}

#[test]
fn event_types_are_kept_as_they_are_written() {
    let literal: TokenStream = "r#\"m.direct\"#".parse().unwrap();
    let ev_type = EventType {
        value: "m.direct".to_string(),
        span: Span::call_site(),
        literal,
    };
    let named = NamedEvent::new(ev_type, Span::call_site()).unwrap();
    assert_eq!(named.literal().to_string(), "r#\"m.direct\"#");
}
