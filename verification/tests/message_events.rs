use event_enum::event_enum::try_expand_event_enum;
use event_enum::event_type::EventType;
use event_enum::kind::EventKind;
use event_enum::token::literal_new;
use event_enum::variant::{EventEnumEntry, EventEnumInput};
use proc_macro2::{Delimiter, Span, TokenStream, TokenTree};

fn parse(code: &str) -> TokenStream {
    code.parse().unwrap()
}

/// The tokens of a stream in order, brackets among them.
fn flat(stream: TokenStream, out: &mut Vec<String>) {
    for tree in stream {
        match tree {
            TokenTree::Group(group) => {
                let (open, close) = match group.delimiter() {
                    Delimiter::Parenthesis => ("(", ")"),
                    Delimiter::Brace => ("{", "}"),
                    Delimiter::Bracket => ("[", "]"),
                    Delimiter::None => ("", ""),
                };
                out.push(open.to_string());
                flat(group.stream(), out);
                out.push(close.to_string());
            }
            TokenTree::Ident(ident) => out.push(ident.to_string()),
            TokenTree::Punct(punct) => out.push(punct.as_char().to_string()),
            TokenTree::Literal(literal) => out.push(literal.to_string()),
        }
    }
}

fn tokens(stream: TokenStream) -> Vec<String> {
    let mut out = Vec::new();
    flat(stream, &mut out);
    out
}

fn entry(ev_type: &str, attrs: &[&str]) -> EventEnumEntry {
    EventEnumEntry {
        attrs: attrs.iter().map(|attr| parse(attr)).collect(),
        ev_type: EventType {
            value: ev_type.to_string(),
            span: Span::call_site(),
            literal: literal_new(ev_type, Span::call_site()),
        },
    }
}

#[test]
fn expands_message_events() {
    let input = EventEnumInput {
        attrs: vec![],
        name: EventKind::Message,
        events: vec![entry("m.room.message", &[]), entry("m.room.redaction", &[])],
    };
    let code = try_expand_event_enum(input, &parse("::ruma_events")).unwrap();
    let code = code.map_err(|error| error.message).unwrap();
    assert_eq!(tokens(code), tokens(parse(EXPECTED)));
}

const EXPECTED: &str = r##"
#[derive(Clone, Debug, ::ruma_events::exports::serde::Serialize)]
#[serde(untagged)]
#[allow(clippy::large_enum_variant)]
pub enum AnyMessageEvent {
    #[doc = "m.room.message"]
    RoomMessage(::ruma_events::room::message::MessageEvent),
    #[doc = "m.room.redaction"]
    RoomRedaction(::ruma_events::room::redaction::RedactionEvent),
    #[doc = " An event not defined by the Matrix specification"]
    Custom(::ruma_events::MessageEvent<::ruma_events::custom::CustomEventContent>),
}
impl From<AnyMessageEvent> for AnySyncMessageEvent {
    fn from(event: AnyMessageEvent) -> Self {
        match event {
            AnyMessageEvent::RoomMessage(event) => {
                Self::RoomMessage(::ruma_events::SyncMessageEvent::from(event))
            },
            AnyMessageEvent::RoomRedaction(event) => Self::RoomRedaction(::ruma_events::room::redaction::SyncRedactionEvent::from(event),),
            AnyMessageEvent::Custom(event) => {
                Self::Custom(::ruma_events::SyncMessageEvent::from(event))
            },
        }
    }
}
impl AnyMessageEvent {
    #[doc = " Returns the any content enum for this event."]
    pub fn content(&self) -> AnyMessageEventContent {
        match self {
            Self::RoomMessage(event) => AnyMessageEventContent::RoomMessage(event.content.clone()),
            Self::RoomRedaction(event) => AnyMessageEventContent::RoomRedaction(event.content.clone()),
            Self::Custom(event) => AnyMessageEventContent::Custom(event.content.clone()),
        }
    }
    #[doc = "Returns this events origin_server_ts field."]
    pub fn origin_server_ts(&self) -> &::std::time::SystemTime {
        match self {
            Self::RoomMessage(event) => &event.origin_server_ts,
            Self::RoomRedaction(event) => &event.origin_server_ts,
            Self::Custom(event) => &event.origin_server_ts,
        }
    }
    #[doc = "Returns this events room_id field."]
    pub fn room_id(&self) -> &::ruma_events::exports::ruma_identifiers::RoomId {
        match self {
            Self::RoomMessage(event) => &event.room_id,
            Self::RoomRedaction(event) => &event.room_id,
            Self::Custom(event) => &event.room_id,
        }
    }
    #[doc = "Returns this events event_id field."]
    pub fn event_id(&self) -> &::ruma_events::exports::ruma_identifiers::EventId {
        match self {
            Self::RoomMessage(event) => &event.event_id,
            Self::RoomRedaction(event) => &event.event_id,
            Self::Custom(event) => &event.event_id,
        }
    }
    #[doc = "Returns this events sender field."]
    pub fn sender(&self) -> &::ruma_events::exports::ruma_identifiers::UserId {
        match self {
            Self::RoomMessage(event) => &event.sender,
            Self::RoomRedaction(event) => &event.sender,
            Self::Custom(event) => &event.sender,
        }
    }
    #[doc = "Returns this events unsigned field."]
    pub fn unsigned(&self) -> &::ruma_events::Unsigned {
        match self {
            Self::RoomMessage(event) => &event.unsigned,
            Self::RoomRedaction(event) => &event.unsigned,
            Self::Custom(event) => &event.unsigned,
        }
    }
}
impl AnyMessageEvent {
    #[doc = " Redacts `Self` given a valid `Redaction[Sync]Event`."]
    pub fn redact(self, redaction: ::ruma_events::room::redaction::RedactionEvent, version: ::ruma_events::exports::ruma_identifiers::RoomVersionId,) -> AnyRedactedMessageEvent {
        match self {
            Self::RoomMessage(event) => {
                let content = event.content.redact(version);
                AnyRedactedMessageEvent::RoomMessage(::ruma_events::RedactedMessageEvent {
                    content,
                    origin_server_ts: event.origin_server_ts,
                    room_id: event.room_id,
                    event_id: event.event_id,
                    sender: event.sender,
                    unsigned: ::ruma_events::RedactedUnsigned {
                        redacted_because: Some(::std::boxed::Box::new(redaction)),
                    },
                })
            }
            Self::RoomRedaction(event) => {
                let content = event.content.redact(version);
                AnyRedactedMessageEvent::RoomRedaction(::ruma_events::RedactedMessageEvent {
                    content,
                    origin_server_ts: event.origin_server_ts,
                    room_id: event.room_id,
                    event_id: event.event_id,
                    sender: event.sender,
                    unsigned: ::ruma_events::RedactedUnsigned {
                        redacted_because: Some(::std::boxed::Box::new(redaction)),
                    },
                })
            }
            Self::Custom(event) => {
                let content = event.content.redact(version);
                AnyRedactedMessageEvent::Custom(::ruma_events::RedactedMessageEvent {
                    content,
                    origin_server_ts: event.origin_server_ts,
                    room_id: event.room_id,
                    event_id: event.event_id,
                    sender: event.sender,
                    unsigned: ::ruma_events::RedactedUnsigned {
                        redacted_because: Some(::std::boxed::Box::new(redaction)),
                    },
                })
            }
        }
    }
}
impl<'de> ::ruma_events::exports::serde::de::Deserialize<'de> for AnyMessageEvent {
    fn deserialize<D>(deserializer: D) -> Result<Self, D::Error> where D: ::ruma_events::exports::serde::de::Deserializer<'de>, {
        use ::ruma_events::exports::serde::de::Error as _;
        let json = Box::<::ruma_events::exports::serde_json::value::RawValue>::deserialize(deserializer)?;
        let ::ruma_events::EventDeHelper { ev_type, .. } = ::ruma_events::from_raw_json_value(&json)?;
        match ev_type.as_str() {
            "m.room.message" => {
                let event = ::ruma_events::exports::serde_json::from_str::<::ruma_events::room::message::MessageEvent>(json.get()).map_err(D::Error::custom)?;
                Ok(Self::RoomMessage(event))
            },
            "m.room.redaction" => {
                let event = ::ruma_events::exports::serde_json::from_str::<::ruma_events::room::redaction::RedactionEvent>(json.get()).map_err(D::Error::custom)?;
                Ok(Self::RoomRedaction(event))
            },
            event => {
                let event = ::ruma_events::exports::serde_json::from_str::<::ruma_events::MessageEvent<::ruma_events::custom::CustomEventContent>>(json.get()).map_err(D::Error::custom)?;
                Ok(Self::Custom(event))
            },
        }
    }
}
#[doc = " An enum that holds either regular un-redacted events or redacted events."]
#[derive(Clone, Debug, ::ruma_events::exports::serde::Serialize)]
#[serde(untagged)]
pub enum AnyPossiblyRedactedMessageEvent {
    #[doc = " An un-redacted event."]
    Regular(AnyMessageEvent),
    #[doc = " A redacted event."]
    Redacted(AnyRedactedMessageEvent),
}
impl<'de> ::ruma_events::exports::serde::de::Deserialize<'de> for AnyPossiblyRedactedMessageEvent {
    fn deserialize<D>(deserializer: D) -> Result<Self, D::Error> where D: ::ruma_events::exports::serde::de::Deserializer<'de>, {
        let json = Box::<::ruma_events::exports::serde_json::value::RawValue>::deserialize(deserializer)?;
        let ::ruma_events::EventDeHelper { unsigned, .. } = ::ruma_events::from_raw_json_value(&json)?;
        Ok(match unsigned {
            Some(unsigned) if unsigned.redacted_because.is_some() => {
                Self::Redacted(::ruma_events::from_raw_json_value(&json)?)
            }
            _ => Self::Regular(::ruma_events::from_raw_json_value(&json)?),
        })
    }
}
#[derive(Clone, Debug, ::ruma_events::exports::serde::Serialize)]
#[serde(untagged)]
#[allow(clippy::large_enum_variant)]
pub enum AnySyncMessageEvent {
    #[doc = "m.room.message"]
    RoomMessage(::ruma_events::SyncMessageEvent<::ruma_events::room::message::MessageEventContent>), #[doc = "m.room.redaction"] RoomRedaction(::ruma_events::room::redaction::SyncRedactionEvent), #[doc = " An event not defined by the Matrix specification"] Custom(::ruma_events::SyncMessageEvent<::ruma_events::custom::CustomEventContent>),
}
impl AnySyncMessageEvent {
    #[doc = " Convert this sync event into a full event, one with a room_id field."]
    pub fn into_full_event(self, room_id: ::ruma_events::exports::ruma_identifiers::RoomId) -> AnyMessageEvent {
        match self {
            Self::RoomMessage(event) => {
                AnyMessageEvent::RoomMessage(event.into_full_event(room_id))
            },
            Self::RoomRedaction(event) => {
                AnyMessageEvent::RoomRedaction(event.into_full_event(room_id))
            },
            Self::Custom(event) => {
                AnyMessageEvent::Custom(event.into_full_event(room_id))
            },
        }
    }
}
impl AnySyncMessageEvent {
    #[doc = " Returns the any content enum for this event."]
    pub fn content(&self) -> AnyMessageEventContent {
        match self {
            Self::RoomMessage(event) => AnyMessageEventContent::RoomMessage(event.content.clone()),
            Self::RoomRedaction(event) => AnyMessageEventContent::RoomRedaction(event.content.clone()),
            Self::Custom(event) => AnyMessageEventContent::Custom(event.content.clone()),
        }
    }
    #[doc = "Returns this events origin_server_ts field."]
    pub fn origin_server_ts(&self) -> &::std::time::SystemTime {
        match self {
            Self::RoomMessage(event) => &event.origin_server_ts,
            Self::RoomRedaction(event) => &event.origin_server_ts,
            Self::Custom(event) => &event.origin_server_ts,
        }
    }
    #[doc = "Returns this events event_id field."]
    pub fn event_id(&self) -> &::ruma_events::exports::ruma_identifiers::EventId {
        match self {
            Self::RoomMessage(event) => &event.event_id,
            Self::RoomRedaction(event) => &event.event_id,
            Self::Custom(event) => &event.event_id,
        }
    }
    #[doc = "Returns this events sender field."]
    pub fn sender(&self) -> &::ruma_events::exports::ruma_identifiers::UserId {
        match self {
            Self::RoomMessage(event) => &event.sender,
            Self::RoomRedaction(event) => &event.sender,
            Self::Custom(event) => &event.sender,
        }
    }
    #[doc = "Returns this events unsigned field."]
    pub fn unsigned(&self) -> &::ruma_events::Unsigned {
        match self {
            Self::RoomMessage(event) => &event.unsigned,
            Self::RoomRedaction(event) => &event.unsigned,
            Self::Custom(event) => &event.unsigned,
        }
    }
}
impl AnySyncMessageEvent {
    #[doc = " Redacts `Self` given a valid `Redaction[Sync]Event`."]
    pub fn redact(self, redaction: ::ruma_events::room::redaction::SyncRedactionEvent, version: ::ruma_events::exports::ruma_identifiers::RoomVersionId,) -> AnyRedactedSyncMessageEvent {
        match self {
            Self::RoomMessage(event) => {
                let content = event.content.redact(version);
                AnyRedactedSyncMessageEvent::RoomMessage(::ruma_events::RedactedSyncMessageEvent {
                    content,
                    origin_server_ts: event.origin_server_ts,
                    event_id: event.event_id,
                    sender: event.sender,
                    unsigned: ::ruma_events::RedactedSyncUnsigned {
                        redacted_because: Some(::std::boxed::Box::new(redaction)),
                    },
                })
            }
            Self::RoomRedaction(event) => {
                let content = event.content.redact(version);
                AnyRedactedSyncMessageEvent::RoomRedaction(::ruma_events::RedactedSyncMessageEvent {
                    content,
                    origin_server_ts: event.origin_server_ts,
                    event_id: event.event_id,
                    sender: event.sender,
                    unsigned: ::ruma_events::RedactedSyncUnsigned {
                        redacted_because: Some(::std::boxed::Box::new(redaction)),
                    },
                })
            }
            Self::Custom(event) => {
                let content = event.content.redact(version);
                AnyRedactedSyncMessageEvent::Custom(::ruma_events::RedactedSyncMessageEvent {
                    content,
                    origin_server_ts: event.origin_server_ts,
                    event_id: event.event_id,
                    sender: event.sender,
                    unsigned: ::ruma_events::RedactedSyncUnsigned {
                        redacted_because: Some(::std::boxed::Box::new(redaction)),
                    },
                })
            }
        }
    }
}
impl<'de> ::ruma_events::exports::serde::de::Deserialize<'de> for AnySyncMessageEvent {
    fn deserialize<D>(deserializer: D) -> Result<Self, D::Error> where D: ::ruma_events::exports::serde::de::Deserializer<'de>, {
        use ::ruma_events::exports::serde::de::Error as _;
        let json = Box::<::ruma_events::exports::serde_json::value::RawValue>::deserialize(deserializer)?;
        let ::ruma_events::EventDeHelper { ev_type, .. } = ::ruma_events::from_raw_json_value(&json)?;
        match ev_type.as_str() {
            "m.room.message" => {
                let event = ::ruma_events::exports::serde_json::from_str::<::ruma_events::SyncMessageEvent<::ruma_events::room::message::MessageEventContent>>(json.get()).map_err(D::Error::custom)?;
                Ok(Self::RoomMessage(event))
            },
            "m.room.redaction" => {
                let event = ::ruma_events::exports::serde_json::from_str::<::ruma_events::room::redaction::SyncRedactionEvent>(json.get()).map_err(D::Error::custom)?;
                Ok(Self::RoomRedaction(event))
            },
            event => {
                let event = ::ruma_events::exports::serde_json::from_str::<::ruma_events::SyncMessageEvent<::ruma_events::custom::CustomEventContent>>(json.get()).map_err(D::Error::custom)?;
                Ok(Self::Custom(event))
            },
        }
    }
}
#[doc = " An enum that holds either regular un-redacted events or redacted events."]
#[derive(Clone, Debug, ::ruma_events::exports::serde::Serialize)]
#[serde(untagged)]
pub enum AnyPossiblyRedactedSyncMessageEvent {
    #[doc = " An un-redacted event."]
    Regular(AnySyncMessageEvent),
    #[doc = " A redacted event."]
    Redacted(AnyRedactedSyncMessageEvent),
}
impl<'de> ::ruma_events::exports::serde::de::Deserialize<'de> for AnyPossiblyRedactedSyncMessageEvent {
    fn deserialize<D>(deserializer: D) -> Result<Self, D::Error> where D: ::ruma_events::exports::serde::de::Deserializer<'de>, {
        let json = Box::<::ruma_events::exports::serde_json::value::RawValue>::deserialize(deserializer)?;
        let ::ruma_events::EventDeHelper { unsigned, .. } = ::ruma_events::from_raw_json_value(&json)?;
        Ok(match unsigned {
            Some(unsigned) if unsigned.redacted_because.is_some() => {
                Self::Redacted(::ruma_events::from_raw_json_value(&json)?)
            }
            _ => Self::Regular(::ruma_events::from_raw_json_value(&json)?),
        })
    }
}
#[derive(Clone, Debug, ::ruma_events::exports::serde::Serialize)]
#[serde(untagged)]
#[allow(clippy::large_enum_variant)]
pub enum AnyRedactedMessageEvent {
    #[doc = "m.room.message"]
    RoomMessage(::ruma_events::RedactedMessageEvent<::ruma_events::room::message::RedactedMessageEventContent>), #[doc = "m.room.redaction"] RoomRedaction(::ruma_events::RedactedMessageEvent<::ruma_events::room::redaction::RedactedRedactionEventContent>), #[doc = " A redacted event not defined by the Matrix specification"] Custom(::ruma_events::RedactedMessageEvent<::ruma_events::custom::RedactedCustomEventContent>),
}
impl From<AnyRedactedMessageEvent> for AnyRedactedSyncMessageEvent {
    fn from(event: AnyRedactedMessageEvent) -> Self {
        match event {
            AnyRedactedMessageEvent::RoomMessage(event) => {
                Self::RoomMessage(::ruma_events::RedactedSyncMessageEvent::from(event))
            },
            AnyRedactedMessageEvent::RoomRedaction(event) => {
                Self::RoomRedaction(::ruma_events::RedactedSyncMessageEvent::from(event))
            },
            AnyRedactedMessageEvent::Custom(event) => {
                Self::Custom(::ruma_events::RedactedSyncMessageEvent::from(event))
            },
        }
    }
}
impl AnyRedactedMessageEvent {
    #[doc = "Returns this events origin_server_ts field."]
    pub fn origin_server_ts(&self) -> &::std::time::SystemTime {
        match self {
            Self::RoomMessage(event) => &event.origin_server_ts,
            Self::RoomRedaction(event) => &event.origin_server_ts,
            Self::Custom(event) => &event.origin_server_ts,
        }
    }
    #[doc = "Returns this events room_id field."]
    pub fn room_id(&self) -> &::ruma_events::exports::ruma_identifiers::RoomId {
        match self {
            Self::RoomMessage(event) => &event.room_id,
            Self::RoomRedaction(event) => &event.room_id,
            Self::Custom(event) => &event.room_id,
        }
    }
    #[doc = "Returns this events event_id field."]
    pub fn event_id(&self) -> &::ruma_events::exports::ruma_identifiers::EventId {
        match self {
            Self::RoomMessage(event) => &event.event_id,
            Self::RoomRedaction(event) => &event.event_id,
            Self::Custom(event) => &event.event_id,
        }
    }
    #[doc = "Returns this events sender field."]
    pub fn sender(&self) -> &::ruma_events::exports::ruma_identifiers::UserId {
        match self {
            Self::RoomMessage(event) => &event.sender,
            Self::RoomRedaction(event) => &event.sender,
            Self::Custom(event) => &event.sender,
        }
    }
    #[doc = "Returns this events unsigned field."]
    pub fn unsigned(&self) -> &::ruma_events::RedactedUnsigned {
        match self {
            Self::RoomMessage(event) => &event.unsigned,
            Self::RoomRedaction(event) => &event.unsigned,
            Self::Custom(event) => &event.unsigned,
        }
    }
}
impl<'de> ::ruma_events::exports::serde::de::Deserialize<'de> for AnyRedactedMessageEvent {
    fn deserialize<D>(deserializer: D) -> Result<Self, D::Error> where D: ::ruma_events::exports::serde::de::Deserializer<'de>, {
        use ::ruma_events::exports::serde::de::Error as _;
        let json = Box::<::ruma_events::exports::serde_json::value::RawValue>::deserialize(deserializer)?;
        let ::ruma_events::EventDeHelper { ev_type, .. } = ::ruma_events::from_raw_json_value(&json)?;
        match ev_type.as_str() {
            "m.room.message" => {
                let event = ::ruma_events::exports::serde_json::from_str::<::ruma_events::RedactedMessageEvent<::ruma_events::room::message::RedactedMessageEventContent>>(json.get()).map_err(D::Error::custom)?;
                Ok(Self::RoomMessage(event))
            },
            "m.room.redaction" => {
                let event = ::ruma_events::exports::serde_json::from_str::<::ruma_events::RedactedMessageEvent<::ruma_events::room::redaction::RedactedRedactionEventContent>>(json.get()).map_err(D::Error::custom)?;
                Ok(Self::RoomRedaction(event))
            },
            event => {
                let event = ::ruma_events::exports::serde_json::from_str::<::ruma_events::RedactedMessageEvent<::ruma_events::custom::RedactedCustomEventContent>,>(json.get()).map_err(D::Error::custom)?;
                Ok(Self::Custom(event))
            },
        }
    }
}
#[derive(Clone, Debug, ::ruma_events::exports::serde::Serialize)]
#[serde(untagged)]
#[allow(clippy::large_enum_variant)]
pub enum AnyRedactedSyncMessageEvent {
    #[doc = "m.room.message"]
    RoomMessage(::ruma_events::RedactedSyncMessageEvent<::ruma_events::room::message::RedactedMessageEventContent>), #[doc = "m.room.redaction"] RoomRedaction(::ruma_events::RedactedSyncMessageEvent<::ruma_events::room::redaction::RedactedRedactionEventContent>), #[doc = " A redacted event not defined by the Matrix specification"] Custom(::ruma_events::RedactedSyncMessageEvent<::ruma_events::custom::RedactedCustomEventContent>),
}
impl AnyRedactedSyncMessageEvent {
    #[doc = " Convert this sync event into a full event, one with a room_id field."]
    pub fn into_full_event(self, room_id: ::ruma_events::exports::ruma_identifiers::RoomId) -> AnyRedactedMessageEvent {
        match self {
            Self::RoomMessage(event) => {
                AnyRedactedMessageEvent::RoomMessage(event.into_full_event(room_id))
            },
            Self::RoomRedaction(event) => {
                AnyRedactedMessageEvent::RoomRedaction(event.into_full_event(room_id))
            },
            Self::Custom(event) => {
                AnyRedactedMessageEvent::Custom(event.into_full_event(room_id))
            },
        }
    }
}
impl AnyRedactedSyncMessageEvent {
    #[doc = "Returns this events origin_server_ts field."]
    pub fn origin_server_ts(&self) -> &::std::time::SystemTime {
        match self {
            Self::RoomMessage(event) => &event.origin_server_ts,
            Self::RoomRedaction(event) => &event.origin_server_ts,
            Self::Custom(event) => &event.origin_server_ts,
        }
    }
    #[doc = "Returns this events event_id field."]
    pub fn event_id(&self) -> &::ruma_events::exports::ruma_identifiers::EventId {
        match self {
            Self::RoomMessage(event) => &event.event_id,
            Self::RoomRedaction(event) => &event.event_id,
            Self::Custom(event) => &event.event_id,
        }
    }
    #[doc = "Returns this events sender field."]
    pub fn sender(&self) -> &::ruma_events::exports::ruma_identifiers::UserId {
        match self {
            Self::RoomMessage(event) => &event.sender,
            Self::RoomRedaction(event) => &event.sender,
            Self::Custom(event) => &event.sender,
        }
    }
    #[doc = "Returns this events unsigned field."]
    pub fn unsigned(&self) -> &::ruma_events::RedactedSyncUnsigned {
        match self {
            Self::RoomMessage(event) => &event.unsigned,
            Self::RoomRedaction(event) => &event.unsigned,
            Self::Custom(event) => &event.unsigned,
        }
    }
}
impl<'de> ::ruma_events::exports::serde::de::Deserialize<'de> for AnyRedactedSyncMessageEvent {
    fn deserialize<D>(deserializer: D) -> Result<Self, D::Error> where D: ::ruma_events::exports::serde::de::Deserializer<'de>, {
        use ::ruma_events::exports::serde::de::Error as _;
        let json = Box::<::ruma_events::exports::serde_json::value::RawValue>::deserialize(deserializer)?;
        let ::ruma_events::EventDeHelper { ev_type, .. } = ::ruma_events::from_raw_json_value(&json)?;
        match ev_type.as_str() {
            "m.room.message" => {
                let event = ::ruma_events::exports::serde_json::from_str::<::ruma_events::RedactedSyncMessageEvent<::ruma_events::room::message::RedactedMessageEventContent>>(json.get()).map_err(D::Error::custom)?;
                Ok(Self::RoomMessage(event))
            },
            "m.room.redaction" => {
                let event = ::ruma_events::exports::serde_json::from_str::<::ruma_events::RedactedSyncMessageEvent<::ruma_events::room::redaction::RedactedRedactionEventContent>>(json.get()).map_err(D::Error::custom)?;
                Ok(Self::RoomRedaction(event))
            },
            event => {
                let event = ::ruma_events::exports::serde_json::from_str::<::ruma_events::RedactedSyncMessageEvent<::ruma_events::custom::RedactedCustomEventContent>,>(json.get()).map_err(D::Error::custom)?;
                Ok(Self::Custom(event))
            },
        }
    }
}
#[derive(Clone, Debug, ::ruma_events::exports::serde::Serialize)]
#[serde(untagged)]
#[allow(clippy::large_enum_variant)]
pub enum AnyMessageEventContent {
    #[doc = "m.room.message"]
    RoomMessage(::ruma_events::room::message::MessageEventContent),
    #[doc = "m.room.redaction"]
    RoomRedaction(::ruma_events::room::redaction::RedactionEventContent),
    #[doc = " Content of an event not defined by the Matrix specification."]
    Custom(::ruma_events::custom::CustomEventContent),
}
impl ::ruma_events::EventContent for AnyMessageEventContent {
    fn event_type(&self) -> &str {
        match self {
            Self::RoomMessage(content) => content.event_type(),
            Self::RoomRedaction(content) => content.event_type(),
            Self::Custom(content) => content.event_type(),
        }
    }
    fn from_parts(event_type: &str, input: Box<::ruma_events::exports::serde_json::value::RawValue>,) -> Result<Self, ::ruma_events::exports::serde_json::Error> {
        match event_type {
            "m.room.message" => {
                let content = ::ruma_events::room::message::MessageEventContent::from_parts(event_type, input)?;
                Ok(Self::RoomMessage(content))
            },
            "m.room.redaction" => {
                let content = ::ruma_events::room::redaction::RedactionEventContent::from_parts(event_type, input)?;
                Ok(Self::RoomRedaction(content))
            },
            ev_type => {
                let content = ::ruma_events::custom::CustomEventContent::from_parts(ev_type, input)?;
                Ok(Self::Custom(content))
            },
        }
    }
}
impl ::ruma_events::RoomEventContent for AnyMessageEventContent {
}
impl ::ruma_events::MessageEventContent for AnyMessageEventContent {
}
"##;
