use event_enum::event_enum::try_expand_event_enum;
use event_enum::event_type::EventType;
use event_enum::kind::EventKind;
use event_enum::token::literal_new;
use event_enum::variant::{EventEnumEntry, EventEnumInput};
use proc_macro2::{Delimiter, Span, TokenStream, TokenTree};

fn parse(code: &str) -> TokenStream {
    code.parse().unwrap()
}

/// The tokens of a stream in order, brackets among them.
fn flat(stream: TokenStream, out: &mut Vec<String>) {
    for tree in stream {
        match tree {
            TokenTree::Group(group) => {
                let (open, close) = match group.delimiter() {
                    Delimiter::Parenthesis => ("(", ")"),
                    Delimiter::Brace => ("{", "}"),
                    Delimiter::Bracket => ("[", "]"),
                    Delimiter::None => ("", ""),
                };
                out.push(open.to_string());
                flat(group.stream(), out);
                out.push(close.to_string());
            }
            TokenTree::Ident(ident) => out.push(ident.to_string()),
            TokenTree::Punct(punct) => out.push(punct.as_char().to_string()),
            TokenTree::Literal(literal) => out.push(literal.to_string()),
        }
    }
}

fn tokens(stream: TokenStream) -> Vec<String> {
    let mut out = Vec::new();
    flat(stream, &mut out);
    out
}

fn entry(ev_type: &str, attrs: &[&str]) -> EventEnumEntry {
    EventEnumEntry {
        attrs: attrs.iter().map(|attr| parse(attr)).collect(),
        ev_type: EventType {
            value: ev_type.to_string(),
            span: Span::call_site(),
            literal: literal_new(ev_type, Span::call_site()),
        },
    }
}

#[test]
fn expands_state_events() {
    let input = EventEnumInput {
        attrs: vec![parse("#[non_exhaustive]")],
        name: EventKind::State,
        events: vec![entry("m.room.power_levels", &[r##"#[cfg(feature = "power")]"##])],
    };
    let code = try_expand_event_enum(input, &parse("::ruma_events")).unwrap();
    let code = code.map_err(|error| error.message).unwrap();
    assert_eq!(tokens(code), tokens(parse(EXPECTED)));
}

const EXPECTED: &str = r##"
#[non_exhaustive]
#[derive(Clone, Debug, ::ruma_events::exports::serde::Serialize)]
#[serde(untagged)]
#[allow(clippy::large_enum_variant)]
pub enum AnyStateEvent {
    #[doc = "m.room.power_levels"]
    #[cfg(feature = "power")]
    RoomPowerLevels(::ruma_events::room::power_levels::PowerLevelsEvent),
    #[doc = " An event not defined by the Matrix specification"]
    Custom(::ruma_events::StateEvent<::ruma_events::custom::CustomEventContent>),
}
impl From<AnyStateEvent> for AnySyncStateEvent {
    fn from(event: AnyStateEvent) -> Self {
        match event {
            AnyStateEvent::#[cfg(feature = "power")] RoomPowerLevels(event) => {
                Self::#[cfg(feature = "power")] RoomPowerLevels(::ruma_events::SyncStateEvent::from(event))
            },
            AnyStateEvent::Custom(event) => {
                Self::Custom(::ruma_events::SyncStateEvent::from(event))
            },
        }
    }
}
impl AnyStateEvent {
    #[doc = " Returns the any content enum for this event."]
    pub fn content(&self) -> AnyStateEventContent {
        match self {
            Self::#[cfg(feature = "power")] RoomPowerLevels(event) => AnyStateEventContent::#[cfg(feature = "power")] RoomPowerLevels(event.content.clone()),
            Self::Custom(event) => AnyStateEventContent::Custom(event.content.clone()),
        }
    }
    #[doc = " Returns the any content enum for this events prev_content."]
    pub fn prev_content(&self) -> Option<AnyStateEventContent> {
        match self {
            Self::#[cfg(feature = "power")] RoomPowerLevels(event) => {
                event.prev_content.as_ref().map(|c| AnyStateEventContent::#[cfg(feature = "power")] RoomPowerLevels(c.clone()))
            },
            Self::Custom(event) => {
                event.prev_content.as_ref().map(|c| AnyStateEventContent::Custom(c.clone()))
            },
        }
    }
    #[doc = "Returns this events origin_server_ts field."]
    pub fn origin_server_ts(&self) -> &::std::time::SystemTime {
        match self {
            Self::#[cfg(feature = "power")] RoomPowerLevels(event) => &event.origin_server_ts,
            Self::Custom(event) => &event.origin_server_ts,
        }
    }
    #[doc = "Returns this events room_id field."]
    pub fn room_id(&self) -> &::ruma_events::exports::ruma_identifiers::RoomId {
        match self {
            Self::#[cfg(feature = "power")] RoomPowerLevels(event) => &event.room_id,
            Self::Custom(event) => &event.room_id,
        }
    }
    #[doc = "Returns this events event_id field."]
    pub fn event_id(&self) -> &::ruma_events::exports::ruma_identifiers::EventId {
        match self {
            Self::#[cfg(feature = "power")] RoomPowerLevels(event) => &event.event_id,
            Self::Custom(event) => &event.event_id,
        }
    }
    #[doc = "Returns this events sender field."]
    pub fn sender(&self) -> &::ruma_events::exports::ruma_identifiers::UserId {
        match self {
            Self::#[cfg(feature = "power")] RoomPowerLevels(event) => &event.sender,
            Self::Custom(event) => &event.sender,
        }
    }
    #[doc = "Returns this events state_key field."]
    pub fn state_key(&self) -> & str {
        match self {
            Self::#[cfg(feature = "power")] RoomPowerLevels(event) => &event.state_key,
            Self::Custom(event) => &event.state_key,
        }
    }
    #[doc = "Returns this events unsigned field."]
    pub fn unsigned(&self) -> &::ruma_events::Unsigned {
        match self {
            Self::#[cfg(feature = "power")] RoomPowerLevels(event) => &event.unsigned,
            Self::Custom(event) => &event.unsigned,
        }
    }
}
impl AnyStateEvent {
    #[doc = " Redacts `Self` given a valid `Redaction[Sync]Event`."]
    pub fn redact(self, redaction: ::ruma_events::room::redaction::RedactionEvent, version: ::ruma_events::exports::ruma_identifiers::RoomVersionId,) -> AnyRedactedStateEvent {
        match self {
            Self::#[cfg(feature = "power")] RoomPowerLevels(event) => {
                let content = event.content.redact(version);
                AnyRedactedStateEvent::#[cfg(feature = "power")] RoomPowerLevels(::ruma_events::RedactedStateEvent {
                    content,
                    origin_server_ts: event.origin_server_ts,
                    room_id: event.room_id,
                    event_id: event.event_id,
                    sender: event.sender,
                    state_key: event.state_key,
                    unsigned: ::ruma_events::RedactedUnsigned {
                        redacted_because: Some(::std::boxed::Box::new(redaction)),
                    },
                })
            }
            Self::Custom(event) => {
                let content = event.content.redact(version);
                AnyRedactedStateEvent::Custom(::ruma_events::RedactedStateEvent {
                    content,
                    origin_server_ts: event.origin_server_ts,
                    room_id: event.room_id,
                    event_id: event.event_id,
                    sender: event.sender,
                    state_key: event.state_key,
                    unsigned: ::ruma_events::RedactedUnsigned {
                        redacted_because: Some(::std::boxed::Box::new(redaction)),
                    },
                })
            }
        }
    }
}
impl<'de> ::ruma_events::exports::serde::de::Deserialize<'de> for AnyStateEvent {
    fn deserialize<D>(deserializer: D) -> Result<Self, D::Error> where D: ::ruma_events::exports::serde::de::Deserializer<'de>, {
        use ::ruma_events::exports::serde::de::Error as _;
        let json = Box::<::ruma_events::exports::serde_json::value::RawValue>::deserialize(deserializer)?;
        let ::ruma_events::EventDeHelper { ev_type, .. } = ::ruma_events::from_raw_json_value(&json)?;
        match ev_type.as_str() {
            "m.room.power_levels" => {
                let event = ::ruma_events::exports::serde_json::from_str::<::ruma_events::room::power_levels::PowerLevelsEvent>(json.get()).map_err(D::Error::custom)?;
                Ok(Self::#[cfg(feature = "power")] RoomPowerLevels(event))
            },
            event => {
                let event = ::ruma_events::exports::serde_json::from_str::<::ruma_events::StateEvent<::ruma_events::custom::CustomEventContent>>(json.get()).map_err(D::Error::custom)?;
                Ok(Self::Custom(event))
            },
        }
    }
}
#[doc = " An enum that holds either regular un-redacted events or redacted events."]
#[derive(Clone, Debug, ::ruma_events::exports::serde::Serialize)]
#[serde(untagged)]
pub enum AnyPossiblyRedactedStateEvent {
    #[doc = " An un-redacted event."]
    Regular(AnyStateEvent),
    #[doc = " A redacted event."]
    Redacted(AnyRedactedStateEvent),
}
impl<'de> ::ruma_events::exports::serde::de::Deserialize<'de> for AnyPossiblyRedactedStateEvent {
    fn deserialize<D>(deserializer: D) -> Result<Self, D::Error> where D: ::ruma_events::exports::serde::de::Deserializer<'de>, {
        let json = Box::<::ruma_events::exports::serde_json::value::RawValue>::deserialize(deserializer)?;
        let ::ruma_events::EventDeHelper { unsigned, .. } = ::ruma_events::from_raw_json_value(&json)?;
        Ok(match unsigned {
            Some(unsigned) if unsigned.redacted_because.is_some() => {
                Self::Redacted(::ruma_events::from_raw_json_value(&json)?)
            }
            _ => Self::Regular(::ruma_events::from_raw_json_value(&json)?),
        })
    }
}
#[non_exhaustive]
#[derive(Clone, Debug, ::ruma_events::exports::serde::Serialize)]
#[serde(untagged)]
#[allow(clippy::large_enum_variant)]
pub enum AnySyncStateEvent {
    #[doc = "m.room.power_levels"]
    #[cfg(feature = "power")]
    RoomPowerLevels(::ruma_events::SyncStateEvent<::ruma_events::room::power_levels::PowerLevelsEventContent>), #[doc = " An event not defined by the Matrix specification"] Custom(::ruma_events::SyncStateEvent<::ruma_events::custom::CustomEventContent>),
}
impl AnySyncStateEvent {
    #[doc = " Convert this sync event into a full event, one with a room_id field."]
    pub fn into_full_event(self, room_id: ::ruma_events::exports::ruma_identifiers::RoomId) -> AnyStateEvent {
        match self {
            Self::#[cfg(feature = "power")] RoomPowerLevels(event) => {
                AnyStateEvent::#[cfg(feature = "power")] RoomPowerLevels(event.into_full_event(room_id))
            },
            Self::Custom(event) => {
                AnyStateEvent::Custom(event.into_full_event(room_id))
            },
        }
    }
}
impl AnySyncStateEvent {
    #[doc = " Returns the any content enum for this event."]
    pub fn content(&self) -> AnyStateEventContent {
        match self {
            Self::#[cfg(feature = "power")] RoomPowerLevels(event) => AnyStateEventContent::#[cfg(feature = "power")] RoomPowerLevels(event.content.clone()),
            Self::Custom(event) => AnyStateEventContent::Custom(event.content.clone()),
        }
    }
    #[doc = " Returns the any content enum for this events prev_content."]
    pub fn prev_content(&self) -> Option<AnyStateEventContent> {
        match self {
            Self::#[cfg(feature = "power")] RoomPowerLevels(event) => {
                event.prev_content.as_ref().map(|c| AnyStateEventContent::#[cfg(feature = "power")] RoomPowerLevels(c.clone()))
            },
            Self::Custom(event) => {
                event.prev_content.as_ref().map(|c| AnyStateEventContent::Custom(c.clone()))
            },
        }
    }
    #[doc = "Returns this events origin_server_ts field."]
    pub fn origin_server_ts(&self) -> &::std::time::SystemTime {
        match self {
            Self::#[cfg(feature = "power")] RoomPowerLevels(event) => &event.origin_server_ts,
            Self::Custom(event) => &event.origin_server_ts,
        }
    }
    #[doc = "Returns this events event_id field."]
    pub fn event_id(&self) -> &::ruma_events::exports::ruma_identifiers::EventId {
        match self {
            Self::#[cfg(feature = "power")] RoomPowerLevels(event) => &event.event_id,
            Self::Custom(event) => &event.event_id,
        }
    }
    #[doc = "Returns this events sender field."]
    pub fn sender(&self) -> &::ruma_events::exports::ruma_identifiers::UserId {
        match self {
            Self::#[cfg(feature = "power")] RoomPowerLevels(event) => &event.sender,
            Self::Custom(event) => &event.sender,
        }
    }
    #[doc = "Returns this events state_key field."]
    pub fn state_key(&self) -> & str {
        match self {
            Self::#[cfg(feature = "power")] RoomPowerLevels(event) => &event.state_key,
            Self::Custom(event) => &event.state_key,
        }
    }
    #[doc = "Returns this events unsigned field."]
    pub fn unsigned(&self) -> &::ruma_events::Unsigned {
        match self {
            Self::#[cfg(feature = "power")] RoomPowerLevels(event) => &event.unsigned,
            Self::Custom(event) => &event.unsigned,
        }
    }
}
impl AnySyncStateEvent {
    #[doc = " Redacts `Self` given a valid `Redaction[Sync]Event`."]
    pub fn redact(self, redaction: ::ruma_events::room::redaction::SyncRedactionEvent, version: ::ruma_events::exports::ruma_identifiers::RoomVersionId,) -> AnyRedactedSyncStateEvent {
        match self {
            Self::#[cfg(feature = "power")] RoomPowerLevels(event) => {
                let content = event.content.redact(version);
                AnyRedactedSyncStateEvent::#[cfg(feature = "power")] RoomPowerLevels(::ruma_events::RedactedSyncStateEvent {
                    content,
                    origin_server_ts: event.origin_server_ts,
                    event_id: event.event_id,
                    sender: event.sender,
                    state_key: event.state_key,
                    unsigned: ::ruma_events::RedactedSyncUnsigned {
                        redacted_because: Some(::std::boxed::Box::new(redaction)),
                    },
                })
            }
            Self::Custom(event) => {
                let content = event.content.redact(version);
                AnyRedactedSyncStateEvent::Custom(::ruma_events::RedactedSyncStateEvent {
                    content,
                    origin_server_ts: event.origin_server_ts,
                    event_id: event.event_id,
                    sender: event.sender,
                    state_key: event.state_key,
                    unsigned: ::ruma_events::RedactedSyncUnsigned {
                        redacted_because: Some(::std::boxed::Box::new(redaction)),
                    },
                })
            }
        }
    }
}
impl<'de> ::ruma_events::exports::serde::de::Deserialize<'de> for AnySyncStateEvent {
    fn deserialize<D>(deserializer: D) -> Result<Self, D::Error> where D: ::ruma_events::exports::serde::de::Deserializer<'de>, {
        use ::ruma_events::exports::serde::de::Error as _;
        let json = Box::<::ruma_events::exports::serde_json::value::RawValue>::deserialize(deserializer)?;
        let ::ruma_events::EventDeHelper { ev_type, .. } = ::ruma_events::from_raw_json_value(&json)?;
        match ev_type.as_str() {
            "m.room.power_levels" => {
                let event = ::ruma_events::exports::serde_json::from_str::<::ruma_events::SyncStateEvent<::ruma_events::room::power_levels::PowerLevelsEventContent>>(json.get()).map_err(D::Error::custom)?;
                Ok(Self::#[cfg(feature = "power")] RoomPowerLevels(event))
            },
            event => {
                let event = ::ruma_events::exports::serde_json::from_str::<::ruma_events::SyncStateEvent<::ruma_events::custom::CustomEventContent>>(json.get()).map_err(D::Error::custom)?;
                Ok(Self::Custom(event))
            },
        }
    }
}
#[doc = " An enum that holds either regular un-redacted events or redacted events."]
#[derive(Clone, Debug, ::ruma_events::exports::serde::Serialize)]
#[serde(untagged)]
pub enum AnyPossiblyRedactedSyncStateEvent {
    #[doc = " An un-redacted event."]
    Regular(AnySyncStateEvent),
    #[doc = " A redacted event."]
    Redacted(AnyRedactedSyncStateEvent),
}
impl<'de> ::ruma_events::exports::serde::de::Deserialize<'de> for AnyPossiblyRedactedSyncStateEvent {
    fn deserialize<D>(deserializer: D) -> Result<Self, D::Error> where D: ::ruma_events::exports::serde::de::Deserializer<'de>, {
        let json = Box::<::ruma_events::exports::serde_json::value::RawValue>::deserialize(deserializer)?;
        let ::ruma_events::EventDeHelper { unsigned, .. } = ::ruma_events::from_raw_json_value(&json)?;
        Ok(match unsigned {
            Some(unsigned) if unsigned.redacted_because.is_some() => {
                Self::Redacted(::ruma_events::from_raw_json_value(&json)?)
            }
            _ => Self::Regular(::ruma_events::from_raw_json_value(&json)?),
        })
    }
}
#[non_exhaustive]
#[derive(Clone, Debug, ::ruma_events::exports::serde::Serialize)]
#[serde(untagged)]
#[allow(clippy::large_enum_variant)]
pub enum AnyStrippedStateEvent {
    #[doc = "m.room.power_levels"]
    #[cfg(feature = "power")]
    RoomPowerLevels(::ruma_events::StrippedStateEvent<::ruma_events::room::power_levels::PowerLevelsEventContent>), #[doc = " An event not defined by the Matrix specification"] Custom(::ruma_events::StrippedStateEvent<::ruma_events::custom::CustomEventContent>),
}
impl AnyStrippedStateEvent {
    #[doc = " Returns the any content enum for this event."]
    pub fn content(&self) -> AnyStateEventContent {
        match self {
            Self::#[cfg(feature = "power")] RoomPowerLevels(event) => AnyStateEventContent::#[cfg(feature = "power")] RoomPowerLevels(event.content.clone()),
            Self::Custom(event) => AnyStateEventContent::Custom(event.content.clone()),
        }
    }
    #[doc = "Returns this events sender field."]
    pub fn sender(&self) -> &::ruma_events::exports::ruma_identifiers::UserId {
        match self {
            Self::#[cfg(feature = "power")] RoomPowerLevels(event) => &event.sender,
            Self::Custom(event) => &event.sender,
        }
    }
    #[doc = "Returns this events state_key field."]
    pub fn state_key(&self) -> & str {
        match self {
            Self::#[cfg(feature = "power")] RoomPowerLevels(event) => &event.state_key,
            Self::Custom(event) => &event.state_key,
        }
    }
}
impl AnyStrippedStateEvent {
    #[doc = " Redacts `Self` given a valid `Redaction[Sync]Event`."]
    pub fn redact(self, redaction: ::ruma_events::room::redaction::SyncRedactionEvent, version: ::ruma_events::exports::ruma_identifiers::RoomVersionId,) -> AnyRedactedStrippedStateEvent {
        match self {
            Self::#[cfg(feature = "power")] RoomPowerLevels(event) => {
                let content = event.content.redact(version);
                AnyRedactedStrippedStateEvent::#[cfg(feature = "power")] RoomPowerLevels(::ruma_events::RedactedStrippedStateEvent {
                    content,
                    sender: event.sender,
                    state_key: event.state_key,
                })
            }
            Self::Custom(event) => {
                let content = event.content.redact(version);
                AnyRedactedStrippedStateEvent::Custom(::ruma_events::RedactedStrippedStateEvent {
                    content,
                    sender: event.sender,
                    state_key: event.state_key,
                })
            }
        }
    }
}
impl<'de> ::ruma_events::exports::serde::de::Deserialize<'de> for AnyStrippedStateEvent {
    fn deserialize<D>(deserializer: D) -> Result<Self, D::Error> where D: ::ruma_events::exports::serde::de::Deserializer<'de>, {
        use ::ruma_events::exports::serde::de::Error as _;
        let json = Box::<::ruma_events::exports::serde_json::value::RawValue>::deserialize(deserializer)?;
        let ::ruma_events::EventDeHelper { ev_type, .. } = ::ruma_events::from_raw_json_value(&json)?;
        match ev_type.as_str() {
            "m.room.power_levels" => {
                let event = ::ruma_events::exports::serde_json::from_str::<::ruma_events::StrippedStateEvent<::ruma_events::room::power_levels::PowerLevelsEventContent>>(json.get()).map_err(D::Error::custom)?;
                Ok(Self::#[cfg(feature = "power")] RoomPowerLevels(event))
            },
            event => {
                let event = ::ruma_events::exports::serde_json::from_str::<::ruma_events::StrippedStateEvent<::ruma_events::custom::CustomEventContent>>(json.get()).map_err(D::Error::custom)?;
                Ok(Self::Custom(event))
            },
        }
    }
}
#[doc = " An enum that holds either regular un-redacted events or redacted events."]
#[derive(Clone, Debug, ::ruma_events::exports::serde::Serialize)]
#[serde(untagged)]
pub enum AnyPossiblyRedactedStrippedStateEvent {
    #[doc = " An un-redacted event."]
    Regular(AnyStrippedStateEvent),
    #[doc = " A redacted event."]
    Redacted(AnyRedactedStrippedStateEvent),
}
impl<'de> ::ruma_events::exports::serde::de::Deserialize<'de> for AnyPossiblyRedactedStrippedStateEvent {
    fn deserialize<D>(deserializer: D) -> Result<Self, D::Error> where D: ::ruma_events::exports::serde::de::Deserializer<'de>, {
        let json = Box::<::ruma_events::exports::serde_json::value::RawValue>::deserialize(deserializer)?;
        let ::ruma_events::EventDeHelper { unsigned, .. } = ::ruma_events::from_raw_json_value(&json)?;
        Ok(match unsigned {
            Some(unsigned) if unsigned.redacted_because.is_some() => {
                Self::Redacted(::ruma_events::from_raw_json_value(&json)?)
            }
            _ => Self::Regular(::ruma_events::from_raw_json_value(&json)?),
        })
    }
}
#[non_exhaustive]
#[derive(Clone, Debug, ::ruma_events::exports::serde::Serialize)]
#[serde(untagged)]
#[allow(clippy::large_enum_variant)]
pub enum AnyInitialStateEvent {
    #[doc = "m.room.power_levels"]
    #[cfg(feature = "power")]
    RoomPowerLevels(::ruma_events::InitialStateEvent<::ruma_events::room::power_levels::PowerLevelsEventContent>), #[doc = " An event not defined by the Matrix specification"] Custom(::ruma_events::InitialStateEvent<::ruma_events::custom::CustomEventContent>),
}
impl AnyInitialStateEvent {
    #[doc = " Returns the any content enum for this event."]
    pub fn content(&self) -> AnyStateEventContent {
        match self {
            Self::#[cfg(feature = "power")] RoomPowerLevels(event) => AnyStateEventContent::#[cfg(feature = "power")] RoomPowerLevels(event.content.clone()),
            Self::Custom(event) => AnyStateEventContent::Custom(event.content.clone()),
        }
    }
    #[doc = "Returns this events state_key field."]
    pub fn state_key(&self) -> & str {
        match self {
            Self::#[cfg(feature = "power")] RoomPowerLevels(event) => &event.state_key,
            Self::Custom(event) => &event.state_key,
        }
    }
}
impl<'de> ::ruma_events::exports::serde::de::Deserialize<'de> for AnyInitialStateEvent {
    fn deserialize<D>(deserializer: D) -> Result<Self, D::Error> where D: ::ruma_events::exports::serde::de::Deserializer<'de>, {
        use ::ruma_events::exports::serde::de::Error as _;
        let json = Box::<::ruma_events::exports::serde_json::value::RawValue>::deserialize(deserializer)?;
        let ::ruma_events::EventDeHelper { ev_type, .. } = ::ruma_events::from_raw_json_value(&json)?;
        match ev_type.as_str() {
            "m.room.power_levels" => {
                let event = ::ruma_events::exports::serde_json::from_str::<::ruma_events::InitialStateEvent<::ruma_events::room::power_levels::PowerLevelsEventContent>>(json.get()).map_err(D::Error::custom)?;
                Ok(Self::#[cfg(feature = "power")] RoomPowerLevels(event))
            },
            event => {
                let event = ::ruma_events::exports::serde_json::from_str::<::ruma_events::InitialStateEvent<::ruma_events::custom::CustomEventContent>>(json.get()).map_err(D::Error::custom)?;
                Ok(Self::Custom(event))
            },
        }
    }
}
#[non_exhaustive]
#[derive(Clone, Debug, ::ruma_events::exports::serde::Serialize)]
#[serde(untagged)]
#[allow(clippy::large_enum_variant)]
pub enum AnyRedactedStateEvent {
    #[doc = "m.room.power_levels"]
    #[cfg(feature = "power")]
    RoomPowerLevels(::ruma_events::RedactedStateEvent<::ruma_events::room::power_levels::RedactedPowerLevelsEventContent>), #[doc = " A redacted event not defined by the Matrix specification"] Custom(::ruma_events::RedactedStateEvent<::ruma_events::custom::RedactedCustomEventContent>),
}
impl From<AnyRedactedStateEvent> for AnyRedactedSyncStateEvent {
    fn from(event: AnyRedactedStateEvent) -> Self {
        match event {
            AnyRedactedStateEvent::#[cfg(feature = "power")] RoomPowerLevels(event) => {
                Self::#[cfg(feature = "power")] RoomPowerLevels(::ruma_events::RedactedSyncStateEvent::from(event))
            },
            AnyRedactedStateEvent::Custom(event) => {
                Self::Custom(::ruma_events::RedactedSyncStateEvent::from(event))
            },
        }
    }
}
impl AnyRedactedStateEvent {
    #[doc = "Returns this events origin_server_ts field."]
    pub fn origin_server_ts(&self) -> &::std::time::SystemTime {
        match self {
            Self::#[cfg(feature = "power")] RoomPowerLevels(event) => &event.origin_server_ts,
            Self::Custom(event) => &event.origin_server_ts,
        }
    }
    #[doc = "Returns this events room_id field."]
    pub fn room_id(&self) -> &::ruma_events::exports::ruma_identifiers::RoomId {
        match self {
            Self::#[cfg(feature = "power")] RoomPowerLevels(event) => &event.room_id,
            Self::Custom(event) => &event.room_id,
        }
    }
    #[doc = "Returns this events event_id field."]
    pub fn event_id(&self) -> &::ruma_events::exports::ruma_identifiers::EventId {
        match self {
            Self::#[cfg(feature = "power")] RoomPowerLevels(event) => &event.event_id,
            Self::Custom(event) => &event.event_id,
        }
    }
    #[doc = "Returns this events sender field."]
    pub fn sender(&self) -> &::ruma_events::exports::ruma_identifiers::UserId {
        match self {
            Self::#[cfg(feature = "power")] RoomPowerLevels(event) => &event.sender,
            Self::Custom(event) => &event.sender,
        }
    }
    #[doc = "Returns this events state_key field."]
    pub fn state_key(&self) -> & str {
        match self {
            Self::#[cfg(feature = "power")] RoomPowerLevels(event) => &event.state_key,
            Self::Custom(event) => &event.state_key,
        }
    }
    #[doc = "Returns this events unsigned field."]
    pub fn unsigned(&self) -> &::ruma_events::RedactedUnsigned {
        match self {
            Self::#[cfg(feature = "power")] RoomPowerLevels(event) => &event.unsigned,
            Self::Custom(event) => &event.unsigned,
        }
    }
}
impl<'de> ::ruma_events::exports::serde::de::Deserialize<'de> for AnyRedactedStateEvent {
    fn deserialize<D>(deserializer: D) -> Result<Self, D::Error> where D: ::ruma_events::exports::serde::de::Deserializer<'de>, {
        use ::ruma_events::exports::serde::de::Error as _;
        let json = Box::<::ruma_events::exports::serde_json::value::RawValue>::deserialize(deserializer)?;
        let ::ruma_events::EventDeHelper { ev_type, .. } = ::ruma_events::from_raw_json_value(&json)?;
        match ev_type.as_str() {
            "m.room.power_levels" => {
                let event = ::ruma_events::exports::serde_json::from_str::<::ruma_events::RedactedStateEvent<::ruma_events::room::power_levels::RedactedPowerLevelsEventContent>>(json.get()).map_err(D::Error::custom)?;
                Ok(Self::#[cfg(feature = "power")] RoomPowerLevels(event))
            },
            event => {
                let event = ::ruma_events::exports::serde_json::from_str::<::ruma_events::RedactedStateEvent<::ruma_events::custom::RedactedCustomEventContent>,>(json.get()).map_err(D::Error::custom)?;
                Ok(Self::Custom(event))
            },
        }
    }
}
#[non_exhaustive]
#[derive(Clone, Debug, ::ruma_events::exports::serde::Serialize)]
#[serde(untagged)]
#[allow(clippy::large_enum_variant)]
pub enum AnyRedactedSyncStateEvent {
    #[doc = "m.room.power_levels"]
    #[cfg(feature = "power")]
    RoomPowerLevels(::ruma_events::RedactedSyncStateEvent<::ruma_events::room::power_levels::RedactedPowerLevelsEventContent>), #[doc = " A redacted event not defined by the Matrix specification"] Custom(::ruma_events::RedactedSyncStateEvent<::ruma_events::custom::RedactedCustomEventContent>),
}
impl AnyRedactedSyncStateEvent {
    #[doc = " Convert this sync event into a full event, one with a room_id field."]
    pub fn into_full_event(self, room_id: ::ruma_events::exports::ruma_identifiers::RoomId) -> AnyRedactedStateEvent {
        match self {
            Self::#[cfg(feature = "power")] RoomPowerLevels(event) => {
                AnyRedactedStateEvent::#[cfg(feature = "power")] RoomPowerLevels(event.into_full_event(room_id))
            },
            Self::Custom(event) => {
                AnyRedactedStateEvent::Custom(event.into_full_event(room_id))
            },
        }
    }
}
impl AnyRedactedSyncStateEvent {
    #[doc = "Returns this events origin_server_ts field."]
    pub fn origin_server_ts(&self) -> &::std::time::SystemTime {
        match self {
            Self::#[cfg(feature = "power")] RoomPowerLevels(event) => &event.origin_server_ts,
            Self::Custom(event) => &event.origin_server_ts,
        }
    }
    #[doc = "Returns this events event_id field."]
    pub fn event_id(&self) -> &::ruma_events::exports::ruma_identifiers::EventId {
        match self {
            Self::#[cfg(feature = "power")] RoomPowerLevels(event) => &event.event_id,
            Self::Custom(event) => &event.event_id,
        }
    }
    #[doc = "Returns this events sender field."]
    pub fn sender(&self) -> &::ruma_events::exports::ruma_identifiers::UserId {
        match self {
            Self::#[cfg(feature = "power")] RoomPowerLevels(event) => &event.sender,
            Self::Custom(event) => &event.sender,
        }
    }
    #[doc = "Returns this events state_key field."]
    pub fn state_key(&self) -> & str {
        match self {
            Self::#[cfg(feature = "power")] RoomPowerLevels(event) => &event.state_key,
            Self::Custom(event) => &event.state_key,
        }
    }
    #[doc = "Returns this events unsigned field."]
    pub fn unsigned(&self) -> &::ruma_events::RedactedSyncUnsigned {
        match self {
            Self::#[cfg(feature = "power")] RoomPowerLevels(event) => &event.unsigned,
            Self::Custom(event) => &event.unsigned,
        }
    }
}
impl<'de> ::ruma_events::exports::serde::de::Deserialize<'de> for AnyRedactedSyncStateEvent {
    fn deserialize<D>(deserializer: D) -> Result<Self, D::Error> where D: ::ruma_events::exports::serde::de::Deserializer<'de>, {
        use ::ruma_events::exports::serde::de::Error as _;
        let json = Box::<::ruma_events::exports::serde_json::value::RawValue>::deserialize(deserializer)?;
        let ::ruma_events::EventDeHelper { ev_type, .. } = ::ruma_events::from_raw_json_value(&json)?;
        match ev_type.as_str() {
            "m.room.power_levels" => {
                let event = ::ruma_events::exports::serde_json::from_str::<::ruma_events::RedactedSyncStateEvent<::ruma_events::room::power_levels::RedactedPowerLevelsEventContent>>(json.get()).map_err(D::Error::custom)?;
                Ok(Self::#[cfg(feature = "power")] RoomPowerLevels(event))
            },
            event => {
                let event = ::ruma_events::exports::serde_json::from_str::<::ruma_events::RedactedSyncStateEvent<::ruma_events::custom::RedactedCustomEventContent>,>(json.get()).map_err(D::Error::custom)?;
                Ok(Self::Custom(event))
            },
        }
    }
}
#[non_exhaustive]
#[derive(Clone, Debug, ::ruma_events::exports::serde::Serialize)]
#[serde(untagged)]
#[allow(clippy::large_enum_variant)]
pub enum AnyRedactedStrippedStateEvent {
    #[doc = "m.room.power_levels"]
    #[cfg(feature = "power")]
    RoomPowerLevels(::ruma_events::RedactedStrippedStateEvent<::ruma_events::room::power_levels::RedactedPowerLevelsEventContent>), #[doc = " A redacted event not defined by the Matrix specification"] Custom(::ruma_events::RedactedStrippedStateEvent<::ruma_events::custom::RedactedCustomEventContent>),
}
impl AnyRedactedStrippedStateEvent {
    #[doc = "Returns this events sender field."]
    pub fn sender(&self) -> &::ruma_events::exports::ruma_identifiers::UserId {
        match self {
            Self::#[cfg(feature = "power")] RoomPowerLevels(event) => &event.sender,
            Self::Custom(event) => &event.sender,
        }
    }
    #[doc = "Returns this events state_key field."]
    pub fn state_key(&self) -> & str {
        match self {
            Self::#[cfg(feature = "power")] RoomPowerLevels(event) => &event.state_key,
            Self::Custom(event) => &event.state_key,
        }
    }
}
impl<'de> ::ruma_events::exports::serde::de::Deserialize<'de> for AnyRedactedStrippedStateEvent {
    fn deserialize<D>(deserializer: D) -> Result<Self, D::Error> where D: ::ruma_events::exports::serde::de::Deserializer<'de>, {
        use ::ruma_events::exports::serde::de::Error as _;
        let json = Box::<::ruma_events::exports::serde_json::value::RawValue>::deserialize(deserializer)?;
        let ::ruma_events::EventDeHelper { ev_type, .. } = ::ruma_events::from_raw_json_value(&json)?;
        match ev_type.as_str() {
            "m.room.power_levels" => {
                let event = ::ruma_events::exports::serde_json::from_str::<::ruma_events::RedactedStrippedStateEvent<::ruma_events::room::power_levels::RedactedPowerLevelsEventContent>>(json.get()).map_err(D::Error::custom)?;
                Ok(Self::#[cfg(feature = "power")] RoomPowerLevels(event))
            },
            event => {
                let event = ::ruma_events::exports::serde_json::from_str::<::ruma_events::RedactedStrippedStateEvent<::ruma_events::custom::RedactedCustomEventContent>,>(json.get()).map_err(D::Error::custom)?;
                Ok(Self::Custom(event))
            },
        }
    }
}
#[non_exhaustive]
#[derive(Clone, Debug, ::ruma_events::exports::serde::Serialize)]
#[serde(untagged)]
#[allow(clippy::large_enum_variant)]
pub enum AnyStateEventContent {
    #[doc = "m.room.power_levels"]
    #[cfg(feature = "power")]
    RoomPowerLevels(::ruma_events::room::power_levels::PowerLevelsEventContent),
    #[doc = " Content of an event not defined by the Matrix specification."]
    Custom(::ruma_events::custom::CustomEventContent),
}
impl ::ruma_events::EventContent for AnyStateEventContent {
    fn event_type(&self) -> &str {
        match self {
            Self::#[cfg(feature = "power")] RoomPowerLevels(content) => content.event_type(),
            Self::Custom(content) => content.event_type(),
        }
    }
    fn from_parts(event_type: &str, input: Box<::ruma_events::exports::serde_json::value::RawValue>,) -> Result<Self, ::ruma_events::exports::serde_json::Error> {
        match event_type {
            "m.room.power_levels" => {
                let content = ::ruma_events::room::power_levels::PowerLevelsEventContent::from_parts(event_type, input)?;
                Ok(Self::#[cfg(feature = "power")] RoomPowerLevels(content))
            },
            ev_type => {
                let content = ::ruma_events::custom::CustomEventContent::from_parts(ev_type, input)?;
                Ok(Self::Custom(content))
            },
        }
    }
}
impl ::ruma_events::RoomEventContent for AnyStateEventContent {
}
impl ::ruma_events::StateEventContent for AnyStateEventContent {
}
"##;
