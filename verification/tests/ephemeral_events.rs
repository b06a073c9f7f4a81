use event_enum::event_enum::try_expand_event_enum;
use event_enum::event_type::EventType;
use event_enum::kind::EventKind;
use event_enum::token::literal_new;
use event_enum::variant::{EventEnumEntry, EventEnumInput};
use proc_macro2::{Delimiter, Span, TokenStream, TokenTree};

fn parse(code: &str) -> TokenStream {
    code.parse().unwrap()
}

/// The tokens of a stream in order, brackets among them.
fn flat(stream: TokenStream, out: &mut Vec<String>) {
    for tree in stream {
        match tree {
            TokenTree::Group(group) => {
                let (open, close) = match group.delimiter() {
                    Delimiter::Parenthesis => ("(", ")"),
                    Delimiter::Brace => ("{", "}"),
                    Delimiter::Bracket => ("[", "]"),
                    Delimiter::None => ("", ""),
                };
                out.push(open.to_string());
                flat(group.stream(), out);
                out.push(close.to_string());
            }
            TokenTree::Ident(ident) => out.push(ident.to_string()),
            TokenTree::Punct(punct) => out.push(punct.as_char().to_string()),
            TokenTree::Literal(literal) => out.push(literal.to_string()),
        }
    }
}

fn tokens(stream: TokenStream) -> Vec<String> {
    let mut out = Vec::new();
    flat(stream, &mut out);
    out
}

fn entry(ev_type: &str, attrs: &[&str]) -> EventEnumEntry {
    EventEnumEntry {
        attrs: attrs.iter().map(|attr| parse(attr)).collect(),
        ev_type: EventType {
            value: ev_type.to_string(),
            span: Span::call_site(),
            literal: literal_new(ev_type, Span::call_site()),
        },
    }
}

#[test]
fn expands_ephemeral_events() {
    let input = EventEnumInput {
        attrs: vec![],
        name: EventKind::Ephemeral,
        events: vec![entry("m.fully_read", &[]), entry("m.typing", &[])],
    };
    let code = try_expand_event_enum(input, &parse("::ruma_events")).unwrap();
    let code = code.map_err(|error| error.message).unwrap();
    assert_eq!(tokens(code), tokens(parse(EXPECTED)));
}

const EXPECTED: &str = r##"
#[derive(Clone, Debug, ::ruma_events::exports::serde::Serialize)]
#[serde(untagged)]
#[allow(clippy::large_enum_variant)]
pub enum AnyEphemeralRoomEvent {
    #[doc = "m.fully_read"]
    FullyRead(::ruma_events::fully_read::FullyReadEvent),
    #[doc = "m.typing"]
    Typing(::ruma_events::typing::TypingEvent),
    #[doc = " An event not defined by the Matrix specification"]
    Custom(::ruma_events::EphemeralRoomEvent<::ruma_events::custom::CustomEventContent>),
}
impl From<AnyEphemeralRoomEvent> for AnySyncEphemeralRoomEvent {
    fn from(event: AnyEphemeralRoomEvent) -> Self {
        match event {
            AnyEphemeralRoomEvent::FullyRead(event) => {
                Self::FullyRead(::ruma_events::SyncEphemeralRoomEvent::from(event))
            },
            AnyEphemeralRoomEvent::Typing(event) => {
                Self::Typing(::ruma_events::SyncEphemeralRoomEvent::from(event))
            },
            AnyEphemeralRoomEvent::Custom(event) => {
                Self::Custom(::ruma_events::SyncEphemeralRoomEvent::from(event))
            },
        }
    }
}
impl AnyEphemeralRoomEvent {
    #[doc = " Returns the any content enum for this event."]
    pub fn content(&self) -> AnyEphemeralRoomEventContent {
        match self {
            Self::FullyRead(event) => AnyEphemeralRoomEventContent::FullyRead(event.content.clone()),
            Self::Typing(event) => AnyEphemeralRoomEventContent::Typing(event.content.clone()),
            Self::Custom(event) => AnyEphemeralRoomEventContent::Custom(event.content.clone()),
        }
    }
}
impl<'de> ::ruma_events::exports::serde::de::Deserialize<'de> for AnyEphemeralRoomEvent {
    fn deserialize<D>(deserializer: D) -> Result<Self, D::Error> where D: ::ruma_events::exports::serde::de::Deserializer<'de>, {
        use ::ruma_events::exports::serde::de::Error as _;
        let json = Box::<::ruma_events::exports::serde_json::value::RawValue>::deserialize(deserializer)?;
        let ::ruma_events::EventDeHelper { ev_type, .. } = ::ruma_events::from_raw_json_value(&json)?;
        match ev_type.as_str() {
            "m.fully_read" => {
                let event = ::ruma_events::exports::serde_json::from_str::<::ruma_events::fully_read::FullyReadEvent>(json.get()).map_err(D::Error::custom)?;
                Ok(Self::FullyRead(event))
            },
            "m.typing" => {
                let event = ::ruma_events::exports::serde_json::from_str::<::ruma_events::typing::TypingEvent>(json.get()).map_err(D::Error::custom)?;
                Ok(Self::Typing(event))
            },
            event => {
                let event = ::ruma_events::exports::serde_json::from_str::<::ruma_events::EphemeralRoomEvent<::ruma_events::custom::CustomEventContent>>(json.get()).map_err(D::Error::custom)?;
                Ok(Self::Custom(event))
            },
        }
    }
}
#[derive(Clone, Debug, ::ruma_events::exports::serde::Serialize)]
#[serde(untagged)]
#[allow(clippy::large_enum_variant)]
pub enum AnySyncEphemeralRoomEvent {
    #[doc = "m.fully_read"]
    FullyRead(::ruma_events::SyncEphemeralRoomEvent<::ruma_events::fully_read::FullyReadEventContent>), #[doc = "m.typing"] Typing(::ruma_events::SyncEphemeralRoomEvent<::ruma_events::typing::TypingEventContent>), #[doc = " An event not defined by the Matrix specification"] Custom(::ruma_events::SyncEphemeralRoomEvent<::ruma_events::custom::CustomEventContent>),
}
impl AnySyncEphemeralRoomEvent {
    #[doc = " Convert this sync event into a full event, one with a room_id field."]
    pub fn into_full_event(self, room_id: ::ruma_events::exports::ruma_identifiers::RoomId) -> AnyEphemeralRoomEvent {
        match self {
            Self::FullyRead(event) => {
                AnyEphemeralRoomEvent::FullyRead(event.into_full_event(room_id))
            },
            Self::Typing(event) => {
                AnyEphemeralRoomEvent::Typing(event.into_full_event(room_id))
            },
            Self::Custom(event) => {
                AnyEphemeralRoomEvent::Custom(event.into_full_event(room_id))
            },
        }
    }
}
impl AnySyncEphemeralRoomEvent {
    #[doc = " Returns the any content enum for this event."]
    pub fn content(&self) -> AnyEphemeralRoomEventContent {
        match self {
            Self::FullyRead(event) => AnyEphemeralRoomEventContent::FullyRead(event.content.clone()),
            Self::Typing(event) => AnyEphemeralRoomEventContent::Typing(event.content.clone()),
            Self::Custom(event) => AnyEphemeralRoomEventContent::Custom(event.content.clone()),
        }
    }
}
impl<'de> ::ruma_events::exports::serde::de::Deserialize<'de> for AnySyncEphemeralRoomEvent {
    fn deserialize<D>(deserializer: D) -> Result<Self, D::Error> where D: ::ruma_events::exports::serde::de::Deserializer<'de>, {
        use ::ruma_events::exports::serde::de::Error as _;
        let json = Box::<::ruma_events::exports::serde_json::value::RawValue>::deserialize(deserializer)?;
        let ::ruma_events::EventDeHelper { ev_type, .. } = ::ruma_events::from_raw_json_value(&json)?;
        match ev_type.as_str() {
            "m.fully_read" => {
                let event = ::ruma_events::exports::serde_json::from_str::<::ruma_events::SyncEphemeralRoomEvent<::ruma_events::fully_read::FullyReadEventContent>>(json.get()).map_err(D::Error::custom)?;
                Ok(Self::FullyRead(event))
            },
            "m.typing" => {
                let event = ::ruma_events::exports::serde_json::from_str::<::ruma_events::SyncEphemeralRoomEvent<::ruma_events::typing::TypingEventContent>>(json.get()).map_err(D::Error::custom)?;
                Ok(Self::Typing(event))
            },
            event => {
                let event = ::ruma_events::exports::serde_json::from_str::<::ruma_events::SyncEphemeralRoomEvent<::ruma_events::custom::CustomEventContent>>(json.get()).map_err(D::Error::custom)?;
                Ok(Self::Custom(event))
            },
        }
    }
}
#[derive(Clone, Debug, ::ruma_events::exports::serde::Serialize)]
#[serde(untagged)]
#[allow(clippy::large_enum_variant)]
pub enum AnyEphemeralRoomEventContent {
    #[doc = "m.fully_read"]
    FullyRead(::ruma_events::fully_read::FullyReadEventContent),
    #[doc = "m.typing"]
    Typing(::ruma_events::typing::TypingEventContent),
    #[doc = " Content of an event not defined by the Matrix specification."]
    Custom(::ruma_events::custom::CustomEventContent),
}
impl ::ruma_events::EventContent for AnyEphemeralRoomEventContent {
    fn event_type(&self) -> &str {
        match self {
            Self::FullyRead(content) => content.event_type(),
            Self::Typing(content) => content.event_type(),
            Self::Custom(content) => content.event_type(),
        }
    }
    fn from_parts(event_type: &str, input: Box<::ruma_events::exports::serde_json::value::RawValue>,) -> Result<Self, ::ruma_events::exports::serde_json::Error> {
        match event_type {
            "m.fully_read" => {
                let content = ::ruma_events::fully_read::FullyReadEventContent::from_parts(event_type, input)?;
                Ok(Self::FullyRead(content))
            },
            "m.typing" => {
                let content = ::ruma_events::typing::TypingEventContent::from_parts(event_type, input)?;
                Ok(Self::Typing(content))
            },
            ev_type => {
                let content = ::ruma_events::custom::CustomEventContent::from_parts(ev_type, input)?;
                Ok(Self::Custom(content))
            },
        }
    }
}
impl ::ruma_events::EphemeralRoomEventContent for AnyEphemeralRoomEventContent {
}
"##;
