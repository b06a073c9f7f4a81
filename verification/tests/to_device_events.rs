use event_enum::event_enum::try_expand_event_enum;
use event_enum::event_type::EventType;
use event_enum::kind::EventKind;
use event_enum::token::literal_new;
use event_enum::variant::{EventEnumEntry, EventEnumInput};
use proc_macro2::{Delimiter, Span, TokenStream, TokenTree};

fn parse(code: &str) -> TokenStream {
    code.parse().unwrap()
}

/// The tokens of a stream in order, brackets among them.
fn flat(stream: TokenStream, out: &mut Vec<String>) {
    for tree in stream {
        match tree {
            TokenTree::Group(group) => {
                let (open, close) = match group.delimiter() {
                    Delimiter::Parenthesis => ("(", ")"),
                    Delimiter::Brace => ("{", "}"),
                    Delimiter::Bracket => ("[", "]"),
                    Delimiter::None => ("", ""),
                };
                out.push(open.to_string());
                flat(group.stream(), out);
                out.push(close.to_string());
            }
            TokenTree::Ident(ident) => out.push(ident.to_string()),
            TokenTree::Punct(punct) => out.push(punct.as_char().to_string()),
            TokenTree::Literal(literal) => out.push(literal.to_string()),
        }
    }
}

fn tokens(stream: TokenStream) -> Vec<String> {
    let mut out = Vec::new();
    flat(stream, &mut out);
    out
}

fn entry(ev_type: &str, attrs: &[&str]) -> EventEnumEntry {
    EventEnumEntry {
        attrs: attrs.iter().map(|attr| parse(attr)).collect(),
        ev_type: EventType {
            value: ev_type.to_string(),
            span: Span::call_site(),
            literal: literal_new(ev_type, Span::call_site()),
        },
    }
}

#[test]
fn expands_to_device_events() {
    let input = EventEnumInput {
        attrs: vec![],
        name: EventKind::ToDevice,
        events: vec![entry("m.key.verification.start", &[])],
    };
    let code = try_expand_event_enum(input, &parse("::ruma_events")).unwrap();
    let code = code.map_err(|error| error.message).unwrap();
    assert_eq!(tokens(code), tokens(parse(EXPECTED)));
}

const EXPECTED: &str = r##"
#[derive(Clone, Debug, ::ruma_events::exports::serde::Serialize)]
#[serde(untagged)]
#[allow(clippy::large_enum_variant)]
pub enum AnyToDeviceEvent {
    #[doc = "m.key.verification.start"]
    KeyVerificationStart(::ruma_events::ToDeviceEvent<::ruma_events::key::verification::start::StartEventContent>), #[doc = " An event not defined by the Matrix specification"] Custom(::ruma_events::ToDeviceEvent<::ruma_events::custom::CustomEventContent>),
}
impl AnyToDeviceEvent {
    #[doc = " Returns the any content enum for this event."]
    pub fn content(&self) -> AnyToDeviceEventContent {
        match self {
            Self::KeyVerificationStart(event) => AnyToDeviceEventContent::KeyVerificationStart(event.content.clone()),
            Self::Custom(event) => AnyToDeviceEventContent::Custom(event.content.clone()),
        }
    }
    #[doc = "Returns this events sender field."]
    pub fn sender(&self) -> &::ruma_events::exports::ruma_identifiers::UserId {
        match self {
            Self::KeyVerificationStart(event) => &event.sender,
            Self::Custom(event) => &event.sender,
        }
    }
}
impl<'de> ::ruma_events::exports::serde::de::Deserialize<'de> for AnyToDeviceEvent {
    fn deserialize<D>(deserializer: D) -> Result<Self, D::Error> where D: ::ruma_events::exports::serde::de::Deserializer<'de>, {
        use ::ruma_events::exports::serde::de::Error as _;
        let json = Box::<::ruma_events::exports::serde_json::value::RawValue>::deserialize(deserializer)?;
        let ::ruma_events::EventDeHelper { ev_type, .. } = ::ruma_events::from_raw_json_value(&json)?;
        match ev_type.as_str() {
            "m.key.verification.start" => {
                let event = ::ruma_events::exports::serde_json::from_str::<::ruma_events::ToDeviceEvent<::ruma_events::key::verification::start::StartEventContent>>(json.get()).map_err(D::Error::custom)?;
                Ok(Self::KeyVerificationStart(event))
            },
            event => {
                let event = ::ruma_events::exports::serde_json::from_str::<::ruma_events::ToDeviceEvent<::ruma_events::custom::CustomEventContent>>(json.get()).map_err(D::Error::custom)?;
                Ok(Self::Custom(event))
            },
        }
    }
}
#[derive(Clone, Debug, ::ruma_events::exports::serde::Serialize)]
#[serde(untagged)]
#[allow(clippy::large_enum_variant)]
pub enum AnyToDeviceEventContent {
    #[doc = "m.key.verification.start"]
    KeyVerificationStart(::ruma_events::key::verification::start::StartEventContent),
    #[doc = " Content of an event not defined by the Matrix specification."]
    Custom(::ruma_events::custom::CustomEventContent),
}
impl ::ruma_events::EventContent for AnyToDeviceEventContent {
    fn event_type(&self) -> &str {
        match self {
            Self::KeyVerificationStart(content) => content.event_type(),
            Self::Custom(content) => content.event_type(),
        }
    }
    fn from_parts(event_type: &str, input: Box<::ruma_events::exports::serde_json::value::RawValue>,) -> Result<Self, ::ruma_events::exports::serde_json::Error> {
        match event_type {
            "m.key.verification.start" => {
                let content = ::ruma_events::key::verification::start::StartEventContent::from_parts(event_type, input)?;
                Ok(Self::KeyVerificationStart(content))
            },
            ev_type => {
                let content = ::ruma_events::custom::CustomEventContent::from_parts(ev_type, input)?;
                Ok(Self::Custom(content))
            },
        }
    }
}
"##;
