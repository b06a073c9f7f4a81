use event_enum::event_enum::try_expand_event_enum;
use event_enum::event_type::EventType;
use event_enum::kind::EventKind;
use event_enum::token::literal_new;
use event_enum::variant::{EventEnumEntry, EventEnumInput};
use proc_macro2::{Delimiter, Span, TokenStream, TokenTree};

fn parse(code: &str) -> TokenStream {
    code.parse().unwrap()
}

/// The tokens of a stream in order, brackets among them.
fn flat(stream: TokenStream, out: &mut Vec<String>) {
    for tree in stream {
        match tree {
            TokenTree::Group(group) => {
                let (open, close) = match group.delimiter() {
                    Delimiter::Parenthesis => ("(", ")"),
                    Delimiter::Brace => ("{", "}"),
                    Delimiter::Bracket => ("[", "]"),
                    Delimiter::None => ("", ""),
                };
                out.push(open.to_string());
                flat(group.stream(), out);
                out.push(close.to_string());
            }
            TokenTree::Ident(ident) => out.push(ident.to_string()),
            TokenTree::Punct(punct) => out.push(punct.as_char().to_string()),
            TokenTree::Literal(literal) => out.push(literal.to_string()),
        }
    }
}

fn tokens(stream: TokenStream) -> Vec<String> {
    let mut out = Vec::new();
    flat(stream, &mut out);
    out
}

fn entry(ev_type: &str, attrs: &[&str]) -> EventEnumEntry {
    EventEnumEntry {
        attrs: attrs.iter().map(|attr| parse(attr)).collect(),
        ev_type: EventType {
            value: ev_type.to_string(),
            span: Span::call_site(),
            literal: literal_new(ev_type, Span::call_site()),
        },
    }
}

#[test]
fn expands_basic_events() {
    let input = EventEnumInput {
        attrs: vec![parse(r##"#[doc = " Any basic event."]"##)],
        name: EventKind::Basic,
        events: vec![entry("m.direct", &[]), entry("m.push_rules", &[])],
    };
    let code = try_expand_event_enum(input, &parse("::ruma_events")).unwrap();
    let code = code.map_err(|error| error.message).unwrap();
    assert_eq!(tokens(code), tokens(parse(EXPECTED)));
}

const EXPECTED: &str = r##"
#[doc = " Any basic event."]
#[derive(Clone, Debug, ::ruma_events::exports::serde::Serialize)]
#[serde(untagged)]
#[allow(clippy::large_enum_variant)]
pub enum AnyBasicEvent {
    #[doc = "m.direct"]
    Direct(::ruma_events::direct::DirectEvent),
    #[doc = "m.push_rules"]
    PushRules(::ruma_events::push_rules::PushRulesEvent),
    #[doc = " An event not defined by the Matrix specification"]
    Custom(::ruma_events::BasicEvent<::ruma_events::custom::CustomEventContent>),
}
impl AnyBasicEvent {
    #[doc = " Returns the any content enum for this event."]
    pub fn content(&self) -> AnyBasicEventContent {
        match self {
            Self::Direct(event) => AnyBasicEventContent::Direct(event.content.clone()),
            Self::PushRules(event) => AnyBasicEventContent::PushRules(event.content.clone()),
            Self::Custom(event) => AnyBasicEventContent::Custom(event.content.clone()),
        }
    }
}
impl<'de> ::ruma_events::exports::serde::de::Deserialize<'de> for AnyBasicEvent {
    fn deserialize<D>(deserializer: D) -> Result<Self, D::Error> where D: ::ruma_events::exports::serde::de::Deserializer<'de>, {
        use ::ruma_events::exports::serde::de::Error as _;
        let json = Box::<::ruma_events::exports::serde_json::value::RawValue>::deserialize(deserializer)?;
        let ::ruma_events::EventDeHelper { ev_type, .. } = ::ruma_events::from_raw_json_value(&json)?;
        match ev_type.as_str() {
            "m.direct" => {
                let event = ::ruma_events::exports::serde_json::from_str::<::ruma_events::direct::DirectEvent>(json.get()).map_err(D::Error::custom)?;
                Ok(Self::Direct(event))
            },
            "m.push_rules" => {
                let event = ::ruma_events::exports::serde_json::from_str::<::ruma_events::push_rules::PushRulesEvent>(json.get()).map_err(D::Error::custom)?;
                Ok(Self::PushRules(event))
            },
            event => {
                let event = ::ruma_events::exports::serde_json::from_str::<::ruma_events::BasicEvent<::ruma_events::custom::CustomEventContent>>(json.get()).map_err(D::Error::custom)?;
                Ok(Self::Custom(event))
            },
        }
    }
}
#[doc = " Any basic event."]
#[derive(Clone, Debug, ::ruma_events::exports::serde::Serialize)]
#[serde(untagged)]
#[allow(clippy::large_enum_variant)]
pub enum AnyBasicEventContent {
    #[doc = "m.direct"]
    Direct(::ruma_events::direct::DirectEventContent),
    #[doc = "m.push_rules"]
    PushRules(::ruma_events::push_rules::PushRulesEventContent),
    #[doc = " Content of an event not defined by the Matrix specification."]
    Custom(::ruma_events::custom::CustomEventContent),
}
impl ::ruma_events::EventContent for AnyBasicEventContent {
    fn event_type(&self) -> &str {
        match self {
            Self::Direct(content) => content.event_type(),
            Self::PushRules(content) => content.event_type(),
            Self::Custom(content) => content.event_type(),
        }
    }
    fn from_parts(event_type: &str, input: Box<::ruma_events::exports::serde_json::value::RawValue>,) -> Result<Self, ::ruma_events::exports::serde_json::Error> {
        match event_type {
            "m.direct" => {
                let content = ::ruma_events::direct::DirectEventContent::from_parts(event_type, input)?;
                Ok(Self::Direct(content))
            },
            "m.push_rules" => {
                let content = ::ruma_events::push_rules::PushRulesEventContent::from_parts(event_type, input)?;
                Ok(Self::PushRules(content))
            },
            ev_type => {
                let content = ::ruma_events::custom::CustomEventContent::from_parts(ev_type, input)?;
                Ok(Self::Custom(content))
            },
        }
    }
}
impl ::ruma_events::BasicEventContent for AnyBasicEventContent {
}
"##;
