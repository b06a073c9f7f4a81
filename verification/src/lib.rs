//! Expansion of a list of Matrix event types into the source code of the enums that hold events
//! of those types.
//!
//! An event enum is asked for with its kind and its event types. For every variation in which
//! events of that kind occur, the expansion defines an enum with a variant for each event type
//! and one for all others, with methods, conversions and a way to read it from JSON; and it
//! defines one enum of event contents.

pub mod accessor;
pub mod changes;
pub mod code;
pub mod content;
pub mod contents;
pub mod conversion;
pub mod deserialize;
pub mod enum_item;
pub mod event_enum;
pub mod event_type;
pub mod field;
pub mod generated;
pub mod ident;
pub mod items;
pub mod kind;
pub mod laws;
pub mod lexical;
pub mod methods;
pub mod names;
pub mod redaction;
pub mod template;
pub mod text;
pub mod token;
pub mod variant;
