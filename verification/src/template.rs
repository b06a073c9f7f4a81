//! The templates that the expansion is written with.

use crate::ident::{is_ascii_letter, is_ascii_word};
use crate::text::{pieces, Separator};
use crate::token::{is_punct, is_template, is_word};
use vstd::prelude::*;

verus! {

/// Whether `template` is one of the templates that the expansion is written with.
pub open spec fn is_in_use(template: Seq<char>) -> bool {
    ||| template == "#"@
    ||| template == "& json"@
    ||| template == "& self"@
    ||| template == ", .."@
    ||| template == ", version :"@
    ||| template == ","@
    ||| template == "-> & str"@
    ||| template == "-> &"@
    ||| template == "-> Option <"@
    ||| template == "-> Result < Self , D :: Error > where D :"@
    ||| template == "-> Result < Self ,"@
    ||| template == "-> Self"@
    ||| template == "->"@
    ||| template == ". map"@
    ||| template == ". map_err"@
    ||| template == ": event ."@
    ||| template == ":: BasicEventContent"@
    ||| template == ":: Custom"@
    ||| template == ":: EphemeralRoomEventContent"@
    ||| template == ":: EventContent for"@
    ||| template == ":: EventDeHelper"@
    ||| template == ":: MessageEventContent"@
    ||| template == ":: RedactedSyncUnsigned"@
    ||| template == ":: RedactedUnsigned"@
    ||| template == ":: RoomEventContent"@
    ||| template == ":: RoomRedaction"@
    ||| template == ":: StateEventContent"@
    ||| template == ":: Unsigned"@
    ||| template == ":: custom :: CustomEventContent :: from_parts"@
    ||| template == ":: custom :: CustomEventContent >"@
    ||| template == ":: custom :: CustomEventContent"@
    ||| template == ":: custom :: RedactedCustomEventContent >"@
    ||| template == ":: exports :: ruma_identifiers :: EventId"@
    ||| template == ":: exports :: ruma_identifiers :: RoomId"@
    ||| template == ":: exports :: ruma_identifiers :: RoomVersionId ,"@
    ||| template == ":: exports :: ruma_identifiers :: UserId"@
    ||| template == ":: exports :: serde :: Serialize"@
    ||| template == ":: exports :: serde :: de :: Deserialize < ' de > for"@
    ||| template == ":: exports :: serde :: de :: Deserializer < ' de > ,"@
    ||| template == ":: exports :: serde :: de :: Error as _ ;"@
    ||| template == ":: exports :: serde_json :: Error >"@
    ||| template == ":: exports :: serde_json :: from_str :: <"@
    ||| template == ":: exports :: serde_json :: value :: RawValue > ,"@
    ||| template == ":: exports :: serde_json :: value :: RawValue > :: deserialize"@
    ||| template == ":: from"@
    ||| template == ":: from_parts"@
    ||| template == ":: from_raw_json_value"@
    ||| template == ":: room :: redaction :: RedactionEvent"@
    ||| template == ":: room :: redaction :: SyncRedactionEvent :: from"@
    ||| template == ":: room :: redaction :: SyncRedactionEvent"@
    ||| template == ":: std :: boxed :: Box :: new"@
    ||| template == ":: std :: time :: SystemTime"@
    ||| template == "::"@
    ||| template == ";"@
    ||| template == "<"@
    ||| template == "="@
    ||| template == "=> & event ."@
    ||| template == "=> Self :: RoomRedaction"@
    ||| template == "=> content . event_type"@
    ||| template == "=>"@
    ||| template == "> for"@
    ||| template == ">"@
    ||| template == "? ; Ok"@
    ||| template == "? ;"@
    ||| template == "?"@
    ||| template == "Clone , Debug ,"@
    ||| template == "Custom"@
    ||| template == "D :: Error :: custom"@
    ||| template == "Ok"@
    ||| template == "Redacted"@
    ||| template == "Regular"@
    ||| template == "Self :: Custom"@
    ||| template == "Self :: Redacted"@
    ||| template == "Self :: RoomRedaction"@
    ||| template == "Self ::"@
    ||| template == "Some"@
    ||| template == "_ => Self :: Regular"@
    ||| template == "allow"@
    ||| template == "c . clone"@
    ||| template == "clippy :: large_enum_variant"@
    ||| template == "content ,"@
    ||| template == "content"@
    ||| template == "derive"@
    ||| template == "deserializer : D"@
    ||| template == "deserializer"@
    ||| template == "doc ="@
    ||| template == "ev_type , input"@
    ||| template == "ev_type =>"@
    ||| template == "ev_type"@
    ||| template == "event . content . clone"@
    ||| template == "event . into_full_event"@
    ||| template == "event . prev_content . as_ref"@
    ||| template == "event :"@
    ||| template == "event =>"@
    ||| template == "event"@
    ||| template == "event_type , input"@
    ||| template == "event_type : & str , input : Box <"@
    ||| template == "fn deserialize < D >"@
    ||| template == "fn event_type"@
    ||| template == "fn from"@
    ||| template == "fn from_parts"@
    ||| template == "for"@
    ||| template == "if unsigned . redacted_because . is_some"@
    ||| template == "impl < ' de >"@
    ||| template == "impl From <"@
    ||| template == "impl"@
    ||| template == "json . get"@
    ||| template == "let content = event . content . redact"@
    ||| template == "let content ="@
    ||| template == "let event ="@
    ||| template == "let json = Box :: <"@
    ||| template == "let"@
    ||| template == "match ev_type . as_str"@
    ||| template == "match event"@
    ||| template == "match event_type"@
    ||| template == "match self"@
    ||| template == "match unsigned"@
    ||| template == "pub enum"@
    ||| template == "pub fn content"@
    ||| template == "pub fn into_full_event"@
    ||| template == "pub fn prev_content"@
    ||| template == "pub fn redact"@
    ||| template == "pub fn"@
    ||| template == "redacted_because : Some"@
    ||| template == "redaction"@
    ||| template == "room_id"@
    ||| template == "self , redaction :"@
    ||| template == "self , room_id :"@
    ||| template == "serde"@
    ||| template == "str"@
    ||| template == "unsigned :"@
    ||| template == "unsigned"@
    ||| template == "untagged"@
    ||| template == "use"@
    ||| template == "version"@
    ||| template == "| c |"@
}

/// Every template that the expansion is written with consists of identifiers and operators, so
/// that every part of it becomes a token.
pub broadcast proof fn law_templates_consist_of_tokens(template: Seq<char>)
    requires
        is_in_use(template),
    ensures
        #[trigger] is_template(template),
{
    reveal_strlit("#");
    reveal_strlit("& json");
    reveal_strlit("& self");
    reveal_strlit(", ..");
    reveal_strlit(", version :");
    reveal_strlit(",");
    reveal_strlit("-> & str");
    reveal_strlit("-> &");
    reveal_strlit("-> Option <");
    reveal_strlit("-> Result < Self , D :: Error > where D :");
    reveal_strlit("-> Result < Self ,");
    reveal_strlit("-> Self");
    reveal_strlit("->");
    reveal_strlit(". map");
    reveal_strlit(". map_err");
    reveal_strlit(": event .");
    reveal_strlit(":: BasicEventContent");
    reveal_strlit(":: Custom");
    reveal_strlit(":: EphemeralRoomEventContent");
    reveal_strlit(":: EventContent for");
    reveal_strlit(":: EventDeHelper");
    reveal_strlit(":: MessageEventContent");
    reveal_strlit(":: RedactedSyncUnsigned");
    reveal_strlit(":: RedactedUnsigned");
    reveal_strlit(":: RoomEventContent");
    reveal_strlit(":: RoomRedaction");
    reveal_strlit(":: StateEventContent");
    reveal_strlit(":: Unsigned");
    reveal_strlit(":: custom :: CustomEventContent :: from_parts");
    reveal_strlit(":: custom :: CustomEventContent >");
    reveal_strlit(":: custom :: CustomEventContent");
    reveal_strlit(":: custom :: RedactedCustomEventContent >");
    reveal_strlit(":: exports :: ruma_identifiers :: EventId");
    reveal_strlit(":: exports :: ruma_identifiers :: RoomId");
    reveal_strlit(":: exports :: ruma_identifiers :: RoomVersionId ,");
    reveal_strlit(":: exports :: ruma_identifiers :: UserId");
    reveal_strlit(":: exports :: serde :: Serialize");
    reveal_strlit(":: exports :: serde :: de :: Deserialize < ' de > for");
    reveal_strlit(":: exports :: serde :: de :: Deserializer < ' de > ,");
    reveal_strlit(":: exports :: serde :: de :: Error as _ ;");
    reveal_strlit(":: exports :: serde_json :: Error >");
    reveal_strlit(":: exports :: serde_json :: from_str :: <");
    reveal_strlit(":: exports :: serde_json :: value :: RawValue > ,");
    reveal_strlit(":: exports :: serde_json :: value :: RawValue > :: deserialize");
    reveal_strlit(":: from");
    reveal_strlit(":: from_parts");
    reveal_strlit(":: from_raw_json_value");
    reveal_strlit(":: room :: redaction :: RedactionEvent");
    reveal_strlit(":: room :: redaction :: SyncRedactionEvent :: from");
    reveal_strlit(":: room :: redaction :: SyncRedactionEvent");
    reveal_strlit(":: std :: boxed :: Box :: new");
    reveal_strlit(":: std :: time :: SystemTime");
    reveal_strlit("::");
    reveal_strlit(";");
    reveal_strlit("<");
    reveal_strlit("=");
    reveal_strlit("=> & event .");
    reveal_strlit("=> Self :: RoomRedaction");
    reveal_strlit("=> content . event_type");
    reveal_strlit("=>");
    reveal_strlit("> for");
    reveal_strlit(">");
    reveal_strlit("? ; Ok");
    reveal_strlit("? ;");
    reveal_strlit("?");
    reveal_strlit("Clone , Debug ,");
    reveal_strlit("Custom");
    reveal_strlit("D :: Error :: custom");
    reveal_strlit("Ok");
    reveal_strlit("Redacted");
    reveal_strlit("Regular");
    reveal_strlit("Self :: Custom");
    reveal_strlit("Self :: Redacted");
    reveal_strlit("Self :: RoomRedaction");
    reveal_strlit("Self ::");
    reveal_strlit("Some");
    reveal_strlit("_ => Self :: Regular");
    reveal_strlit("allow");
    reveal_strlit("c . clone");
    reveal_strlit("clippy :: large_enum_variant");
    reveal_strlit("content ,");
    reveal_strlit("content");
    reveal_strlit("derive");
    reveal_strlit("deserializer : D");
    reveal_strlit("deserializer");
    reveal_strlit("doc =");
    reveal_strlit("ev_type , input");
    reveal_strlit("ev_type =>");
    reveal_strlit("ev_type");
    reveal_strlit("event . content . clone");
    reveal_strlit("event . into_full_event");
    reveal_strlit("event . prev_content . as_ref");
    reveal_strlit("event :");
    reveal_strlit("event =>");
    reveal_strlit("event");
    reveal_strlit("event_type , input");
    reveal_strlit("event_type : & str , input : Box <");
    reveal_strlit("fn deserialize < D >");
    reveal_strlit("fn event_type");
    reveal_strlit("fn from");
    reveal_strlit("fn from_parts");
    reveal_strlit("for");
    reveal_strlit("if unsigned . redacted_because . is_some");
    reveal_strlit("impl < ' de >");
    reveal_strlit("impl From <");
    reveal_strlit("impl");
    reveal_strlit("json . get");
    reveal_strlit("let content = event . content . redact");
    reveal_strlit("let content =");
    reveal_strlit("let event =");
    reveal_strlit("let json = Box :: <");
    reveal_strlit("let");
    reveal_strlit("match ev_type . as_str");
    reveal_strlit("match event");
    reveal_strlit("match event_type");
    reveal_strlit("match self");
    reveal_strlit("match unsigned");
    reveal_strlit("pub enum");
    reveal_strlit("pub fn content");
    reveal_strlit("pub fn into_full_event");
    reveal_strlit("pub fn prev_content");
    reveal_strlit("pub fn redact");
    reveal_strlit("pub fn");
    reveal_strlit("redacted_because : Some");
    reveal_strlit("redaction");
    reveal_strlit("room_id");
    reveal_strlit("self , redaction :");
    reveal_strlit("self , room_id :");
    reveal_strlit("serde");
    reveal_strlit("str");
    reveal_strlit("unsigned :");
    reveal_strlit("unsigned");
    reveal_strlit("untagged");
    reveal_strlit("use");
    reveal_strlit("version");
    reveal_strlit("| c |");
    lemma_template(template);
}

/// Whether the character at `i` may stand there, as far as the one before it tells: a space stands
/// behind a word, punctuation behind a space or punctuation, a letter behind a space or a
/// character of an identifier, and a digit behind the latter alone.
spec fn follows(text: Seq<char>, i: int) -> bool {
    let first = i == 0 || text[i - 1] == ' ';
    if text[i] == ' ' {
        !first
    } else if is_punct(text[i]) {
        first || is_punct(text[i - 1])
    } else if is_ascii_letter(text[i]) || text[i] == '_' {
        first || is_ascii_word(text[i - 1])
    } else {
        is_ascii_word(text[i]) && !first && is_ascii_word(text[i - 1])
    }
}

/// A text is a template if every character may stand behind the one before it and the last is no
/// space.
proof fn lemma_template(text: Seq<char>)
    requires
        text.len() > 0,
        text.last() != ' ',
        forall|i: int| 0 <= i < text.len() ==> #[trigger] follows(text, i),
    ensures
        is_template(text),
{
    reveal(is_template);
    lemma_words(text);
}

/// The pieces of such a text are words, but for the last one of a text that ends in a space.
proof fn lemma_words(text: Seq<char>)
    requires
        forall|i: int| 0 <= i < text.len() ==> #[trigger] follows(text, i),
    ensures
        ({
            let words = pieces(text, Separator::Space);
            &&& words.len() > 0
            &&& forall|i: int| 0 <= i < words.len() - 1 ==> is_word(#[trigger] words[i])
            &&& if text.len() == 0 || text.last() == ' ' {
                words.last().len() == 0
            } else {
                is_word(words.last()) && words.last().last() == text.last()
            }
        }),
    decreases text.len(),
{
    if text.len() > 0 {
        let start = text.drop_last();
        assert forall|i: int| 0 <= i < start.len() implies #[trigger] follows(start, i) by {
            assert(follows(text, i));
        }
        lemma_words(start);
        assert(follows(text, text.len() - 1));
    }
}

} // verus!
