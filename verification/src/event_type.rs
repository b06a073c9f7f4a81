//! Matrix event types such as `m.room.member`, and the Rust names that are formed from them.

use crate::ident::{
    check_ident, continues_ident, is_ascii, is_ascii_text, is_ident, lemma_ascii_ident,
    lemma_ident_append, Ident,
};
use crate::text::{
    camel, camel_case, can_camel, check_camel, contains, contains_text, lemma_ascii_camel,
    lemma_ascii_pieces, lemma_camel_first, pieces, same, split, texts, Separator,
};
use crate::token::{
    append, concat, copy, lemma_concat_next, name, put_name, quote, quote_new, quoted, tokens_of,
    Token,
};
use proc_macro2::{Span, TokenStream};
use vstd::prelude::*;

verus! {

broadcast use crate::template::law_templates_consist_of_tokens;

/// The type of an event, as a string literal in source code gives it: the value of the literal,
/// its place, and the literal as it stands there.
pub struct EventType {
    pub value: String,
    pub span: Span,
    pub literal: TokenStream,
}

/// What the type of an event is, and how it stands in source code.
pub ghost struct Event {
    pub text: Seq<char>,
    pub span: Span,
    pub literal: Seq<Token>,
}

impl View for EventType {
    type V = Event;

    open spec fn view(&self) -> Event {
        Event { text: self.value@, span: self.span, literal: tokens_of(self.literal) }
    }
}

/// Why an event type was rejected, and where it stands.
pub struct EventTypeError {
    pub span: Span,
    pub message: String,
}

/// Whether a text can be cut behind its second byte: there are two, and no character lies
/// across the cut.
pub open spec fn can_cut_prefix(text: Seq<char>) -> bool {
    ||| text.len() >= 2 && is_ascii(text[0]) && is_ascii(text[1])
    ||| text.len() >= 1 && 128 <= text[0] as int && (text[0] as int) < 0x800
}

/// Whether an event type starts with `m.`, as all those do that Matrix defines.
pub open spec fn is_well_known(text: Seq<char>) -> bool {
    text.len() >= 2 && text[0] == 'm' && text[1] == '.'
}

/// An event type without its leading `m.`.
pub open spec fn without_prefix(text: Seq<char>) -> Seq<char> {
    text.skip(2)
}

/// The name of the enum variant for an event type: what follows the `m.`, cut at the dots and
/// underscores and put together again in camel case.
pub open spec fn variant_name(text: Seq<char>) -> Seq<char> {
    camel(pieces(without_prefix(text), Separator::DotOrUnderscore))
}

/// The modules that lead to an event: what follows the `m.`, cut at the dots.
pub open spec fn modules(text: Seq<char>) -> Seq<Seq<char>> {
    pieces(without_prefix(text), Separator::Dot)
}

/// The name of an event: its last module in camel case.
pub open spec fn event_name(text: Seq<char>) -> Seq<char> {
    camel(pieces(modules(text).last(), Separator::Underscore))
}

/// Whether an event type is either rejected or gives a variant name that Rust accepts.
pub open spec fn can_name_variant(text: Seq<char>) -> bool {
    &&& can_cut_prefix(text)
    &&& is_well_known(text) ==> {
        &&& can_camel(pieces(without_prefix(text), Separator::DotOrUnderscore))
        &&& is_ident(variant_name(text))
    }
}

/// Whether every module of an event type and the event's own name are names that Rust accepts.
pub open spec fn can_name_event(text: Seq<char>) -> bool {
    &&& is_well_known(text)
    &&& forall|i: int| 0 <= i < modules(text).len() ==> is_ident(#[trigger] modules(text)[i])
    &&& can_camel(pieces(modules(text).last(), Separator::Underscore))
    &&& is_ident(event_name(text))
}

/// What is said of an event type that does not start with `m.`.
pub open spec fn prefix_message(text: Seq<char>) -> Seq<char> {
    "well-known matrix events have to start with `m.` found `"@ + text + "`"@
}

pub fn starts_with_prefix(text: &str) -> (r: bool)
    ensures
        r == is_well_known(text@),
{
    text.unicode_len() >= 2 && text.get_char(0) == 'm' && text.get_char(1) == '.'
}

fn cut_prefix(text: &str) -> (r: &str)
    requires
        is_well_known(text@),
    ensures
        r@ == without_prefix(text@),
{
    let n: usize = text.unicode_len();
    assert(text@.subrange(2, n as int) =~= text@.skip(2));
    text.substring_char(2, n)
}

/// Names the enum variant for an event type. An event type that does not start with `m.` is an
/// error. There is no name if it is beyond ASCII and the compiler does not know a letter of it.
pub fn to_camel_case(event: &EventType) -> (r: Option<Result<Ident, EventTypeError>>)
    requires
        can_name_variant(event@.text),
    ensures
        !is_well_known(event@.text) ==> (r matches Some(Err(error)) && error.span == event@.span
            && error.message@ == prefix_message(event@.text)),
        is_well_known(event@.text) ==> match r {
            Some(Ok(ident)) => ident@ == (variant_name(event@.text), event@.span),
            Some(Err(_)) => false,
            None => !is_ascii_text(event@.text),
        },
{
    let text = event.value.as_str();
    if !starts_with_prefix(text) {
        let mut message = "well-known matrix events have to start with `m.` found `".to_owned();
        message.append(text);
        message.append("`");
        return Some(Err(EventTypeError { span: event.span, message }));
    }
    let list = split(cut_prefix(text), Separator::DotOrUnderscore);
    proof {
        if is_ascii_text(text@) {
            lemma_ascii_names(text@);
            lemma_ascii_ident(variant_name(text@));
        }
    }
    let ident = Ident::new(camel_case(&list), event.span)?;
    Some(Ok(ident))
}

/// The names that an event type in ASCII gives are ASCII.
pub proof fn lemma_ascii_names(text: Seq<char>)
    requires
        is_ascii_text(text),
        is_well_known(text),
    ensures
        can_camel(pieces(without_prefix(text), Separator::DotOrUnderscore)) ==> is_ascii_text(
            variant_name(text),
        ),
        forall|i: int| 0 <= i < modules(text).len() ==> is_ascii_text(#[trigger] modules(text)[i]),
        can_camel(pieces(modules(text).last(), Separator::Underscore)) ==> is_ascii_text(
            event_name(text),
        ),
{
    let inner = without_prefix(text);
    assert(is_ascii_text(inner));
    lemma_ascii_pieces(inner, Separator::DotOrUnderscore);
    lemma_ascii_pieces(inner, Separator::Dot);
    let last = modules(text).last();
    assert(is_ascii_text(last));
    lemma_ascii_pieces(last, Separator::Underscore);
    if can_camel(pieces(inner, Separator::DotOrUnderscore)) {
        lemma_ascii_camel(pieces(inner, Separator::DotOrUnderscore));
    }
    if can_camel(pieces(last, Separator::Underscore)) {
        lemma_ascii_camel(pieces(last, Separator::Underscore));
    }
}

/// Tells whether `to_camel_case` accepts an event type.
pub fn check_variant_name(event: &EventType) -> (r: bool)
    ensures
        r == can_name_variant(event@.text),
{
    let text = event.value.as_str();
    let n: usize = text.unicode_len();
    if n == 0 {
        return false;
    }
    let first = text.get_char(0) as u32;
    if first >= 0x800 || (first < 128 && (n < 2 || text.get_char(1) as u32 >= 128)) {
        return false;
    }
    if !starts_with_prefix(text) {
        return true;
    }
    let list = split(cut_prefix(text), Separator::DotOrUnderscore);
    check_camel(&list) && check_ident(camel_case(&list).as_str())
}

/// One step of a module path.
pub open spec fn module_step(module: Seq<char>, span: Span, site: Span) -> Seq<Token> {
    quoted("::"@, site) + name((module, span))
}

/// The steps of a module path.
pub open spec fn module_steps(event: Event, site: Span) -> Seq<Seq<Token>> {
    let path = modules(event.text);
    Seq::new(path.len(), |i: int| module_step(path[i], event.span, site))
}

/// The path of an item in the module of an event.
pub open spec fn item_path(
    event: Event,
    item: Seq<char>,
    import_path: Seq<Token>,
    site: Span,
) -> Seq<Token> {
    import_path + concat(module_steps(event, site)) + quoted("::"@, site) + name((item, site))
}

/// An event struct with the content of an event.
pub open spec fn event_with_content(
    event: Event,
    struct_name: (Seq<char>, Span),
    content: Seq<char>,
    import_path: Seq<Token>,
    site: Span,
) -> Seq<Token> {
    import_path + quoted("::"@, site) + name(struct_name) + quoted("<"@, site) + item_path(
        event,
        content,
        import_path,
        site,
    ) + quoted(">"@, site)
}

/// Whether events of a struct with this name are written out with their content, rather than by
/// an alias.
pub open spec fn has_no_alias(struct_name: Seq<char>) -> bool {
    ||| struct_name == "ToDeviceEvent"@
    ||| struct_name == "SyncStateEvent"@
    ||| struct_name == "StrippedStateEvent"@
    ||| struct_name == "InitialStateEvent"@
    ||| struct_name == "SyncMessageEvent"@
    ||| struct_name == "SyncEphemeralRoomEvent"@
}

/// The type of the events of an event type within an event struct. Redactions have a struct of
/// their own; a redacted event has redacted content.
pub open spec fn event_path(
    event: Event,
    struct_name: (Seq<char>, Span),
    import_path: Seq<Token>,
    site: Span,
) -> Seq<Token> {
    if event.text == "m.room.redaction"@ && struct_name.0 == "MessageEvent"@ {
        import_path + quoted(":: room :: redaction :: RedactionEvent"@, site)
    } else if event.text == "m.room.redaction"@ && struct_name.0 == "SyncMessageEvent"@ {
        import_path + quoted(":: room :: redaction :: SyncRedactionEvent"@, site)
    } else if has_no_alias(struct_name.0) {
        event_with_content(
            event,
            struct_name,
            event_name(event.text) + "EventContent"@,
            import_path,
            site,
        )
    } else if contains_text(struct_name.0, "Redacted"@) {
        event_with_content(
            event,
            struct_name,
            "Redacted"@ + event_name(event.text) + "EventContent"@,
            import_path,
            site,
        )
    } else {
        item_path(event, event_name(event.text) + "Event"@, import_path, site)
    }
}

/// The type of the content of an event type.
pub open spec fn content_path(
    event: Event,
    import_path: Seq<Token>,
    site: Span,
) -> Seq<Token> {
    item_path(event, event_name(event.text) + "EventContent"@, import_path, site)
}

/// The name of an event stays an identifier with these words around it.
pub proof fn lemma_item_names(text: Seq<char>)
    requires
        can_name_event(text),
    ensures
        is_ident(event_name(text) + "EventContent"@),
        is_ident("Redacted"@ + event_name(text) + "EventContent"@),
        is_ident(event_name(text) + "Event"@),
{
    let inner = event_name(text);
    reveal_strlit("EventContent");
    reveal_strlit("Redacted");
    reveal_strlit("Event");
    lemma_camel_first(pieces(modules(text).last(), Separator::Underscore));
    lemma_ident_append(inner, "EventContent"@);
    lemma_ident_append(inner, "Event"@);
    assert forall|i: int| 0 <= i < inner.len() implies continues_ident(#[trigger] inner[i]) by {
    }
    lemma_ident_append("Redacted"@, inner);
    lemma_ident_append("Redacted"@ + inner, "EventContent"@);
}

/// The names of the items of an event are ASCII if its event type is.
proof fn lemma_ascii_item_names(text: Seq<char>)
    requires
        can_name_event(text),
        is_ascii_text(text),
    ensures
        is_ascii_text(event_name(text) + "EventContent"@),
        is_ascii_text("Redacted"@ + event_name(text) + "EventContent"@),
        is_ascii_text(event_name(text) + "Event"@),
{
    reveal_strlit("EventContent");
    reveal_strlit("Redacted");
    reveal_strlit("Event");
    lemma_ascii_names(text);
}

/// An event type together with the names of the modules and the items that belong to it.
pub struct NamedEvent {
    ev_type: EventType,
    site: Span,
    modules: Vec<Ident>,
    event: Ident,
    content: Ident,
    redacted_content: Ident,
}

impl NamedEvent {
    #[verifier::type_invariant]
    spec fn is_valid(self) -> bool {
        let event = self.ev_type@;
        &&& can_name_event(event.text)
        &&& self.modules@.len() == modules(event.text).len()
        &&& forall|i: int|
            0 <= i < self.modules@.len() ==> (#[trigger] self.modules@[i])@ == (
                modules(event.text)[i],
                event.span,
            )
        &&& self.event@ == (event_name(event.text) + "Event"@, self.site)
        &&& self.content@ == (event_name(event.text) + "EventContent"@, self.site)
        &&& self.redacted_content@ == (
            "Redacted"@ + event_name(event.text) + "EventContent"@,
            self.site,
        )
    }

    /// The event type.
    pub closed spec fn event(self) -> Event {
        self.ev_type@
    }

    /// The span of the names of the items.
    pub closed spec fn site(self) -> Span {
        self.site
    }

    /// Names the modules and the items that belong to an event type, the items with the span
    /// `site`. There are no names if they are beyond ASCII and the compiler does not know a
    /// letter of them.
    pub fn new(ev_type: EventType, site: Span) -> (r: Option<NamedEvent>)
        requires
            can_name_event(ev_type@.text),
        ensures
            match r {
                Some(named) => named.event() == ev_type@ && named.site() == site,
                None => !is_ascii_text(ev_type@.text),
            },
    {
        let ghost text = ev_type@.text;
        proof {
            lemma_item_names(text);
            if is_ascii_text(text) {
                lemma_ascii_names(text);
                lemma_ascii_item_names(text);
                lemma_ascii_ident(event_name(text) + "Event"@);
                lemma_ascii_ident(event_name(text) + "EventContent"@);
                lemma_ascii_ident("Redacted"@ + event_name(text) + "EventContent"@);
            }
        }
        let list = split(cut_prefix(ev_type.value.as_str()), Separator::Dot);
        let n: usize = list.len();
        let mut path: Vec<Ident> = Vec::new();
        for i in 0..n
            invariant
                n == list@.len(),
                text == ev_type@.text,
                can_name_event(text),
                texts(list@) == modules(text),
                path@.len() == i,
                forall|j: int|
                    0 <= j < i ==> (#[trigger] path@[j])@ == (modules(text)[j], ev_type@.span),
        {
            proof {
                assert(modules(text)[i as int] == list@[i as int]@);
                lemma_ascii_ident(modules(text)[i as int]);
                if is_ascii_text(text) {
                    lemma_ascii_names(text);
                }
            }
            path.push(Ident::new(list[i].clone(), ev_type.span)?);
        }
        let last: usize = n - 1;
        assert(texts(list@).last() == list@[last as int]@);
        let name = camel_case(&split(list[last].as_str(), Separator::Underscore));
        let mut event = name.clone();
        event.append("Event");
        let mut content = name.clone();
        content.append("EventContent");
        let mut redacted_content = "Redacted".to_owned();
        redacted_content.append(content.as_str());
        assert(redacted_content@ =~= "Redacted"@ + event_name(text) + "EventContent"@);
        let event = Ident::new(event, site)?;
        let content = Ident::new(content, site)?;
        let redacted_content = Ident::new(redacted_content, site)?;
        Some(NamedEvent { ev_type, site, modules: path, event, content, redacted_content })
    }

    /// The event type as it stands in source code.
    pub fn literal(&self) -> (r: &TokenStream)
        ensures
            tokens_of(*r) == self.event().literal,
    {
        &self.ev_type.literal
    }

    fn item_path_new(&self, item: &Ident, import_path: &TokenStream) -> (r: TokenStream)
        requires
            item@.1 == self.site(),
        ensures
            tokens_of(r) == item_path(self.event(), item@.0, tokens_of(*import_path), self.site()),
    {
        proof {
            use_type_invariant(self);
        }
        let site = self.site;
        let ghost steps = module_steps(self.event(), site);
        let mut inner = TokenStream::new();
        let n: usize = self.modules.len();
        for i in 0..n
            invariant
                n == self.modules@.len(),
                self.is_valid(),
                steps == module_steps(self.event(), site),
                tokens_of(inner) == concat(steps.take(i as int)),
        {
            let mut step = quote_new("::", site);
            put_name(&mut step, &self.modules[i]);
            append(&mut inner, &step);
            proof {
                lemma_concat_next(steps, i as int);
            }
        }
        assert(steps.take(n as int) =~= steps);
        let mut path = copy(import_path);
        append(&mut path, &inner);
        quote(&mut path, "::", site);
        put_name(&mut path, item);
        path
    }

    fn event_with_content_new(
        &self,
        struct_name: &Ident,
        content: &Ident,
        import_path: &TokenStream,
    ) -> (r: TokenStream)
        requires
            content@.1 == self.site(),
        ensures
            tokens_of(r) == event_with_content(
                self.event(),
                struct_name@,
                content@.0,
                tokens_of(*import_path),
                self.site(),
            ),
    {
        let mut path = copy(import_path);
        quote(&mut path, "::", self.site);
        put_name(&mut path, struct_name);
        quote(&mut path, "<", self.site);
        append(&mut path, &self.item_path_new(content, import_path));
        quote(&mut path, ">", self.site);
        path
    }
}

/// What the events of a list are.
pub open spec fn events_of(list: Seq<NamedEvent>) -> Seq<Event> {
    Seq::new(list.len(), |i: int| list[i].event())
}

/// Whether the items of all events of a list are named with the span `site`.
pub open spec fn named_at(list: Seq<NamedEvent>, site: Span) -> bool {
    forall|i: int| 0 <= i < list.len() ==> (#[trigger] list[i]).site() == site
}

/// Gives the type of the events of an event type within an event struct.
pub fn to_event_path(
    event: &NamedEvent,
    struct_name: &Ident,
    import_path: &TokenStream,
) -> (r: TokenStream)
    ensures
        tokens_of(r) == event_path(
            event.event(),
            struct_name@,
            tokens_of(*import_path),
            event.site(),
        ),
{
    proof {
        use_type_invariant(event);
    }
    let is_redaction = same(event.ev_type.value.as_str(), "m.room.redaction");
    let text = struct_name.text();
    if is_redaction && same(text, "MessageEvent") {
        let mut path = copy(import_path);
        quote(&mut path, ":: room :: redaction :: RedactionEvent", event.site);
        path
    } else if is_redaction && same(text, "SyncMessageEvent") {
        let mut path = copy(import_path);
        quote(&mut path, ":: room :: redaction :: SyncRedactionEvent", event.site);
        path
    } else if same(text, "ToDeviceEvent") || same(text, "SyncStateEvent") || same(
        text,
        "StrippedStateEvent",
    ) || same(text, "InitialStateEvent") || same(text, "SyncMessageEvent") || same(
        text,
        "SyncEphemeralRoomEvent",
    ) {
        event.event_with_content_new(struct_name, &event.content, import_path)
    } else if contains(text, "Redacted") {
        event.event_with_content_new(struct_name, &event.redacted_content, import_path)
    } else {
        event.item_path_new(&event.event, import_path)
    }
}

/// Gives the type of the content of an event type.
pub fn to_event_content_path(event: &NamedEvent, import_path: &TokenStream) -> (r: TokenStream)
    ensures
        tokens_of(r) == content_path(event.event(), tokens_of(*import_path), event.site()),
{
    proof {
        use_type_invariant(event);
    }
    event.item_path_new(&event.content, import_path)
}

/// Tells whether the names that belong to an event type are ones that Rust accepts.
pub fn check_event_name(event: &EventType) -> (r: bool)
    ensures
        r == can_name_event(event@.text),
{
    let text = event.value.as_str();
    if !starts_with_prefix(text) {
        return false;
    }
    let list = split(cut_prefix(text), Separator::Dot);
    let n: usize = list.len();
    for i in 0..n
        invariant
            n == list@.len(),
            texts(list@) == modules(event@.text),
            forall|j: int| 0 <= j < i ==> is_ident(#[trigger] modules(event@.text)[j]),
    {
        assert(modules(event@.text)[i as int] == list@[i as int]@);
        if !check_ident(list[i].as_str()) {
            return false;
        }
    }
    let last: usize = n - 1;
    assert(modules(event@.text).last() == list@[last as int]@);
    let words = split(list[last].as_str(), Separator::Underscore);
    check_camel(&words) && check_ident(camel_case(&words).as_str())
}

} // verus!
