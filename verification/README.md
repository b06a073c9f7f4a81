# event-enum

Expands a list of Matrix event types into the source code of the enums that hold events of those
types, as a token stream. The library is written and proved in Verus.

* `src/event_enum.rs` holds the expansion as a whole; `expand_event_enum` is its entry, and
  `try_expand_event_enum` the entry for event types that may be malformed. Names are made before
  any code is written, because beyond ASCII the compiler decides which letters it knows; what
  writes code is handed a `NamedEvent` for each event type and cannot fail.
* `src/accessor.rs`, `conversion.rs`, `redaction.rs`, `content.rs`, `enum_item.rs` and
  `deserialize.rs` hold the parts of the generated code.
* `src/kind.rs`, `field.rs`, `event_type.rs` and `variant.rs` say what events there are and what
  they are called.
* `src/token.rs`, `ident.rs` and `text.rs` are what code is written with. The contracts of the
  functions of `proc_macro2`, `quote`, `syn` and `unicode_ident` that the library calls stand
  there.
* `src/template.rs` lists the templates that the generated code is written with and proves that
  each consists of tokens.
* `src/laws.rs` and `src/lexical.rs` prove properties of the expansion as a whole.
* `app/` turns parsed macro input into the library's types.

Every function that writes code has a spec function beside it that gives the tokens it writes. A
template such as `"impl From <"` stands for its words in turn, each an identifier or an operator;
brackets are written with `parens`, `braces` and `brackets`.
