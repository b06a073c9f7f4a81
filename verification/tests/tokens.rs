use event_enum::ident::Ident;
use event_enum::token::{
    concat_new, copy, doc_comment_new, literal_new, name_new, present_new, put_braces,
    put_brackets, put_literal, put_name, put_parens, put_present, quote, quote_new,
};
use proc_macro2::{Delimiter, Spacing, Span, TokenStream, TokenTree};

fn site() -> Span {
    Span::call_site()
}

/// Each token with its spacing or its brackets.
fn describe(stream: TokenStream) -> Vec<String> {
    stream
        .into_iter()
        .map(|tree| match tree {
            TokenTree::Group(group) => format!(
                "{:?} of {}",
                group.delimiter(),
                group.stream().into_iter().count()
            ),
            TokenTree::Ident(ident) => format!("ident {}", ident),
            TokenTree::Punct(punct) => format!("{:?} {}", punct.spacing(), punct.as_char()),
            TokenTree::Literal(literal) => format!("literal {}", literal),
        })
        .collect()
}

#[test]
fn templates_become_identifiers_and_operators() {
    assert_eq!(
        describe(quote_new("impl < ' de > a :: b => & c ..", site())),
        [
            "ident impl", "Alone <", "Joint '", "ident de", "Alone >", "ident a", "Joint :",
            "Alone :", "ident b", "Joint =", "Alone >", "Alone &", "ident c", "Joint .", "Alone .",
        ]
    );
}

#[test]
fn every_word_of_a_template_becomes_a_token() {
    assert_eq!(describe(quote_new("_", site())), ["ident _"]);
    assert_eq!(describe(quote_new("a1 ..", site())), ["ident a1", "Joint .", "Alone ."]);
    assert_eq!(quote_new(":: a , b ;", site()).into_iter().count(), 6);
}

#[test]
fn a_template_is_read_word_by_word() {
    let mut parts = quote_new("pub enum", site());
    quote(&mut parts, "Name <", site());
    assert_eq!(describe(parts), describe(quote_new("pub enum Name <", site())));
}

#[test]
fn groups_hold_their_tokens() {
    let mut stream = quote_new("f", site());
    put_parens(&mut stream, quote_new("a , b", site()));
    put_braces(&mut stream, quote_new("c", site()));
    put_brackets(&mut stream, TokenStream::new());
    assert_eq!(
        describe(stream.clone()),
        ["ident f", "Parenthesis of 3", "Brace of 1", "Bracket of 0"]
    );
    match stream.into_iter().nth(2).unwrap() {
        TokenTree::Group(group) => {
            assert_eq!(group.delimiter(), Delimiter::Brace);
            assert_eq!(group.stream().to_string(), "c");
        }
        _ => panic!("no group"),
    }
}

#[test]
fn literals_keep_their_value() {
    let mut stream = literal_new("a\"b\\c", site());
    put_literal(&mut stream, "m.room", site());
    assert_eq!(describe(stream), ["literal \"a\\\"b\\\\c\"", "literal \"m.room\""]);
}

#[test]
fn names_are_appended() {
    let ident = Ident::new("Room".to_string(), site()).unwrap();
    let mut stream = name_new(&ident);
    put_name(&mut stream, &ident);
    assert_eq!(describe(stream), ["ident Room", "ident Room"]);
}

#[test]
fn names_beyond_ascii_are_kept_outside_a_macro() {
    for text in ["\u{e9}t\u{e9}", "e\u{301}"] {
        let ident = Ident::new(text.to_string(), site()).unwrap();
        assert_eq!(name_new(&ident).to_string(), text);
    }
}

#[test]
fn only_identifiers_become_names() {
    for text in ["", "1a", "a-b", "a b", "\u{301}", "r#type", "\u{20ac}"] {
        assert!(Ident::new(text.to_string(), site()).is_none());
    }
    for text in ["_", "_1", "type", "Self", "\u{65e5}\u{672c}"] {
        let ident = Ident::new(text.to_string(), site()).unwrap();
        assert_eq!(ident.text(), text);
        assert_eq!(ident.tokens().to_string(), text);
    }
}

#[test]
fn streams_are_put_together() {
    let a = quote_new("a", site());
    let b = quote_new("b ,", site());
    assert_eq!(describe(copy(&b)), ["ident b", "Alone ,"]);
    assert_eq!(describe(concat_new(&vec![a, b])), ["ident a", "ident b", "Alone ,"]);
}

#[test]
fn what_is_absent_has_no_tokens() {
    let mut stream = present_new(&None);
    assert!(stream.is_empty());
    put_present(&mut stream, &Some(quote_new("a", site())));
    put_present(&mut stream, &None);
    assert_eq!(describe(stream), ["ident a"]);
    assert_eq!(describe(present_new(&Some(quote_new("b", site())))), ["ident b"]);
}

#[test]
fn doc_comments_are_attributes() {
    assert_eq!(
        doc_comment_new(" Text.", site()).to_string().replace(' ', ""),
        "#[doc=\"Text.\"]"
    );
}

#[test]
fn spacing_of_a_lone_character_is_alone() {
    match quote_new("?", site()).into_iter().next().unwrap() {
        TokenTree::Punct(punct) => assert_eq!(punct.spacing(), Spacing::Alone),
        _ => panic!("no punctuation"),
    }
}
