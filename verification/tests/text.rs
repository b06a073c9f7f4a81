use event_enum::ident::check_ident;
use event_enum::text::{camel_case, contains, same, split, Separator};

#[test]
fn texts_are_cut_at_separators() {
    assert_eq!(split("a.b_c", Separator::DotOrUnderscore), ["a", "b", "c"]);
    assert_eq!(split("a.b_c", Separator::Dot), ["a", "b_c"]);
    assert_eq!(split("a.b_c", Separator::Underscore), ["a.b", "c"]);
    assert_eq!(split("a b", Separator::Space), ["a", "b"]);
    assert_eq!(split("", Separator::Dot), [""]);
    assert_eq!(split(".a.", Separator::Dot), ["", "a", ""]);
}

#[test]
fn pieces_make_up_the_text() {
    for text in ["", ".", "a", "room.power_levels", "a..b", "\u{65e5}.\u{672c}"] {
        assert_eq!(split(text, Separator::Dot).join("."), text);
        assert_eq!(split(text, Separator::Underscore).join("_"), text);
    }
}

#[test]
fn pieces_of_two_texts_are_those_of_both() {
    let mut both = split("a_b", Separator::DotOrUnderscore);
    both.extend(split("c", Separator::DotOrUnderscore));
    assert_eq!(split("a_b.c", Separator::DotOrUnderscore), both);
}

#[test]
fn camel_case_capitalizes_each_piece() {
    let list = |items: &[&str]| items.iter().map(|item| item.to_string()).collect::<Vec<_>>();
    assert_eq!(camel_case(&list(&["power", "levels"])), "PowerLevels");
    assert_eq!(camel_case(&list(&["z", "A", "1a", "b\u{e9}"])), "ZA1aB\u{e9}");
    assert_eq!(camel_case(&list(&[])), "");
}

#[test]
fn identifiers_are_recognized() {
    for text in ["a", "_", "_a1", "fn", "Self", "gr\u{f6}\u{df}e", "\u{65e5}\u{672c}"] {
        assert!(check_ident(text), "{}", text);
    }
    for text in ["", "1", "1a", "a-b", "a b", "'a", "a.b", "r#a", "\u{20ac}", "a\u{20ac}"] {
        assert!(!check_ident(text), "{}", text);
    }
}

#[test]
fn texts_are_compared_and_searched() {
    assert!(same("m.room", "m.room"));
    assert!(!same("m.room", "m.rooM"));
    assert!(contains("RedactedSyncStateEvent", "Redacted"));
    assert!(contains("AnyRedacted", "Redacted"));
    assert!(contains("a", ""));
    assert!(!contains("SyncStateEvent", "Redacted"));
    assert!(!contains("Red", "Redacted"));
}
