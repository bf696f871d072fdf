use mcpg_plugin_identity_oidc_core::string_map::StringMap;
use mcpg_plugin_identity_oidc_core::text::{
    decimal_text, holds_text, is_blank, lower_chars, same_text, split_at_each, split_words,
    starts_with, strip_prefix, trim_end,
};

#[test]
fn pieces_rejoin_to_the_text() {
    for text in ["", ".", "a", "a.b", "..a.", "é.ü", "no dots"] {
        let pieces = split_at_each(text, '.');
        assert_eq!(pieces.join("."), text);
        assert!(pieces.iter().all(|p| !p.contains('.')));
        assert_eq!(pieces, text.split('.').collect::<Vec<_>>());
    }
    assert_eq!(split_at_each("opaque", '.'), vec!["opaque"]);
}

#[test]
fn words_are_what_stands_between_white_space() {
    for text in ["", " ", "a", " a\tb\n", "a\u{a0}b\u{2003}c", "\u{200b}x"] {
        assert_eq!(split_words(text), text.split_whitespace().collect::<Vec<_>>());
        assert_eq!(is_blank(text), text.trim().is_empty());
    }
}

#[test]
fn prefixes_and_ends() {
    assert!(starts_with("Bearer x", "Bearer "));
    assert!(!starts_with("Bear", "Bearer "));
    assert_eq!(strip_prefix("Bearer x", "Bearer "), Some("x"));
    assert_eq!(strip_prefix("x", ""), Some("x"));
    assert_eq!(strip_prefix("bearer x", "Bearer "), None);
    assert_eq!(trim_end("a//", '/'), "a");
    assert_eq!(trim_end("//", '/'), "");
    assert_eq!(trim_end("/a", '/'), "/a");
}

#[test]
fn comparisons() {
    assert!(same_text("ä", "ä") && !same_text("a", "b") && !same_text("a", "ab"));
    assert!(holds_text(&["a".to_owned(), "b".to_owned()], "b"));
    assert!(!holds_text(&["a".to_owned()], "A"));
    assert_eq!(lower_chars("AbZ[É"), vec!['a', 'b', 'z', '[', 'É']);
}

#[test]
fn numbers_in_decimal() {
    for n in [0, 9, 10, 300, 86_400, u64::MAX] {
        assert_eq!(decimal_text(n), n.to_string());
    }
}

#[test]
fn the_order_of_insertion_makes_no_difference() {
    let keys = ["b", "", "ab", "a", "é", "z"];
    let mut forwards = StringMap::new();
    let mut backwards = StringMap::default();
    for key in keys {
        forwards.insert(key.to_owned(), format!("v{key}"));
    }
    for key in keys.iter().rev() {
        backwards.insert((*key).to_owned(), format!("v{key}"));
    }
    assert_eq!(forwards, backwards);
    let mut sorted = keys.to_vec();
    sorted.sort();
    let walked: Vec<_> = (0..forwards.len()).map(|i| forwards.entry(i).0).collect();
    assert_eq!(walked, sorted);
}
