use pastebin::lang::{valid_lang, PasteLang};
use pastebin::paste_id::base62_symbol;
use pastebin::text::same_text;

#[test]
fn known_languages_are_accepted() {
    assert!(valid_lang("Java"));
    assert!(valid_lang("Rust"));
    assert!(!valid_lang("rust"));
    assert!(!valid_lang("Go"));
    assert!(!valid_lang(""));
    assert_eq!(PasteLang::from_param("Rust").unwrap().as_str(), "Rust");
    assert_eq!(PasteLang::from_param("Cobol").err(), Some("Cobol"));
}

#[test]
fn same_text_compares_whole_strings() {
    assert!(same_text("", ""));
    assert!(same_text("abcé", "abcé"));
    assert!(!same_text("abc", "abd"));
    assert!(!same_text("abc", "ab"));
    assert!(!same_text("xbc", "abc"));
}

#[test]
fn alphabet_symbols_in_order() {
    assert_eq!(base62_symbol(0), '0');
    assert_eq!(base62_symbol(9), '9');
    assert_eq!(base62_symbol(10), 'A');
    assert_eq!(base62_symbol(35), 'Z');
    assert_eq!(base62_symbol(36), 'a');
    assert_eq!(base62_symbol(61), 'z');
}
