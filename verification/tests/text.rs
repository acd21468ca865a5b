//! Texts.

use tinymemory::text::{contains_text, to_ascii_lower};

#[test]
fn only_ascii_letters_are_lowered() {
    assert_eq!(to_ascii_lower("GMail @[`{ Z9"), "gmail @[`{ z9");
    assert_eq!(to_ascii_lower("\u{c9}COLE \u{130}"), "\u{c9}cole \u{130}");
    assert_eq!(to_ascii_lower(""), "");
}

#[test]
fn a_text_is_found_wherever_it_stands() {
    assert!(contains_text("connection reset", "connection"));
    assert!(contains_text("connection reset", "reset"));
    assert!(contains_text("aaab", "aab"));
    assert!(contains_text("caf\u{e9}s", "\u{e9}"));
    assert!(contains_text("", ""));
    assert!(contains_text("a", ""));
    assert!(!contains_text("", "a"));
    assert!(!contains_text("rese", "reset"));
    assert!(!contains_text("re set", "reset"));
}
