use lightpool_bridge::codec::HexError;
use lightpool_bridge::text::{blank, cat, cat3, has_text, join, same_text, strip_0x};

#[test]
fn marks_are_taken_off_repeatedly() {
    assert_eq!(strip_0x("0x0xab"), "ab");
    assert_eq!(strip_0x("ab"), "ab");
    assert_eq!(strip_0x("0X12"), "0X12");
    assert_eq!(strip_0x(""), "");
}

#[test]
fn blank_texts() {
    assert!(blank(""));
    assert!(blank(" \t\r\n\u{a0}\u{2003}\u{3000}"));
    assert!(!blank(" a "));
    assert!(!blank("\u{200b}"));
}

#[test]
fn joined_texts() {
    assert_eq!(join(&Vec::new(), ","), "");
    assert_eq!(join(&vec!["a".to_string()], ","), "a");
    assert_eq!(join(&vec!["a".to_string(), "b".to_string(), String::new()], ","), "a,b,");
    assert_eq!(cat("a", "b"), "ab");
    assert_eq!(cat3("a", "", "c"), "ac");
}

#[test]
fn texts_are_compared_by_contents() {
    assert!(same_text("abc", "abc"));
    assert!(!same_text("abc", "abd"));
    let list = vec!["x".to_string(), "y".to_string()];
    assert!(has_text(&list, "y"));
    assert!(!has_text(&list, "z"));
}

#[test]
fn hex_errors_have_their_texts() {
    assert_eq!(HexError::OddLength.message(), "Odd number of digits");
    assert_eq!(HexError::InvalidStringLength.message(), "Invalid string length");
    assert_eq!(
        HexError::InvalidHexCharacter { c: '\n', index: 12 }.message(),
        "Invalid character '\\n' at position 12"
    );
}
