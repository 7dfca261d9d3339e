use checklist::cli::{verbosity, Verbosity};
use checklist::extract::{is_section_delimiter, name_from_document, strip_comment_chars};
use checklist::text::{chars_of, contains, push_decimal};
use checklist::{TomlEntry, TomlValue};

#[test]
fn contains_finds_patterns() {
    assert!(contains("", ""));
    assert!(contains("abc", ""));
    assert!(contains("abc", "abc"));
    assert!(contains("abc", "bc"));
    assert!(contains("aab", "ab"));
    assert!(contains("x [OPTIONAL]", "[OPTIONAL]"));
    assert!(!contains("abc", "abcd"));
    assert!(!contains("abc", "ac"));
    assert!(!contains("", "a"));
    assert!(contains("caf\u{e9}!", "\u{e9}!"));
    assert!(!contains("caf\u{e9}", "e"));
}

#[test]
fn chars_are_kept_in_order() {
    assert_eq!(chars_of("a\u{e9}b"), vec!['a', '\u{e9}', 'b']);
    assert!(chars_of("").is_empty());
}

#[test]
fn decimal_has_no_leading_zeros() {
    let mut text = "n=".to_string();
    push_decimal(&mut text, 0);
    assert_eq!(text, "n=0");
    let mut text = String::new();
    push_decimal(&mut text, 1203);
    assert_eq!(text, "1203");
    let mut text = String::new();
    push_decimal(&mut text, u128::MAX);
    assert_eq!(text, "340282366920938463463374607431768211455");
}

#[test]
fn delimiters_hold_the_word_and_the_comment() {
    assert!(is_section_delimiter("<!-- checklist -->"));
    assert!(is_section_delimiter("<!-- checklist = 'x' -->\n"));
    assert!(is_section_delimiter("checklist<!--"));
    assert!(!is_section_delimiter("<!-- Checklist -->"));
    assert!(!is_section_delimiter("<!-- other -->"));
    assert!(!is_section_delimiter("<div>checklist</div>"));
}

#[test]
fn comment_characters_are_stripped() {
    assert_eq!(strip_comment_chars("<!-- checklist = 'a-b' -->"), " checklist = 'ab' ");
    assert_eq!(strip_comment_chars("<<!!-->>"), "");
    assert_eq!(strip_comment_chars("plain"), "plain");
}

#[test]
fn name_is_read_from_the_document() {
    let named = TomlValue::Table(vec![TomlEntry {
        key: "checklist".to_string(),
        value: TomlValue::Text("release".to_string()),
    }]);
    assert_eq!(name_from_document(&named), "release");
    let empty = TomlValue::Table(vec![TomlEntry {
        key: "checklist".to_string(),
        value: TomlValue::Text(String::new()),
    }]);
    assert_eq!(name_from_document(&empty), "checklist");
    let flag = TomlValue::Table(vec![TomlEntry { key: "checklist".to_string(), value: TomlValue::Flag(true) }]);
    assert_eq!(name_from_document(&flag), "checklist");
    let other = TomlValue::Table(vec![TomlEntry {
        key: "blah".to_string(),
        value: TomlValue::Text("release".to_string()),
    }]);
    assert_eq!(name_from_document(&other), "checklist");
    assert_eq!(name_from_document(&TomlValue::Table(Vec::new())), "checklist");
}

#[test]
fn verbosity_grows_with_the_flag() {
    assert_eq!(verbosity(0), Verbosity::Error);
    assert_eq!(verbosity(1), Verbosity::Warn);
    assert_eq!(verbosity(2), Verbosity::Info);
    assert_eq!(verbosity(3), Verbosity::Debug);
    assert_eq!(verbosity(255), Verbosity::Debug);
}
