use netmuxd::text::{before_char, chars_of, contains, contains_char, same_text, starts_with};

#[test]
fn contains_finds_text_anywhere() {
    assert!(contains("abcabd", "abd"));
    assert!(contains("abc", "abc"));
    assert!(contains("abc", ""));
    assert!(contains("", ""));
    assert!(!contains("abc", "abd"));
    assert!(!contains("ab", "abc"));
    assert!(contains("aéıb--service", "ıb--"));
}

#[test]
fn contains_char_finds_a_character() {
    assert!(contains_char("a b", ' '));
    assert!(!contains_char("ab", ' '));
    assert!(!contains_char("", ' '));
}

#[test]
fn chars_of_lists_characters() {
    assert_eq!(chars_of("aé𝄞"), vec!['a', 'é', '𝄞']);
}

#[test]
fn same_text_compares_characters() {
    assert!(same_text("authTag", "authTag"));
    assert!(!same_text("authTag", "authtag"));
}

#[test]
fn starts_with_looks_at_the_head() {
    assert!(starts_with("authTag#1", "authTag#"));
    assert!(starts_with("authTag#", "authTag#"));
    assert!(!starts_with("authTag", "authTag#"));
    assert!(!starts_with("xauthTag#", "authTag#"));
}

#[test]
fn before_char_stops_at_the_first() {
    assert_eq!(before_char("aa:bb@x@y", '@'), Some("aa:bb".to_string()));
    assert_eq!(before_char("@x", '@'), Some(String::new()));
    assert_eq!(before_char("none", '@'), None);
}
