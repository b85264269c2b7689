use traffic_replayer::text::{
    contains_text, decimal_text, find_char, join_texts, same_text, split_text, starts_with, trim,
    trim_end_char,
};

#[test]
fn texts_are_compared_letter_by_letter() {
    assert!(same_text("é", "é"));
    assert!(same_text("", ""));
    assert!(!same_text("a", "ab"));
    assert!(!same_text("a", "A"));
}

#[test]
fn texts_are_searched() {
    assert!(contains_text("abc", ""));
    assert!(contains_text("abc", "bc"));
    assert!(contains_text("aab", "ab"));
    assert!(!contains_text("abc", "abcd"));
    assert!(!contains_text("", "a"));
    assert!(starts_with("日本", "日"));
    assert!(!starts_with("日本", "本"));
    assert_eq!(find_char("a=b=c", '='), 1);
    assert_eq!(find_char("日本", '='), 2);
}

#[test]
fn space_is_trimmed() {
    assert_eq!(trim(" \t\n a b \u{3000}\u{85}"), "a b");
    assert_eq!(trim("\u{200b}x"), "\u{200b}x");
    assert_eq!(trim("  "), "");
    for c in '\0'..='\u{ffff}' {
        let text = format!("{}x{}", c, c);
        assert_eq!(trim(&text), text.trim());
    }
    assert_eq!(trim_end_char("a//", '/'), "a");
    assert_eq!(trim_end_char("/a", '/'), "/a");
}

#[test]
fn splitting_and_joining_undo_each_other() {
    for text in ["", "a", "a&b", "&", "&&a&", "é&ü"] {
        let pieces = split_text(text, '&');
        assert_eq!(pieces, text.split('&').collect::<Vec<_>>());
        assert_eq!(join_texts(&pieces, "&"), text);
    }
}

#[test]
fn numbers_are_written_in_decimal() {
    for n in [0u64, 7, 10, 99, 100, 65535, 1_000_000, u64::MAX] {
        assert_eq!(decimal_text(n), n.to_string());
    }
}
