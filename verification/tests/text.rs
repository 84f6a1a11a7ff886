//! Text.

use memory_engine::text::{
    chars_of, contains, decimal_int_text, decimal_text, eq_ignore_ascii_case, same_text,
    split_slashes, trim,
};

#[test]
fn occurrences_are_found_anywhere() {
    assert!(contains("a git commit b", "git commit"));
    assert!(contains("abc", ""));
    assert!(contains("abc", "abc"));
    assert!(!contains("abc", "abcd"));
    assert!(!contains("abc", "ac"));
    assert!(contains("naïve é", "ï"));
}

#[test]
fn ascii_case_is_ignored_and_no_other() {
    assert!(eq_ignore_ascii_case("BaSh", "bash"));
    assert!(!eq_ignore_ascii_case("bash", "bash "));
    assert!(!eq_ignore_ascii_case("É", "é"));
}

#[test]
fn numbers_are_written_in_decimal() {
    for n in [0u64, 7, 10, 99, 100, 1_234_567_890, u64::MAX] {
        assert_eq!(decimal_text(n), n.to_string());
    }
    for n in [0i64, 7, -7, i64::MAX, i64::MIN] {
        assert_eq!(decimal_int_text(n), n.to_string());
    }
}

#[test]
fn white_space_is_trimmed_on_both_ends() {
    for s in ["", "  ", "a", " a b\t", "\u{2003}x\u{a0}\n", "x\u{200b}"] {
        assert_eq!(trim(s), s.trim());
    }
}

#[test]
fn paths_are_split_at_slashes() {
    for s in ["", "a", "a/b", "/a//b/", "é/ü"] {
        let parts: Vec<&str> = s.split('/').collect();
        assert_eq!(split_slashes(s), parts);
    }
}

#[test]
fn texts_are_compared_by_their_chars() {
    assert!(same_text("é", "é"));
    assert!(!same_text("e\u{301}", "é"));
    assert_eq!(chars_of("aé"), vec!['a', 'é']);
}

#[test]
fn every_white_space_character_is_trimmed_and_no_other() {
    for n in 0..=0x10_ffffu32 {
        if let Some(c) = char::from_u32(n) {
            let s = format!("{c}");
            assert_eq!(trim(&s).is_empty(), c.is_whitespace(), "{n:x}");
        }
    }
}
