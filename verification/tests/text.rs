//! Text functions.

use goose_harness::text::{
    chars_of, decimal_of, is_white_space, join, last_segment_without, lines_of, same_text,
    slice_text, starts_with, trim,
};

fn strings(list: &[&str]) -> Vec<String> {
    list.iter().map(|s| s.to_string()).collect()
}

#[test]
fn white_space_at_the_ends_goes() {
    assert_eq!(trim("  a b\n"), "a b");
    assert_eq!(trim("\u{3000}\tx\u{a0}"), "x");
    assert_eq!(trim(" \r\n "), "");
    assert_eq!(trim(""), "");
    assert_eq!(trim("\u{200b}x"), "\u{200b}x");
}

#[test]
fn white_space_is_that_of_unicode() {
    for n in 0u32..0x11_0000 {
        if let Some(c) = char::from_u32(n) {
            assert_eq!(is_white_space(c), c.is_whitespace());
        }
    }
}

#[test]
fn lines_end_with_a_line_feed_and_perhaps_a_return() {
    for text in ["", "a", "a\n", "a\r\nb", "a\rb\r", "\n\n", "a\n\r\n\r", "é\r\n…\n", "\r\r\n"] {
        let expected: Vec<String> = text.lines().map(|l| l.to_string()).collect();
        assert_eq!(lines_of(text), expected);
    }
    assert_eq!(lines_of("one\r\ntwo\n\nfour"), strings(&["one", "two", "", "four"]));
    assert_eq!(lines_of("x\r"), strings(&["x\r"]));
}

#[test]
fn the_last_segment_loses_every_suffix() {
    assert_eq!(last_segment_without("https://h/a/repo.git", ".git"), "repo");
    assert_eq!(last_segment_without("repo.git.git", ".git"), "repo");
    assert_eq!(last_segment_without("https://h/repo/", ".git"), "repo");
    assert_eq!(last_segment_without("https://h/repo.git//", ".git"), "repo");
    assert_eq!(last_segment_without("//", ".git"), "");
    assert_eq!(last_segment_without(".git", ".git"), "");
    assert_eq!(last_segment_without("a/repo.gitx", ".git"), "repo.gitx");
}

#[test]
fn lists_are_joined() {
    assert_eq!(join(&strings(&["a", "b", "c"]), ", "), "a, b, c");
    assert_eq!(join(&strings(&["a"]), ", "), "a");
    assert_eq!(join(&vec![], ", "), "");
}

#[test]
fn numbers_in_decimal() {
    for n in [0u64, 7, 10, 99, 100, 1_000_000, u64::MAX] {
        let text: String = decimal_of(n).into_iter().collect();
        assert_eq!(text, n.to_string());
    }
}

#[test]
fn starts_slices_and_equality() {
    assert!(starts_with("https://x", "https://"));
    assert!(!starts_with("http", "https://"));
    assert!(starts_with("x", ""));
    assert!(!starts_with("HTTP://x", "http://"));
    assert_eq!(slice_text(&chars_of("añb"), 1, 3), "ñb");
    assert!(same_text("a", "a"));
    assert!(!same_text("a", "b"));
}
