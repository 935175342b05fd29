//! Texts, paths and patterns.

use codex_sandbox::os_text::{read_printed, same_bytes, OsText};
use codex_sandbox::pattern::{compile_patterns, matches_any, CdiPattern};
use codex_sandbox::text::{
    contains_text, decimal_text, join, replace, same_text, sort_distinct, split_once, trim,
};

fn strings(items: &[&str]) -> Vec<String> {
    items.iter().map(|item| item.to_string()).collect()
}

#[test]
fn wildcards_match_whole_values() {
    assert!(CdiPattern::new("*").matches(""));
    assert!(CdiPattern::new("*").matches("nvidia.com/gpu=0"));
    assert!(CdiPattern::new("nvidia.com/gpu=?").matches("nvidia.com/gpu=0"));
    assert!(!CdiPattern::new("nvidia.com/gpu=?").matches("nvidia.com/gpu=10"));
    assert!(!CdiPattern::new("nvidia.com/gpu=?").matches("nvidia.com/gpu="));
    assert!(CdiPattern::new("a*b*c").matches("a-b-b-c"));
    assert!(!CdiPattern::new("a*b*c").matches("a-b-b-c-"));
    assert!(!CdiPattern::new("gpu").matches("GPU"));
    assert!(!CdiPattern::new("").matches("x"));
    assert!(CdiPattern::new("").matches(""));
    assert!(CdiPattern::new("g\u{fc}?").matches("g\u{fc}\u{20ac}"));
    assert!(CdiPattern::new("**a?*").matches("bab"));
}

#[test]
fn literal_patterns_match_themselves_only() {
    let pattern = CdiPattern::new("vendor.com/device=0");
    assert!(pattern.matches("vendor.com/device=0"));
    assert!(!pattern.matches("vendor.com/device=01"));
    assert!(!pattern.matches("vendor.com/device="));
}

#[test]
fn one_matching_pattern_is_enough() {
    let patterns = compile_patterns(&strings(&["a*", "b"]));
    assert!(matches_any("abc", &patterns));
    assert!(matches_any("b", &patterns));
    assert!(!matches_any("bc", &patterns));
    assert!(!matches_any("a", &compile_patterns(&[])));
}

#[test]
fn texts_are_split_at_the_first_mark() {
    assert_eq!(split_once("a=b=c", '='), Some(("a".to_string(), "b=c".to_string())));
    assert_eq!(split_once("=x", '='), Some((String::new(), "x".to_string())));
    assert_eq!(split_once("x=", '='), Some(("x".to_string(), String::new())));
    assert_eq!(split_once("x", '='), None);
}

#[test]
fn white_space_is_trimmed_at_both_ends() {
    assert_eq!(trim(" \t a b \r\n"), "a b");
    assert_eq!(trim("\u{a0}\u{2003}x\u{3000}\u{b}"), "x");
    assert_eq!(trim("\u{200b}x"), "\u{200b}x");
    assert_eq!(trim("\u{1f}x"), "\u{1f}x");
    assert_eq!(trim(" \n"), "");
}

#[test]
fn occurrences_are_replaced_from_left_to_right() {
    assert_eq!(replace("aaa", "aa", "b"), "ba");
    assert_eq!(replace("x.d/y.d/", ".d/", ".e/"), "x.e/y.e/");
    assert_eq!(replace("abc", "d", "e"), "abc");
    assert_eq!(replace("", "d", "e"), "");
}

#[test]
fn numbers_are_written_in_decimal() {
    assert_eq!(decimal_text(0), "0");
    assert_eq!(decimal_text(9), "9");
    assert_eq!(decimal_text(10), "10");
    assert_eq!(decimal_text(1234567890), "1234567890");
    assert_eq!(decimal_text(usize::MAX), usize::MAX.to_string());
}

#[test]
fn texts_are_sorted_without_repetitions() {
    assert_eq!(
        sort_distinct(&strings(&["nosuid", "nodev", "nosuid", "Z", ""])),
        strings(&["", "Z", "nodev", "nosuid"])
    );
    assert_eq!(
        sort_distinct(&strings(&["\u{e4}", "ab", "z", "a", "Z"])),
        strings(&["Z", "a", "ab", "z", "\u{e4}"])
    );
}

#[test]
fn lists_are_joined_and_searched() {
    assert_eq!(join(&strings(&["a", "b", "c"]), ", "), "a, b, c");
    assert_eq!(join(&strings(&["a"]), ", "), "a");
    assert_eq!(join(&Vec::new(), ", "), "");
    assert!(contains_text(&strings(&["a", "b"]), "b"));
    assert!(!contains_text(&strings(&["a", "b"]), "ab"));
    assert!(same_text("\u{e4}", "\u{e4}"));
    assert!(!same_text("a", "A"));
}

#[test]
fn host_texts_are_encoded_in_utf8() {
    assert_eq!(
        OsText::from_text("w\u{e4}"),
        OsText { bytes: b"w\xc3\xa4".to_vec(), shown: "w\u{e4}".to_string() }
    );
    let given = OsText { bytes: b"\xffa".to_vec(), shown: "\u{fffd}a".to_string() };
    assert_eq!(given.display(), "\u{fffd}a");
    assert_eq!(given.clone(), given);
}

#[test]
fn bytes_that_are_no_text_are_read_with_replacement_characters() {
    assert_eq!(read_printed(b"/w\xc3\xa4"), "/w\u{e4}");
    assert_eq!(read_printed(b"/w\xff/x"), "/w\u{fffd}/x");
    assert!(same_bytes(b"\xff", b"\xff"));
    assert!(!same_bytes(b"ab", b"a"));
}

#[test]
fn white_space_is_what_unicode_says() {
    let white = [
        '\u{9}', '\u{a}', '\u{b}', '\u{c}', '\u{d}', ' ', '\u{85}', '\u{a0}', '\u{1680}', '\u{2000}',
        '\u{2001}', '\u{2002}', '\u{2003}', '\u{2004}', '\u{2005}', '\u{2006}', '\u{2007}', '\u{2008}',
        '\u{2009}', '\u{200a}', '\u{2028}', '\u{2029}', '\u{202f}', '\u{205f}', '\u{3000}',
    ];
    for code in 0..=0x10ffff_u32 {
        if let Some(c) = char::from_u32(code) {
            let text = c.to_string();
            let expected = if white.contains(&c) { "" } else { text.as_str() };
            assert_eq!(trim(&text), expected);
        }
    }
}
