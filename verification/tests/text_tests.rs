use ralph::text::contains_str;
use ralph::text::ltrim_string;
use ralph::text::replace_all;
use ralph::text::str_ends_with;
use ralph::text::str_eq;
use ralph::text::str_starts_with;
use ralph::text::trim_string;
use ralph::text::truncate_string;

#[test]
fn trim_removes_both_ends() {
    assert_eq!(trim_string("  hello \t\n"), "hello");
    assert_eq!(trim_string(""), "");
    assert_eq!(trim_string(" \r\n\t "), "");
    assert_eq!(trim_string("no-trim"), "no-trim");
}

#[test]
fn ltrim_removes_leading_only() {
    assert_eq!(ltrim_string("  a b "), "a b ");
    assert_eq!(ltrim_string("x"), "x");
}

#[test]
fn truncate_within_budget_is_identity() {
    assert_eq!(truncate_string("hello", 10), "hello");
    assert_eq!(truncate_string("hello", 5), "hello");
    assert_eq!(truncate_string("", 0), "");
}

#[test]
fn truncate_over_budget_cuts_and_marks() {
    assert_eq!(truncate_string("hello world", 5), "hello\n…");
    assert_eq!(truncate_string("abc", 0), "\n…");
}

#[test]
fn truncate_respects_character_boundaries() {
    // 'é' takes two bytes; a two-byte budget keeps only the 'h'
    assert_eq!(truncate_string("héllo", 2), "h\n…");
    assert_eq!(truncate_string("héllo", 3), "hé\n…");
}

#[test]
fn replace_all_replaces_every_occurrence() {
    assert_eq!(replace_all("a{{X}}b{{X}}", "{{X}}", "Y"), "aYbY");
    assert_eq!(replace_all("none here", "{{X}}", "Y"), "none here");
    assert_eq!(replace_all("{{X}}", "{{X}}", ""), "");
    assert_eq!(replace_all("aaa", "aa", "b"), "ba");
}

#[test]
fn prefix_suffix_and_substring_tests() {
    assert!(str_starts_with("Bearer tok", "Bearer "));
    assert!(!str_starts_with("Bear", "Bearer "));
    assert!(str_ends_with("file.md", ".md"));
    assert!(!str_ends_with("file.md", ".txt"));
    assert!(contains_str("one two three", "two"));
    assert!(!contains_str("one two three", "four"));
    assert!(contains_str("abc", ""));
    assert!(str_eq("same", "same"));
    assert!(!str_eq("same", "Same"));
}
