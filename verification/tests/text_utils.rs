use exam_core::parse::clean_llm_json_output;
use exam_core::text::{
    ends_with, join_with, parse_u32, replace_all, starts_with, trim, trim_start, u32_to_string,
};

#[test]
fn trim_strips_both_ends() {
    assert_eq!(trim("  hello \n"), "hello");
    assert_eq!(trim("hello"), "hello");
    assert_eq!(trim("   "), "");
    assert_eq!(trim(""), "");
}

#[test]
fn trim_start_strips_only_the_front() {
    assert_eq!(trim_start("\t x "), "x ");
    assert_eq!(trim_start("x"), "x");
}

#[test]
fn prefix_and_suffix_checks() {
    assert!(starts_with("hello", "he"));
    assert!(!starts_with("hello", "lo"));
    assert!(ends_with("hello", "lo"));
    assert!(!ends_with("hello", "he"));
    assert!(starts_with("abc", ""));
}

#[test]
fn replace_all_replaces_every_occurrence() {
    assert_eq!(replace_all("a-b-c", "-", "+"), "a+b+c");
    assert_eq!(replace_all("{q} and {q}", "{q}", "X"), "X and X");
    assert_eq!(replace_all("none here", "{q}", "X"), "none here");
    assert_eq!(replace_all("aaaa", "aa", "b"), "bb");
}

#[test]
fn join_with_inserts_the_separator() {
    let words: Vec<String> = vec!["a".to_string(), "b".to_string(), "c".to_string()];
    assert_eq!(join_with(&words, ", "), "a, b, c");
    let one: Vec<String> = vec!["solo".to_string()];
    assert_eq!(join_with(&one, ", "), "solo");
    let none: Vec<String> = vec![];
    assert_eq!(join_with(&none, ", "), "");
}

#[test]
fn decimal_rendering() {
    assert_eq!(u32_to_string(0), "0");
    assert_eq!(u32_to_string(7), "7");
    assert_eq!(u32_to_string(90), "90");
    assert_eq!(u32_to_string(4294967295), "4294967295");
}

#[test]
fn decimal_parsing() {
    assert_eq!(parse_u32("0"), Some(0));
    assert_eq!(parse_u32("1234"), Some(1234));
    assert_eq!(parse_u32("4294967295"), Some(4294967295));
    assert_eq!(parse_u32("4294967296"), None);
    assert_eq!(parse_u32(""), None);
    assert_eq!(parse_u32("12a"), None);
    assert_eq!(parse_u32("-3"), None);
}

#[test]
fn cleanup_strips_code_fences() {
    let fenced = "```json\n{\"responses\": [\"a\"]}\n```";
    assert_eq!(clean_llm_json_output(fenced).unwrap(), "{\"responses\": [\"a\"]}");
}

#[test]
fn cleanup_strips_fences_without_tag() {
    let fenced = "``` {\"x\": 1} ```";
    assert_eq!(clean_llm_json_output(fenced).unwrap(), "{\"x\": 1}");
}

#[test]
fn cleanup_keeps_plain_text() {
    assert_eq!(clean_llm_json_output("  {\"x\": 1} ").unwrap(), "{\"x\": 1}");
    assert_eq!(clean_llm_json_output("no fences").unwrap(), "no fences");
}

#[test]
fn cleanup_only_touches_leading_fence_block() {
    // a fence in the middle is untouched when the text does not start with one
    let s = "prefix ``` middle";
    assert_eq!(clean_llm_json_output(s).unwrap(), "prefix ``` middle");
}
