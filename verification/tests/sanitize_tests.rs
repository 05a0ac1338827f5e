use porovnavac::pattern::{first_group, replace_all};
use porovnavac::sanitize::{escape_raw_newlines, sanitize_json, strip_bom};

#[test]
fn line_feed_inside_a_string_is_escaped() {
    assert_eq!(escape_raw_newlines("{\"a\": \"x\ny\"}"), "{\"a\": \"x\\ny\"}");
}

#[test]
fn carriage_return_inside_a_string_is_dropped() {
    assert_eq!(escape_raw_newlines("\"x\r\ny\""), "\"x\\ny\"");
}

#[test]
fn line_breaks_outside_strings_stay() {
    assert_eq!(escape_raw_newlines("{\r\n\"a\": 1\n}"), "{\r\n\"a\": 1\n}");
}

#[test]
fn an_escaped_quote_does_not_end_the_string() {
    assert_eq!(escape_raw_newlines("\"a\\\"b\nc\" \n"), "\"a\\\"b\\nc\" \n");
}

#[test]
fn a_line_feed_behind_a_backslash_is_kept() {
    assert_eq!(escape_raw_newlines("\"a\\\nb\""), "\"a\\\nb\"");
}

#[test]
fn an_escaped_backslash_lets_the_quote_end_the_string() {
    assert_eq!(escape_raw_newlines("\"a\\\\\"\n\"b\nc\""), "\"a\\\\\"\n\"b\\nc\"");
}

#[test]
fn escaping_an_empty_text_gives_an_empty_text() {
    assert_eq!(escape_raw_newlines(""), "");
}

#[test]
fn one_leading_byte_order_mark_is_dropped() {
    assert_eq!(strip_bom("\u{feff}{}"), "{}");
    assert_eq!(strip_bom("{}"), "{}");
    assert_eq!(strip_bom(""), "");
    assert_eq!(strip_bom("\u{feff}\u{feff}x"), "\u{feff}x");
    assert_eq!(strip_bom("x\u{feff}"), "x\u{feff}");
}

#[test]
fn control_characters_go_but_tab_and_line_breaks_stay() {
    assert_eq!(sanitize_json("a\u{0}b\u{8}c\u{b}d\u{c}e\u{1f}f\u{7f}g\th\ni\rj"), "abcdefg\th\ni\rj");
}

#[test]
fn comments_and_trailing_commas_go() {
    assert_eq!(sanitize_json("{\"a\": 1, // note\n\"b\": 2}"), "{\"a\": 1, \n\"b\": 2}");
    assert_eq!(sanitize_json("{/* x\ny */\"a\": 1}"), "{\"a\": 1}");
    assert_eq!(sanitize_json("{\"a\": [1, 2, ], }"), "{\"a\": [1, 2]}");
    assert_eq!(sanitize_json("{\"a\": 1 ,\n }"), "{\"a\": 1 }");
}

#[test]
fn a_block_comment_ends_at_the_first_closing_mark() {
    assert_eq!(sanitize_json("a/* b */c/* d */e"), "ace");
    assert_eq!(sanitize_json("a/* never closed"), "a/* never closed");
}

#[test]
fn repaired_text_parses_and_keeps_its_values() {
    let broken = "\u{feff}{\n  // the identifier\n  \"id\": \"sample\",\n  /* the\n     name */\n  \"name\": \"Sample\nMod\",\n  \"version\": \"1.2.3\",\n  \"depends\": { \"fabricloader\": \"*\", },\n}";
    let clean = sanitize_json(broken);
    let doc: serde_json::Value = serde_json::from_str(&clean).expect("repaired text is JSON");
    assert_eq!(doc.get("id").and_then(|v| v.as_str()), Some("sample"));
    assert_eq!(doc.get("name").and_then(|v| v.as_str()), Some("Sample\nMod"));
    assert_eq!(doc.get("version").and_then(|v| v.as_str()), Some("1.2.3"));
    assert!(doc.get("depends").and_then(|d| d.get("fabricloader")).is_some());
}

#[test]
fn comment_marks_inside_a_string_cut_the_string() {
    let clean = sanitize_json("{\"url\": \"https://example.org\",\n\"id\": \"x\"}");
    assert_eq!(clean, "{\"url\": \"https:\\n\"id\": \"x\"}");
    assert!(serde_json::from_str::<serde_json::Value>(&clean).is_err());
    assert_eq!(sanitize_json("{\"a\": \"x /* y\", \"b\": \"z */ w\"}"), "{\"a\": \"x  w\"}");
}

#[test]
fn sanitizing_well_formed_json_changes_nothing() {
    let text = "{\"id\": \"a\", \"list\": [1, 2], \"nested\": {\"k\": \"v\"}}";
    assert_eq!(sanitize_json(text), text);
}

#[test]
fn replace_all_replaces_every_match() {
    assert_eq!(replace_all("a+", "caaandaa", "-"), "c-nd-");
    assert_eq!(replace_all("(b)(c)", "abcd", "$2$1"), "acbd");
    assert_eq!(replace_all("x", "abc", "y"), "abc");
}

#[test]
fn a_pattern_that_does_not_compile_leaves_the_text() {
    assert_eq!(replace_all("(", "a(b", "-"), "a(b");
    assert_eq!(first_group("(", "a(b"), None);
}

#[test]
fn first_group_of_the_first_match() {
    assert_eq!(first_group("k=(\\w+)", "k=one k=two"), Some("one".to_string()));
    assert_eq!(first_group("k=(\\w+)", "nothing"), None);
    assert_eq!(first_group("a(b)?", "ac"), None);
    assert_eq!(first_group("abc", "abc"), None);
}
