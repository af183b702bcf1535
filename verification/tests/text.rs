use opensovd_zenoh::json::{document_or_raw, envelope_data, member_or_all, text_field};
use opensovd_zenoh::text::{
    contains_char, join_others, replace_char, same, split, strip_prefix,
};
use serde_json::Value;

fn parse(text: &str) -> Value {
    serde_json::from_str(text).unwrap()
}

#[test]
fn split_keeps_empty_parts() {
    assert_eq!(split("a/b", '/'), vec!["a", "b"]);
    assert_eq!(split("", '/'), vec![""]);
    assert_eq!(split("/é//", '/'), vec!["", "é", "", ""]);
}

#[test]
fn join_leaves_one_part_out() {
    let parts = split("a/b/c", '/');
    assert_eq!(join_others(&parts, 0, '_'), "b_c");
    assert_eq!(join_others(&parts, 1, '_'), "a_c");
    assert_eq!(join_others(&parts, 2, '_'), "a_b");
    assert_eq!(join_others(&split("a", '/'), 0, '_'), "");
}

#[test]
fn characters_are_replaced_everywhere() {
    assert_eq!(replace_char("a/b/ü", '/', '_'), "a_b_ü");
    assert_eq!(replace_char("a_b/c", '_', '/'), "a/b/c");
}

#[test]
fn prefix_is_stripped_once_and_only_in_front() {
    assert_eq!(strip_prefix("R/R/x", "R/"), "R/x");
    assert_eq!(strip_prefix("x/R/", "R/"), "x/R/");
    assert_eq!(strip_prefix("R", "R/"), "R");
}

#[test]
fn texts_are_compared_by_character() {
    assert!(same("añb", "añb"));
    assert!(!same("a", "ab"));
    assert!(contains_char("a*b", '*'));
    assert!(!contains_char("ab", '*'));
}

#[test]
fn documents_are_taken_apart() {
    assert_eq!(document_or_raw(Some(Value::from(1)), "x".to_string()), Value::from(1));
    assert_eq!(document_or_raw(None, "x".to_string()), parse(r#"{"raw_value":"x"}"#));
    assert_eq!(envelope_data(parse(r#"{"data":[1]}"#)), parse("[1]"));
    assert_eq!(envelope_data(parse(r#"{"other":[1]}"#)), parse(r#"{"other":[1]}"#));
    assert_eq!(envelope_data(parse(r#"["data"]"#)), parse(r#"["data"]"#));
    let document = Some(parse(r#"{"name":"n","category":1}"#));
    assert_eq!(text_field(&document, "name"), Some("n".to_string()));
    assert_eq!(text_field(&document, "category"), None);
    assert_eq!(text_field(&document, "data"), None);
    assert_eq!(text_field(&None, "name"), None);
}

#[test]
fn member_is_preferred_to_the_whole_object() {
    let mut map = serde_json::Map::new();
    map.insert("a".to_string(), Value::from(1));
    assert_eq!(member_or_all(map.clone(), "a"), Value::from(1));
    assert_eq!(member_or_all(map, "b"), parse(r#"{"a":1}"#));
}
