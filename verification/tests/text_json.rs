use pullpito::json::Json;
use pullpito::text::{decimal_string, parse_u32, str_eq};

#[test]
fn equal_strings_are_equal() {
    assert!(str_eq("", ""));
    assert!(str_eq("alice", "alice"));
    assert!(str_eq("é✓", "é✓"));
    assert!(!str_eq("alice", "alicf"));
    assert!(!str_eq("alice", "alic"));
    assert!(!str_eq("", "a"));
    assert!(!str_eq("e", "é"));
}

#[test]
fn numerals_are_read() {
    assert_eq!(parse_u32("0"), Some(0));
    assert_eq!(parse_u32("10"), Some(10));
    assert_eq!(parse_u32("0010"), Some(10));
    assert_eq!(parse_u32("4294967295"), Some(4294967295));
    assert_eq!(parse_u32("4294967296"), None);
    assert_eq!(parse_u32("99999999999999999999"), None);
    assert_eq!(parse_u32(""), None);
    assert_eq!(parse_u32("+5"), None);
    assert_eq!(parse_u32("-5"), None);
    assert_eq!(parse_u32(" 5"), None);
    assert_eq!(parse_u32("5a"), None);
    assert_eq!(parse_u32("٣"), None);
}

#[test]
fn numerals_are_written() {
    assert_eq!(decimal_string(0), "0");
    assert_eq!(decimal_string(7), "7");
    assert_eq!(decimal_string(10), "10");
    assert_eq!(decimal_string(1203), "1203");
    assert_eq!(decimal_string(9876543210), "9876543210");
    assert_eq!(decimal_string(usize::MAX), usize::MAX.to_string());
}

#[test]
fn written_numerals_read_back() {
    for n in [0u32, 1, 9, 10, 99, 100, 4294967295] {
        assert_eq!(parse_u32(&decimal_string(n as usize)), Some(n));
    }
}

#[test]
fn json_text_is_read_as_a_tree() {
    assert_eq!(Json::parse("null"), Some(Json::Null));
    assert_eq!(Json::parse("true"), Some(Json::Bool(true)));
    assert_eq!(Json::parse("12.5"), Some(Json::Number));
    assert_eq!(Json::parse("\"a\\u0041\""), Some(Json::Text("aA".to_string())));
    assert_eq!(
        Json::parse(r#"{"b": [1, "x", {}], "a": null}"#),
        Some(Json::Object(vec![
            ("a".to_string(), Json::Null),
            (
                "b".to_string(),
                Json::Array(vec![Json::Number, Json::Text("x".to_string()), Json::Object(vec![])])
            ),
        ]))
    );
    assert_eq!(Json::parse(""), None);
    assert_eq!(Json::parse("{"), None);
    assert_eq!(Json::parse("[1,]"), None);
    assert_eq!(Json::parse("1 2"), None);
}

#[test]
fn json_members_are_found() {
    let doc = Json::parse(r#"{"a": 1, "b": null, "c": "text", "d": [true]}"#).unwrap();
    assert!(doc.is_object());
    assert_eq!(doc.get("a"), Some(&Json::Number));
    assert_eq!(doc.get("b"), Some(&Json::Null));
    assert_eq!(doc.get("e"), None);
    assert_eq!(doc.get_present("a"), Some(&Json::Number));
    assert_eq!(doc.get_present("b"), None);
    assert_eq!(doc.get_present("e"), None);
    assert_eq!(doc.get("c").unwrap().as_text(), Some("text"));
    assert_eq!(doc.get("a").unwrap().as_text(), None);
    assert_eq!(doc.get("d").unwrap().as_items(), Some(&vec![Json::Bool(true)]));
    assert_eq!(doc.get("c").unwrap().as_items(), None);
    assert_eq!(Json::Array(vec![]).get("a"), None);
    assert!(!Json::Array(vec![]).is_object());
}

#[test]
fn first_member_wins_on_a_tree_with_a_repeated_key() {
    let doc = Json::Object(vec![
        ("k".to_string(), Json::Bool(true)),
        ("k".to_string(), Json::Bool(false)),
    ]);
    assert_eq!(doc.get("k"), Some(&Json::Bool(true)));
}
