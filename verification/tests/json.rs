use key_capture::json::{parse_json, Json};

#[test]
fn documents_read_as_they_are() {
    let root = parse_json(r#"{"b": [1, -2, "x", null, true, {"c": 2.5}], "a": "y"}"#).unwrap();
    let members = match &root {
        Json::Object(members) => members,
        _ => panic!("not an object"),
    };
    // Names come out in order.
    assert_eq!(members[0].0, "a");
    assert_eq!(members[1].0, "b");
    assert_eq!(members.len(), 2);
    assert_eq!(root.get("a").unwrap().as_str(), Some("y"));
    let items = match root.get("b").unwrap() {
        Json::Array(items) => items,
        _ => panic!("not an array"),
    };
    assert_eq!(items.len(), 6);
    assert!(matches!(&items[0], Json::Number(n) if n == "1"));
    assert!(matches!(&items[1], Json::Number(n) if n == "-2"));
    assert_eq!(items[2].as_str(), Some("x"));
    assert!(matches!(items[3], Json::Null));
    assert!(matches!(items[4], Json::Bool(true)));
    assert!(matches!(items[5].get("c"), Some(Json::Number(n)) if n == "2.5"));
}

#[test]
fn later_duplicates_replace_earlier_ones() {
    let root = parse_json(r#"{"a": 1, "a": "two"}"#).unwrap();
    assert_eq!(root.get("a").unwrap().as_str(), Some("two"));
    assert!(matches!(&root, Json::Object(members) if members.len() == 1));
}

#[test]
fn broken_text_is_no_document() {
    assert!(parse_json("").is_none());
    assert!(parse_json("{").is_none());
    assert!(parse_json("{} x").is_none());
}

#[test]
fn only_objects_have_members() {
    assert!(parse_json("[1]").unwrap().get("0").is_none());
    assert!(parse_json("\"a\"").unwrap().get("a").is_none());
    assert!(parse_json("{\"a\": 1}").unwrap().get("b").is_none());
    assert!(parse_json("{\"a\": 1}").unwrap().as_str().is_none());
}
