use small_tools::frame::{check_choice, check_delta, check_envelope, frame_of_delta, Frame};
use small_tools::json::{parse, Json};

fn object(fields: Vec<(&str, Json)>) -> Json {
    Json::Object(fields.into_iter().map(|(k, v)| (k.to_string(), v)).collect())
}

fn text(s: &str) -> Json {
    Json::Text(s.to_string())
}

#[test]
fn parse_reads_every_kind_of_value() {
    assert_eq!(parse("null"), Some(Json::Null));
    assert_eq!(parse("true"), Some(Json::Bool(true)));
    assert_eq!(parse("false"), Some(Json::Bool(false)));
    assert_eq!(parse("12"), Some(Json::Number));
    assert_eq!(parse("-1.5e3"), Some(Json::Number));
    assert_eq!(parse("\"hi\""), Some(text("hi")));
    assert_eq!(parse("[]"), Some(Json::Array(vec![])));
    assert_eq!(parse("{}"), Some(Json::Object(vec![])));
    assert_eq!(
        parse(" [1, \"a\", [null], {\"k\": false}] "),
        Some(Json::Array(vec![
            Json::Number,
            text("a"),
            Json::Array(vec![Json::Null]),
            object(vec![("k", Json::Bool(false))]),
        ]))
    );
}

#[test]
fn parse_refuses_what_is_no_json() {
    for bad in ["", " ", "{", "[1,]", "{\"a\":}", "nul", "'a'", "{} {}", "1 2", "[DONE]", "\"open"] {
        assert_eq!(parse(bad), None, "text {:?}", bad);
    }
}

#[test]
fn parse_keeps_the_last_of_two_equal_keys() {
    let doc = parse("{\"a\":1,\"a\":\"two\"}").unwrap();
    assert_eq!(doc.get("a"), Some(&text("two")));
    match doc {
        Json::Object(fields) => assert_eq!(fields.len(), 1),
        _ => panic!("no object"),
    }
}

#[test]
fn parse_reads_deep_documents() {
    let deep = format!("{}1{}", "[".repeat(100), "]".repeat(100));
    let mut doc = parse(&deep).unwrap();
    let mut depth = 0;
    while let Json::Array(mut items) = doc {
        assert_eq!(items.len(), 1);
        doc = items.pop().unwrap();
        depth += 1;
    }
    assert_eq!(depth, 100);
    assert_eq!(doc, Json::Number);
}

#[test]
fn get_finds_members_of_objects_only() {
    let doc = object(vec![("a", text("x")), ("b", Json::Null), ("c", Json::Number)]);
    assert_eq!(doc.get("a"), Some(&text("x")));
    assert_eq!(doc.get("b"), None);
    assert_eq!(doc.get("c"), Some(&Json::Number));
    assert_eq!(doc.get("d"), None);
    assert_eq!(doc.get(""), None);
    assert_eq!(Json::Array(vec![text("a")]).get("a"), None);
    assert_eq!(text("a").get("a"), None);
}

#[test]
fn get_takes_the_first_of_two_equal_keys() {
    let doc = object(vec![("a", text("first")), ("a", text("second"))]);
    assert_eq!(doc.get("a"), Some(&text("first")));
    let doc = object(vec![("a", Json::Null), ("a", text("second"))]);
    assert_eq!(doc.get("a"), None);
}

#[test]
fn accessors_tell_the_kinds_apart() {
    assert_eq!(text("a").as_text(), Some(&"a".to_string()));
    assert_eq!(Json::Null.as_text(), None);
    assert_eq!(Json::Array(vec![Json::Null]).as_array(), Some(&vec![Json::Null]));
    assert_eq!(object(vec![]).as_array(), None);
    assert!(object(vec![]).is_object());
    assert!(!Json::Array(vec![]).is_object());
}

#[test]
fn envelope_checks() {
    assert!(check_delta(&object(vec![])));
    assert!(check_delta(&object(vec![("role", text("assistant")), ("content", text(""))])));
    assert!(check_delta(&object(vec![("role", Json::Null), ("content", Json::Null)])));
    assert!(!check_delta(&object(vec![("content", Json::Number)])));
    assert!(!check_delta(&object(vec![("role", Json::Bool(true))])));
    assert!(!check_delta(&text("delta")));
    assert!(check_choice(&object(vec![])));
    assert!(check_choice(&object(vec![("delta", object(vec![]))])));
    assert!(!check_choice(&object(vec![("delta", Json::Number)])));
    assert!(!check_choice(&Json::Number));
    assert!(check_envelope(&object(vec![])));
    assert!(check_envelope(&object(vec![("choices", Json::Array(vec![]))])));
    assert!(check_envelope(&object(vec![("choices", Json::Null)])));
    assert!(!check_envelope(&object(vec![("choices", object(vec![]))])));
    assert!(!check_envelope(&object(vec![("choices", Json::Array(vec![object(vec![]), Json::Number]))])));
    assert!(!check_envelope(&Json::Array(vec![])));
}

#[test]
fn delta_frames() {
    let delta = object(vec![("role", text("r")), ("content", text("c"))]);
    assert_eq!(frame_of_delta(&delta), Some(Frame::Content("c".to_string())));
    let delta = object(vec![("role", text("r")), ("content", text(""))]);
    assert_eq!(frame_of_delta(&delta), Some(Frame::Role("r".to_string())));
    let delta = object(vec![("content", text(""))]);
    assert_eq!(frame_of_delta(&delta), None);
    let delta = object(vec![("role", text(""))]);
    assert_eq!(frame_of_delta(&delta), Some(Frame::Role(String::new())));
}
