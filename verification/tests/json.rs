use resc::errors::RescError;
use resc::json::{parse, Json};

fn text(j: Option<&Json>) -> Option<&str> {
    match j {
        Some(Json::Str(s)) => Some(s.as_str()),
        _ => None,
    }
}

#[test]
fn parse_reads_each_kind_of_value() {
    assert!(matches!(parse("null").unwrap(), Json::Null));
    assert!(matches!(parse("true").unwrap(), Json::Bool(true)));
    assert!(matches!(parse(" false ").unwrap(), Json::Bool(false)));
    match parse("\"a\\nb\\u00e9\"").unwrap() {
        Json::Str(s) => assert_eq!(s, "a\nbé"),
        other => panic!("expected a string, got {:?}", other),
    }
    match parse("[]").unwrap() {
        Json::Array(items) => assert!(items.is_empty()),
        other => panic!("expected an array, got {:?}", other),
    }
    match parse("{}").unwrap() {
        Json::Object(members) => assert!(members.is_empty()),
        other => panic!("expected an object, got {:?}", other),
    }
}

#[test]
fn parse_holds_numbers_as_text() {
    let numbers = [
        ("0", "0"),
        ("-12", "-12"),
        ("18446744073709551615", "18446744073709551615"),
        ("1.5", "1.5"),
        ("1.50", "1.5"),
        ("1e2", "100.0"),
    ];
    for (src, expected) in numbers {
        match parse(src).unwrap() {
            Json::Number(n) => assert_eq!(n, expected),
            other => panic!("expected a number, got {:?}", other),
        }
    }
}

#[test]
fn parse_reads_nested_values() {
    let j = parse(r#"{"b": [1, "two", {"c": null}], "a": {"x": "y"}}"#).unwrap();
    assert_eq!(text(j.member("a").unwrap().member("x")), Some("y"));
    match j.member("b") {
        Some(Json::Array(items)) => {
            assert_eq!(items.len(), 3);
            assert!(matches!(&items[0], Json::Number(n) if n == "1"));
            assert!(matches!(&items[1], Json::Str(s) if s == "two"));
            assert!(matches!(items[2].member("c"), Some(Json::Null)));
            assert!(items[2].member("d").is_none());
        },
        other => panic!("expected an array, got {:?}", other),
    }
    match &j {
        Json::Object(members) => assert_eq!(members.len(), 2),
        other => panic!("expected an object, got {:?}", other),
    }
}

#[test]
fn parse_refuses_what_is_no_json() {
    for src in ["", "{", "{\"a\": }", "[1, 2", "nul", "{'a': 1}", "1 2", "{\"a\": 1,}"] {
        match parse(src) {
            Err(RescError::Json(_)) => {},
            other => panic!("expected a refusal of {:?}, got {:?}", src, other),
        }
    }
}

#[test]
fn member_of_an_object() {
    let j = Json::Object(vec![
        ("a".to_string(), Json::Str("first".to_string())),
        ("b".to_string(), Json::Null),
        ("a".to_string(), Json::Str("second".to_string())),
    ]);
    assert_eq!(text(j.member("a")), Some("first"));
    assert!(matches!(j.member("b"), Some(Json::Null)));
    assert!(j.member("c").is_none());
    assert!(j.member("").is_none());
    assert!(j.member("A").is_none());
}

#[test]
fn member_of_what_is_no_object() {
    for j in [
        Json::Null,
        Json::Bool(true),
        Json::Number("1".to_string()),
        Json::Str("a".to_string()),
        Json::Array(vec![Json::Object(vec![("a".to_string(), Json::Null)])]),
    ] {
        assert!(j.member("a").is_none());
    }
}

#[test]
fn parsed_object_keeps_the_last_of_two_members_of_one_name() {
    let j = parse(r#"{"a": "first", "a": "second"}"#).unwrap();
    assert_eq!(text(j.member("a")), Some("second"));
    match &j {
        Json::Object(members) => assert_eq!(members.len(), 1),
        other => panic!("expected an object, got {:?}", other),
    }
}
