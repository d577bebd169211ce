use grok_anthropic_bridge::json::{from_value, to_value, Json, JsonNumber};
use grok_anthropic_bridge::json_order::normalize_json;

#[test]
fn numbers_are_held_as_what_they_are() {
    let v = Json::parse("[0, 18446744073709551615, -1, 1.5, 1e2, 18446744073709551616]").unwrap();
    let items = v.as_list().unwrap();
    assert_eq!(items[0], Json::Number(JsonNumber::Unsigned(0)));
    assert_eq!(items[1].as_u64(), Some(u64::MAX));
    assert_eq!(items[2], Json::Number(JsonNumber::Negative(-1)));
    assert!(matches!(items[3], Json::Number(JsonNumber::Fraction(_))));
    assert!(matches!(items[4], Json::Number(JsonNumber::Fraction(_))));
    assert!(matches!(items[5], Json::Number(JsonNumber::Fraction(_))));
    assert_eq!(v.to_text(), "[0,18446744073709551615,-1,1.5,100.0,1.8446744073709552e+19]");
}

#[test]
fn text_that_is_no_json_is_refused() {
    assert!(Json::parse("").is_none());
    assert!(Json::parse("{").is_none());
    assert!(Json::parse("{} x").is_none());
}

#[test]
fn members_are_set_and_read() {
    let v = Json::object().with("b", Json::Null).with("a", Json::Bool(true)).with("b", Json::text("x"));
    assert_eq!(v.str_at("b"), Some("x"));
    assert_eq!(v.get("a"), Some(&Json::Bool(true)));
    assert_eq!(v.get("c"), None);
    assert_eq!(v.to_text(), r#"{"a":true,"b":"x"}"#);
    assert_eq!(Json::Null.with("a", Json::Null), Json::Null);
    assert_eq!(Json::Null.get("a"), None);
}

#[test]
fn printing_sorts_and_escapes() {
    let v = Json::parse("{\"z\": {\"b\": 1, \"a\": \"line\\n\\u0001\\\"\"}, \"A\": [ ]}").unwrap();
    assert_eq!(v.to_text(), "{\"A\":[],\"z\":{\"a\":\"line\\n\\u0001\\\"\",\"b\":1}}");
    assert_eq!(
        Json::parse(r#"{"b": [1], "a": {}}"#).unwrap().to_pretty_text(),
        "{\n  \"a\": {},\n  \"b\": [\n    1\n  ]\n}"
    );
}

#[test]
fn sorting_goes_by_characters_and_is_done_once() {
    let v = Json::object()
        .with("é", Json::number(1))
        .with("a", Json::list(vec![Json::object().with("y", Json::Null).with("x", Json::Null)]))
        .with("Z", Json::number(2))
        .with("aa", Json::number(3));
    let sorted = normalize_json(&v);
    match &sorted {
        Json::Object(members) => {
            let names: Vec<&str> = members.iter().map(|m| m.0.as_str()).collect();
            assert_eq!(names, vec!["Z", "a", "aa", "é"]);
        }
        other => panic!("no object: {other:?}"),
    }
    assert_eq!(normalize_json(&sorted), sorted);
    assert_eq!(sorted.to_text(), v.to_text());
}

#[test]
fn values_convert_both_ways() {
    let text = r#"{"a":[null,true,-2,3.25,"x"],"b":{"c":7}}"#;
    let value: serde_json::Value = serde_json::from_str(text).unwrap();
    let json = from_value(value.clone());
    assert_eq!(json, Json::parse(text).unwrap());
    assert_eq!(to_value(&json), value);
    assert_eq!(json.duplicate(), json);
}
