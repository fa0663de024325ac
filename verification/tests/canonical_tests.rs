use cirislens_core::canonical::{
    build_199_canonical, is_empty_value, json_to_string, sort_and_serialize,
    sort_and_serialize_compact, sort_and_serialize_legacy, strip_empty,
};
use cirislens_core::json::Json;
use cirislens_core::parse::parse_json;

fn sample() -> Json {
    parse_json(r#"{"b": 1, "a": "x", "e": "", "n": null, "arr": [1, "", {"k": []}]}"#).unwrap()
}

#[test]
fn test_compact_encoding_sorts_keys() {
    let v = sample();
    assert_eq!(
        sort_and_serialize_compact(&v),
        r#"{"a":"x","arr":[1,"",{"k":[]}],"b":1,"e":"","n":null}"#
    );
}

#[test]
fn test_stripped_encoding_drops_empty_values() {
    let v = sample();
    assert_eq!(sort_and_serialize(&v), r#"{"a":"x","arr":[1],"b":1}"#);
}

#[test]
fn test_legacy_encoding_spaces() {
    let v = parse_json(r#"{"b": 1, "a": ["x", 2]}"#).unwrap();
    assert_eq!(sort_and_serialize_legacy(&v), r#"{"a": ["x", 2], "b": 1}"#);
}

#[test]
fn test_modern_wrapper() {
    let components = parse_json(r#"[{"event_type": "startup", "data": {}}]"#).unwrap();
    assert_eq!(
        build_199_canonical(&components, "detailed"),
        r#"{"components":[{"data":{},"event_type":"startup"}],"trace_level":"detailed"}"#
    );
}

#[test]
fn test_encoding_deterministic() {
    let a = sample();
    let b = sample();
    assert_eq!(sort_and_serialize_compact(&a), sort_and_serialize_compact(&b));
    assert_eq!(sort_and_serialize(&a), sort_and_serialize(&b));
    assert_eq!(sort_and_serialize_legacy(&a), sort_and_serialize_legacy(&b));
}

#[test]
fn test_encoding_stable_under_reparse() {
    let v = sample();
    let text = sort_and_serialize_compact(&v);
    let reparsed = parse_json(text.as_str()).unwrap();
    assert_eq!(sort_and_serialize_compact(&reparsed), text);
    assert_eq!(sort_and_serialize(&reparsed), sort_and_serialize(&v));
    assert_eq!(sort_and_serialize_legacy(&reparsed), sort_and_serialize_legacy(&v));
}

#[test]
fn test_strip_empty_values() {
    assert!(is_empty_value(&Json::Null));
    assert!(is_empty_value(&Json::Str(String::new())));
    assert!(is_empty_value(&Json::Arr(Vec::new())));
    assert!(is_empty_value(&Json::Obj(Vec::new())));
    assert!(!is_empty_value(&Json::Bool(false)));
    assert!(!is_empty_value(&Json::Num("0".to_string())));

    let nested = parse_json(r#"{"a": [""], "b": {"c": null}}"#).unwrap();
    assert_eq!(strip_empty(&nested), None);
    let kept = parse_json(r#"{"a": [""], "b": 2}"#).unwrap();
    let stripped = strip_empty(&kept).unwrap();
    assert_eq!(json_to_string(&stripped), r#"{"b":2}"#);
}

#[test]
fn test_string_escaping() {
    let v = parse_json(r#"{"q": "a\"b\\c\nd\u0001e"}"#).unwrap();
    assert_eq!(json_to_string(&v), "{\"q\":\"a\\\"b\\\\c\\nd\\u0001e\"}");
}

#[test]
fn test_number_tokens_pass_through() {
    let v = parse_json(r#"[1, 2.5, -3, 1e3]"#).unwrap();
    let text = json_to_string(&v);
    assert_eq!(text, "[1,2.5,-3,1000.0]");
}
