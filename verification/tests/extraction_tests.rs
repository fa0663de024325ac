use cirislens_core::json::Json;
use cirislens_core::json_path::{
    resolve_json_path, value_to_bool, value_to_float_text, value_to_int, value_to_string,
};
use cirislens_core::metadata::{convert_value, extract_models_used};
use cirislens_core::parse::parse_json;

#[test]
fn test_simple_path() {
    let data = parse_json(r#"{"name": "test"}"#).unwrap();
    assert_eq!(resolve_json_path(&data, "name"), Some(&Json::Str("test".to_string())));
}

#[test]
fn test_nested_path() {
    let data = parse_json(
        r#"{
            "csdma": {
                "plausibility_score": 0.95,
                "confidence": 0.8
            }
        }"#,
    )
    .unwrap();
    assert_eq!(
        resolve_json_path(&data, "csdma.plausibility_score"),
        Some(&Json::Num("0.95".to_string()))
    );
}

#[test]
fn test_deep_nested_path() {
    let data = parse_json(
        r#"{
            "system_snapshot": {
                "agent_profile": {
                    "name": "TestAgent"
                }
            }
        }"#,
    )
    .unwrap();
    assert_eq!(
        resolve_json_path(&data, "system_snapshot.agent_profile.name"),
        Some(&Json::Str("TestAgent".to_string()))
    );
}

#[test]
fn test_array_index() {
    let data = parse_json(
        r#"{
            "items": [
                {"name": "first"},
                {"name": "second"}
            ]
        }"#,
    )
    .unwrap();
    assert_eq!(resolve_json_path(&data, "items.0.name"), Some(&Json::Str("first".to_string())));
    assert_eq!(resolve_json_path(&data, "items.1.name"), Some(&Json::Str("second".to_string())));
}

#[test]
fn test_missing_path() {
    let data = parse_json(r#"{"name": "test"}"#).unwrap();
    assert_eq!(resolve_json_path(&data, "missing"), None);
    assert_eq!(resolve_json_path(&data, "name.nested"), None);
}

#[test]
fn test_empty_path() {
    let data = parse_json(r#"{"name": "test"}"#).unwrap();
    assert_eq!(resolve_json_path(&data, ""), Some(&data));
}

#[test]
fn test_value_conversions() {
    assert_eq!(value_to_float_text(&Json::Num("1.5".to_string())), Some("1.5".to_string()));
    assert_eq!(value_to_float_text(&Json::Str("2.5".to_string())), Some("2.5".to_string()));
    assert_eq!(value_to_int(&Json::Num("42".to_string())), Some(42));
    assert_eq!(value_to_bool(&Json::Bool(true)), Some(true));
    assert_eq!(value_to_bool(&Json::Str("true".to_string())), Some(true));
    assert_eq!(value_to_bool(&Json::Num("1".to_string())), Some(true));
}

#[test]
fn test_extract_models_used() {
    let trace = parse_json(
        r#"{
            "components": [
                {
                    "event_type": "ACTION_RESULT",
                    "data": {
                        "models_used": ["carbon-3", "gmt-4"]
                    }
                }
            ]
        }"#,
    )
    .unwrap();
    let models = extract_models_used(&trace);
    assert_eq!(models, vec!["carbon-3", "gmt-4"]);
}

#[test]
fn test_extract_models_used_empty() {
    let trace = parse_json(r#"{"components": []}"#).unwrap();
    let models = extract_models_used(&trace);
    assert!(models.is_empty());
}

#[test]
fn test_convert_value() {
    assert_eq!(convert_value(&Json::Num("1.5".to_string()), "float"), "1.5");
    assert_eq!(convert_value(&Json::Num("42".to_string()), "int"), "42");
    assert_eq!(convert_value(&Json::Bool(true), "boolean"), "true");
    assert_eq!(convert_value(&Json::Str("test".to_string()), "string"), "test");
}

#[test]
fn test_float_conversion_normalizes() {
    assert_eq!(convert_value(&Json::Num("2.50".to_string()), "float"), "2.5");
    assert_eq!(convert_value(&Json::Num("1e3".to_string()), "float"), "1000");
    assert_eq!(convert_value(&Json::Str("abc".to_string()), "float"), "");
    assert_eq!(convert_value(&Json::Bool(true), "float"), "");
}

#[test]
fn test_value_to_string_forms() {
    assert_eq!(value_to_string(&Json::Str("abc".to_string())), "abc");
    assert_eq!(value_to_string(&Json::Num("3".to_string())), "3");
    assert_eq!(value_to_string(&Json::Bool(false)), "false");
    assert_eq!(value_to_string(&Json::Null), "");
    let arr = parse_json(r#"[1, "a"]"#).unwrap();
    assert_eq!(value_to_string(&arr), r#"[1,"a"]"#);
}

#[test]
fn test_int_conversion_bounds() {
    assert_eq!(value_to_int(&Json::Str("-7".to_string())), Some(-7));
    assert_eq!(value_to_int(&Json::Num("9223372036854775807".to_string())), Some(i64::MAX));
    assert_eq!(value_to_int(&Json::Str("-9223372036854775808".to_string())), Some(i64::MIN));
    assert_eq!(value_to_int(&Json::Num("9223372036854775808".to_string())), None);
    assert_eq!(value_to_int(&Json::Num("1.5".to_string())), None);
    assert_eq!(value_to_int(&Json::Bool(true)), None);
}
