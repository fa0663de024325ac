use cirislens_core::logging::LogContext;
use cirislens_core::routing::{
    contains_mock_model, determine_routing, is_mock_trace, parse_models_used, RoutingDecision,
};
use cirislens_core::strmap::StrMap;

#[test]
fn test_production_routing() {
    let ctx = LogContext::new("test-batch");
    let metadata = StrMap::new();

    let decision = determine_routing(&metadata, "detailed", &ctx);
    assert_eq!(decision, RoutingDecision::Production);
}

#[test]
fn test_mock_routing() {
    let ctx = LogContext::new("test-batch");
    let mut metadata = StrMap::new();
    metadata.insert("models_used".to_string(), r#"["llama4scout (mock)"]"#.to_string());

    let decision = determine_routing(&metadata, "detailed", &ctx);
    assert_eq!(decision, RoutingDecision::Mock);
}

#[test]
fn test_mock_routing_generic_level() {
    let ctx = LogContext::new("test-batch");
    let mut metadata = StrMap::new();
    metadata.insert("models_used".to_string(), r#"["mock-model"]"#.to_string());

    // Generic level should go to production even with mock models
    let decision = determine_routing(&metadata, "generic", &ctx);
    assert_eq!(decision, RoutingDecision::Production);
}

#[test]
fn test_connectivity_routing() {
    let ctx = LogContext::new("test-batch");
    let mut metadata = StrMap::new();
    metadata.insert("schema_version".to_string(), "connectivity".to_string());

    let decision = determine_routing(&metadata, "detailed", &ctx);
    assert_eq!(decision, RoutingDecision::Connectivity);
}

#[test]
fn test_is_mock_trace() {
    assert!(is_mock_trace(r#"["llama4scout (mock)"]"#));
    assert!(is_mock_trace(r#"["Mock-Model"]"#));
    assert!(is_mock_trace(r#"["model1", "mock-test"]"#));
    assert!(!is_mock_trace(r#"["carbon-3-sonnet"]"#));
    assert!(!is_mock_trace(r#"["gmt-4"]"#));
    assert!(!is_mock_trace(r#"[]"#));
}

#[test]
fn test_parse_models_used() {
    let models = parse_models_used(r#"["carbon-3", "gmt-4"]"#);
    assert_eq!(models, vec!["carbon-3", "gmt-4"]);

    let empty = parse_models_used(r#"[]"#);
    assert!(empty.is_empty());

    let invalid = parse_models_used("invalid");
    assert!(invalid.is_empty());
}

#[test]
fn test_contains_mock_model() {
    let with_mock = vec!["carbon-3".to_string(), "mock-test".to_string()];
    assert!(contains_mock_model(&with_mock));

    let without_mock = vec!["carbon-3".to_string(), "gmt-4".to_string()];
    assert!(!contains_mock_model(&without_mock));
}

#[test]
fn test_decision_names() {
    assert_eq!(RoutingDecision::Production.as_str(), "production");
    assert_eq!(RoutingDecision::Mock.as_str(), "mock");
    assert_eq!(RoutingDecision::Connectivity.as_str(), "connectivity");
    assert_eq!(RoutingDecision::Malformed("bad".to_string()).as_str(), "malformed");
}

#[test]
fn test_mock_never_at_generic_tier() {
    let ctx = LogContext::new("test-batch");
    let mut metadata = StrMap::new();
    metadata.insert("models_used".to_string(), r#"["MOCK", "mock", "MoCk"]"#.to_string());
    assert_eq!(determine_routing(&metadata, "generic", &ctx), RoutingDecision::Production);
    assert_eq!(determine_routing(&metadata, "full_traces", &ctx), RoutingDecision::Mock);
    assert_eq!(determine_routing(&metadata, "detailed", &ctx), RoutingDecision::Mock);
}

#[test]
fn test_parse_models_used_rejects_mixed() {
    let mixed = parse_models_used(r#"["carbon-3", 7]"#);
    assert!(mixed.is_empty());
}
