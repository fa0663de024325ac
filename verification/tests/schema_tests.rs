use cirislens_core::schema::{SchemaCache, SchemaDefinition};

#[test]
fn test_schema_matches_all() {
    let schema = SchemaDefinition {
        version: "1.9.3".to_string(),
        description: "test".to_string(),
        status: "current".to_string(),
        signature_event_types: vec!["THOUGHT_START".to_string(), "DMA_RESULTS".to_string()],
        field_extractions: Vec::new(),
        match_mode: "all".to_string(),
        special_handling: false,
    };

    // Should match when all signature events present
    let events = vec![
        "THOUGHT_START".to_string(),
        "DMA_RESULTS".to_string(),
        "ACTION_RESULT".to_string(),
    ];
    assert!(schema.matches(&events));

    // Should not match when missing signature event
    let events = vec!["THOUGHT_START".to_string()];
    assert!(!schema.matches(&events));
}

#[test]
fn test_schema_matches_any() {
    let schema = SchemaDefinition {
        version: "connectivity".to_string(),
        description: "test".to_string(),
        status: "current".to_string(),
        signature_event_types: vec!["startup".to_string(), "shutdown".to_string()],
        field_extractions: Vec::new(),
        match_mode: "any".to_string(),
        special_handling: true,
    };

    // Should match when any signature event present
    let events = vec!["startup".to_string()];
    assert!(schema.matches(&events));

    let events = vec!["shutdown".to_string()];
    assert!(schema.matches(&events));

    // Should not match when no signature events
    let events = vec!["other".to_string()];
    assert!(!schema.matches(&events));
}

fn loaded_cache() -> SchemaCache {
    let mut cache = SchemaCache::new();
    cache.load_from_db_rows(
        vec![
            (
                "1.0.0".to_string(),
                "old".to_string(),
                "deprecated".to_string(),
                vec!["THOUGHT_START".to_string()],
            ),
            (
                "1.9.3".to_string(),
                "new".to_string(),
                "current".to_string(),
                vec!["THOUGHT_START".to_string(), "DMA_RESULTS".to_string()],
            ),
            (
                "1.8.0".to_string(),
                "mid".to_string(),
                "supported".to_string(),
                vec!["THOUGHT_START".to_string()],
            ),
        ],
        vec![
            (
                "1.9.3".to_string(),
                "THOUGHT_START".to_string(),
                "thought_id".to_string(),
                "thought_id".to_string(),
                "string".to_string(),
                true,
                "thought_id".to_string(),
            ),
            (
                "1.9.3".to_string(),
                "THOUGHT_START".to_string(),
                "depth".to_string(),
                "thought_depth".to_string(),
                "int".to_string(),
                false,
                "thought_depth".to_string(),
            ),
        ],
    );
    cache
}

#[test]
fn test_load_orders_by_status_priority() {
    let cache = loaded_cache();
    assert!(cache.is_loaded());
    let versions = cache.schema_versions();
    assert_eq!(versions, vec!["1.9.3", "1.8.0", "1.0.0"]);
}

#[test]
fn test_detection_prefers_current() {
    let cache = loaded_cache();
    let ctx = cirislens_core::logging::LogContext::new("test-batch");
    // Both 1.9.3 (current) and the others match this event set; current wins.
    let events = vec!["THOUGHT_START".to_string(), "DMA_RESULTS".to_string()];
    let detected = cache.detect_schema_version(&events, &ctx).unwrap();
    assert_eq!(detected.version, "1.9.3");
    // Only the deprecated and supported schemas match a lone THOUGHT_START;
    // supported outranks deprecated.
    let events = vec!["THOUGHT_START".to_string()];
    let detected = cache.detect_schema_version(&events, &ctx).unwrap();
    assert_eq!(detected.version, "1.8.0");
    // Nothing matches an unrelated event set.
    let events = vec!["OTHER".to_string()];
    assert!(cache.detect_schema_version(&events, &ctx).is_none());
}

#[test]
fn test_field_rules_lookup() {
    let cache = loaded_cache();
    let rules = cache.get_field_rules("1.9.3", "THOUGHT_START");
    assert_eq!(rules.len(), 2);
    assert_eq!(rules[0].field_name, "thought_id");
    assert_eq!(rules[0].json_path, "thought_id");
    assert_eq!(rules[1].db_column, "thought_depth");
    assert!(cache.get_field_rules("1.9.3", "OTHER").is_empty());
    assert!(cache.get_field_rules("9.9.9", "THOUGHT_START").is_empty());
}

#[test]
fn test_get_schema_and_clear() {
    let mut cache = loaded_cache();
    assert!(cache.get_schema("1.9.3").is_some());
    assert!(cache.get_schema("missing").is_none());
    cache.clear();
    assert!(!cache.is_loaded());
    assert!(cache.schema_versions().is_empty());
}

#[test]
fn test_schema_cache_refresh() {
    let mut cache = loaded_cache();
    cache.mark_loaded(1000);
    assert!(!cache.needs_refresh(1000));
    assert!(!cache.needs_refresh(1300));
    assert!(cache.needs_refresh(1301));
    assert_eq!(cache.cache_age_secs(1250), Some(250));
    let empty = SchemaCache::new();
    assert!(empty.needs_refresh(0));
    assert_eq!(empty.cache_age_secs(5), None);
}

#[test]
fn test_connectivity_schema_gets_any_mode() {
    let mut cache = SchemaCache::new();
    cache.load_from_db_rows(
        vec![(
            "connectivity".to_string(),
            "events".to_string(),
            "current".to_string(),
            vec!["startup".to_string(), "shutdown".to_string()],
        )],
        vec![],
    );
    let schema = cache.get_schema("connectivity").unwrap();
    assert_eq!(schema.match_mode, "any");
    assert!(schema.special_handling);
}
