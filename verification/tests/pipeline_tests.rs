use base64::Engine as _;
use ed25519_dalek::Signer;

use cirislens_core::canonical::build_199_canonical;
use cirislens_core::context::BatchContext;
use cirislens_core::parse::parse_json;
use cirislens_core::pipeline::{process_batch, process_single_trace};
use cirislens_core::schema::SchemaCache;
use cirislens_core::signature::PublicKeyCache;

fn ctx_with_level(level: &str) -> BatchContext {
    BatchContext::new("2026-01-29T00:00:00Z", None, level, None)
}

fn signing_key() -> ed25519_dalek::SigningKey {
    ed25519_dalek::SigningKey::from_bytes(&[7u8; 32])
}

fn key_cache_with_k1() -> PublicKeyCache {
    let pk_b64 =
        base64::engine::general_purpose::STANDARD.encode(signing_key().verifying_key().to_bytes());
    let mut cache = PublicKeyCache::new();
    cache.load_key("k1", pk_b64.as_str()).unwrap();
    cache.mark_loaded(100);
    cache
}

fn schema_cache_193() -> SchemaCache {
    let mut cache = SchemaCache::new();
    cache.load_from_db_rows(
        vec![
            (
                "1.9.3".to_string(),
                "test schema".to_string(),
                "current".to_string(),
                vec!["THOUGHT_START".to_string(), "DMA_RESULTS".to_string()],
            ),
            (
                "connectivity".to_string(),
                "events".to_string(),
                "current".to_string(),
                vec!["startup".to_string(), "shutdown".to_string()],
            ),
        ],
        vec![
            (
                "1.9.3".to_string(),
                "THOUGHT_START".to_string(),
                "task_description".to_string(),
                "task_description".to_string(),
                "string".to_string(),
                false,
                "task_description".to_string(),
            ),
            (
                "1.9.3".to_string(),
                "ACTION_RESULT".to_string(),
                "models_used".to_string(),
                "models_used".to_string(),
                "json".to_string(),
                false,
                "models_used".to_string(),
            ),
        ],
    );
    cache
}

/// A signed trace whose components cover the signature event set of 1.9.3.
fn signed_trace(components_text: &str, level: &str) -> String {
    let components = parse_json(components_text).unwrap();
    let canonical = build_199_canonical(&components, level);
    let sig = signing_key().sign(canonical.as_bytes());
    let sig_b64 = base64::engine::general_purpose::URL_SAFE_NO_PAD.encode(sig.to_bytes());
    format!(
        r#"{{"trace_id":"t1","components":{},"signature":"{}","signature_key_id":"k1"}}"#,
        components_text, sig_b64
    )
}

const COMPONENTS_193: &str = r#"[{"event_type":"THOUGHT_START","data":{"task_description":"review the report"}},{"event_type":"DMA_RESULTS","data":{"score":1}}]"#;

#[test]
fn test_process_invalid_json() {
    let ctx = ctx_with_level("detailed");
    let schemas = SchemaCache::new();
    let keys = PublicKeyCache::new();

    let result = process_single_trace(&ctx, &schemas, &keys, "invalid json{");
    assert!(!result.accepted);
    assert_eq!(result.destination, "malformed");
    assert!(result.rejection_reason.is_some());
}

#[test]
fn test_process_empty_events() {
    let ctx = ctx_with_level("detailed");
    let schemas = SchemaCache::new();
    let keys = PublicKeyCache::new();

    let result = process_single_trace(&ctx, &schemas, &keys, r#"{"trace_id": "test-123"}"#);
    // Without schema cache loaded, this should fail validation
    assert!(!result.accepted);
    assert_eq!(result.destination, "malformed");
}

#[test]
fn test_parse_error_reason_prefix() {
    let ctx = ctx_with_level("detailed");
    let result =
        process_single_trace(&ctx, &SchemaCache::new(), &PublicKeyCache::new(), "invalid json{");
    assert_eq!(result.trace_id, "unknown");
    assert!(result.rejection_reason.unwrap().starts_with("JSON parse error"));
}

#[test]
fn test_connectivity_trace_accepted() {
    let ctx = ctx_with_level("detailed");
    let schemas = schema_cache_193();
    let keys = PublicKeyCache::new();
    let trace = r#"{"trace_id":"t1","components":[{"event_type":"startup","data":{}}],"event_type":"startup"}"#;
    let result = process_single_trace(&ctx, &schemas, &keys, trace);
    assert!(result.accepted);
    assert_eq!(result.destination, "connectivity");
    assert_eq!(result.schema_version.as_deref(), Some("connectivity"));
    assert_eq!(result.extracted_metadata.get("event_type").unwrap(), "startup");
    assert!(result.extracted_metadata.get("event_data").is_some());
}

#[test]
fn test_signed_trace_goes_to_production() {
    let ctx = ctx_with_level("detailed");
    let schemas = schema_cache_193();
    let keys = key_cache_with_k1();
    let trace = signed_trace(COMPONENTS_193, "detailed");
    let result = process_single_trace(&ctx, &schemas, &keys, trace.as_str());
    assert!(result.accepted);
    assert_eq!(result.destination, "production");
    assert_eq!(result.schema_version.as_deref(), Some("1.9.3"));
    assert_eq!(result.extracted_metadata.get("signature_verified").unwrap(), "true");
    assert_eq!(result.extracted_metadata.get("signature_key_id").unwrap(), "k1");
    assert_eq!(result.extracted_metadata.get("trace_id").unwrap(), "t1");
    assert_eq!(
        result.extracted_metadata.get("task_description").unwrap(),
        "review the report"
    );
}

#[test]
fn test_flipped_signature_is_rejected() {
    let ctx = ctx_with_level("detailed");
    let schemas = schema_cache_193();
    let keys = key_cache_with_k1();

    let components = parse_json(COMPONENTS_193).unwrap();
    let canonical = build_199_canonical(&components, "detailed");
    let sig = signing_key().sign(canonical.as_bytes());
    let mut bytes = sig.to_bytes();
    bytes[10] ^= 0x01;
    let sig_b64 = base64::engine::general_purpose::URL_SAFE_NO_PAD.encode(bytes);
    let trace = format!(
        r#"{{"trace_id":"t1","components":{},"signature":"{}","signature_key_id":"k1"}}"#,
        COMPONENTS_193, sig_b64
    );

    let result = process_single_trace(&ctx, &schemas, &keys, trace.as_str());
    assert!(!result.accepted);
    assert_eq!(result.destination, "malformed");
    assert_eq!(result.rejection_reason.as_deref(), Some("Verification failed"));
}

#[test]
fn test_missing_signature_is_rejected() {
    let ctx = ctx_with_level("detailed");
    let schemas = schema_cache_193();
    let keys = key_cache_with_k1();
    let trace = format!(r#"{{"trace_id":"t1","components":{}}}"#, COMPONENTS_193);
    let result = process_single_trace(&ctx, &schemas, &keys, trace.as_str());
    assert!(!result.accepted);
    assert_eq!(result.rejection_reason.as_deref(), Some("No signature provided"));
}

#[test]
fn test_missing_key_id_is_rejected() {
    let ctx = ctx_with_level("detailed");
    let schemas = schema_cache_193();
    let keys = key_cache_with_k1();
    let trace = format!(
        r#"{{"trace_id":"t1","components":{},"signature":"AAAA"}}"#,
        COMPONENTS_193
    );
    let result = process_single_trace(&ctx, &schemas, &keys, trace.as_str());
    assert!(!result.accepted);
    assert_eq!(
        result.rejection_reason.as_deref(),
        Some("Signature present but key_id missing")
    );
}

#[test]
fn test_full_traces_scrubs_task_description() {
    let ctx = ctx_with_level("full_traces");
    let schemas = schema_cache_193();
    let keys = key_cache_with_k1();
    let components = r#"[{"event_type":"THOUGHT_START","data":{"task_description":"Contact john@example.com and call 555-123-4567"}},{"event_type":"DMA_RESULTS","data":{"score":1}}]"#;
    let trace = signed_trace(components, "full_traces");
    let result = process_single_trace(&ctx, &schemas, &keys, trace.as_str());
    assert!(result.accepted);
    let desc = result.extracted_metadata.get("task_description").unwrap();
    assert!(desc.contains("[EMAIL]"));
    assert!(desc.contains("[PHONE]"));
    assert!(!desc.contains("@"));
    assert!(!desc.contains("555"));
}

#[test]
fn test_mock_routing_by_tier() {
    let schemas = schema_cache_193();
    let keys = key_cache_with_k1();
    let components = r#"[{"event_type":"THOUGHT_START","data":{}},{"event_type":"DMA_RESULTS","data":{}},{"event_type":"ACTION_RESULT","data":{"models_used":["llama4scout (mock)"]}}]"#;

    let ctx = ctx_with_level("detailed");
    let trace = signed_trace(components, "detailed");
    let result = process_single_trace(&ctx, &schemas, &keys, trace.as_str());
    assert!(result.accepted);
    assert_eq!(result.destination, "mock");

    let ctx = ctx_with_level("generic");
    let trace = signed_trace(components, "generic");
    let result = process_single_trace(&ctx, &schemas, &keys, trace.as_str());
    assert!(result.accepted);
    assert_eq!(result.destination, "production");
}

#[test]
fn test_intermediate_format_fallback() {
    // A signer of the stripped encoding still verifies, through the fallback.
    let ctx = ctx_with_level("detailed");
    let schemas = schema_cache_193();
    let keys = key_cache_with_k1();
    let components = parse_json(COMPONENTS_193).unwrap();
    let canonical = cirislens_core::canonical::sort_and_serialize(&components);
    let sig = signing_key().sign(canonical.as_bytes());
    let sig_b64 = base64::engine::general_purpose::URL_SAFE_NO_PAD.encode(sig.to_bytes());
    let trace = format!(
        r#"{{"trace_id":"t1","components":{},"signature":"{}","signature_key_id":"k1"}}"#,
        COMPONENTS_193, sig_b64
    );
    let result = process_single_trace(&ctx, &schemas, &keys, trace.as_str());
    assert!(result.accepted);
    assert_eq!(result.destination, "production");
}

#[test]
fn test_legacy_format_fallback() {
    // A signer of the spaced legacy encoding still verifies.
    let ctx = ctx_with_level("detailed");
    let schemas = schema_cache_193();
    let keys = key_cache_with_k1();
    let components = parse_json(COMPONENTS_193).unwrap();
    let canonical = cirislens_core::canonical::sort_and_serialize_legacy(&components);
    let sig = signing_key().sign(canonical.as_bytes());
    let sig_b64 = base64::engine::general_purpose::STANDARD.encode(sig.to_bytes());
    let trace = format!(
        r#"{{"trace_id":"t1","components":{},"signature":"{}","signature_key_id":"k1"}}"#,
        COMPONENTS_193, sig_b64
    );
    let result = process_single_trace(&ctx, &schemas, &keys, trace.as_str());
    assert!(result.accepted);
    assert_eq!(result.destination, "production");
}

#[test]
fn test_batch_counters_and_order() {
    let ctx = ctx_with_level("detailed");
    let schemas = schema_cache_193();
    let keys = key_cache_with_k1();
    let good = signed_trace(COMPONENTS_193, "detailed");
    let events = vec!["invalid json{".to_string(), good.clone(), "{}".to_string()];
    let result = process_batch(&ctx, &schemas, &keys, events);
    assert_eq!(result.received_count, 3);
    assert_eq!(result.accepted_count, 1);
    assert_eq!(result.rejected_count, 2);
    assert_eq!(result.received_count, result.accepted_count + result.rejected_count);
    assert_eq!(result.traces.len(), 3);
    assert_eq!(result.traces[0].destination, "malformed");
    assert_eq!(result.traces[1].destination, "production");
    assert_eq!(result.traces[2].destination, "malformed");
}

#[test]
fn test_unloaded_catalog_accepts_as_unknown() {
    let ctx = ctx_with_level("detailed");
    let schemas = SchemaCache::new();
    let keys = key_cache_with_k1();
    let trace = signed_trace(COMPONENTS_193, "detailed");
    let result = process_single_trace(&ctx, &schemas, &keys, trace.as_str());
    assert!(result.accepted);
    assert_eq!(result.schema_version.as_deref(), Some("unknown"));
    // Rule-driven extraction produces nothing in degraded mode.
    assert!(result.extracted_metadata.get("task_description").is_none());
}

#[test]
fn test_rejection_reasons() {
    let ctx = ctx_with_level("detailed");
    let schemas = schema_cache_193();
    let keys = key_cache_with_k1();

    let no_events = process_single_trace(&ctx, &schemas, &keys, r#"{"trace_id":"t"}"#);
    assert_eq!(no_events.rejection_reason.as_deref(), Some("No event_types found"));

    let unmatched = process_single_trace(
        &ctx,
        &schemas,
        &keys,
        r#"{"trace_id":"t","components":[{"event_type":"UNRELATED","data":{}}]}"#,
    );
    assert_eq!(
        unmatched.rejection_reason.as_deref(),
        Some("No matching schema for events")
    );

    let unknown_key = process_single_trace(
        &ctx,
        &schemas,
        &keys,
        format!(
            r#"{{"components":{},"signature":"AAAA","signature_key_id":"k9"}}"#,
            COMPONENTS_193
        )
        .as_str(),
    );
    assert_eq!(unknown_key.rejection_reason.as_deref(), Some("Unknown signer key"));
}

#[test]
fn test_batch_context_id_shape() {
    let ctx = ctx_with_level("detailed");
    assert_eq!(ctx.batch_id.len(), 14);
    assert!(ctx.batch_id.starts_with("batch-"));
    assert_eq!(ctx.batch_timestamp, "2026-01-29T00:00:00Z");
    assert_eq!(ctx.trace_level, "detailed");
    let tc = ctx.trace_context("t9");
    assert_eq!(tc.trace_id, "t9");
    assert_eq!(tc.log_context().render(), format!("[batch={}] [trace=t9]", ctx.batch_id));
}
