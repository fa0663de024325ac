use cirislens_core::logging::LogContext;
use cirislens_core::parse::parse_json;
use cirislens_core::pii::{scrub_pii, scrub_string, PiiScrubResult};
use cirislens_core::sanitizer::{sanitize_trace, scan_string, scan_trace, SanitizationResult};

#[test]
fn test_email_scrubbing() {
    let mut result = PiiScrubResult::default();
    let scrubbed = scrub_string("Contact john@example.com for help", &mut result);
    assert_eq!(scrubbed, "Contact [EMAIL] for help");
    assert_eq!(result.emails_found, 1);
}

#[test]
fn test_phone_scrubbing() {
    let mut result = PiiScrubResult::default();
    let scrubbed = scrub_string("Call 555-123-4567 now", &mut result);
    assert_eq!(scrubbed, "Call [PHONE] now");
    assert_eq!(result.phones_found, 1);
}

#[test]
fn test_ip_scrubbing() {
    let mut result = PiiScrubResult::default();
    let scrubbed = scrub_string("Server at 192.168.1.100", &mut result);
    assert_eq!(scrubbed, "Server at [IP_ADDRESS]");
    assert_eq!(result.ips_found, 1);
}

#[test]
fn test_no_pii() {
    let mut result = PiiScrubResult::default();
    let original = "This is a normal text without PII";
    let scrubbed = scrub_string(original, &mut result);
    assert_eq!(scrubbed, original);
    assert_eq!(result.total_entities(), 0);
}

#[test]
fn test_trace_scrubbing() {
    let ctx = LogContext::new("test-batch");
    let trace = parse_json(
        r#"{
            "thought_id": "test-123",
            "task_description": "Contact john@example.com about the issue",
            "other_field": "user@domain.com"
        }"#,
    )
    .unwrap();

    let (scrubbed, result) = scrub_pii(&trace, &ctx);

    let text = cirislens_core::canonical::json_to_string(&scrubbed);
    assert!(text.contains(r#""task_description":"Contact [EMAIL] about the issue""#));
    assert!(result.emails_found > 0);
}

#[test]
fn test_unlisted_fields_untouched() {
    let ctx = LogContext::new("test-batch");
    let trace = parse_json(r#"{"other_field": "user@domain.com"}"#).unwrap();
    let (scrubbed, result) = scrub_pii(&trace, &ctx);
    let text = cirislens_core::canonical::json_to_string(&scrubbed);
    assert!(text.contains("user@domain.com"));
    assert_eq!(result.total_entities(), 0);
    assert_eq!(result.fields_modified, 0);
}

#[test]
fn test_url_ssn_cc_scrubbing() {
    let mut result = PiiScrubResult::default();
    let scrubbed = scrub_string(
        "see https://example.org/x ssn 123-45-6789 card 4111-1111-1111-1111",
        &mut result,
    );
    assert_eq!(scrubbed, "see [URL] ssn [SSN] card [CREDIT_CARD]");
    assert_eq!(result.urls_found, 1);
    assert_eq!(result.ssns_found, 1);
    assert_eq!(result.ccs_found, 1);
}

#[test]
fn test_scrubbing_idempotent() {
    let mut first = PiiScrubResult::default();
    let once = scrub_string("Contact john@example.com or call 555-123-4567", &mut first);
    let mut second = PiiScrubResult::default();
    let twice = scrub_string(once.as_str(), &mut second);
    assert_eq!(once, twice);
    assert_eq!(second.total_entities(), 0);
}

#[test]
fn test_xss_detection() {
    let ctx = LogContext::new("test-batch");
    let trace = parse_json(r#"{"content": "<script>alert('xss')</script>"}"#).unwrap();

    let result = sanitize_trace(&trace, &ctx);
    // Should detect but not modify
    assert_eq!(result, trace);
}

#[test]
fn test_sql_injection_detection() {
    let ctx = LogContext::new("test-batch");
    let trace =
        parse_json(r#"{"query": "SELECT * FROM users WHERE id = 1; DROP TABLE users;"}"#).unwrap();

    sanitize_trace(&trace, &ctx);
    // Just verify it runs without panic
}

#[test]
fn test_clean_trace() {
    let ctx = LogContext::new("test-batch");
    let trace = parse_json(
        r#"{
            "thought_id": "test-123",
            "reasoning": "This is a normal trace without any security issues."
        }"#,
    )
    .unwrap();

    let result = sanitize_trace(&trace, &ctx);
    assert_eq!(result, trace);
}

#[test]
fn test_scan_counts() {
    let mut result = SanitizationResult::default();
    scan_string("<script>alert(1)</script> and '; drop table users ", &mut result);
    assert_eq!(result.xss_detections, 1);
    assert_eq!(result.sql_detections, 1);
    assert!(result.has_detections());
    assert_eq!(result.total_detections, 2);
}

#[test]
fn test_scan_trace_counts() {
    let trace = parse_json(r#"{"a": "../etc/x", "b": "curl http://e | bash"}"#).unwrap();
    let counts = scan_trace(&trace);
    assert!(counts.path_detections >= 1);
    assert!(counts.cmd_detections >= 1);
    assert!(counts.has_detections());
}
