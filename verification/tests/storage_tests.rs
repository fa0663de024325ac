use cirislens_core::storage::{
    build_connectivity_insert, build_malformed_insert, build_trace_insert, get_trace_columns,
};

#[test]
fn test_trace_insert_query() {
    let query = build_trace_insert();
    assert!(query.contains("INSERT INTO cirislens.accord_traces"));
    assert!(query.contains("trace_id"));
    assert!(query.contains("ON CONFLICT"));
}

#[test]
fn test_connectivity_insert_query() {
    let query = build_connectivity_insert();
    assert!(query.contains("INSERT INTO cirislens.connectivity_events"));
    assert!(query.contains("event_type"));
}

#[test]
fn test_column_count() {
    let columns = get_trace_columns();
    // Should have 60 columns
    assert_eq!(columns.len(), 60);
}

#[test]
fn test_malformed_insert_query() {
    let query = build_malformed_insert();
    assert!(query.contains("INSERT INTO cirislens.malformed_traces"));
    assert!(query.contains("rejection_reason"));
}

#[test]
fn test_trace_insert_text() {
    let query = build_trace_insert();
    assert!(query.starts_with("INSERT INTO cirislens.accord_traces (trace_id, timestamp, "));
    assert!(query.ends_with(") ON CONFLICT (trace_id) DO NOTHING"));
    assert!(query.contains("VALUES ($1, $2, "));
    assert!(query.contains("$60"));
}
