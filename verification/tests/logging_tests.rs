use cirislens_core::logging::LogContext;

#[test]
fn test_log_context_display() {
    let ctx = LogContext::new("batch-123");
    assert_eq!(ctx.render(), "[batch=batch-123]");

    let ctx_with_trace = ctx.with_trace("trace-456");
    assert_eq!(ctx_with_trace.render(), "[batch=batch-123] [trace=trace-456]");
}
