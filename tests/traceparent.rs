use gust::telemetry::{format_traceparent, parse_traceparent, SpanContext};

fn sample() -> SpanContext {
    SpanContext {
        trace_id: "0af7651916cd43dd8448eb211c80319c".to_string(),
        span_id: "b7ad6b7169203331".to_string(),
        trace_flags: 1,
        trace_state: None,
    }
}

#[test]
fn w3c_test_parse_traceparent() {
    let header = "00-0af7651916cd43dd8448eb211c80319c-b7ad6b7169203331-01";
    let ctx = parse_traceparent(header).unwrap();
    assert_eq!(ctx.trace_id, "0af7651916cd43dd8448eb211c80319c");
    assert_eq!(ctx.span_id, "b7ad6b7169203331");
    assert_eq!(ctx.trace_flags, 1);
}

#[test]
fn otel_test_parse_traceparent() {
    let header = "00-0af7651916cd43dd8448eb211c80319c-b7ad6b7169203331-01";
    let ctx = parse_traceparent(header).unwrap();

    assert_eq!(ctx.trace_id, "0af7651916cd43dd8448eb211c80319c");
    assert_eq!(ctx.span_id, "b7ad6b7169203331");
    assert_eq!(ctx.trace_flags, 1);
    assert!(ctx.is_sampled());
}

#[test]
fn tracing_test_parse_traceparent() {
    let header = "00-0af7651916cd43dd8448eb211c80319c-b7ad6b7169203331-01";
    let ctx = parse_traceparent(header).unwrap();
    assert_eq!(ctx.trace_id, "0af7651916cd43dd8448eb211c80319c");
    assert_eq!(ctx.span_id, "b7ad6b7169203331");
    assert_eq!(ctx.trace_flags, 1);
}

#[test]
fn test_parse_traceparent_invalid() {
    assert!(parse_traceparent("01-abc-def-00").is_none());
    assert!(parse_traceparent("00-abc").is_none());
    assert!(parse_traceparent("00-00000000000000000000000000000000-b7ad6b7169203331-01").is_none());
    assert!(parse_traceparent("00-gggggggggggggggggggggggggggggggg-b7ad6b7169203331-01").is_none());
}

#[test]
fn test_invalid_traceparent() {
    assert!(parse_traceparent("01-0af7651916cd43dd8448eb211c80319c-b7ad6b7169203331-01").is_none());
    assert!(parse_traceparent("00-00000000000000000000000000000000-b7ad6b7169203331-01").is_none());
    assert!(parse_traceparent("invalid").is_none());
}

#[test]
fn w3c_test_format_traceparent() {
    assert_eq!(format_traceparent(&sample()), "00-0af7651916cd43dd8448eb211c80319c-b7ad6b7169203331-01");
}

#[test]
fn otel_test_format_traceparent() {
    let header = format_traceparent(&sample());
    assert_eq!(header, "00-0af7651916cd43dd8448eb211c80319c-b7ad6b7169203331-01");
}

#[test]
fn tracing_test_format_traceparent() {
    let header = format_traceparent(&sample());
    assert_eq!(header, "00-0af7651916cd43dd8448eb211c80319c-b7ad6b7169203331-01");
}

#[test]
fn traceparent_round_trip_and_flags() {
    let ctx = parse_traceparent("00-0AF7651916CD43DD8448EB211C80319C-B7AD6B7169203331-fe").unwrap();
    assert_eq!(ctx.trace_flags, 0xfe);
    assert!(!ctx.is_sampled());
    let again = parse_traceparent(&format_traceparent(&ctx)).unwrap();
    assert_eq!(again.trace_id, ctx.trace_id);
    assert_eq!(again.trace_flags, 0xfe);
}
