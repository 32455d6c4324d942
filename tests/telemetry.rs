use gust::telemetry::{format_tracestate, parse_tracestate, Counter, Gauge, SpanKind};
use gust::tracing::{
    fill_from_seed, generate_counter_id, generate_nano_id, generate_short_id, generate_uuid, nano_id_from_bytes,
    uuid_from_bytes, IdGenerator, TracingConfig,
};

#[test]
fn test_counter_id() {
    let mut counter = 0u64;
    let id1 = generate_counter_id(&mut counter);
    let id2 = generate_counter_id(&mut counter);
    assert_ne!(id1, id2);
    assert_eq!(id1, "0000000000000000");
    assert_eq!(id2, "0000000000000001");
}

#[test]
fn test_uuid_format() {
    let uuid = generate_uuid();
    assert_eq!(uuid.len(), 36);
    assert_eq!(uuid.chars().filter(|&c| c == '-').count(), 4);
}

#[test]
fn test_nano_id_format() {
    let id = generate_nano_id();
    assert_eq!(id.len(), 21);
}

#[test]
fn test_short_id_format() {
    let id = generate_short_id();
    assert_eq!(id.len(), 8);
}

#[test]
fn ids_from_fixed_bytes() {
    let bytes: Vec<u8> = (0u8..16).collect();
    assert_eq!(uuid_from_bytes(&bytes), "00010203-0405-4607-8809-0a0b0c0d0e0f");
    assert_eq!(nano_id_from_bytes(&vec![0, 1, 63, 64]), "01-0");
    let a = fill_from_seed(42, 5);
    assert_eq!(a, fill_from_seed(42, 5));
    assert_eq!(a.len(), 5);
}

#[test]
fn tracing_config_builders() {
    let c = TracingConfig::new().header_name("X-Trace").log_requests().id_generator(IdGenerator::Counter);
    assert_eq!(c.header_name, "X-Trace");
    assert!(c.log_requests);
    assert!(!c.log_responses);
    assert_eq!(c.id_generator, IdGenerator::Counter);
}

#[test]
fn otel_test_parse_tracestate() {
    let header = "vendor1=value1,vendor2=value2";
    let state = parse_tracestate(header);
    let get = |k: &str| state.iter().find(|(a, _)| a == k).map(|(_, v)| v.clone());
    assert_eq!(get("vendor1"), Some("value1".to_string()));
    assert_eq!(get("vendor2"), Some("value2".to_string()));
}

#[test]
fn w3c_test_parse_tracestate() {
    let state = parse_tracestate("vendor1=value1,vendor2=value2");
    assert_eq!(state.len(), 2);
    assert_eq!(state[0], ("vendor1".to_string(), "value1".to_string()));
}

#[test]
fn tracestate_edges() {
    let state = parse_tracestate(" a=1=2 , junk, b= ");
    assert_eq!(state, vec![("a".to_string(), "1=2".to_string()), ("b".to_string(), "".to_string())]);
    assert_eq!(format_tracestate(&[]), "");
}

#[test]
fn test_format_tracestate() {
    let state = vec![("vendor1".to_string(), "value1".to_string()), ("vendor2".to_string(), "value2".to_string())];
    assert_eq!(format_tracestate(&state), "vendor1=value1,vendor2=value2");
}

#[test]
fn test_counter() {
    let mut counter = Counter::new("requests_total");
    counter.inc();
    counter.inc();
    counter.add(5);

    assert_eq!(counter.get(), 7);
    assert_eq!(counter.name(), "requests_total");
}

#[test]
fn counter_wraps_and_gauge_name() {
    let mut c = Counter::new("c");
    c.add(u64::MAX);
    c.inc();
    assert_eq!(c.get(), 0);
    assert_eq!(Gauge::new("g").name(), "g");
    assert_eq!(SpanKind::Consumer.as_i32(), 4);
}

#[test]
fn test_trace_id_format() {
    let mut rng = gust::telemetry::seed_rng(12345);
    let id = gust::telemetry::generate_trace_id(&mut rng);
    assert_eq!(id.len(), 32);
    assert!(id.chars().all(|c| c.is_ascii_hexdigit()));
}

#[test]
fn test_span_id_format() {
    let mut rng = gust::telemetry::seed_rng(12345);
    let id = gust::telemetry::generate_span_id(&mut rng);
    assert_eq!(id.len(), 16);
    assert!(id.chars().all(|c| c.is_ascii_hexdigit()));
}

#[test]
fn test_generate_trace_id() {
    let mut rng = gust::telemetry::seed_rng(0);
    let id1 = gust::telemetry::generate_trace_id(&mut rng);
    let id2 = gust::telemetry::generate_trace_id(&mut rng);
    assert_eq!(id1.len(), 32);
    assert_ne!(id1, id2);
    assert!(id1.chars().all(|c| c.is_ascii_hexdigit()));
}

#[test]
fn test_generate_span_id() {
    let mut rng = gust::telemetry::seed_rng(7);
    let id = gust::telemetry::generate_span_id(&mut rng);
    assert_eq!(id.len(), 16);
    let mut again = gust::telemetry::seed_rng(7);
    assert_eq!(gust::telemetry::generate_span_id(&mut again), id);
    let mask = gust::telemetry::generate_mask(&mut again);
    assert_eq!(mask.len(), 4);
    assert_eq!(gust::telemetry::bytes_to_hex(&[0, 255]), "00ff");
    assert_eq!(gust::telemetry::generate_random_bytes(5).len(), 5);
}
