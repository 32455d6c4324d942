use gust::http2::{ConnectionInfo, ErrorCode, FrameType, Http2Settings, Priority, PushPromise};
use gust::status::StatusCode;

#[test]
fn test_http2_settings() {
    let settings = Http2Settings::default().max_concurrent_streams(200).initial_window_size(131072);

    assert_eq!(settings.max_concurrent_streams, 200);
    assert_eq!(settings.initial_window_size, 131072);
}

#[test]
fn test_push_promise() {
    let promise = PushPromise::new("/style.css").header("content-type", "text/css");

    assert_eq!(promise.path, "/style.css");
    assert_eq!(promise.method, "GET");
    assert_eq!(promise.headers.get("content-type"), Some(&"text/css".to_string()));
}

#[test]
fn http2_test_priority() {
    let priority = Priority::with_weight(32).depends_on(1).exclusive();

    assert_eq!(priority.weight, 32);
    assert_eq!(priority.dependency, 1);
    assert!(priority.exclusive);
}

#[test]
fn test_frame_types() {
    assert_eq!(FrameType::from_u8(0x0), Some(FrameType::Data));
    assert_eq!(FrameType::from_u8(0x1), Some(FrameType::Headers));
    assert_eq!(FrameType::from_u8(0x4), Some(FrameType::Settings));
    assert_eq!(FrameType::from_u8(0xFF), None);
}

#[test]
fn test_error_codes() {
    assert_eq!(ErrorCode::NoError.as_u32(), 0);
    assert_eq!(ErrorCode::from_u32(0x1), Some(ErrorCode::ProtocolError));
    assert_eq!(ErrorCode::from_u32(0xb), Some(ErrorCode::EnhanceYourCalm));
}

#[test]
fn zero_weight_becomes_one() {
    assert_eq!(Priority::with_weight(0).weight, 1);
    assert_eq!(Priority::default().weight, 16);
}

#[test]
fn alpn_checks() {
    let mut c = ConnectionInfo::new(true);
    assert!(!c.is_h2());
    assert!(!c.is_h2c());
    c.alpn_protocol = Some("h2".to_string());
    assert!(c.is_h2());
    let plain = ConnectionInfo::new(false);
    assert!(plain.is_h2c());
    let p = PushPromise::new("/a").method("HEAD").authority("example.com");
    assert_eq!(p.method, "HEAD");
    assert_eq!(p.authority.as_deref(), Some("example.com"));
}

#[test]
fn test_status_code() {
    assert!(StatusCode(200).is_success());
    assert!(StatusCode(302).is_redirect());
    assert!(StatusCode(404).is_client_error());
    assert!(StatusCode(500).is_server_error());
}

#[test]
fn reason_phrases() {
    assert_eq!(StatusCode(404).reason_phrase(), "Not Found");
    assert_eq!(StatusCode(503).reason_phrase(), "Service Unavailable");
    assert_eq!(StatusCode(299).reason_phrase(), "Unknown");
    assert_eq!(StatusCode::from(201).as_u16(), 201);
    assert!(!StatusCode(600).is_server_error());
}
