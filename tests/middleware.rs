use gust::auth::{base64_decode, BasicCredentials, BearerToken};
use gust::body_limit::{format_size, BodyLimit, BodyLimitConfig};
use gust::compress::{Compress, CompressionLevel, Encoding};
use gust::cookie::{Cookie, SameSite};
use gust::crypto::base64_encode;
use gust::proxy::{parse_forwarded_for, Protocol};
use gust::security::{FrameOptions, HstsConfig};
use gust::sse::{Sse, SseEvent, SseStream};

#[test]
fn test_basic_credentials_parse() {
    let creds = BasicCredentials::parse("Basic dXNlcjpwYXNz").unwrap();
    assert_eq!(creds.username, "user");
    assert_eq!(creds.password, "pass");
}

#[test]
fn test_basic_credentials_encode() {
    let creds = BasicCredentials { username: "user".to_string(), password: "pass".to_string() };
    assert_eq!(creds.encode(), "Basic dXNlcjpwYXNz");
}

#[test]
fn test_bearer_token_parse() {
    let token = BearerToken::parse("Bearer abc123").unwrap();
    assert_eq!(token.as_str(), "abc123");
}

#[test]
fn test_base64_roundtrip() {
    let original = "Hello, World!";
    let encoded = base64_encode(original.as_bytes());
    let decoded = base64_decode(&encoded).unwrap();
    assert_eq!(decoded, original);
}

#[test]
fn auth_rejections() {
    assert!(BasicCredentials::parse("Bearer dXNlcjpwYXNz").is_none());
    assert!(BasicCredentials::parse("Basic !!!!").is_none());
    assert!(BasicCredentials::parse("Basic dXNlcg==").is_none());
    assert!(BearerToken::parse("bearer x").is_none());
    assert_eq!(base64_decode("Zg"), Some("f".to_string()));
    assert_eq!(base64_decode("Z"), None);
    let c = BasicCredentials::parse("Basic YTpiOmM=").unwrap();
    assert_eq!(c.username, "a");
    assert_eq!(c.password, "b:c");
}

#[test]
fn test_body_limit_config() {
    let config = BodyLimitConfig::mb(10);
    assert_eq!(config.max_size, 10 * 1024 * 1024);
}

#[test]
fn test_parse_size() {
    assert_eq!(BodyLimitConfig::parse("10mb").unwrap().max_size, 10 * 1024 * 1024);
    assert_eq!(BodyLimitConfig::parse("500kb").unwrap().max_size, 500 * 1024);
    assert_eq!(BodyLimitConfig::parse("1gb").unwrap().max_size, 1024 * 1024 * 1024);
    assert_eq!(BodyLimitConfig::parse("100b").unwrap().max_size, 100);
    assert_eq!(BodyLimitConfig::parse("100").unwrap().max_size, 100);
}

#[test]
fn test_format_size() {
    assert_eq!(format_size(500), "500B");
    assert_eq!(format_size(1024), "1.0KB");
    assert_eq!(format_size(1024 * 1024), "1.0MB");
    assert_eq!(format_size(1024 * 1024 * 1024), "1.0GB");
}

#[test]
fn size_edges() {
    assert_eq!(BodyLimitConfig::parse(" 2 MB ").unwrap().max_size, 2 * 1024 * 1024);
    assert!(BodyLimitConfig::parse("ten mb").is_none());
    assert!(BodyLimitConfig::parse("").is_none());
    assert_eq!(format_size(1536), "1.5KB");
    assert_eq!(format_size(1023), "1023B");
    assert_eq!(BodyLimit::json().config.max_size, 1024 * 1024);
    assert_eq!(BodyLimit::upload().config.max_size, 10 * 1024 * 1024);
    assert_eq!(BodyLimitConfig::new(5).message("too big").message, "too big");
}

#[test]
fn test_encoding_parse() {
    assert_eq!(Encoding::from_accept_encoding("gzip, deflate, br"), Encoding::Brotli);
    assert_eq!(Encoding::from_accept_encoding("gzip, deflate"), Encoding::Gzip);
    assert_eq!(Encoding::from_accept_encoding("deflate"), Encoding::Deflate);
    assert_eq!(Encoding::from_accept_encoding(""), Encoding::Identity);
}

#[test]
fn test_should_compress() {
    let compress = Compress::new();

    assert!(compress.should_compress("text/html", 2000));
    assert!(compress.should_compress("application/json", 2000));
    assert!(!compress.should_compress("image/png", 2000));
    assert!(!compress.should_compress("text/html", 500));
}

#[test]
fn compression_streams() {
    let c = Compress::new().level(CompressionLevel::Best).min_size(10);
    assert_eq!(c.min_size, 10);
    let data = vec![b'a'; 4096];
    let gz = c.compress_gzip(&data);
    assert_eq!(&gz[..2], &[0x1f, 0x8b]);
    assert!(gz.len() < data.len());
    assert!(c.compress_deflate(&data).len() < data.len());
    assert!(c.compress_brotli(&data).len() < data.len());
    assert_eq!(Encoding::Brotli.as_str(), "br");
}

#[test]
fn test_cookie_delete() {
    let cookie = Cookie::delete("session");
    assert_eq!(cookie.max_age, Some(0));
}

#[test]
fn cookie_header_value() {
    let cookie = Cookie::new("session", "abc123")
        .path("/")
        .domain("example.com")
        .max_age(-5)
        .secure()
        .http_only()
        .same_site(SameSite::Strict);
    assert_eq!(
        cookie.to_header_value(),
        "session=abc123; Path=/; Domain=example.com; Max-Age=-5; Secure; HttpOnly; SameSite=Strict"
    );
    assert_eq!(Cookie::new("a", "b").to_header_value(), "a=b");
}

#[test]
fn test_protocol() {
    assert_eq!(Protocol::Http.as_str(), "http");
    assert_eq!(Protocol::Https.as_str(), "https");
    assert_eq!(Protocol::Http.default_port(), 80);
    assert_eq!(Protocol::Https.default_port(), 443);
}

#[test]
fn forwarded_for_list() {
    assert_eq!(parse_forwarded_for(" 1.1.1.1 , ,2.2.2.2,"), vec!["1.1.1.1".to_string(), "2.2.2.2".to_string()]);
    assert!(parse_forwarded_for("").is_empty());
}

#[test]
fn test_frame_options() {
    assert_eq!(FrameOptions::Deny.as_header_value(), Some("DENY".to_string()));
    assert_eq!(FrameOptions::SameOrigin.as_header_value(), Some("SAMEORIGIN".to_string()));
    assert_eq!(FrameOptions::Omit.as_header_value(), None);
}

#[test]
fn hsts_value() {
    assert_eq!(HstsConfig::default().as_header_value(), "max-age=31536000; includeSubDomains");
    let h = HstsConfig { max_age: 0, include_subdomains: false, preload: true };
    assert_eq!(h.as_header_value(), "max-age=0; preload");
}

#[test]
fn test_sse_event_simple() {
    let event = SseEvent::new("Hello, World!");
    let output = event.to_string();
    assert_eq!(output, "data: Hello, World!\n\n");
}

#[test]
fn test_keep_alive() {
    let ka = Sse::keep_alive();
    assert_eq!(ka, ": keep-alive\n\n");
}

#[test]
fn test_sse_event_with_id() {
    let event = SseEvent::new("data").id("123").event("message");
    let output = event.to_string();
    assert!(output.contains("id: 123\n"));
    assert!(output.contains("event: message\n"));
    assert!(output.contains("data: data\n"));
}

#[test]
fn test_sse_event_multiline() {
    let event = SseEvent::new("line1\nline2\r\nline3\n");
    assert_eq!(event.to_string(), "data: line1\ndata: line2\ndata: line3\n\n");
    assert_eq!(SseEvent::new("x").retry(3000).to_string(), "retry: 3000\ndata: x\n\n");
}

#[test]
fn test_sse_stream() {
    let mut stream = SseStream::new();
    stream.data("event1");
    stream.event("update", "event2");
    let output = stream.to_string();
    assert!(output.contains("data: event1\n"));
    assert!(output.contains("event: update\n"));
    assert!(output.contains("data: event2\n"));
    stream.push(SseEvent::new("z").id("7"));
    assert_eq!(stream.last_event_id(), Some("7"));
    assert_eq!(stream.take().len(), 3);
    assert_eq!(stream.to_string(), "");
    assert_eq!(Sse::format_named_event("e", "d"), "event: e\ndata: d\n\n");
    assert_eq!(Sse::headers()[0], ("Content-Type", "text/event-stream"));
}
