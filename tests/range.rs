use gust::range::{
    check_if_modified_since, check_if_none_match, content_range, content_range_unsatisfiable, generate_etag,
    get_mime_type, is_satisfiable, parse_range, Range, RangeResponse,
};

#[test]
fn test_parse_range_simple() {
    let parsed = parse_range("bytes=0-499", 1000).unwrap();
    assert_eq!(parsed.unit, "bytes");
    assert_eq!(parsed.ranges.len(), 1);
    assert_eq!(parsed.ranges[0].start, 0);
    assert_eq!(parsed.ranges[0].end, 499);
}

#[test]
fn test_parse_range_suffix() {
    let parsed = parse_range("bytes=-500", 1000).unwrap();
    assert_eq!(parsed.ranges[0].start, 500);
    assert_eq!(parsed.ranges[0].end, 999);
}

#[test]
fn test_parse_range_open_ended() {
    let parsed = parse_range("bytes=500-", 1000).unwrap();
    assert_eq!(parsed.ranges[0].start, 500);
    assert_eq!(parsed.ranges[0].end, 999);
}

#[test]
fn test_parse_range_multiple() {
    let parsed = parse_range("bytes=0-99, 200-299", 1000).unwrap();
    assert_eq!(parsed.ranges.len(), 2);
    assert_eq!(parsed.ranges[0].start, 0);
    assert_eq!(parsed.ranges[0].end, 99);
    assert_eq!(parsed.ranges[1].start, 200);
    assert_eq!(parsed.ranges[1].end, 299);
}

#[test]
fn test_parse_range_clamp() {
    let parsed = parse_range("bytes=0-2000", 1000).unwrap();
    assert_eq!(parsed.ranges[0].end, 999);
}

#[test]
fn test_parse_range_invalid() {
    assert!(parse_range("chunks=0-499", 1000).is_none());
    assert!(parse_range("bytes=2000-3000", 1000).is_none());
    assert!(parse_range("bytes=", 1000).is_none());
}

#[test]
fn range_parse_edges() {
    assert!(parse_range("bytes=0-x", 1000).is_none());
    assert!(parse_range("bytes=0-10", 0).is_none());
    let p = parse_range(" bytes =-5000, 7, 10-5", 1000).unwrap();
    assert_eq!(p.ranges, vec![Range::new(0, 999)]);
    assert!(p.is_single());
    assert_eq!(p.first(), Some(&Range::new(0, 999)));
    assert!(is_satisfiable(&p.ranges, 1000));
    assert!(!is_satisfiable(&[Range::new(5, 1000)], 1000));
}

#[test]
fn test_content_range() {
    assert_eq!(content_range(0, 499, 1000), "bytes 0-499/1000");
    assert_eq!(content_range_unsatisfiable(1000), "bytes */1000");
}

#[test]
fn test_range_content_length() {
    let range = Range::new(0, 499);
    assert_eq!(range.content_length(), 500);

    let range = Range::new(100, 199);
    assert_eq!(range.content_length(), 100);
}

#[test]
fn test_mime_types() {
    assert_eq!(get_mime_type("mp4"), "video/mp4");
    assert_eq!(get_mime_type("MP4"), "video/mp4");
    assert_eq!(get_mime_type("mp3"), "audio/mpeg");
    assert_eq!(get_mime_type("pdf"), "application/pdf");
    assert_eq!(get_mime_type("unknown"), "application/octet-stream");
}

#[test]
fn test_etag_generation() {
    let etag = generate_etag(1234567890, 1000);
    assert!(etag.starts_with('"'));
    assert!(etag.ends_with('"'));
    assert!(etag.contains('-'));
    assert_eq!(etag, "\"499602d2-3e8\"");
}

#[test]
fn test_range_response_full() {
    let resp = RangeResponse::full("video/mp4", 1000, "\"abc\"", "Mon, 01 Jan 2024 00:00:00 GMT", 86400);
    assert_eq!(resp.status, 200);
    assert_eq!(resp.content_length, 1000);
    assert!(resp.content_range.is_none());
}

#[test]
fn test_range_response_partial() {
    let range = Range::new(0, 499);
    let resp = RangeResponse::partial("video/mp4", range, 1000, "\"abc\"", "Mon, 01 Jan 2024 00:00:00 GMT", 86400);
    assert_eq!(resp.status, 206);
    assert_eq!(resp.content_length, 500);
    assert_eq!(resp.content_range, Some("bytes 0-499/1000".to_string()));
}

#[test]
fn range_headers_and_conditions() {
    let h = RangeResponse::not_modified("\"t\"", "").to_headers();
    assert_eq!(h, vec![("accept-ranges".to_string(), "bytes".to_string()), ("etag".to_string(), "\"t\"".to_string())]);
    let h = RangeResponse::not_satisfiable(10).to_headers();
    assert_eq!(h[0], ("content-length".to_string(), "0".to_string()));
    assert_eq!(h[1], ("content-range".to_string(), "bytes */10".to_string()));
    assert!(check_if_none_match("*", "\"a\""));
    assert!(check_if_none_match("\"a\"", "\"a\""));
    assert!(!check_if_none_match("\"b\"", "\"a\""));
    assert!(!check_if_modified_since("Mon, 01 Jan 2024 00:00:00 GMT", 0));
}
