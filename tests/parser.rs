use gust::{parse_request, HeaderOffsets, Method, MAX_HEADERS};

fn slice(buf: &[u8], a: u32, b: u32) -> &[u8] {
    &buf[a as usize..b as usize]
}

#[test]
fn test_parse_simple_get() {
    let req = b"GET / HTTP/1.1\r\nHost: localhost\r\n\r\n";
    let mut offsets: HeaderOffsets = [0; MAX_HEADERS * 4];

    let result = parse_request(req, &mut offsets);
    assert_eq!(result.state, 1);
    assert_eq!(result.method, Method::Get);
    assert_eq!(result.headers_count, 1);
}

#[test]
fn test_parse_with_query() {
    let req = b"GET /users?page=1&limit=10 HTTP/1.1\r\nHost: localhost\r\n\r\n";
    let mut offsets: HeaderOffsets = [0; MAX_HEADERS * 4];

    let result = parse_request(req, &mut offsets);
    assert_eq!(result.state, 1);
    assert!(result.query_start > 0);
}

#[test]
fn test_incomplete() {
    let req = b"GET / HTTP/1.1\r\n";
    let mut offsets: HeaderOffsets = [0; MAX_HEADERS * 4];

    let result = parse_request(req, &mut offsets);
    assert_eq!(result.state, 0);
}

#[test]
fn end_to_end_request() {
    let req = b"GET /users/42?active=true HTTP/1.1\r\nHost: x\r\nAccept: */*\r\n\r\n";
    let mut offsets: HeaderOffsets = [0; MAX_HEADERS * 4];
    let r = parse_request(req, &mut offsets);
    assert_eq!(r.state, 1);
    assert_eq!(r.method, Method::Get);
    assert_eq!(r.headers_count, 2);
    assert_eq!(slice(req, r.path_start, r.path_end), b"/users/42");
    assert_eq!(slice(req, r.query_start, r.query_end), b"active=true");
    assert_eq!(slice(req, offsets[0], offsets[1]), b"Host");
    assert_eq!(slice(req, offsets[2], offsets[3]), b"x");
    assert_eq!(slice(req, offsets[4], offsets[5]), b"Accept");
    assert_eq!(slice(req, offsets[6], offsets[7]), b"*/*");
    assert_eq!(r.body_start as usize, req.len());

    let mut router = gust::Router::new();
    router.insert("GET", "/users/:id", 7);
    let path = std::str::from_utf8(slice(req, r.path_start, r.path_end)).unwrap();
    let m = router.find("GET", path).unwrap();
    assert_eq!(m.handler_id, 7);
    assert_eq!(m.params, vec![("id".to_string(), "42".to_string())]);
}

#[test]
fn short_buffers_are_incomplete() {
    let mut offsets: HeaderOffsets = [0; MAX_HEADERS * 4];
    for b in [&b""[..], b"GET / HTTP/1.1\r\n\r", b"XXXXXXXXXXXXXXXXX", b"BOGUS / HTTP/1.1"] {
        assert!(b.len() < 18);
        assert_eq!(parse_request(b, &mut offsets).state, 0);
    }
}

#[test]
fn every_method_parses_minimal_request() {
    let all = [
        ("GET", Method::Get),
        ("POST", Method::Post),
        ("PUT", Method::Put),
        ("DELETE", Method::Delete),
        ("PATCH", Method::Patch),
        ("HEAD", Method::Head),
        ("OPTIONS", Method::Options),
        ("CONNECT", Method::Connect),
        ("TRACE", Method::Trace),
    ];
    for (name, m) in all {
        let req = format!("{} / HTTP/1.1\r\n\r\n", name);
        let mut offsets: HeaderOffsets = [0; MAX_HEADERS * 4];
        let r = parse_request(req.as_bytes(), &mut offsets);
        assert_eq!(r.state, 1);
        assert_eq!(r.method, m);
        assert_eq!(r.headers_count, 0);
        assert_eq!(r.body_start as usize, req.len());
    }
}

#[test]
fn unknown_method_is_error() {
    let mut offsets: HeaderOffsets = [0; MAX_HEADERS * 4];
    assert_eq!(parse_request(b"BREW / HTTP/1.1\r\n\r\n", &mut offsets).state, 2);
    assert_eq!(parse_request(b"get / HTTP/1.1\r\n\r\n", &mut offsets).state, 2);
}

#[test]
fn long_unknown_token_is_error() {
    let mut offsets: HeaderOffsets = [7; MAX_HEADERS * 4];
    assert_eq!(parse_request(b"PROPFINDX / HTTP/1.1\r\n\r\n", &mut offsets).state, 2);
    assert_eq!(parse_request(b"GETGETGETGETGETGETGET", &mut offsets).state, 0);
    assert!(offsets.iter().all(|&x| x == 7));
}

#[test]
fn missing_version_is_incomplete() {
    let mut offsets: HeaderOffsets = [0; MAX_HEADERS * 4];
    assert_eq!(parse_request(b"GET /only-a-path-here\r\n\r\n", &mut offsets).state, 0);
}

#[test]
fn header_cap_keeps_cursor() {
    let mut req = String::from("GET / HTTP/1.1\r\n");
    for i in 0..70 {
        req.push_str(&format!("X-H{}: v{}\r\n", i, i));
    }
    req.push_str("\r\nbody");
    let mut offsets: HeaderOffsets = [0; MAX_HEADERS * 4];
    let r = parse_request(req.as_bytes(), &mut offsets);
    assert_eq!(r.state, 1);
    assert_eq!(r.headers_count, 64);
    assert_eq!(&req.as_bytes()[r.body_start as usize..], b"body");
    let last = 63 * 4;
    assert_eq!(slice(req.as_bytes(), offsets[last], offsets[last + 1]), b"X-H63");
}

#[test]
fn bare_lf_and_tabs() {
    let req = b"POST /a HTTP/1.1\nName:\t\t value\n\nrest";
    let mut offsets: HeaderOffsets = [0; MAX_HEADERS * 4];
    let r = parse_request(req, &mut offsets);
    assert_eq!(r.state, 1);
    assert_eq!(r.method, Method::Post);
    assert_eq!(slice(req, offsets[0], offsets[1]), b"Name");
    assert_eq!(slice(req, offsets[2], offsets[3]), b"value");
    assert_eq!(&req[r.body_start as usize..], b"rest");
    assert_eq!(r.query_start, 0);
    assert_eq!(r.query_end, 0);
}

#[test]
fn truncated_headers_are_incomplete() {
    let mut offsets: HeaderOffsets = [0; MAX_HEADERS * 4];
    assert_eq!(parse_request(b"GET / HTTP/1.1\r\nHost: x\r\n", &mut offsets).state, 0);
    assert_eq!(parse_request(b"GET / HTTP/1.1\r\nHost x\r\n\r\n", &mut offsets).state, 0);
}
