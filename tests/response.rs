use gust::response::{Response, ResponseBuilder};
use gust::server::{ConnectionTracker, StaticRoute};
use gust::status::StatusCode;

#[test]
fn test_response_json() {
    let res = Response::json(r#"{"foo":"bar"}"#);
    assert_eq!(res.status, StatusCode(200));
    assert_eq!(res.content_type(), Some("application/json"));
}

#[test]
fn test_response_to_http1() {
    let res = ResponseBuilder::new(StatusCode(200)).header("x-custom", "value").body(b"Hello").build();

    let bytes = res.to_http1_bytes();
    let s = std::str::from_utf8(&bytes).unwrap();

    assert!(s.starts_with("HTTP/1.1 200 OK\r\n"));
    assert!(s.contains("x-custom: value\r\n"));
    assert!(s.contains("content-length: 5\r\n"));
    assert!(s.ends_with("\r\n\r\nHello"));
}

#[test]
fn response_helpers() {
    let r = Response::redirect("/next", true);
    assert_eq!(r.status, StatusCode(308));
    assert_eq!(r.header("LOCATION"), Some("/next"));
    assert_eq!(Response::not_found().body_string(), Some("Not Found".to_string()));
    assert_eq!(Response::bad_request("bad").status, StatusCode(400));
    assert_eq!(Response::internal_error("x").status, StatusCode(500));
    assert_eq!(Response::text("t").content_type(), Some("text/plain; charset=utf-8"));
    assert_eq!(Response::html("h").header("missing"), None);
    let empty = Response::ok().to_http1_bytes();
    assert_eq!(empty, b"HTTP/1.1 200 OK\r\n\r\n".to_vec());
    assert_eq!(Response::default().status, StatusCode(200));
    let r = ResponseBuilder::new(StatusCode(200)).status(StatusCode(201)).build();
    assert_eq!(r.status.as_u16(), 201);
}

#[test]
fn test_static_route_to_bytes() {
    let route = StaticRoute {
        method: "GET".to_string(),
        path: "/".to_string(),
        status: 200,
        content_type: "text/plain".to_string(),
        body: "Hello".to_string(),
        handler_id: 0,
    };
    let bytes = route.to_response_bytes();
    assert_eq!(
        bytes,
        b"HTTP/1.1 200 OK\r\ncontent-type: text/plain\r\ncontent-length: 5\r\n\r\nHello".to_vec()
    );
}

#[test]
fn connection_tracker() {
    let mut t = ConnectionTracker::new();
    t.increment();
    t.increment();
    t.decrement();
    assert_eq!(t.count(), 1);
    assert!(!t.is_shutting_down());
    t.start_shutdown();
    assert!(t.is_shutting_down());
    t.reset();
    assert_eq!(t.count(), 0);
    assert!(!t.is_shutting_down());
}
