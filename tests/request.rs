use gust::request::{urlencoding_decode, Request, RequestBuilder};
use gust::Method;

#[test]
fn test_request_header() {
    let req = RequestBuilder::new(Method::Get, "/").header("Content-Type", "application/json").build();

    assert_eq!(req.header("content-type"), Some("application/json"));
    assert_eq!(req.header("CONTENT-TYPE"), Some("application/json"));
}

#[test]
fn test_query_params() {
    let req = RequestBuilder::new(Method::Get, "/").query("foo=bar&baz=qux%20quux").build();

    let params = req.query_params();
    assert_eq!(params.get("foo"), Some(&"bar".to_string()));
    assert_eq!(params.get("baz"), Some(&"qux quux".to_string()));
}

#[test]
fn request_helpers() {
    let req = RequestBuilder::new(Method::Post, "/x")
        .header("Content-Length", "12")
        .header("Accept", "text/html")
        .body(b"hello")
        .params(vec![("id".to_string(), "7".to_string())])
        .build();
    assert_eq!(req.content_length(), Some(12));
    assert!(!req.accepts_json());
    assert_eq!(req.param("id"), Some("7"));
    assert_eq!(req.param("nope"), None);
    assert_eq!(req.body, b"hello".to_vec());
    assert!(Request::new(Method::Get, "/").accepts_json());
    assert_eq!(Request::new(Method::Get, "/").content_type(), None);
}

#[test]
fn url_decoding() {
    assert_eq!(urlencoding_decode("a+b%21%zz%4"), "a b!%zz%4");
    assert_eq!(urlencoding_decode("%+A"), "\n");
    assert_eq!(urlencoding_decode("%e9"), "\u{e9}");
}
