use gust::cors::{Cors, CorsConfig};
use gust::response::Response;
use gust::Method;

#[test]
fn cors_test_cors_permissive() {
    let cors = Cors::permissive();
    assert!(cors.is_origin_allowed("https://example.com"));
    assert!(cors.is_origin_allowed("http://localhost:3000"));
}

#[test]
fn test_cors_specific_origin() {
    let config = CorsConfig::new().allow_origin("https://example.com");
    let cors = Cors::new(config);

    assert!(cors.is_origin_allowed("https://example.com"));
    assert!(!cors.is_origin_allowed("https://other.com"));
}

#[test]
fn test_cors_methods() {
    let config = CorsConfig::new();
    let cors = Cors::new(config);

    assert!(cors.methods_string().contains("GET"));
    assert!(cors.methods_string().contains("POST"));
}

#[test]
fn cors_headers_added() {
    let cors = Cors::new(
        CorsConfig::new()
            .allow_origin("https://a.test")
            .allow_method(Method::Get)
            .allow_method(Method::Trace)
            .expose_header("X-Id")
            .allow_credentials()
            .max_age(60),
    );
    assert_eq!(cors.methods_string(), "GET, POST, PUT, DELETE, PATCH, HEAD, OPTIONS, TRACE");
    assert_eq!(cors.headers_string(), "Content-Type, Authorization, X-Requested-With");
    let mut res = Response::ok();
    cors.add_cors_headers(&mut res, "https://a.test");
    let names: Vec<&str> = res.headers.iter().map(|(k, _)| k.as_str()).collect();
    assert_eq!(
        names,
        vec![
            "Access-Control-Allow-Origin",
            "Access-Control-Allow-Methods",
            "Access-Control-Allow-Headers",
            "Access-Control-Expose-Headers",
            "Access-Control-Allow-Credentials",
            "Access-Control-Max-Age"
        ]
    );
    assert_eq!(res.header("access-control-allow-origin"), Some("https://a.test"));
    assert_eq!(res.header("access-control-max-age"), Some("60"));
    let star = Cors::new(CorsConfig::new().allow_header("X-A"));
    let mut r2 = Response::ok();
    star.add_cors_headers(&mut r2, "https://b.test");
    assert_eq!(r2.header("access-control-allow-origin"), Some("*"));
    assert!(star.is_origin_allowed("anything"));
    assert!(Cors::new(CorsConfig::new().allow_origin("*")).is_origin_allowed("x"));
}
