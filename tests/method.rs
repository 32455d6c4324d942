use gust::Method;

#[test]
fn test_method_parse_bytes() {
    assert_eq!(Method::parse(b"GET"), Some(Method::Get));
    assert_eq!(Method::parse(b"POST"), Some(Method::Post));
    assert_eq!(Method::parse(b"PUT"), Some(Method::Put));
    assert_eq!(Method::parse(b"DELETE"), Some(Method::Delete));
    assert_eq!(Method::parse(b"PATCH"), Some(Method::Patch));
    assert_eq!(Method::parse(b"HEAD"), Some(Method::Head));
    assert_eq!(Method::parse(b"OPTIONS"), Some(Method::Options));
    assert_eq!(Method::parse(b"CONNECT"), Some(Method::Connect));
    assert_eq!(Method::parse(b"TRACE"), Some(Method::Trace));
    assert_eq!(Method::parse(b"INVALID"), None);
}

#[test]
fn test_method_from_str() {
    assert_eq!(Method::from_str("GET").unwrap(), Method::Get);
    assert_eq!(Method::from_str("post").unwrap(), Method::Post);
    assert!(Method::from_str("INVALID").is_err());
}

#[test]
fn request_test_method_parse() {
    assert_eq!(Method::from_str("GET").unwrap(), Method::Get);
    assert_eq!(Method::from_str("post").unwrap(), Method::Post);
    assert!(Method::from_str("INVALID").is_err());
}

#[test]
fn test_method_as_str() {
    assert_eq!(Method::Get.as_str(), "GET");
    assert_eq!(Method::Post.as_str(), "POST");
}

#[test]
fn test_method_from_u8() {
    assert_eq!(Method::from_u8(0), Some(Method::Get));
    assert_eq!(Method::from_u8(1), Some(Method::Post));
    assert_eq!(Method::from_u8(9), None);
}

#[test]
fn test_method_repr() {
    assert_eq!(Method::Get as u8, 0);
    assert_eq!(Method::Post as u8, 1);
    assert_eq!(Method::Trace as u8, 8);
}

#[test]
fn parser_test_method_parse() {
    assert_eq!(Method::parse(b"GET"), Some(Method::Get));
    assert_eq!(Method::parse(b"POST"), Some(Method::Post));
    assert_eq!(Method::parse(b"PUT"), Some(Method::Put));
    assert_eq!(Method::parse(b"DELETE"), Some(Method::Delete));
    assert_eq!(Method::parse(b"PATCH"), Some(Method::Patch));
}

#[test]
fn method_from_str_mixed_case() {
    assert_eq!(Method::from_str("DeLeTe").unwrap(), Method::Delete);
    assert_eq!(Method::from_str("options").unwrap(), Method::Options);
}

#[test]
fn method_parse_is_case_sensitive() {
    assert_eq!(Method::parse(b"get"), None);
    assert_eq!(Method::parse(b""), None);
    assert_eq!(Method::parse(b"GETX"), None);
}
