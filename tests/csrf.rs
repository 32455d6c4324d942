use gust::crypto::{constant_time_eq, hex_char_to_val, hex_decode, hex_encode, hmac_sha256, sha256};
use gust::csrf::{pseudo_random, Csrf, CsrfConfig};
use gust::Method;

#[test]
fn test_csrf_token_generation() {
    let csrf = Csrf::with_secret("secret");
    let token = csrf.generate_token();

    assert!(csrf.verify_token(&token));
}

#[test]
fn test_csrf_token_tampering() {
    let csrf = Csrf::with_secret("secret");
    let token = csrf.generate_token();

    let mut tampered = token.clone();
    tampered.push('x');

    assert!(!csrf.verify_token(&tampered));
}

#[test]
fn test_hex_roundtrip() {
    let original = vec![0x12, 0x34, 0xab, 0xcd];
    let encoded = hex_encode(&original);
    let decoded = hex_decode(&encoded).unwrap();
    assert_eq!(original, decoded);
}

#[test]
fn test_sha256() {
    let hash = sha256(b"hello");
    let expected = [
        0x2c, 0xf2, 0x4d, 0xba, 0x5f, 0xb0, 0xa3, 0x0e, 0x26, 0xe8, 0x3b, 0x2a, 0xc5, 0xb9, 0xe2, 0x9e, 0x1b,
        0x16, 0x1e, 0x5c, 0x1f, 0xa7, 0x42, 0x5e, 0x73, 0x04, 0x33, 0x62, 0x93, 0x8b, 0x98, 0x24,
    ];
    assert_eq!(hash, expected);
}

#[test]
fn hmac_known_vector() {
    let mac = hmac_sha256(b"The quick brown fox jumps over the lazy dog", b"key");
    assert_eq!(hex_encode(&mac), "f7bc83f430538424b13298e6aa6fb143ef4d59a14946175997479dbc2d1a3cd8");
    let long_key = vec![0xaa; 131];
    assert_eq!(hmac_sha256(b"x", &long_key).len(), 32);
}

#[test]
fn hex_edges() {
    assert_eq!(hex_decode("ABcd"), Some(vec![0xab, 0xcd]));
    assert_eq!(hex_decode("abc"), None);
    assert_eq!(hex_decode("zz"), None);
    assert_eq!(hex_char_to_val(b'F'), Some(15));
    assert!(constant_time_eq(b"ab", b"ab"));
    assert!(!constant_time_eq(b"ab", b"ac"));
    assert!(!constant_time_eq(b"ab", b"abc"));
}

#[test]
fn csrf_token_expiry_and_config() {
    let csrf = Csrf::new(b"k", CsrfConfig::new().ttl(10).exclude("/api/public"));
    let token = csrf.token_at(100, 7);
    assert!(token.starts_with("100.7."));
    assert!(csrf.verify_token_at(&token, 110));
    assert!(!csrf.verify_token_at(&token, 111));
    assert!(!csrf.verify_token_at("100.7", 100));
    assert!(csrf.is_safe_method(&Method::Get));
    assert!(!csrf.is_safe_method(&Method::Post));
    assert!(csrf.is_excluded_path("/api/public/x"));
    assert!(!csrf.is_excluded_path("/api"));
    assert_eq!(pseudo_random(5, 1), 5 ^ (1 << 32));
}
