use gust::crypto::{base64_encode, sha1, websocket_accept_key};

#[test]
fn test_base64_empty() {
    assert_eq!(base64_encode(b""), "");
}

#[test]
fn test_base64_f() {
    assert_eq!(base64_encode(b"f"), "Zg==");
}

#[test]
fn test_base64_fo() {
    assert_eq!(base64_encode(b"fo"), "Zm8=");
}

#[test]
fn test_base64_foo() {
    assert_eq!(base64_encode(b"foo"), "Zm9v");
}

#[test]
fn test_base64_foob() {
    assert_eq!(base64_encode(b"foob"), "Zm9vYg==");
}

#[test]
fn test_base64_fooba() {
    assert_eq!(base64_encode(b"fooba"), "Zm9vYmE=");
}

#[test]
fn test_base64_foobar() {
    assert_eq!(base64_encode(b"foobar"), "Zm9vYmFy");
}

#[test]
fn test_websocket_accept_key() {
    let key = "dGhlIHNhbXBsZSBub25jZQ==";
    let accept = websocket_accept_key(key);
    assert_eq!(accept, "s3pPLMBiTxaQ9kYGzzhZRbK+xOo=");
}

#[test]
fn sha1_known_vectors() {
    let hex = |v: Vec<u8>| v.iter().map(|b| format!("{:02x}", b)).collect::<String>();
    assert_eq!(hex(sha1(b"abc")), "a9993e364706816aba3e25717850c26c9cd0d89d");
    assert_eq!(hex(sha1(b"")), "da39a3ee5e6b4b0d3255bfef95601890afd80709");
    let long = vec![b'a'; 1000];
    assert_eq!(hex(sha1(&long)), "291e9a6c66994949b57ba5e650361e98fc36b1ba");
}
