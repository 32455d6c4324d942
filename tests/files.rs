use gust::cache::{etag, hex_encode_u64, simple_hash};
use gust::static_files::{StaticFileConfig, StaticFiles};

#[test]
fn test_sanitize_path() {
    let handler = StaticFiles::serve(".");

    assert!(handler.sanitize_path("/index.html").is_some());
    assert!(handler.sanitize_path("/css/style.css").is_some());
    assert!(handler.sanitize_path("/../etc/passwd").is_none());
    assert!(handler.sanitize_path("/.hidden").is_none());
}

#[test]
fn test_mime_type() {
    let handler = StaticFiles::serve(".");

    assert_eq!(handler.mime_type("index.html"), "text/html; charset=utf-8");
    assert_eq!(handler.mime_type("style.css"), "text/css; charset=utf-8");
    assert_eq!(handler.mime_type("image.png"), "image/png");
    assert_eq!(handler.mime_type("unknown"), "application/octet-stream");
}

#[test]
fn sanitize_and_mime_edges() {
    let handler = StaticFiles::serve("/srv");
    assert_eq!(handler.sanitize_path("//a//b/c/"), Some("a/b/c".to_string()));
    assert!(handler.sanitize_path("/a/./c").is_none());
    assert_eq!(handler.sanitize_path("/"), Some("".to_string()));
    let shown = StaticFiles::new(StaticFileConfig::new("/srv"));
    let mut cfg = StaticFileConfig::new("/srv").index("home.html").max_age(60).fallback("index.html");
    cfg.hidden = true;
    let open = StaticFiles::new(cfg);
    assert_eq!(open.sanitize_path("/.well-known/x"), Some(".well-known/x".to_string()));
    assert!(open.sanitize_path("/a/../b").is_none());
    assert_eq!(open.sanitize_path("/a/./c"), Some("a/c".to_string()));
    assert!(shown.sanitize_path("/a/.git").is_none());
    assert_eq!(handler.mime_type("dir/ARCHIVE.TAR"), "application/x-tar");
    assert_eq!(handler.mime_type(".bashrc"), "application/octet-stream");
    assert_eq!(handler.mime_type("a/b.wasm/"), "application/wasm");
    assert_eq!(open.config.index, "home.html");
    assert_eq!(open.config.max_age, 60);
}

#[test]
fn test_etag() {
    let tag = etag(b"hello world");
    assert!(tag.starts_with('"'));
    assert!(tag.ends_with('"'));
}

#[test]
fn fnv_values() {
    assert_eq!(simple_hash(b""), 0xcbf29ce484222325);
    assert_eq!(simple_hash(b"a"), 0xaf63dc4c8601ec8c);
    assert_eq!(hex_encode_u64(255), "00000000000000ff");
    assert_eq!(etag(b"a"), "\"af63dc4c8601ec8c\"");
}
