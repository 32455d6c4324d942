//! Response compression: choosing an encoding and compressing bodies with
//! gzip, deflate or brotli.
use vstd::prelude::*;
use crate::text::{contains_str, occurs_in, chars_of};

verus! {

/// A content encoding.
#[derive(Debug, Clone, Copy, PartialEq, Eq, Structural)]
pub enum Encoding {
    Gzip,
    Brotli,
    Deflate,
    Identity,
}

impl Encoding {
    pub open spec fn name(self) -> Seq<char> {
        match self {
            Encoding::Gzip => "gzip"@,
            Encoding::Brotli => "br"@,
            Encoding::Deflate => "deflate"@,
            Encoding::Identity => "identity"@,
        }
    }

    pub fn as_str(&self) -> (r: &'static str)
        ensures
            r@ == self.name(),
    {
        match self {
            Encoding::Gzip => "gzip",
            Encoding::Brotli => "br",
            Encoding::Deflate => "deflate",
            Encoding::Identity => "identity",
        }
    }

    /// Picks from an `Accept-Encoding` header, preferring brotli, then gzip,
    /// then deflate; the header is searched as plain text.
    pub fn from_accept_encoding(header: &str) -> (r: Encoding)
        ensures
            r == (if occurs_in(header@, "br"@) {
                Encoding::Brotli
            } else if occurs_in(header@, "gzip"@) {
                Encoding::Gzip
            } else if occurs_in(header@, "deflate"@) {
                Encoding::Deflate
            } else {
                Encoding::Identity
            }),
    {
        if contains_str(header, "br") {
            Encoding::Brotli
        } else if contains_str(header, "gzip") {
            Encoding::Gzip
        } else if contains_str(header, "deflate") {
            Encoding::Deflate
        } else {
            Encoding::Identity
        }
    }
}

/// How hard to compress.
#[derive(Debug, Clone, Copy, PartialEq, Eq, Structural)]
pub enum CompressionLevel {
    Fast,
    Default,
    Best,
}

impl CompressionLevel {
    pub open spec fn gzip(self) -> u32 {
        match self {
            CompressionLevel::Fast => 1,
            CompressionLevel::Default => 6,
            CompressionLevel::Best => 9,
        }
    }

    pub open spec fn brotli(self) -> u32 {
        match self {
            CompressionLevel::Fast => 1,
            CompressionLevel::Default => 4,
            CompressionLevel::Best => 11,
        }
    }

    /// The gzip and deflate level.
    pub fn gzip_level(&self) -> (r: u32)
        ensures
            r == self.gzip(),
    {
        match self {
            CompressionLevel::Fast => 1,
            CompressionLevel::Default => 6,
            CompressionLevel::Best => 9,
        }
    }

    /// The brotli quality.
    pub fn brotli_level(&self) -> (r: u32)
        ensures
            r == self.brotli(),
    {
        match self {
            CompressionLevel::Fast => 1,
            CompressionLevel::Default => 4,
            CompressionLevel::Best => 11,
        }
    }
}

/// The gzip stream that flate2 writes for `data` at `level`.
pub uninterp spec fn gzip_of(data: Seq<u8>, level: u32) -> Seq<u8>;

/// The raw deflate stream that flate2 writes for `data` at `level`.
pub uninterp spec fn deflate_of(data: Seq<u8>, level: u32) -> Seq<u8>;

/// The brotli stream that the brotli crate writes for `data` at `quality`.
pub uninterp spec fn brotli_of(data: Seq<u8>, quality: u32) -> Seq<u8>;

/// Relies on flate2::write::GzEncoder: writes and finishes a gzip stream into
/// a vector, which cannot fail; the output depends on the arguments alone.
/// The backend accepts levels up to 9 here (it asserts at most 10).
#[verifier::external_body]
fn gzip_bytes(data: &[u8], level: u32) -> (r: Vec<u8>)
    requires
        level <= 9,
    ensures
        r@ == gzip_of(data@, level),
{
    let mut enc = flate2::write::GzEncoder::new(Vec::new(), flate2::Compression::new(level));
    match std::io::Write::write_all(&mut enc, data) {
        Ok(()) => {},
        Err(_) => return Vec::new(),
    }
    match enc.finish() {
        Ok(v) => v,
        Err(_) => Vec::new(),
    }
}

/// Relies on flate2::write::DeflateEncoder: writes and finishes a deflate
/// stream into a vector, which cannot fail; the output depends on the
/// arguments alone.
#[verifier::external_body]
fn deflate_bytes(data: &[u8], level: u32) -> (r: Vec<u8>)
    requires
        level <= 9,
    ensures
        r@ == deflate_of(data@, level),
{
    let mut enc = flate2::write::DeflateEncoder::new(Vec::new(), flate2::Compression::new(level));
    match std::io::Write::write_all(&mut enc, data) {
        Ok(()) => {},
        Err(_) => return Vec::new(),
    }
    match enc.finish() {
        Ok(v) => v,
        Err(_) => Vec::new(),
    }
}

/// Relies on brotli::enc::BrotliCompress: compresses from a byte cursor into
/// a vector, which cannot fail; the output depends on the arguments alone.
#[verifier::external_body]
fn brotli_bytes(data: &[u8], quality: u32) -> (r: Vec<u8>)
    ensures
        r@ == brotli_of(data@, quality),
{
    let mut output = Vec::new();
    let params = brotli::enc::BrotliEncoderParams { quality: quality as i32, ..Default::default() };
    match brotli::enc::BrotliCompress(&mut std::io::Cursor::new(data), &mut output, &params) {
        Ok(_) => output,
        Err(_) => Vec::new(),
    }
}

/// The compression middleware.
#[derive(Debug, Clone)]
pub struct Compress {
    pub level: CompressionLevel,
    pub min_size: usize,
}

/// `s` starts with `p`.
pub open spec fn starts_with(s: Seq<char>, p: Seq<char>) -> bool {
    p.len() <= s.len() && s.take(p.len() as int) == p
}

pub(crate) fn starts_with_text(s: &str, p: &str) -> (r: bool)
    ensures
        r == starts_with(s@, p@),
{
    let a = chars_of(s);
    let b = chars_of(p);
    if b.len() > a.len() {
        return false;
    }
    let mut i: usize = 0;
    while i < b.len()
        invariant
            a@ == s@,
            b@ == p@,
            b@.len() <= a@.len(),
            i <= b@.len(),
            forall|k: int| 0 <= k < i ==> a@[k] == b@[k],
        decreases b@.len() - i,
    {
        if a[i] != b[i] {
            assert(s@.take(p@.len() as int)[i as int] != p@[i as int]);
            return false;
        }
        i += 1;
    }
    assert(s@.take(p@.len() as int) =~= p@);
    true
}

impl Compress {
    /// Default level, and bodies under 1 KiB left alone.
    pub fn new() -> (r: Compress)
        ensures
            r.level == CompressionLevel::Default,
            r.min_size == 1024,
    {
        Compress { level: CompressionLevel::Default, min_size: 1024 }
    }

    pub fn level(self, level: CompressionLevel) -> (r: Compress)
        ensures
            r.level == level,
            r.min_size == self.min_size,
    {
        Compress { level, ..self }
    }

    pub fn min_size(self, size: usize) -> (r: Compress)
        ensures
            r.level == self.level,
            r.min_size == size,
    {
        Compress { min_size: size, ..self }
    }

    /// Whether a body of this type and size is worth compressing: at least
    /// the minimum size, and text, JSON, XML, JavaScript or CSS.
    pub fn should_compress(&self, content_type: &str, size: usize) -> (r: bool)
        ensures
            r == (size >= self.min_size && (starts_with(content_type@, "text/"@) || occurs_in(
                content_type@,
                "json"@,
            ) || occurs_in(content_type@, "xml"@) || occurs_in(content_type@, "javascript"@)
                || occurs_in(content_type@, "css"@))),
    {
        if size < self.min_size {
            return false;
        }
        starts_with_text(content_type, "text/") || contains_str(content_type, "json") || contains_str(
            content_type,
            "xml",
        ) || contains_str(content_type, "javascript") || contains_str(content_type, "css")
    }

    /// The gzip stream of `data` at this level.
    pub fn compress_gzip(&self, data: &[u8]) -> (r: Vec<u8>)
        ensures
            r@ == gzip_of(data@, self.level.gzip()),
    {
        gzip_bytes(data, self.level.gzip_level())
    }

    /// The brotli stream of `data` at this level.
    pub fn compress_brotli(&self, data: &[u8]) -> (r: Vec<u8>)
        ensures
            r@ == brotli_of(data@, self.level.brotli()),
    {
        brotli_bytes(data, self.level.brotli_level())
    }

    /// The deflate stream of `data` at this level.
    pub fn compress_deflate(&self, data: &[u8]) -> (r: Vec<u8>)
        ensures
            r@ == deflate_of(data@, self.level.gzip()),
    {
        deflate_bytes(data, self.level.gzip_level())
    }
}

} // verus!
