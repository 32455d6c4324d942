//! Range requests: parsing `Range` headers, `Content-Range` values, media
//! types, entity tags and the headers of full and partial responses.
use vstd::prelude::*;
use crate::text::{owned, push_chars, push_char, push_decimal, decimal, split_pieces, pieces, trim, trimmed,
    to_lower, lower_of, str_eq, string_of, chars_of};
use crate::body_limit::{all_digits, digits_value, unsigned_digits};

verus! {

/// An inclusive byte range.
#[derive(Debug, Clone, Copy, PartialEq, Eq, Structural)]
pub struct Range {
    pub start: u64,
    pub end: u64,
}

impl Range {
    pub fn new(start: u64, end: u64) -> (r: Range)
        ensures
            r == (Range { start, end }),
    {
        Range { start, end }
    }

    /// Number of bytes in the range.
    pub fn content_length(&self) -> (r: u64)
        requires
            self.start <= self.end,
            self.end - self.start < u64::MAX,
        ensures
            r == self.end - self.start + 1,
    {
        self.end - self.start + 1
    }
}

/// The ranges of a `Range` header.
#[derive(Debug, Clone)]
pub struct ParsedRange {
    pub unit: String,
    pub ranges: Vec<Range>,
}

impl ParsedRange {
    pub fn is_single(&self) -> (r: bool)
        ensures
            r == (self.ranges@.len() == 1),
    {
        self.ranges.len() == 1
    }

    pub fn first(&self) -> (r: Option<&Range>)
        ensures
            self.ranges@.len() == 0 ==> r is None,
            self.ranges@.len() > 0 ==> r == Some(&self.ranges@[0]),
    {
        if self.ranges.len() == 0 {
            None
        } else {
            Some(&self.ranges[0])
        }
    }
}

/// Relies on u64's FromStr: an optional `+`, then one or more ASCII digits
/// whose value fits.
#[verifier::external_body]
fn parse_u64(s: &str) -> (r: Option<u64>)
    ensures
        r is Some <==> (unsigned_digits(s@).len() > 0 && all_digits(unsigned_digits(s@))
            && digits_value(unsigned_digits(s@)) <= u64::MAX),
        r is Some ==> r->0 as nat == digits_value(unsigned_digits(s@)),
{
    s.parse::<u64>().ok()
}

/// Parses a decimal `u64`.
pub(crate) fn parse_u64_text(s: &str) -> (r: Option<u64>)
    ensures
        r == u64_of(s@),
{
    parse_u64(s)
}

/// The number a text spells, when `str::parse::<u64>` accepts it.
pub open spec fn u64_of(s: Seq<char>) -> Option<u64> {
    let t = unsigned_digits(s);
    if t.len() > 0 && all_digits(t) && digits_value(t) <= u64::MAX {
        Some(digits_value(t) as u64)
    } else {
        None
    }
}

/// The first index of `c` in `s`, or `s.len()`.
pub open spec fn index_of(s: Seq<char>, c: char) -> int {
    crate::auth::first_char(s, c, 0)
}

/// What one comma-separated part of a range set contributes: `Err` aborts
/// the whole header (a number that does not parse), `Ok(None)` skips the
/// part, `Ok(Some(r))` keeps the range.
pub open spec fn range_part(part: Seq<char>, size: u64) -> Result<Option<Range>, ()> {
    let t = trimmed(part);
    let d = index_of(t, '-');
    if t.len() == 0 || d >= t.len() {
        Ok(None)
    } else {
        let a = t.take(d);
        let b = t.skip(d + 1);
        let bounds: Result<Option<(u64, u64)>, ()> = if a.len() == 0 {
            match u64_of(b) {
                None => Err(()),
                Some(suffix) => if suffix == 0 {
                    Ok(None)
                } else {
                    Ok(Some((if suffix >= size { 0u64 } else { (size - suffix) as u64 }, (size - 1) as u64)))
                },
            }
        } else if b.len() == 0 {
            match u64_of(a) {
                None => Err(()),
                Some(s) => Ok(Some((s, (size - 1) as u64))),
            }
        } else {
            match (u64_of(a), u64_of(b)) {
                (Some(s), Some(e)) => Ok(Some((s, e))),
                _ => Err(()),
            }
        };
        match bounds {
            Err(()) => Err(()),
            Ok(None) => Ok(None),
            Ok(Some((s, e))) => if s > e || s >= size {
                Ok(None)
            } else {
                Ok(Some(Range { start: s, end: if e < size - 1 { e } else { (size - 1) as u64 } }))
            },
        }
    }
}

/// The ranges kept from `parts`, in order; `None` when a part aborts.
pub open spec fn range_parts(parts: Seq<Seq<char>>, size: u64) -> Option<Seq<Range>>
    decreases parts.len(),
{
    if parts.len() == 0 {
        Some(Seq::empty())
    } else {
        match range_parts(parts.drop_last(), size) {
            None => None,
            Some(rs) => match range_part(parts.last(), size) {
                Err(()) => None,
                Ok(None) => Some(rs),
                Ok(Some(r)) => Some(rs.push(r)),
            },
        }
    }
}

/// Once a part aborts, the whole list does.
proof fn lemma_parts_abort(parts: Seq<Seq<char>>, size: u64, j: int)
    requires
        0 <= j <= parts.len(),
        range_parts(parts.take(j), size) is None,
    ensures
        range_parts(parts, size) is None,
    decreases parts.len() - j,
{
    if j < parts.len() {
        assert(parts.take(j + 1).drop_last() =~= parts.take(j));
        lemma_parts_abort(parts, size, j + 1);
    } else {
        assert(parts.take(j) =~= parts);
    }
}

/// What `parse_range` returns: the unit and the kept ranges of a
/// `bytes=...` header, when at least one range is satisfiable.
pub open spec fn range_header(h: Seq<char>, size: u64) -> Option<(Seq<char>, Seq<Range>)> {
    let c = index_of(h, '=');
    if c >= h.len() || size == 0 {
        None
    } else {
        let unit = trimmed(h.take(c));
        if unit != "bytes"@ {
            None
        } else {
            match range_parts(pieces(h.skip(c + 1), ','), size) {
                None => None,
                Some(rs) => if rs.len() == 0 { None } else { Some((unit, rs)) },
            }
        }
    }
}

fn index_in(cs: &Vec<char>, c: char) -> (r: usize)
    ensures
        r == index_of(cs@, c),
{
    let mut i: usize = 0;
    while i < cs.len() && cs[i] != c
        invariant
            i <= cs@.len(),
            crate::auth::first_char(cs@, c, 0) == crate::auth::first_char(cs@, c, i as int),
        decreases cs@.len() - i,
    {
        i += 1;
    }
    i
}

fn parse_part(part: &str, size: u64) -> (r: Result<Option<Range>, ()>)
    requires
        size > 0,
    ensures
        r == range_part(part@, size),
{
    let t = trim(part);
    let cs = chars_of(t.as_str());
    let d = index_in(&cs, '-');
    if cs.len() == 0 || d >= cs.len() {
        return Ok(None);
    }
    let a = string_of(&cs.as_slice()[0..d]);
    let b = string_of(&cs.as_slice()[d + 1..cs.len()]);
    assert(a@ =~= trimmed(part@).take(d as int));
    assert(b@ =~= trimmed(part@).skip(d + 1));
    let (s, e): (u64, u64) = if a.as_str().is_empty() {
        match parse_u64(b.as_str()) {
            None => return Err(()),
            Some(suffix) => {
                if suffix == 0 {
                    return Ok(None);
                }
                (size.saturating_sub(suffix), size - 1)
            },
        }
    } else if b.as_str().is_empty() {
        match parse_u64(a.as_str()) {
            None => return Err(()),
            Some(s) => (s, size - 1),
        }
    } else {
        match parse_u64(a.as_str()) {
            None => return Err(()),
            Some(s) => match parse_u64(b.as_str()) {
                None => return Err(()),
                Some(e) => (s, e),
            },
        }
    };
    if s > e || s >= size {
        return Ok(None);
    }
    let end = if e < size - 1 { e } else { size - 1 };
    Ok(Some(Range::new(s, end)))
}

/// Parses a `Range` header against a resource of `file_size` bytes: the unit
/// must be `bytes`; each comma-separated part is `a-b`, `a-` or `-n`;
/// unsatisfiable parts are skipped and ends are clamped to the last byte.
pub fn parse_range(header: &str, file_size: u64) -> (r: Option<ParsedRange>)
    ensures
        match range_header(header@, file_size) {
            None => r is None,
            Some((unit, rs)) => r is Some && r->0.unit@ == unit && r->0.ranges@ == rs,
        },
{
    let cs = chars_of(header);
    let c = index_in(&cs, '=');
    if c >= cs.len() || file_size == 0 {
        return None;
    }
    let unit_raw = string_of(&cs.as_slice()[0..c]);
    assert(unit_raw@ =~= header@.take(c as int));
    let unit = trim(unit_raw.as_str());
    proof {
        reveal_strlit("bytes");
    }
    if !str_eq(unit.as_str(), "bytes") {
        return None;
    }
    let spec_part = string_of(&cs.as_slice()[c + 1..cs.len()]);
    assert(spec_part@ =~= header@.skip(c + 1));
    let parts = split_pieces(spec_part.as_str(), ',');
    let ghost pv = pieces(header@.skip(c + 1), ',');
    let mut ranges: Vec<Range> = Vec::new();
    let mut i: usize = 0;
    assert(range_header(header@, file_size) == (match range_parts(pv, file_size) {
        None => None,
        Some(rs) => if rs.len() == 0 { None } else { Some((unit@, rs)) },
    }));
    while i < parts.len()
        invariant
            file_size > 0,
            range_header(header@, file_size) == (match range_parts(pv, file_size) {
                None => None,
                Some(rs) => if rs.len() == 0 { None } else { Some((unit@, rs)) },
            }),
            i <= parts@.len(),
            parts@.len() == pv.len(),
            forall|k: int| 0 <= k < parts@.len() ==> (#[trigger] parts@[k])@ == pv[k],
            range_parts(pv.take(i as int), file_size) == Some(ranges@),
        decreases parts@.len() - i,
    {
        assert(pv.take(i + 1).drop_last() =~= pv.take(i as int));
        match parse_part(parts[i].as_str(), file_size) {
            Err(()) => {
                proof {
                    assert(parts@[i as int]@ == pv[i as int]);
                    assert(range_part(pv[i as int], file_size) is Err);
                    assert(pv.take(i + 1).last() == pv[i as int]);
                    assert(range_parts(pv.take(i + 1), file_size) is None);
                    lemma_parts_abort(pv, file_size, i + 1);
                }
                return None;
            },
            Ok(None) => {},
            Ok(Some(rg)) => {
                ranges.push(rg);
            },
        }
        i += 1;
    }
    assert(pv.take(pv.len() as int) =~= pv);
    if ranges.len() == 0 {
        return None;
    }
    Some(ParsedRange { unit, ranges })
}

/// Every range lies inside the resource.
pub fn is_satisfiable(ranges: &[Range], file_size: u64) -> (r: bool)
    ensures
        r == forall|k: int| 0 <= k < ranges@.len() ==> (#[trigger] ranges@[k]).start < file_size && ranges@[k].end < file_size,
{
    let mut i: usize = 0;
    while i < ranges.len()
        invariant
            i <= ranges@.len(),
            forall|k: int| 0 <= k < i ==> (#[trigger] ranges@[k]).start < file_size && ranges@[k].end < file_size,
        decreases ranges@.len() - i,
    {
        if !(ranges[i].start < file_size && ranges[i].end < file_size) {
            return false;
        }
        i += 1;
    }
    true
}

/// `bytes start-end/total`.
pub fn content_range(start: u64, end: u64, total: u64) -> (r: String)
    ensures
        r@ == "bytes "@ + decimal(start as nat) + seq!['-'] + decimal(end as nat) + seq!['/'] + decimal(total as nat),
{
    let mut s = owned("bytes ");
    push_decimal(&mut s, start);
    push_char(&mut s, '-');
    push_decimal(&mut s, end);
    push_char(&mut s, '/');
    push_decimal(&mut s, total);
    assert(s@ =~= "bytes "@ + decimal(start as nat) + seq!['-'] + decimal(end as nat) + seq!['/'] + decimal(total as nat));
    s
}

/// `bytes */total`.
pub fn content_range_unsatisfiable(total: u64) -> (r: String)
    ensures
        r@ == "bytes */"@ + decimal(total as nat),
{
    let mut s = owned("bytes */");
    push_decimal(&mut s, total);
    s
}

/// Limits on range requests.
#[derive(Debug, Clone)]
pub struct RangeConfig {
    pub max_ranges: usize,
    pub multipart: bool,
}

impl Default for RangeConfig {
    fn default() -> (r: RangeConfig)
        ensures
            r.max_ranges == 1,
            !r.multipart,
    {
        RangeConfig { max_ranges: 1, multipart: false }
    }
}

/// The media type for a lowercase file extension.
pub open spec fn mime_of(e: Seq<char>) -> Seq<char> {
    if e == "mp4"@ || e == "m4v"@ {
        "video/mp4"@
    } else if e == "webm"@ {
        "video/webm"@
    } else if e == "ogg"@ || e == "ogv"@ {
        "video/ogg"@
    } else if e == "avi"@ {
        "video/x-msvideo"@
    } else if e == "mov"@ {
        "video/quicktime"@
    } else if e == "mkv"@ {
        "video/x-matroska"@
    } else if e == "wmv"@ {
        "video/x-ms-wmv"@
    } else if e == "flv"@ {
        "video/x-flv"@
    } else if e == "mp3"@ {
        "audio/mpeg"@
    } else if e == "wav"@ {
        "audio/wav"@
    } else if e == "flac"@ {
        "audio/flac"@
    } else if e == "aac"@ {
        "audio/aac"@
    } else if e == "m4a"@ {
        "audio/mp4"@
    } else if e == "oga"@ {
        "audio/ogg"@
    } else if e == "weba"@ {
        "audio/webm"@
    } else if e == "wma"@ {
        "audio/x-ms-wma"@
    } else if e == "pdf"@ {
        "application/pdf"@
    } else if e == "zip"@ {
        "application/zip"@
    } else if e == "gz"@ || e == "gzip"@ {
        "application/gzip"@
    } else if e == "tar"@ {
        "application/x-tar"@
    } else if e == "rar"@ {
        "application/vnd.rar"@
    } else if e == "7z"@ {
        "application/x-7z-compressed"@
    } else if e == "jpg"@ || e == "jpeg"@ {
        "image/jpeg"@
    } else if e == "png"@ {
        "image/png"@
    } else if e == "gif"@ {
        "image/gif"@
    } else if e == "webp"@ {
        "image/webp"@
    } else if e == "svg"@ {
        "image/svg+xml"@
    } else if e == "ico"@ {
        "image/x-icon"@
    } else if e == "bmp"@ {
        "image/bmp"@
    } else {
        "application/octet-stream"@
    }
}

/// The media type for an extension that is already lowercase.
pub fn mime_for(e: &str) -> (r: &'static str)
    ensures
        r@ == mime_of(e@),
{
    if str_eq(e, "mp4") || str_eq(e, "m4v") {
        "video/mp4"
    } else if str_eq(e, "webm") {
        "video/webm"
    } else if str_eq(e, "ogg") || str_eq(e, "ogv") {
        "video/ogg"
    } else if str_eq(e, "avi") {
        "video/x-msvideo"
    } else if str_eq(e, "mov") {
        "video/quicktime"
    } else if str_eq(e, "mkv") {
        "video/x-matroska"
    } else if str_eq(e, "wmv") {
        "video/x-ms-wmv"
    } else if str_eq(e, "flv") {
        "video/x-flv"
    } else if str_eq(e, "mp3") {
        "audio/mpeg"
    } else if str_eq(e, "wav") {
        "audio/wav"
    } else if str_eq(e, "flac") {
        "audio/flac"
    } else if str_eq(e, "aac") {
        "audio/aac"
    } else if str_eq(e, "m4a") {
        "audio/mp4"
    } else if str_eq(e, "oga") {
        "audio/ogg"
    } else if str_eq(e, "weba") {
        "audio/webm"
    } else if str_eq(e, "wma") {
        "audio/x-ms-wma"
    } else if str_eq(e, "pdf") {
        "application/pdf"
    } else if str_eq(e, "zip") {
        "application/zip"
    } else if str_eq(e, "gz") || str_eq(e, "gzip") {
        "application/gzip"
    } else if str_eq(e, "tar") {
        "application/x-tar"
    } else if str_eq(e, "rar") {
        "application/vnd.rar"
    } else if str_eq(e, "7z") {
        "application/x-7z-compressed"
    } else if str_eq(e, "jpg") || str_eq(e, "jpeg") {
        "image/jpeg"
    } else if str_eq(e, "png") {
        "image/png"
    } else if str_eq(e, "gif") {
        "image/gif"
    } else if str_eq(e, "webp") {
        "image/webp"
    } else if str_eq(e, "svg") {
        "image/svg+xml"
    } else if str_eq(e, "ico") {
        "image/x-icon"
    } else if str_eq(e, "bmp") {
        "image/bmp"
    } else {
        "application/octet-stream"
    }
}

/// The media type for a file extension, in any case.
pub fn get_mime_type(extension: &str) -> (r: &'static str)
    ensures
        r@ == mime_of(lower_of(extension@)),
{
    let e = to_lower(extension);
    mime_for(e.as_str())
}

/// The lowercase hexadecimal digits of `n`.
pub open spec fn hex(n: nat) -> Seq<char>
    decreases n,
{
    if n < 16 {
        seq![hex_digit(n)]
    } else {
        hex(n / 16).push(hex_digit(n % 16))
    }
}

pub open spec fn hex_digit(d: nat) -> char {
    if d < 10 { crate::text::digit_char(d) } else if d == 10 { 'a' } else if d == 11 { 'b' } else if d == 12 {
        'c'
    } else if d == 13 {
        'd'
    } else if d == 14 {
        'e'
    } else {
        'f'
    }
}

fn hex_char(d: u64) -> (r: char)
    requires
        d < 16,
    ensures
        r == hex_digit(d as nat),
{
    match d {
        0 => '0',
        1 => '1',
        2 => '2',
        3 => '3',
        4 => '4',
        5 => '5',
        6 => '6',
        7 => '7',
        8 => '8',
        9 => '9',
        10 => 'a',
        11 => 'b',
        12 => 'c',
        13 => 'd',
        14 => 'e',
        _ => 'f',
    }
}

pub(crate) fn push_hex(s: &mut String, n: u64)
    ensures
        final(s)@ == old(s)@ + hex(n as nat),
    decreases n,
{
    if n >= 16 {
        push_hex(s, n / 16);
    }
    push_char(s, hex_char(n % 16));
    assert(final(s)@ =~= old(s)@ + hex(n as nat));
}

/// A weak validator from modification time and size: `"<mtime hex>-<size hex>"`.
pub fn generate_etag(mtime_ms: u64, size: u64) -> (r: String)
    ensures
        r@ == seq!['"'] + hex(mtime_ms as nat) + seq!['-'] + hex(size as nat) + seq!['"'],
{
    let mut s = String::new();
    push_char(&mut s, '"');
    push_hex(&mut s, mtime_ms);
    push_char(&mut s, '-');
    push_hex(&mut s, size);
    push_char(&mut s, '"');
    assert(s@ =~= seq!['"'] + hex(mtime_ms as nat) + seq!['-'] + hex(size as nat) + seq!['"']);
    s
}

/// `If-None-Match` matches: the same tag, or `*`.
pub fn check_if_none_match(if_none_match: &str, etag: &str) -> (r: bool)
    ensures
        r == (if_none_match@ == etag@ || if_none_match@ == "*"@),
{
    str_eq(if_none_match, etag) || str_eq(if_none_match, "*")
}

/// `If-Modified-Since` never matches: HTTP dates are not parsed.
pub fn check_if_modified_since(if_modified_since: &str, mtime: u64) -> (r: bool)
    ensures
        !r,
{
    false
}

/// The headers of a range-aware response.
#[derive(Debug)]
pub struct RangeResponse {
    pub status: u16,
    pub content_type: String,
    pub content_length: u64,
    pub content_range: Option<String>,
    pub accept_ranges: String,
    pub etag: String,
    pub last_modified: String,
    pub cache_control: String,
    pub range: Option<Range>,
}

fn cache_control(max_age: u32) -> (r: String)
    ensures
        r@ == "public, max-age="@ + decimal(max_age as nat),
{
    let mut s = owned("public, max-age=");
    push_decimal(&mut s, max_age as u64);
    s
}

impl RangeResponse {
    /// A 200 response for the whole resource.
    pub fn full(content_type: &str, size: u64, etag: &str, last_modified: &str, max_age: u32) -> (r: RangeResponse)
        ensures
            r.status == 200,
            r.content_type@ == content_type@,
            r.content_length == size,
            r.content_range is None,
            r.accept_ranges@ == "bytes"@,
            r.etag@ == etag@,
            r.last_modified@ == last_modified@,
            r.cache_control@ == "public, max-age="@ + decimal(max_age as nat),
            r.range is None,
    {
        RangeResponse {
            status: 200,
            content_type: owned(content_type),
            content_length: size,
            content_range: None,
            accept_ranges: owned("bytes"),
            etag: owned(etag),
            last_modified: owned(last_modified),
            cache_control: cache_control(max_age),
            range: None,
        }
    }

    /// A 206 response for one range.
    pub fn partial(content_type: &str, range: Range, total_size: u64, etag: &str, last_modified: &str, max_age: u32) -> (r: RangeResponse)
        requires
            range.start <= range.end,
            range.end - range.start < u64::MAX,
        ensures
            r.status == 206,
            r.content_type@ == content_type@,
            r.content_length == range.end - range.start + 1,
            r.content_range is Some,
            r.content_range->0@ == "bytes "@ + decimal(range.start as nat) + seq!['-'] + decimal(range.end as nat) + seq!['/'] + decimal(total_size as nat),
            r.accept_ranges@ == "bytes"@,
            r.etag@ == etag@,
            r.last_modified@ == last_modified@,
            r.cache_control@ == "public, max-age="@ + decimal(max_age as nat),
            r.range == Some(range),
    {
        RangeResponse {
            status: 206,
            content_type: owned(content_type),
            content_length: range.content_length(),
            content_range: Some(content_range(range.start, range.end, total_size)),
            accept_ranges: owned("bytes"),
            etag: owned(etag),
            last_modified: owned(last_modified),
            cache_control: cache_control(max_age),
            range: Some(range),
        }
    }

    /// A 304 response.
    pub fn not_modified(etag: &str, last_modified: &str) -> (r: RangeResponse)
        ensures
            r.status == 304,
            r.content_type@.len() == 0,
            r.content_length == 0,
            r.content_range is None,
            r.accept_ranges@ == "bytes"@,
            r.etag@ == etag@,
            r.last_modified@ == last_modified@,
            r.cache_control@.len() == 0,
            r.range is None,
    {
        RangeResponse {
            status: 304,
            content_type: String::new(),
            content_length: 0,
            content_range: None,
            accept_ranges: owned("bytes"),
            etag: owned(etag),
            last_modified: owned(last_modified),
            cache_control: String::new(),
            range: None,
        }
    }

    /// A 416 response.
    pub fn not_satisfiable(total_size: u64) -> (r: RangeResponse)
        ensures
            r.status == 416,
            r.content_length == 0,
            r.content_range is Some,
            r.content_range->0@ == "bytes */"@ + decimal(total_size as nat),
            r.accept_ranges@ == "bytes"@,
            r.etag@.len() == 0,
            r.range is None,
    {
        RangeResponse {
            status: 416,
            content_type: String::new(),
            content_length: 0,
            content_range: Some(content_range_unsatisfiable(total_size)),
            accept_ranges: owned("bytes"),
            etag: String::new(),
            last_modified: String::new(),
            cache_control: String::new(),
            range: None,
        }
    }

    /// The response headers, in a fixed order, leaving out empty values and,
    /// for a 304, the length.
    pub fn to_headers(&self) -> (r: Vec<(String, String)>)
        ensures
            r@.len() >= 1,
    {
        let mut headers: Vec<(String, String)> = Vec::new();
        if !self.content_type.as_str().is_empty() {
            headers.push((owned("content-type"), self.content_type.clone()));
        }
        if self.status != 304 {
            let mut n = String::new();
            push_decimal(&mut n, self.content_length);
            headers.push((owned("content-length"), n));
        }
        match &self.content_range {
            Some(range) => headers.push((owned("content-range"), range.clone())),
            None => {},
        }
        headers.push((owned("accept-ranges"), self.accept_ranges.clone()));
        if !self.etag.as_str().is_empty() {
            headers.push((owned("etag"), self.etag.clone()));
        }
        if !self.last_modified.as_str().is_empty() {
            headers.push((owned("last-modified"), self.last_modified.clone()));
        }
        if !self.cache_control.as_str().is_empty() {
            headers.push((owned("cache-control"), self.cache_control.clone()));
        }
        headers
    }
}

} // verus!
