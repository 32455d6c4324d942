//! Single-pass HTTP/1.1 request-line and header parser that reports byte
//! offsets into the caller's buffer instead of copying.
use vstd::prelude::*;
use crate::method::Method;
use crate::scan::{next_where, lemma_next_where, lemma_next_where_facts, find_byte, find_either};

verus! {

/// Most headers whose offsets are recorded.
pub const MAX_HEADERS: usize = 64;

/// Shortest possible request, `GET / HTTP/1.1\r\n\r\n`.
pub const MIN_REQUEST_LEN: usize = 18;

/// Parse state: more bytes are needed.
pub const STATE_INCOMPLETE: u8 = 0;

/// Parse state: request line and headers are complete.
pub const STATE_COMPLETE: u8 = 1;

/// Parse state: the method token is not a known method.
pub const STATE_ERROR: u8 = 2;

/// Header offsets, four per header: name start, name end, value start, value end.
pub type HeaderOffsets = [u32; 256];

pub const SP: u8 = 32;
pub const TAB: u8 = 9;
pub const CR: u8 = 13;
pub const LF: u8 = 10;
pub const QMARK: u8 = 63;
pub const COLON: u8 = 58;

pub open spec fn space_p() -> spec_fn(u8) -> bool {
    |b: u8| b == SP
}

pub open spec fn qmark_p() -> spec_fn(u8) -> bool {
    |b: u8| b == QMARK
}

pub open spec fn colon_p() -> spec_fn(u8) -> bool {
    |b: u8| b == COLON
}

pub open spec fn eol_p() -> spec_fn(u8) -> bool {
    |b: u8| b == CR || b == LF
}

pub open spec fn not_blank_p() -> spec_fn(u8) -> bool {
    |b: u8| b != SP && b != TAB
}

/// The outcome of one parse: all offsets are absolute indices into the buffer.
#[derive(Debug, Clone, Copy)]
pub struct ParsedRequest {
    /// 0 incomplete, 1 complete, 2 error.
    pub state: u8,
    pub method: Method,
    pub path_start: u32,
    pub path_end: u32,
    /// 0 when there is no query.
    pub query_start: u32,
    /// 0 when there is no query.
    pub query_end: u32,
    pub headers_count: u32,
    pub body_start: u32,
}

impl ParsedRequest {
    /// The all-zero incomplete result.
    pub open spec fn initial() -> ParsedRequest {
        ParsedRequest {
            state: STATE_INCOMPLETE,
            method: Method::Get,
            path_start: 0,
            path_end: 0,
            query_start: 0,
            query_end: 0,
            headers_count: 0,
            body_start: 0,
        }
    }
}

impl Default for ParsedRequest {
    fn default() -> (r: ParsedRequest)
        ensures
            r == ParsedRequest::initial(),
    {
        ParsedRequest {
            state: STATE_INCOMPLETE,
            method: Method::Get,
            path_start: 0,
            path_end: 0,
            query_start: 0,
            query_end: 0,
            headers_count: 0,
            body_start: 0,
        }
    }
}

/// Where the next line starts, given the index `e` of a line terminator byte:
/// one optional CR, then one optional LF.
pub open spec fn after_line(s: Seq<u8>, e: int) -> int {
    let a = if e < s.len() && s[e] == CR { e + 1 } else { e };
    if a < s.len() && s[a] == LF { a + 1 } else { a }
}

/// The header block starting at `pos`: the spans
/// `(name_start, name_end, value_start, value_end)` of every header in order,
/// and the offset just past the blank line; `None` when the block is cut short.
pub open spec fn header_block(s: Seq<u8>, pos: int) -> Option<(Seq<(int, int, int, int)>, int)>
    decreases s.len() - pos,
{
    if pos < 0 || pos >= s.len() {
        None
    } else if s[pos] == CR && pos + 1 >= s.len() {
        None
    } else if s[pos] == CR && s[pos + 1] == LF {
        Some((Seq::empty(), pos + 2))
    } else if s[pos] == LF {
        Some((Seq::empty(), pos + 1))
    } else {
        let colon = next_where(s, pos, colon_p());
        if colon >= s.len() {
            None
        } else {
            let vs = next_where(s, colon + 1, not_blank_p());
            let ve = next_where(s, vs, eol_p());
            if ve >= s.len() || colon < pos || vs <= colon || ve < vs {
                None
            } else {
                match header_block(s, after_line(s, ve)) {
                    None => None,
                    Some((rest, body)) => Some((seq![(pos, colon, vs, ve)] + rest, body)),
                }
            }
        }
    }
}

/// The end of the method token: the first space.
pub open spec fn method_end(s: Seq<u8>) -> int {
    next_where(s, 0, space_p())
}

/// The end of the request line: the first CR or LF after the method.
pub open spec fn line_end(s: Seq<u8>) -> int {
    next_where(s, method_end(s) + 1, eol_p())
}

/// The space before the HTTP version.
pub open spec fn target_end(s: Seq<u8>) -> int {
    next_where(s, method_end(s) + 1, space_p())
}

/// The first `?` of the request line.
pub open spec fn query_mark(s: Seq<u8>) -> int {
    next_where(s, method_end(s) + 1, qmark_p())
}

/// Where the header block starts: past the request line's terminator.
pub open spec fn headers_start(s: Seq<u8>) -> int {
    if s[line_end(s)] == CR { line_end(s) + 2 } else { line_end(s) + 1 }
}

/// The headers of a request whose block is complete.
pub open spec fn header_spans(s: Seq<u8>) -> Seq<(int, int, int, int)> {
    match header_block(s, headers_start(s)) {
        Some((hs, _)) => hs,
        None => Seq::empty(),
    }
}

pub open spec fn min_headers(n: int) -> int {
    if n < MAX_HEADERS { n } else { MAX_HEADERS as int }
}

/// What `parse_request` returns for the buffer `s`.
pub open spec fn parse_outcome(s: Seq<u8>) -> ParsedRequest {
    let init = ParsedRequest::initial();
    let me = method_end(s);
    if s.len() < MIN_REQUEST_LEN || me >= s.len() {
        init
    } else {
        match Method::from_token(s.subrange(0, me)) {
            None => ParsedRequest { state: STATE_ERROR, ..init },
            Some(m) => {
                let with_m = ParsedRequest { method: m, path_start: (me + 1) as u32, ..init };
                let le = line_end(s);
                let sp = target_end(s);
                let q = query_mark(s);
                if le >= s.len() || sp >= le {
                    with_m
                } else {
                    let with_t = if q < sp {
                        ParsedRequest {
                            path_end: q as u32,
                            query_start: (q + 1) as u32,
                            query_end: sp as u32,
                            ..with_m
                        }
                    } else {
                        ParsedRequest { path_end: sp as u32, ..with_m }
                    };
                    if le + 1 >= s.len() {
                        with_t
                    } else {
                        match header_block(s, headers_start(s)) {
                            None => with_t,
                            Some((hs, body)) => ParsedRequest {
                                state: STATE_COMPLETE,
                                headers_count: min_headers(hs.len() as int) as u32,
                                body_start: body as u32,
                                ..with_t
                            },
                        }
                    }
                }
            }
        }
    }
}

/// The shape of one header span within the buffer.
pub open spec fn span_well_formed(s: Seq<u8>, h: (int, int, int, int)) -> bool {
    &&& 0 <= h.0 <= h.1 < h.2 <= h.3 < s.len()
    &&& s[h.1] == COLON
    &&& (s[h.3] == CR || s[h.3] == LF)
    &&& forall|j: int| h.0 <= j < h.1 ==> s[j] != COLON
    &&& forall|j: int| h.2 <= j < h.3 ==> s[j] != CR && s[j] != LF
}

/// Facts about a complete header block: its spans lie in order between its
/// start and the body, do not overlap, and are delimited as parsed.
pub proof fn lemma_header_block_shape(s: Seq<u8>, pos: int)
    ensures
        match header_block(s, pos) {
            None => true,
            Some((hs, body)) => {
                &&& 0 <= pos < body <= s.len()
                &&& forall|k: int| 0 <= k < hs.len() ==> span_well_formed(s, #[trigger] hs[k])
                &&& forall|k: int| 0 <= k < hs.len() ==> pos <= (#[trigger] hs[k]).0
                &&& forall|k: int| 0 <= k < hs.len() ==> (#[trigger] hs[k]).3 < body
                &&& forall|k: int| 0 <= k < hs.len() - 1 ==> (#[trigger] hs[k]).3 < hs[k + 1].0
            },
        },
    decreases s.len() - pos,
{
    if pos < 0 || pos >= s.len() {
    } else if s[pos] == CR && pos + 1 >= s.len() {
    } else if s[pos] == CR && s[pos + 1] == LF {
    } else if s[pos] == LF {
    } else {
        let colon = next_where(s, pos, colon_p());
        lemma_next_where_facts(s, pos, colon_p());
        if colon < s.len() {
            let vs = next_where(s, colon + 1, not_blank_p());
            lemma_next_where_facts(s, colon + 1, not_blank_p());
            let ve = next_where(s, vs, eol_p());
            lemma_next_where_facts(s, vs, eol_p());
            if ve < s.len() {
                let np = after_line(s, ve);
                lemma_header_block_shape(s, np);
                match header_block(s, np) {
                    None => {},
                    Some((rest, body)) => {
                        let hs = seq![(pos, colon, vs, ve)] + rest;
                        assert(header_block(s, pos) == Some((hs, body)));
                        assert forall|k: int| 0 <= k < hs.len() implies span_well_formed(s, #[trigger] hs[k]) by {
                            if k > 0 {
                                assert(hs[k] == rest[k - 1]);
                            }
                        }
                        assert forall|k: int| 0 <= k < hs.len() implies pos <= (#[trigger] hs[k]).0 && hs[k].3 < body by {
                            if k > 0 {
                                assert(hs[k] == rest[k - 1]);
                            } else if rest.len() > 0 {
                                assert(rest[0].0 >= np);
                            }
                        }
                        assert forall|k: int| 0 <= k < hs.len() - 1 implies (#[trigger] hs[k]).3 < hs[k + 1].0 by {
                            assert(hs[k + 1] == rest[k]);
                            if k > 0 {
                                assert(hs[k] == rest[k - 1]);
                            }
                        }
                    },
                }
            }
        }
    }
}

/// Every offset of a complete parse lies inside the buffer, and each range
/// holds exactly the text that was sent: the path runs from just after the
/// method's space up to the first `?` or space, the query from just after the
/// `?` up to the space before the version, and each header quadruple spans its
/// name up to the colon and its value up to the line end, in order, between
/// the request line and the body.
pub proof fn lemma_complete_offsets(s: Seq<u8>)
    requires
        s.len() <= u32::MAX,
        parse_outcome(s).state == STATE_COMPLETE,
    ensures
        ({
            let r = parse_outcome(s);
            let hs = header_spans(s);
            &&& 0 < r.path_start <= r.path_end < s.len()
            &&& s[r.path_start - 1] == SP
            &&& s[r.path_end as int] == SP || s[r.path_end as int] == QMARK
            &&& forall|j: int|
                r.path_start <= j < r.path_end ==> s[j] != SP && s[j] != QMARK && s[j] != CR
                    && s[j] != LF
            &&& r.query_start == 0 <==> r.query_end == 0
            &&& r.query_start != 0 ==> {
                &&& r.query_start == r.path_end + 1 <= r.query_end < s.len()
                &&& s[r.path_end as int] == QMARK
                &&& s[r.query_end as int] == SP
                &&& forall|j: int|
                    r.query_start <= j < r.query_end ==> s[j] != SP && s[j] != CR && s[j] != LF
            }
            &&& r.query_start == 0 ==> s[r.path_end as int] == SP
            &&& r.headers_count <= MAX_HEADERS
            &&& r.headers_count <= hs.len()
            &&& r.body_start <= s.len()
            &&& forall|k: int|
                0 <= k < hs.len() ==> {
                    &&& span_well_formed(s, #[trigger] hs[k])
                    &&& headers_start(s) <= hs[k].0
                    &&& hs[k].3 < r.body_start
                }
            &&& forall|k: int| 0 <= k < hs.len() - 1 ==> (#[trigger] hs[k]).3 < hs[k + 1].0
        }),
{
    let me = method_end(s);
    lemma_next_where_facts(s, 0, space_p());
    lemma_next_where_facts(s, me + 1, eol_p());
    lemma_next_where_facts(s, me + 1, space_p());
    lemma_next_where_facts(s, me + 1, qmark_p());
    lemma_header_block_shape(s, headers_start(s));
}

/// A request whose header block holds more than `MAX_HEADERS` headers
/// records exactly `MAX_HEADERS` of them, and its body still starts past the
/// end of every header, the dropped ones included.
pub proof fn lemma_header_cap(s: Seq<u8>)
    requires
        s.len() <= u32::MAX,
        parse_outcome(s).state == STATE_COMPLETE,
        header_spans(s).len() > MAX_HEADERS,
    ensures
        parse_outcome(s).headers_count == MAX_HEADERS,
        forall|k: int|
            0 <= k < header_spans(s).len() ==> (#[trigger] header_spans(s)[k]).3
                < parse_outcome(s).body_start,
{
    lemma_complete_offsets(s);
}

/// Short buffers are never parsed, whatever they hold.
pub proof fn lemma_short_is_incomplete(s: Seq<u8>)
    requires
        s.len() < MIN_REQUEST_LEN,
    ensures
        parse_outcome(s).state == STATE_INCOMPLETE,
{
}

/// A leading token ended by a space that names no method is an error,
/// whatever its length.
pub proof fn lemma_unknown_method_is_error(s: Seq<u8>)
    requires
        s.len() >= MIN_REQUEST_LEN,
        method_end(s) < s.len(),
        Method::from_token(s.subrange(0, method_end(s))) is None,
    ensures
        parse_outcome(s).state == STATE_ERROR,
{
}

/// The bytes ` / HTTP/1.1\r\n\r\n` that follow a method token in the
/// shortest request.
pub open spec fn minimal_tail() -> Seq<u8> {
    seq![SP, 47, SP, 72, 84, 84, 80, 47, 49, 46, 49, CR, LF, CR, LF]
}

/// Each method token recognises its own method.
pub proof fn lemma_token_names_method(m: Method)
    ensures
        Method::from_token(m.token()) == Some(m),
{
    match m {
        Method::Get => {},
        Method::Post => {},
        Method::Put => {
            assert(m.token()[1] != Method::Post.token()[1]);
        },
        Method::Delete => {},
        Method::Patch => {
            assert(m.token()[1] != Method::Post.token()[1]);
        },
        Method::Head => {
            assert(m.token()[0] != Method::Post.token()[0]);
        },
        Method::Options => {},
        Method::Connect => {
            assert(m.token()[0] != Method::Options.token()[0]);
        },
        Method::Trace => {
            assert(m.token()[0] != Method::Patch.token()[0]);
        },
    }
}

/// A token of three to seven uppercase letters followed by the minimal tail
/// parses as complete, with whatever method the token names.
proof fn lemma_minimal_request_shape(t: Seq<u8>)
    requires
        3 <= t.len() <= 7,
        forall|j: int| 0 <= j < t.len() ==> 65 <= #[trigger] t[j] <= 90,
        Method::from_token(t) is Some,
    ensures
        parse_outcome(t + minimal_tail()).state == STATE_COMPLETE,
        Some(parse_outcome(t + minimal_tail()).method) == Method::from_token(t),
{
    let s = t + minimal_tail();
    let n = t.len() as int;
    assert forall|j: int| 0 <= j < n implies !space_p()(s[j]) by {
        assert(s[j] == t[j]);
    }
    assert forall|j: int| 0 <= j < 15 implies s[n + j] == #[trigger] minimal_tail()[j] by {}
    lemma_next_where(s, 0, n, space_p());
    assert(method_end(s) == n);
    assert(s.subrange(0, n) =~= t);
    lemma_next_where(s, n + 1, n + 11, eol_p());
    assert(line_end(s) == n + 11);
    lemma_next_where(s, n + 1, n + 2, space_p());
    assert(target_end(s) == n + 2);
    assert forall|j: int| n + 1 <= j < s.len() implies !qmark_p()(s[j]) by {
        assert(s[j] == minimal_tail()[j - n]);
    }
    lemma_next_where(s, n + 1, s.len() as int, qmark_p());
    assert(query_mark(s) == s.len());
    assert(headers_start(s) == n + 13);
    assert(header_block(s, n + 13) == Some((Seq::<(int, int, int, int)>::empty(), n + 15)));
}

/// `<METHOD> / HTTP/1.1\r\n\r\n` parses as complete, with that method, for
/// each of the nine methods.
pub proof fn lemma_minimal_request(m: Method)
    ensures
        parse_outcome(m.token() + minimal_tail()).state == STATE_COMPLETE,
        parse_outcome(m.token() + minimal_tail()).method == m,
{
    let t = m.token();
    assert forall|j: int| 0 <= j < t.len() implies 65 <= #[trigger] t[j] <= 90 by {
        match m {
            Method::Get => {},
            Method::Post => {},
            Method::Put => {},
            Method::Delete => {},
            Method::Patch => {},
            Method::Head => {},
            Method::Options => {},
            Method::Connect => {},
            Method::Trace => {},
        }
    }
    lemma_token_names_method(m);
    lemma_minimal_request_shape(t);
}

/// `done` followed by the spans of a block outcome.
pub open spec fn prepend_spans(
    done: Seq<(int, int, int, int)>,
    o: Option<(Seq<(int, int, int, int)>, int)>,
) -> Option<(Seq<(int, int, int, int)>, int)> {
    match o {
        None => None,
        Some((rest, body)) => Some((done + rest, body)),
    }
}

/// The four recorded offsets of header `k` equal its span.
pub open spec fn quad_matches(offsets: Seq<u32>, k: int, span: (int, int, int, int)) -> bool {
    &&& offsets[4 * k] as int == span.0
    &&& offsets[4 * k + 1] as int == span.1
    &&& offsets[4 * k + 2] as int == span.2
    &&& offsets[4 * k + 3] as int == span.3
}

/// Finds the first byte in `buf[from..to]` equal to `needle`, as an absolute
/// index; `to` when there is none.
fn scan_byte(buf: &[u8], from: usize, to: usize, needle: u8) -> (r: usize)
    requires
        from <= to <= buf@.len(),
    ensures
        from <= r <= to,
        r < to ==> buf@[r as int] == needle,
        forall|j: int| from <= j < r ==> buf@[j] != needle,
{
    let hay = &buf[from..to];
    match find_byte(needle, hay) {
        Some(i) => {
            assert forall|j: int| from <= j < from + i implies buf@[j] != needle by {
                assert(hay@[j - from] == buf@[j]);
            }
            from + i
        },
        None => {
            assert forall|j: int| from <= j < to implies buf@[j] != needle by {
                assert(hay@[j - from] == buf@[j]);
            }
            to
        },
    }
}

/// Finds the first CR or LF in `buf[from..]`; `buf.len()` when there is none.
fn scan_eol(buf: &[u8], from: usize) -> (r: usize)
    requires
        from <= buf@.len(),
    ensures
        r == next_where(buf@, from as int, eol_p()),
{
    let hay = &buf[from..buf.len()];
    let r = match find_either(CR, LF, hay) {
        Some(i) => {
            assert forall|j: int| from <= j < from + i implies !eol_p()(buf@[j]) by {
                assert(hay@[j - from] == buf@[j]);
            }
            from + i
        },
        None => {
            assert forall|j: int| from <= j < buf@.len() implies !eol_p()(buf@[j]) by {
                assert(hay@[j - from] == buf@[j]);
            }
            buf.len()
        },
    };
    proof {
        lemma_next_where(buf@, from as int, r as int, eol_p());
    }
    r
}

/// Parses the header block that starts at `start`, recording the offsets of
/// the first `MAX_HEADERS` headers; gives the body start and the number recorded.
fn parse_headers(buf: &[u8], start: usize, offsets: &mut HeaderOffsets) -> (r: Option<(usize, u32)>)
    requires
        buf@.len() <= u32::MAX,
        start <= buf@.len(),
    ensures
        match header_block(buf@, start as int) {
            None => r is None,
            Some((hs, body)) => {
                &&& r == Some((body as usize, min_headers(hs.len() as int) as u32))
                &&& forall|j: int|
                    4 * min_headers(hs.len() as int) <= j < 4 * MAX_HEADERS ==> final(offsets)@[j] == old(offsets)@[j]
                &&& forall|k: int|
                    0 <= k < min_headers(hs.len() as int) ==> quad_matches(
                        final(offsets)@,
                        k,
                        #[trigger] hs[k],
                    )
            },
        },
{
    let len = buf.len();
    let mut pos = start;
    let mut count: u32 = 0;
    let ghost mut done: Seq<(int, int, int, int)> = Seq::empty();
    loop
        invariant
            start <= pos <= len,
            len == buf@.len(),
            len <= u32::MAX,
            offsets@.len() == 4 * MAX_HEADERS,
            header_block(buf@, start as int) == prepend_spans(done, header_block(buf@, pos as int)),
            count as int == min_headers(done.len() as int),
            forall|k: int| 0 <= k < count ==> quad_matches(offsets@, k, #[trigger] done[k]),
            forall|j: int| 4 * count <= j < 4 * MAX_HEADERS ==> offsets@[j] == old(offsets)@[j],
        decreases len - pos,
    {
        if pos >= len {
            return None;
        }
        if buf[pos] == CR {
            if pos + 1 >= len {
                return None;
            }
            if buf[pos + 1] == LF {
                assert(done + Seq::<(int, int, int, int)>::empty() =~= done);
                return Some((pos + 2, count));
            }
        } else if buf[pos] == LF {
            assert(done + Seq::<(int, int, int, int)>::empty() =~= done);
            return Some((pos + 1, count));
        }
        let name_start = pos;
        let colon = scan_byte(buf, pos, len, COLON);
        proof {
            lemma_next_where(buf@, pos as int, colon as int, colon_p());
        }
        if colon >= len {
            return None;
        }
        pos = colon + 1;
        while pos < len && (buf[pos] == SP || buf[pos] == TAB)
            invariant
                colon + 1 <= pos <= len,
                len == buf@.len(),
                forall|j: int| colon + 1 <= j < pos ==> !not_blank_p()(buf@[j]),
            decreases len - pos,
        {
            pos += 1;
        }
        proof {
            lemma_next_where(buf@, colon + 1, pos as int, not_blank_p());
        }
        let value_start = pos;
        let value_end = scan_eol(buf, pos);
        proof {
            lemma_next_where_facts(buf@, pos as int, eol_p());
        }
        if value_end >= len {
            return None;
        }
        let ghost span = (name_start as int, colon as int, value_start as int, value_end as int);
        if count < MAX_HEADERS as u32 {
            let idx = (count * 4) as usize;
            offsets[idx] = name_start as u32;
            offsets[idx + 1] = colon as u32;
            offsets[idx + 2] = value_start as u32;
            offsets[idx + 3] = value_end as u32;
            count += 1;
        }
        pos = value_end;
        if pos < len && buf[pos] == CR {
            pos += 1;
        }
        if pos < len && buf[pos] == LF {
            pos += 1;
        }
        proof {
            assert(pos as int == after_line(buf@, value_end as int));
            assert(header_block(buf@, name_start as int) == prepend_spans(
                seq![span],
                header_block(buf@, pos as int),
            ));
            let ghost old_done = done;
            done = done.push(span);
            assert(forall|rest: Seq<(int, int, int, int)>|
                old_done + (seq![span] + rest) =~= done + rest);
            assert(forall|k: int| 0 <= k < old_done.len() ==> done[k] == old_done[k]);
        }
    }
}

/// Parses the request line and headers of `buf` in one forward pass.
///
/// The result is `parse_outcome(buf)`. When it is complete, the first
/// `headers_count` quadruples of `header_offsets` hold the spans of the
/// first headers; later slots are left as they were.
pub fn parse_request(buf: &[u8], header_offsets: &mut HeaderOffsets) -> (r: ParsedRequest)
    requires
        buf@.len() <= u32::MAX,
    ensures
        r == parse_outcome(buf@),
        buf@.len() < MIN_REQUEST_LEN ==> r.state == STATE_INCOMPLETE,
        buf@.len() < MIN_REQUEST_LEN || r.state == STATE_ERROR ==> final(header_offsets)@ == old(header_offsets)@,
        r.state == STATE_COMPLETE ==> forall|k: int|
            4 * r.headers_count <= k < 4 * MAX_HEADERS ==> final(header_offsets)@[k] == old(header_offsets)@[k],
        r.state == STATE_COMPLETE ==> forall|k: int|
            0 <= k < r.headers_count ==> quad_matches(
                final(header_offsets)@,
                k,
                #[trigger] header_spans(buf@)[k],
            ),
{
    let len = buf.len();
    let mut result = ParsedRequest::default();
    if len < MIN_REQUEST_LEN {
        return result;
    }
    let method_end = scan_byte(buf, 0, len, SP);
    proof {
        lemma_next_where(buf@, 0, method_end as int, space_p());
    }
    if method_end >= len {
        return result;
    }
    result.method = match Method::parse(&buf[0..method_end]) {
        Some(m) => m,
        None => {
            result.state = STATE_ERROR;
            return result;
        },
    };
    let path_start = method_end + 1;
    result.path_start = path_start as u32;
    let le = scan_eol(buf, path_start);
    proof {
        lemma_next_where_facts(buf@, path_start as int, eol_p());
    }
    if le >= len {
        return result;
    }
    let sp = scan_byte(buf, path_start, le, SP);
    proof {
        lemma_next_where_facts(buf@, path_start as int, space_p());
        if sp < le {
            lemma_next_where(buf@, path_start as int, sp as int, space_p());
        }
    }
    if sp >= le {
        return result;
    }
    let q = scan_byte(buf, path_start, sp, QMARK);
    proof {
        lemma_next_where_facts(buf@, path_start as int, qmark_p());
        if q < sp {
            lemma_next_where(buf@, path_start as int, q as int, qmark_p());
        }
    }
    if q < sp {
        result.path_end = q as u32;
        result.query_start = (q + 1) as u32;
        result.query_end = sp as u32;
    } else {
        result.path_end = sp as u32;
    }
    if le + 1 >= len {
        return result;
    }
    let hstart = if buf[le] == CR { le + 2 } else { le + 1 };
    proof {
        lemma_header_block_shape(buf@, hstart as int);
    }
    match parse_headers(buf, hstart, header_offsets) {
        None => result,
        Some((body, count)) => {
            result.headers_count = count;
            result.body_start = body as u32;
            result.state = STATE_COMPLETE;
            result
        },
    }
}

} // verus!
