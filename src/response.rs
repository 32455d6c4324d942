//! Responses: status, headers and body, their builder, and the HTTP/1.1
//! wire form.
use vstd::prelude::*;
use crate::status::StatusCode;
use crate::text::{owned, push_chars, push_decimal, decimal, str_eq, to_lower, lower_of};
use vstd::string::StringSliceAdditionalSpecFns;

verus! {

/// A response.
#[derive(Debug, Clone)]
pub struct Response {
    pub status: StatusCode,
    pub headers: Vec<(String, String)>,
    pub body: Vec<u8>,
}

pub open spec fn header_lines(hs: Seq<(String, String)>) -> Seq<char>
    decreases hs.len(),
{
    if hs.len() == 0 {
        Seq::empty()
    } else {
        header_lines(hs.drop_last()) + hs.last().0@ + ": "@ + hs.last().1@ + "\r\n"@
    }
}

/// The first header whose name lowercases like `name`.
pub open spec fn find_header(hs: Seq<(String, String)>, name: Seq<char>, from: int) -> Option<Seq<char>>
    decreases hs.len() - from,
{
    if from < 0 || from >= hs.len() {
        None
    } else if lower_of(hs[from].0@) == lower_of(name) {
        Some(hs[from].1@)
    } else {
        find_header(hs, name, from + 1)
    }
}

impl Response {
    /// The status line and headers, with a `content-length` header when
    /// there is a body, and the blank line.
    pub open spec fn head(&self) -> Seq<char> {
        "HTTP/1.1 "@ + decimal(self.status.0 as nat) + " "@ + StatusCode::phrase(self.status.0) + "\r\n"@
            + header_lines(self.headers@) + (if self.body@.len() > 0 {
            "content-length: "@ + decimal(self.body@.len()) + "\r\n"@
        } else {
            Seq::empty()
        }) + "\r\n"@
    }

    /// A response with no headers and no body.
    pub fn new(status: StatusCode) -> (r: Response)
        ensures
            r.status == status,
            r.headers@.len() == 0,
            r.body@.len() == 0,
    {
        Response { status, headers: Vec::new(), body: Vec::new() }
    }

    /// An empty 200.
    pub fn ok() -> (r: Response)
        ensures
            r.status == StatusCode(200),
            r.headers@.len() == 0,
            r.body@.len() == 0,
    {
        Response::new(StatusCode(200))
    }

    fn with(status: StatusCode, content_type: &str, body: &[u8]) -> (r: Response)
        ensures
            r.status == status,
            r.headers@.len() == 1,
            r.headers@[0].0@ == "content-type"@,
            r.headers@[0].1@ == content_type@,
            r.body@ == body@,
    {
        ResponseBuilder::new(status).header("content-type", content_type).body(body).build()
    }

    /// A 200 with a JSON body.
    pub fn json(body: &str) -> (r: Response)
        ensures
            r.status == StatusCode(200),
            r.headers@.len() == 1,
            r.headers@[0].0@ == "content-type"@ && r.headers@[0].1@ == "application/json"@,
            r.body@ == body.spec_bytes(),
    {
        Response::with(StatusCode(200), "application/json", body.as_bytes())
    }

    /// A 200 with a plain-text body.
    pub fn text(body: &str) -> (r: Response)
        ensures
            r.status == StatusCode(200),
            r.headers@.len() == 1,
            r.headers@[0].0@ == "content-type"@ && r.headers@[0].1@ == "text/plain; charset=utf-8"@,
            r.body@ == body.spec_bytes(),
    {
        Response::with(StatusCode(200), "text/plain; charset=utf-8", body.as_bytes())
    }

    /// A 200 with an HTML body.
    pub fn html(body: &str) -> (r: Response)
        ensures
            r.status == StatusCode(200),
            r.headers@.len() == 1,
            r.headers@[0].0@ == "content-type"@ && r.headers@[0].1@ == "text/html; charset=utf-8"@,
            r.body@ == body.spec_bytes(),
    {
        Response::with(StatusCode(200), "text/html; charset=utf-8", body.as_bytes())
    }

    /// A 308 or 307 to `location`.
    pub fn redirect(location: &str, permanent: bool) -> (r: Response)
        ensures
            r.status == StatusCode(if permanent { 308u16 } else { 307u16 }),
            r.headers@.len() == 1,
            r.headers@[0].0@ == "location"@ && r.headers@[0].1@ == location@,
            r.body@.len() == 0,
    {
        let status = if permanent { StatusCode(308) } else { StatusCode(307) };
        ResponseBuilder::new(status).header("location", location).build()
    }

    /// A plain-text 404.
    pub fn not_found() -> (r: Response)
        ensures
            r.status == StatusCode(404),
            r.body@ == "Not Found".spec_bytes(),
            r.headers@.len() == 1,
    {
        Response::with(StatusCode(404), "text/plain", "Not Found".as_bytes())
    }

    /// A plain-text 400 with a message.
    pub fn bad_request(message: &str) -> (r: Response)
        ensures
            r.status == StatusCode(400),
            r.body@ == message.spec_bytes(),
            r.headers@.len() == 1,
    {
        Response::with(StatusCode(400), "text/plain", message.as_bytes())
    }

    /// A plain-text 500 with a message.
    pub fn internal_error(message: &str) -> (r: Response)
        ensures
            r.status == StatusCode(500),
            r.body@ == message.spec_bytes(),
            r.headers@.len() == 1,
    {
        Response::with(StatusCode(500), "text/plain", message.as_bytes())
    }

    /// The first header with this name, compared after lowercasing.
    pub fn header(&self, name: &str) -> (r: Option<&str>)
        ensures
            match find_header(self.headers@, name@, 0) {
                Some(v) => r is Some && r->0@ == v,
                None => r is None,
            },
    {
        let want = to_lower(name);
        let mut i: usize = 0;
        while i < self.headers.len()
            invariant
                i <= self.headers@.len(),
                want@ == lower_of(name@),
                find_header(self.headers@, name@, 0) == find_header(self.headers@, name@, i as int),
            decreases self.headers@.len() - i,
        {
            let k = to_lower(self.headers[i].0.as_str());
            if str_eq(k.as_str(), want.as_str()) {
                return Some(self.headers[i].1.as_str());
            }
            i += 1;
        }
        None
    }

    /// The `content-type` header.
    pub fn content_type(&self) -> (r: Option<&str>)
        ensures
            match find_header(self.headers@, "content-type"@, 0) {
                Some(v) => r is Some && r->0@ == v,
                None => r is None,
            },
    {
        self.header("content-type")
    }

    /// The body as text, when it is valid UTF-8.
    pub fn body_string(&self) -> (r: Option<String>)
        ensures
            r is Some <==> vstd::utf8::valid_utf8(self.body@),
            r is Some ==> r->0@ == vstd::utf8::decode_utf8(self.body@),
    {
        crate::auth::utf8_string(self.body.clone())
    }

    /// The HTTP/1.1 wire form: the head, then the body.
    pub fn to_http1_bytes(&self) -> (r: Vec<u8>)
        ensures
            r@ == vstd::utf8::encode_utf8(self.head()) + self.body@,
    {
        let mut head = owned("HTTP/1.1 ");
        push_decimal(&mut head, self.status.0 as u64);
        push_chars(&mut head, " ");
        push_chars(&mut head, self.status.reason_phrase());
        push_chars(&mut head, "\r\n");
        let ghost start = head@;
        let mut i: usize = 0;
        while i < self.headers.len()
            invariant
                i <= self.headers@.len(),
                head@ == start + header_lines(self.headers@.take(i as int)),
            decreases self.headers@.len() - i,
        {
            push_chars(&mut head, self.headers[i].0.as_str());
            push_chars(&mut head, ": ");
            push_chars(&mut head, self.headers[i].1.as_str());
            push_chars(&mut head, "\r\n");
            assert(self.headers@.take(i + 1).drop_last() =~= self.headers@.take(i as int));
            assert(head@ =~= start + header_lines(self.headers@.take(i + 1)));
            i += 1;
        }
        assert(self.headers@.take(self.headers@.len() as int) =~= self.headers@);
        let ghost mid = head@;
        if self.body.len() > 0 {
            push_chars(&mut head, "content-length: ");
            push_decimal(&mut head, self.body.len() as u64);
            push_chars(&mut head, "\r\n");
        }
        let ghost with_len = head@;
        push_chars(&mut head, "\r\n");
        proof {
            if self.body@.len() == 0 {
                assert(with_len =~= mid + Seq::<char>::empty());
            } else {
                assert(with_len =~= mid + ("content-length: "@ + decimal(self.body@.len()) + "\r\n"@));
            }
            assert(head@ =~= self.head());
        }
        let b = head.as_str().as_bytes();
        let mut out: Vec<u8> = Vec::new();
        let mut j: usize = 0;
        while j < b.len()
            invariant
                j <= b@.len(),
                out@ == b@.take(j as int),
            decreases b@.len() - j,
        {
            out.push(b[j]);
            assert(out@ =~= b@.take(j + 1));
            j += 1;
        }
        assert(b@.take(b@.len() as int) =~= b@);
        let ghost hb = out@;
        let mut k: usize = 0;
        while k < self.body.len()
            invariant
                k <= self.body@.len(),
                out@ == hb + self.body@.take(k as int),
            decreases self.body@.len() - k,
        {
            out.push(self.body[k]);
            assert(out@ =~= hb + self.body@.take(k + 1));
            k += 1;
        }
        assert(self.body@.take(self.body@.len() as int) =~= self.body@);
        out
    }
}

impl Default for Response {
    fn default() -> (r: Response)
        ensures
            r.status == StatusCode(200),
            r.headers@.len() == 0,
            r.body@.len() == 0,
    {
        Response::ok()
    }
}

/// Builds a response step by step.
pub struct ResponseBuilder {
    pub response: Response,
}

impl ResponseBuilder {
    pub fn new(status: StatusCode) -> (r: ResponseBuilder)
        ensures
            r.response.status == status,
            r.response.headers@.len() == 0,
            r.response.body@.len() == 0,
    {
        ResponseBuilder { response: Response::new(status) }
    }

    pub fn status(self, status: StatusCode) -> (r: ResponseBuilder)
        ensures
            r.response.status == status,
            r.response.headers == self.response.headers,
            r.response.body == self.response.body,
    {
        let mut b = self;
        b.response.status = status;
        b
    }

    /// Appends a header.
    pub fn header(self, name: &str, value: &str) -> (r: ResponseBuilder)
        ensures
            r.response.status == self.response.status,
            r.response.headers@.len() == self.response.headers@.len() + 1,
            r.response.headers@.drop_last() == self.response.headers@,
            r.response.headers@.last().0@ == name@,
            r.response.headers@.last().1@ == value@,
            r.response.body == self.response.body,
    {
        let mut b = self;
        b.response.headers.push((owned(name), owned(value)));
        assert(b.response.headers@.drop_last() =~= self.response.headers@);
        b
    }

    /// Sets the body.
    pub fn body(self, body: &[u8]) -> (r: ResponseBuilder)
        ensures
            r.response.status == self.response.status,
            r.response.headers == self.response.headers,
            r.response.body@ == body@,
    {
        let mut v: Vec<u8> = Vec::new();
        let mut i: usize = 0;
        while i < body.len()
            invariant
                i <= body@.len(),
                v@ == body@.take(i as int),
            decreases body@.len() - i,
        {
            v.push(body[i]);
            assert(v@ =~= body@.take(i + 1));
            i += 1;
        }
        assert(body@.take(body@.len() as int) =~= body@);
        let mut b = self;
        b.response.body = v;
        b
    }

    pub fn build(self) -> (r: Response)
        ensures
            r == self.response,
    {
        self.response
    }
}

} // verus!
