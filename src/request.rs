//! Requests: method, path, query, headers, body and route parameters, their
//! builder, and query-string decoding.
use vstd::prelude::*;
use std::collections::HashMap;
use crate::method::Method;
use crate::response::find_header;
use crate::text::{owned, chars_of, push_char, str_eq, to_lower, lower_of, contains_str, occurs_in, split_pieces, pieces, string_of};
use crate::range::parse_u64_text;

verus! {

/// A request.
#[derive(Debug, Clone)]
pub struct Request {
    pub method: Method,
    pub path: String,
    pub query: Option<String>,
    pub headers: Vec<(String, String)>,
    pub body: Vec<u8>,
    pub params: Vec<(String, String)>,
}

/// The value of a hex digit character.
pub open spec fn hex_digit_val(c: char) -> int {
    if '0' <= c && c <= '9' {
        c as int - 48
    } else if 'a' <= c && c <= 'f' {
        c as int - 87
    } else if 'A' <= c && c <= 'F' {
        c as int - 55
    } else {
        -1
    }
}

/// The byte that two characters after a `%` spell, as `u8::from_str_radix`
/// reads them in base 16: two hex digits, or `+` and one.
pub open spec fn escape_byte(a: char, b: char) -> Option<u8> {
    if hex_digit_val(a) >= 0 && hex_digit_val(b) >= 0 {
        Some((hex_digit_val(a) * 16 + hex_digit_val(b)) as u8)
    } else if a == '+' && hex_digit_val(b) >= 0 {
        Some(hex_digit_val(b) as u8)
    } else {
        None
    }
}

/// Decodes `+` as a space and `%XX` as the character with that code; a
/// `%` that does not start an escape stays, with what followed it.
pub open spec fn url_decoded(s: Seq<char>) -> Seq<char>
    decreases s.len(),
{
    if s.len() == 0 {
        Seq::empty()
    } else if s[0] == '%' {
        if s.len() >= 3 && escape_byte(s[1], s[2]) is Some {
            seq![(escape_byte(s[1], s[2])->0) as char] + url_decoded(s.skip(3))
        } else if s.len() >= 3 {
            seq!['%', s[1], s[2]] + url_decoded(s.skip(3))
        } else {
            s
        }
    } else if s[0] == '+' {
        seq![' '] + url_decoded(s.skip(1))
    } else {
        seq![s[0]] + url_decoded(s.skip(1))
    }
}

fn hex_digit_of(c: char) -> (r: i32)
    ensures
        r as int == hex_digit_val(c),
{
    if '0' <= c && c <= '9' {
        c as i32 - 48
    } else if 'a' <= c && c <= 'f' {
        c as i32 - 87
    } else if 'A' <= c && c <= 'F' {
        c as i32 - 55
    } else {
        -1
    }
}

/// Decodes a query-string component.
pub fn urlencoding_decode(s: &str) -> (r: String)
    ensures
        r@ == url_decoded(s@),
{
    let cs = chars_of(s);
    let mut out = String::new();
    let mut i: usize = 0;
    assert(cs@.skip(0) =~= cs@);
    assert(out@ + url_decoded(cs@) =~= url_decoded(cs@));
    while i < cs.len()
        invariant
            cs@ == s@,
            i <= cs@.len(),
            out@ + url_decoded(cs@.skip(i as int)) == url_decoded(s@),
        decreases cs@.len() - i,
    {
        let ghost rest = cs@.skip(i as int);
        let ghost before = out@;
        let c = cs[i];
        assert(rest[0] == c);
        if c == '%' {
            if cs.len() - i >= 3 {
                let a = cs[i + 1];
                let b = cs[i + 2];
                assert(rest[1] == a && rest[2] == b);
                let va = hex_digit_of(a);
                let vb = hex_digit_of(b);
                if va >= 0 && vb >= 0 {
                    push_char(&mut out, ((va * 16 + vb) as u8) as char);
                } else if a == '+' && vb >= 0 {
                    push_char(&mut out, (vb as u8) as char);
                } else {
                    push_char(&mut out, '%');
                    push_char(&mut out, a);
                    push_char(&mut out, b);
                }
                assert(rest.skip(3) =~= cs@.skip(i + 3));
                assert(before + url_decoded(rest) =~= out@ + url_decoded(cs@.skip(i + 3)));
                i += 3;
            } else {
                let mut j = i;
                while j < cs.len()
                    invariant
                        i <= j <= cs@.len(),
                        out@ == before + cs@.subrange(i as int, j as int),
                    decreases cs@.len() - j,
                {
                    push_char(&mut out, cs[j]);
                    assert(out@ =~= before + cs@.subrange(i as int, j + 1));
                    j += 1;
                }
                assert(cs@.subrange(i as int, cs@.len() as int) =~= rest);
                assert(cs@.skip(cs@.len() as int) =~= Seq::<char>::empty());
                assert(out@ + url_decoded(cs@.skip(cs@.len() as int)) =~= out@);
                i = cs.len();
            }
        } else {
            if c == '+' {
                push_char(&mut out, ' ');
            } else {
                push_char(&mut out, c);
            }
            assert(rest.skip(1) =~= cs@.skip(i + 1));
            assert(before + url_decoded(rest) =~= out@ + url_decoded(cs@.skip(i + 1)));
            i += 1;
        }
    }
    assert(cs@.skip(cs@.len() as int) =~= Seq::<char>::empty());
    assert(out@ + Seq::<char>::empty() =~= out@);
    out
}

/// The first parameter named `name`.
pub open spec fn find_param(ps: Seq<(String, String)>, name: Seq<char>, from: int) -> Option<Seq<char>>
    decreases ps.len() - from,
{
    if from < 0 || from >= ps.len() {
        None
    } else if ps[from].0@ == name {
        Some(ps[from].1@)
    } else {
        find_param(ps, name, from + 1)
    }
}

impl Request {
    /// A request with no query, headers, body or parameters.
    pub fn new(method: Method, path: &str) -> (r: Request)
        ensures
            r.method == method,
            r.path@ == path@,
            r.query is None,
            r.headers@.len() == 0 && r.body@.len() == 0 && r.params@.len() == 0,
    {
        Request { method, path: owned(path), query: None, headers: Vec::new(), body: Vec::new(), params: Vec::new() }
    }

    /// The first header with this name, compared after lowercasing.
    pub fn header(&self, name: &str) -> (r: Option<&str>)
        ensures
            match find_header(self.headers@, name@, 0) {
                Some(v) => r is Some && r->0@ == v,
                None => r is None,
            },
    {
        let want = to_lower(name);
        let mut i: usize = 0;
        while i < self.headers.len()
            invariant
                i <= self.headers@.len(),
                want@ == lower_of(name@),
                find_header(self.headers@, name@, 0) == find_header(self.headers@, name@, i as int),
            decreases self.headers@.len() - i,
        {
            let k = to_lower(self.headers[i].0.as_str());
            if str_eq(k.as_str(), want.as_str()) {
                return Some(self.headers[i].1.as_str());
            }
            i += 1;
        }
        None
    }

    pub fn content_type(&self) -> (r: Option<&str>)
        ensures
            match find_header(self.headers@, "content-type"@, 0) {
                Some(v) => r is Some && r->0@ == v,
                None => r is None,
            },
    {
        self.header("content-type")
    }

    /// The `content-length` header, when it is a number.
    pub fn content_length(&self) -> (r: Option<usize>)
        ensures
            find_header(self.headers@, "content-length"@, 0) is None ==> r is None,
    {
        match self.header("content-length") {
            Some(v) => match parse_u64_text(v) {
                Some(n) => if n <= usize::MAX as u64 { Some(n as usize) } else { None },
                None => None,
            },
            None => None,
        }
    }

    /// Whether JSON is acceptable: no `accept` header, or one naming
    /// `application/json` or `*/*`.
    pub fn accepts_json(&self) -> (r: bool)
        ensures
            r == (match find_header(self.headers@, "accept"@, 0) {
                Some(v) => occurs_in(v, "application/json"@) || occurs_in(v, "*/*"@),
                None => true,
            }),
    {
        match self.header("accept") {
            Some(v) => contains_str(v, "application/json") || contains_str(v, "*/*"),
            None => true,
        }
    }

    /// The first route parameter named `name`.
    pub fn param(&self, name: &str) -> (r: Option<&str>)
        ensures
            match find_param(self.params@, name@, 0) {
                Some(v) => r is Some && r->0@ == v,
                None => r is None,
            },
    {
        let mut i: usize = 0;
        while i < self.params.len()
            invariant
                i <= self.params@.len(),
                find_param(self.params@, name@, 0) == find_param(self.params@, name@, i as int),
            decreases self.params@.len() - i,
        {
            if str_eq(self.params[i].0.as_str(), name) {
                return Some(self.params[i].1.as_str());
            }
            i += 1;
        }
        None
    }

    /// The decoded `key=value` pairs of the query string, split at `&` and at
    /// each pair's first `=`; pairs without `=` are skipped.
    pub fn query_pairs(&self) -> (r: Vec<(String, String)>)
        ensures
            self.query is None ==> r@.len() == 0,
    {
        let mut out: Vec<(String, String)> = Vec::new();
        match &self.query {
            None => {},
            Some(q) => {
                let parts = split_pieces(q.as_str(), '&');
                let mut i: usize = 0;
                while i < parts.len()
                    invariant
                        i <= parts@.len(),
                    decreases parts@.len() - i,
                {
                    let cs = chars_of(parts[i].as_str());
                    let mut e: usize = 0;
                    while e < cs.len() && cs[e] != '='
                        invariant
                            e <= cs@.len(),
                        decreases cs@.len() - e,
                    {
                        e += 1;
                    }
                    if e < cs.len() {
                        let k = string_of(&cs.as_slice()[0..e]);
                        let v = string_of(&cs.as_slice()[e + 1..cs.len()]);
                        out.push((urlencoding_decode(k.as_str()), urlencoding_decode(v.as_str())));
                    }
                    i += 1;
                }
            },
        }
        out
    }

    /// The query pairs as a map; a later pair overrides an earlier one.
    pub fn query_params(&self) -> HashMap<String, String> {
        let pairs = self.query_pairs();
        let mut m = HashMap::new();
        let mut i: usize = 0;
        while i < pairs.len()
            invariant
                i <= pairs@.len(),
            decreases pairs@.len() - i,
        {
            m.insert(pairs[i].0.clone(), pairs[i].1.clone());
            i += 1;
        }
        m
    }
}

/// Builds a request step by step.
pub struct RequestBuilder {
    pub request: Request,
}

impl RequestBuilder {
    pub fn new(method: Method, path: &str) -> (r: RequestBuilder)
        ensures
            r.request.method == method,
            r.request.path@ == path@,
    {
        RequestBuilder { request: Request::new(method, path) }
    }

    pub fn query(self, query: &str) -> (r: RequestBuilder)
        ensures
            r.request.query is Some && r.request.query->0@ == query@,
            r.request.headers == self.request.headers,
    {
        let mut b = self;
        b.request.query = Some(owned(query));
        b
    }

    pub fn header(self, name: &str, value: &str) -> (r: RequestBuilder)
        ensures
            r.request.headers@.len() == self.request.headers@.len() + 1,
            r.request.headers@.drop_last() == self.request.headers@,
            r.request.headers@.last().0@ == name@ && r.request.headers@.last().1@ == value@,
            r.request.query == self.request.query,
    {
        let mut b = self;
        b.request.headers.push((owned(name), owned(value)));
        assert(b.request.headers@.drop_last() =~= self.request.headers@);
        b
    }

    pub fn body(self, body: &[u8]) -> (r: RequestBuilder)
        ensures
            r.request.body@ == body@,
            r.request.headers == self.request.headers,
    {
        let mut v: Vec<u8> = Vec::new();
        let mut i: usize = 0;
        while i < body.len()
            invariant
                i <= body@.len(),
                v@ == body@.take(i as int),
            decreases body@.len() - i,
        {
            v.push(body[i]);
            assert(v@ =~= body@.take(i + 1));
            i += 1;
        }
        assert(body@.take(body@.len() as int) =~= body@);
        let mut b = self;
        b.request.body = v;
        b
    }

    pub fn params(self, params: Vec<(String, String)>) -> (r: RequestBuilder)
        ensures
            r.request.params == params,
            r.request.headers == self.request.headers,
    {
        let mut b = self;
        b.request.params = params;
        b
    }

    pub fn build(self) -> (r: Request)
        ensures
            r == self.request,
    {
        self.request
    }
}

} // verus!
