//! Authentication helpers: Basic credentials, Bearer tokens and API keys.
use vstd::prelude::*;
use vstd::utf8::{valid_utf8, decode_utf8};
use crate::crypto::{base64_of, base64_encode};
use crate::text::{chars_of, string_of, owned, push_chars};

verus! {

/// The outcome of checking a request's credentials.
#[derive(Debug, Clone)]
pub enum AuthResult {
    Authenticated(String),
    Unauthenticated,
    Invalid(String),
}

/// A user name and password from a `Basic` authorization header.
#[derive(Debug, Clone)]
pub struct BasicCredentials {
    pub username: String,
    pub password: String,
}

/// `p` is a prefix of `s`.
pub open spec fn has_prefix(s: Seq<char>, p: Seq<char>) -> bool {
    p.len() <= s.len() && s.take(p.len() as int) == p
}

/// The index of the first `c` in `s`, or `s.len()`.
pub open spec fn first_char(s: Seq<char>, c: char, from: int) -> int
    decreases s.len() - from,
{
    if from < 0 || from >= s.len() {
        s.len() as int
    } else if s[from] == c {
        from
    } else {
        first_char(s, c, from + 1)
    }
}

/// The value of a Base64 digit, or -1.
pub open spec fn b64_val(c: char) -> int {
    if 'A' <= c && c <= 'Z' {
        c as int - 65
    } else if 'a' <= c && c <= 'z' {
        c as int - 71
    } else if '0' <= c && c <= '9' {
        c as int + 4
    } else if c == '+' {
        62
    } else if c == '/' {
        63
    } else {
        -1
    }
}

/// The bytes of one group of two to four Base64 digits.
pub open spec fn decode_group(g: Seq<char>) -> Option<Seq<u8>> {
    let v0 = b64_val(g[0]);
    let v1 = b64_val(g[1]);
    let v2 = if g.len() > 2 { b64_val(g[2]) } else { 0 };
    let v3 = if g.len() > 3 { b64_val(g[3]) } else { 0 };
    if v0 < 0 || v1 < 0 || v2 < 0 || v3 < 0 {
        None
    } else {
        let t = v0 * 262144 + v1 * 4096 + v2 * 64 + v3;
        let b0 = seq![(t / 65536) as u8];
        let b1 = if g.len() > 2 { seq![((t / 256) % 256) as u8] } else { Seq::empty() };
        let b2 = if g.len() > 3 { seq![(t % 256) as u8] } else { Seq::empty() };
        Some(b0 + b1 + b2)
    }
}

/// The bytes that unpadded Base64 digits spell, in groups of four; `None`
/// on a bad digit or a lone trailing digit.
pub open spec fn decode_digits(s: Seq<char>) -> Option<Seq<u8>>
    decreases s.len(),
{
    if s.len() == 0 {
        Some(Seq::empty())
    } else if s.len() < 2 {
        None
    } else if s.len() <= 4 {
        decode_group(s)
    } else {
        match decode_group(s.take(4)) {
            None => None,
            Some(b) => match decode_digits(s.skip(4)) {
                None => None,
                Some(rest) => Some(b + rest),
            },
        }
    }
}

/// `s` without its trailing `=` characters.
pub open spec fn trim_padding(s: Seq<char>) -> Seq<char>
    decreases s.len(),
{
    if s.len() > 0 && s.last() == '=' {
        trim_padding(s.drop_last())
    } else {
        s
    }
}

/// What `base64_decode` returns for `s`.
pub open spec fn base64_text(s: Seq<char>) -> Option<Seq<char>> {
    match decode_digits(trim_padding(s)) {
        Some(b) => if valid_utf8(b) { Some(decode_utf8(b)) } else { None },
        None => None,
    }
}

/// Relies on String::from_utf8: succeeds exactly on valid UTF-8, with the
/// decoded text.
#[verifier::external_body]
pub(crate) fn utf8_string(bytes: Vec<u8>) -> (r: Option<String>)
    ensures
        r is Some <==> valid_utf8(bytes@),
        r is Some ==> r->0@ == decode_utf8(bytes@),
{
    String::from_utf8(bytes).ok()
}

/// The value of a Base64 digit.
fn digit_value(c: char) -> (r: Option<u32>)
    ensures
        match r {
            Some(v) => v as int == b64_val(c) && v < 64,
            None => b64_val(c) < 0,
        },
{
    if 'A' <= c && c <= 'Z' {
        Some(c as u32 - 65)
    } else if 'a' <= c && c <= 'z' {
        Some(c as u32 - 71)
    } else if '0' <= c && c <= '9' {
        Some(c as u32 + 4)
    } else if c == '+' {
        Some(62)
    } else if c == '/' {
        Some(63)
    } else {
        None
    }
}

proof fn lemma_trim_padding(s: Seq<char>, j: int)
    requires
        0 <= j <= s.len(),
        forall|k: int| j <= k < s.len() ==> s[k] == '=',
        j == 0 || s[j - 1] != '=',
    ensures
        trim_padding(s) == s.take(j),
    decreases s.len() - j,
{
    if s.len() > j {
        assert(s.drop_last().take(j) =~= s.take(j));
        lemma_trim_padding(s.drop_last(), j);
    } else {
        assert(s.take(j) =~= s);
    }
}

/// Decodes padded or unpadded Base64 text into a UTF-8 string.
pub fn base64_decode(input: &str) -> (r: Option<String>)
    ensures
        match base64_text(input@) {
            Some(t) => r is Some && r->0@ == t,
            None => r is None,
        },
{
    let cs = chars_of(input);
    let mut end = cs.len();
    while end > 0 && cs[end - 1] == '='
        invariant
            end <= cs@.len(),
            forall|k: int| end <= k < cs@.len() ==> cs@[k] == '=',
        decreases end,
    {
        end -= 1;
    }
    proof {
        lemma_trim_padding(cs@, end as int);
    }
    let ghost digits = cs@.take(end as int);
    let mut out: Vec<u8> = Vec::new();
    let mut i: usize = 0;
    proof {
        assert(digits.skip(0) =~= digits);
        match decode_digits(digits) {
            Some(b) => {
                assert(out@ + b =~= b);
            },
            None => {},
        }
    }
    while i < end
        invariant
            cs@ == input@,
            trim_padding(input@) == digits,
            end <= cs@.len(),
            digits == cs@.take(end as int),
            i <= end,
            decode_digits(digits) == match decode_digits(digits.skip(i as int)) {
                None => None,
                Some(rest) => Some(out@ + rest),
            },
        decreases end - i,
    {
        let ghost rest = digits.skip(i as int);
        let n = end - i;
        if n < 2 {
            return None;
        }
        let g = if n < 4 { n } else { 4 };
        proof {
            assert(rest.len() == n);
            if n <= 4 {
                assert(rest.take(g as int) =~= rest);
            }
        }
        let v0 = match digit_value(cs[i]) { Some(v) => v, None => return None };
        let v1 = match digit_value(cs[i + 1]) { Some(v) => v, None => return None };
        let v2 = if g > 2 { match digit_value(cs[i + 2]) { Some(v) => v, None => return None } } else { 0 };
        let v3 = if g > 3 { match digit_value(cs[i + 3]) { Some(v) => v, None => return None } } else { 0 };
        proof {
            assert(rest.take(g as int)[0] == cs@[i as int]);
            assert(rest.take(g as int)[1] == cs@[i + 1]);
            assert(g > 2 ==> rest.take(g as int)[2] == cs@[i + 2]);
            assert(g > 3 ==> rest.take(g as int)[3] == cs@[i + 3]);
        }
        let t: u32 = v0 * 262144 + v1 * 4096 + v2 * 64 + v3;
        let ghost before = out@;
        out.push((t / 65536) as u8);
        if g > 2 {
            out.push(((t / 256) % 256) as u8);
        }
        if g > 3 {
            out.push((t % 256) as u8);
        }
        proof {
            let gs = rest.take(g as int);
            assert(decode_group(gs) == Some(out@.skip(before.len() as int))) by {
                assert(out@.skip(before.len() as int) =~= decode_group(gs)->0);
            }
            if n <= 4 {
                assert(gs =~= rest);
                assert(digits.skip(i + g) =~= Seq::<char>::empty());
                assert(out@ =~= before + decode_group(gs)->0);
                assert(out@ + Seq::<u8>::empty() =~= out@);
            } else {
                assert(rest.skip(4) =~= digits.skip(i + 4));
                match decode_digits(rest.skip(4)) {
                    Some(tail) => {
                        assert(before + (decode_group(gs)->0 + tail) =~= out@ + tail);
                    },
                    None => {},
                }
            }
        }
        i += g;
    }
    proof {
        assert(digits.skip(i as int) =~= Seq::<char>::empty());
        assert(out@ + Seq::<u8>::empty() =~= out@);
    }
    utf8_string(out)
}

/// The characters of `s` from `from` on, as a string.
fn string_from(cs: &Vec<char>, from: usize, to: usize) -> (r: String)
    requires
        from <= to <= cs@.len(),
    ensures
        r@ == cs@.subrange(from as int, to as int),
{
    string_of(&cs.as_slice()[from..to])
}

impl BasicCredentials {
    /// Reads `Basic <base64 of user:password>`; the password may hold colons.
    pub fn parse(header: &str) -> (r: Option<BasicCredentials>)
        ensures
            ({
                let p = "Basic "@;
                if has_prefix(header@, p) {
                    match base64_text(header@.skip(p.len() as int)) {
                        Some(t) => {
                            let c = first_char(t, ':', 0);
                            if c < t.len() {
                                r is Some && r->0.username@ == t.take(c) && r->0.password@ == t.skip(c + 1)
                            } else {
                                r is None
                            }
                        },
                        None => r is None,
                    }
                } else {
                    r is None
                }
            }),
    {
        let cs = chars_of(header);
        let prefix = chars_of("Basic ");
        proof {
            reveal_strlit("Basic ");
        }
        if cs.len() < 6 {
            return None;
        }
        let mut k: usize = 0;
        while k < 6
            invariant
                prefix@ == "Basic "@,
                prefix@.len() == 6,
                cs@ == header@,
                cs@.len() >= 6,
                k <= 6,
                forall|q: int| 0 <= q < k ==> cs@[q] == prefix@[q],
            decreases 6 - k,
        {
            if cs[k] != prefix[k] {
                assert(header@.take(6)[k as int] != "Basic "@[k as int]);
                return None;
            }
            k += 1;
        }
        assert(header@.take(6) =~= "Basic "@);
        let rest = string_from(&cs, 6, cs.len());
        assert(rest@ =~= header@.skip(6));
        let decoded = match base64_decode(rest.as_str()) {
            Some(d) => d,
            None => return None,
        };
        let ds = chars_of(decoded.as_str());
        let mut c: usize = 0;
        while c < ds.len() && ds[c] != ':'
            invariant
                c <= ds@.len(),
                first_char(ds@, ':', 0) == first_char(ds@, ':', c as int),
            decreases ds@.len() - c,
        {
            c += 1;
        }
        if c >= ds.len() {
            return None;
        }
        let username = string_from(&ds, 0, c);
        let password = string_from(&ds, c + 1, ds.len());
        assert(ds@.subrange(0, c as int) =~= ds@.take(c as int));
        assert(ds@.subrange(c + 1, ds@.len() as int) =~= ds@.skip(c + 1));
        Some(BasicCredentials { username, password })
    }

    /// `Basic ` followed by the Base64 of `username:password` in UTF-8.
    pub fn encode(&self) -> (r: String)
        ensures
            r@ == "Basic "@ + base64_of(vstd::utf8::encode_utf8(self.username@ + seq![':'] + self.password@)),
    {
        let mut combined = String::new();
        push_chars(&mut combined, self.username.as_str());
        push_chars(&mut combined, ":");
        push_chars(&mut combined, self.password.as_str());
        let encoded = base64_encode(combined.as_str().as_bytes());
        let mut out = owned("Basic ");
        push_chars(&mut out, encoded.as_str());
        proof {
            reveal_strlit(":");
            assert(combined@ =~= self.username@ + seq![':'] + self.password@);
        }
        out
    }
}

/// A token from a `Bearer` authorization header.
#[derive(Debug, Clone)]
pub struct BearerToken(pub String);

impl BearerToken {
    /// Reads `Bearer <token>`.
    pub fn parse(header: &str) -> (r: Option<BearerToken>)
        ensures
            has_prefix(header@, "Bearer "@) ==> r is Some && (r->0).0@ == header@.skip(7),
            !has_prefix(header@, "Bearer "@) ==> r is None,
    {
        let cs = chars_of(header);
        let prefix = chars_of("Bearer ");
        proof {
            reveal_strlit("Bearer ");
        }
        if cs.len() < 7 {
            return None;
        }
        let mut k: usize = 0;
        while k < 7
            invariant
                prefix@ == "Bearer "@,
                prefix@.len() == 7,
                cs@ == header@,
                cs@.len() >= 7,
                k <= 7,
                forall|q: int| 0 <= q < k ==> cs@[q] == prefix@[q],
            decreases 7 - k,
        {
            if cs[k] != prefix[k] {
                assert(header@.take(7)[k as int] != "Bearer "@[k as int]);
                return None;
            }
            k += 1;
        }
        assert(header@.take(7) =~= "Bearer "@);
        let token = string_from(&cs, 7, cs.len());
        assert(token@ =~= header@.skip(7));
        Some(BearerToken(token))
    }

    pub fn as_str(&self) -> (r: &str)
        ensures
            r@ == self.0@,
    {
        self.0.as_str()
    }
}

/// Where an API key is looked for.
#[derive(Debug, Clone)]
pub enum ApiKeyLocation {
    Header(String),
    Query(String),
}

/// Basic authentication against a validator of user name and password.
pub struct BasicAuth<F> {
    pub realm: String,
    pub validator: F,
}

impl<F: Fn(&str, &str) -> bool> BasicAuth<F> {
    pub fn new(realm: &str, validator: F) -> (r: BasicAuth<F>)
        ensures
            r.realm@ == realm@,
            r.validator == validator,
    {
        BasicAuth { realm: owned(realm), validator }
    }
}

/// Bearer authentication against a validator that maps a token to an identity.
pub struct BearerAuth<F> {
    pub validator: F,
}

impl<F: Fn(&str) -> Option<String>> BearerAuth<F> {
    pub fn new(validator: F) -> (r: BearerAuth<F>)
        ensures
            r.validator == validator,
    {
        BearerAuth { validator }
    }
}

/// API-key authentication.
pub struct ApiKeyAuth<F> {
    pub location: ApiKeyLocation,
    pub validator: F,
}

impl<F: Fn(&str) -> bool> ApiKeyAuth<F> {
    /// Looks for the key in the named header.
    pub fn header(name: &str, validator: F) -> (r: ApiKeyAuth<F>)
        ensures
            r.location is Header && r.location->Header_0@ == name@,
            r.validator == validator,
    {
        ApiKeyAuth { location: ApiKeyLocation::Header(owned(name)), validator }
    }

    /// Looks for the key in the named query parameter.
    pub fn query(name: &str, validator: F) -> (r: ApiKeyAuth<F>)
        ensures
            r.location is Query && r.location->Query_0@ == name@,
            r.validator == validator,
    {
        ApiKeyAuth { location: ApiKeyLocation::Query(owned(name)), validator }
    }
}

} // verus!
