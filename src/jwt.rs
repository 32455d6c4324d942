//! JSON Web Tokens signed with HMAC-SHA-256: claims, compact encoding, and
//! checking signature, algorithm and validity times.
use vstd::prelude::*;
use crate::text::{owned, push_chars, push_char, push_decimal, decimal, chars_of, string_of, split_pieces,
    pieces, find_text, find_from, lemma_find_from_found};
use crate::crypto::{hmac_sha256, constant_time_eq};
use crate::auth::utf8_string;
use crate::range::{u64_of, parse_u64_text};
use crate::clock::clock_nanos;
use vstd::string::StringSliceAdditionalSpecFns;

verus! {

/// A signing algorithm name; every one is signed with HMAC-SHA-256.
#[derive(Debug, Clone, Copy, PartialEq, Eq, Structural)]
pub enum Algorithm {
    HS256,
    HS384,
    HS512,
}

impl Algorithm {
    pub open spec fn name(self) -> Seq<char> {
        match self {
            Algorithm::HS256 => "HS256"@,
            Algorithm::HS384 => "HS384"@,
            Algorithm::HS512 => "HS512"@,
        }
    }

    pub open spec fn from_name(s: Seq<char>) -> Option<Algorithm> {
        if s == "HS256"@ {
            Some(Algorithm::HS256)
        } else if s == "HS384"@ {
            Some(Algorithm::HS384)
        } else if s == "HS512"@ {
            Some(Algorithm::HS512)
        } else {
            None
        }
    }

    pub fn as_str(&self) -> (r: &'static str)
        ensures
            r@ == self.name(),
    {
        match self {
            Algorithm::HS256 => "HS256",
            Algorithm::HS384 => "HS384",
            Algorithm::HS512 => "HS512",
        }
    }

    /// The algorithm named exactly `s`.
    pub fn from_str(s: &str) -> (r: Option<Algorithm>)
        ensures
            r == Algorithm::from_name(s@),
    {
        if crate::text::str_eq(s, "HS256") {
            Some(Algorithm::HS256)
        } else if crate::text::str_eq(s, "HS384") {
            Some(Algorithm::HS384)
        } else if crate::text::str_eq(s, "HS512") {
            Some(Algorithm::HS512)
        } else {
            None
        }
    }
}

/// The token header.
#[derive(Debug, Clone)]
pub struct Header {
    pub alg: Algorithm,
    pub typ: String,
}

impl Default for Header {
    fn default() -> (r: Header)
        ensures
            r.alg == Algorithm::HS256,
            r.typ@ == "JWT"@,
    {
        Header { alg: Algorithm::HS256, typ: owned("JWT") }
    }
}

/// Registered and custom claims; custom names are distinct, in order of
/// first setting.
#[derive(Debug, Clone)]
pub struct Claims {
    pub iss: Option<String>,
    pub sub: Option<String>,
    pub aud: Option<String>,
    pub exp: Option<u64>,
    pub nbf: Option<u64>,
    pub iat: Option<u64>,
    pub jti: Option<String>,
    pub custom: Vec<(String, String)>,
}

pub open spec fn pair_views(v: Seq<(String, String)>) -> Seq<(Seq<char>, Seq<char>)> {
    v.map_values(|p: (String, String)| (p.0@, p.1@))
}

/// The first position at or after `from` whose name is `key`, or the length.
pub open spec fn key_pos(custom: Seq<(Seq<char>, Seq<char>)>, key: Seq<char>, from: int) -> int
    decreases custom.len() - from,
{
    if from < 0 || from >= custom.len() {
        custom.len() as int
    } else if custom[from].0 == key {
        from
    } else {
        key_pos(custom, key, from + 1)
    }
}

/// `custom` with `key` set to `value`: replaced in place, or appended.
pub open spec fn set_claim(custom: Seq<(Seq<char>, Seq<char>)>, key: Seq<char>, value: Seq<char>) -> Seq<(Seq<char>, Seq<char>)> {
    let j = key_pos(custom, key, 0);
    if j < custom.len() { custom.update(j, (key, value)) } else { custom.push((key, value)) }
}

/// The current Unix time in seconds.
fn now_secs() -> (r: u64) {
    clock_nanos() / 1_000_000_000
}

impl Claims {
    /// No claims.
    pub fn new() -> (r: Claims)
        ensures
            r.iss is None && r.sub is None && r.aud is None && r.jti is None,
            r.exp is None && r.nbf is None && r.iat is None,
            r.custom@.len() == 0,
    {
        Claims { iss: None, sub: None, aud: None, exp: None, nbf: None, iat: None, jti: None, custom: Vec::new() }
    }

    pub fn sub(self, sub: &str) -> (r: Claims)
        ensures
            r.sub is Some && r.sub->0@ == sub@,
            r.iss == self.iss && r.aud == self.aud && r.exp == self.exp && r.nbf == self.nbf && r.iat == self.iat,
    {
        Claims { sub: Some(owned(sub)), ..self }
    }

    pub fn iss(self, iss: &str) -> (r: Claims)
        ensures
            r.iss is Some && r.iss->0@ == iss@,
            r.sub == self.sub && r.aud == self.aud && r.exp == self.exp && r.nbf == self.nbf && r.iat == self.iat,
    {
        Claims { iss: Some(owned(iss)), ..self }
    }

    pub fn aud(self, aud: &str) -> (r: Claims)
        ensures
            r.aud is Some && r.aud->0@ == aud@,
            r.sub == self.sub && r.iss == self.iss && r.exp == self.exp && r.nbf == self.nbf && r.iat == self.iat,
    {
        Claims { aud: Some(owned(aud)), ..self }
    }

    pub fn exp(self, exp: u64) -> (r: Claims)
        ensures
            r.exp == Some(exp),
            r.sub == self.sub && r.iss == self.iss && r.aud == self.aud && r.nbf == self.nbf && r.iat == self.iat,
    {
        Claims { exp: Some(exp), ..self }
    }

    /// Expires `seconds` after `now`, saturating.
    pub fn exp_at(self, now: u64, seconds: u64) -> (r: Claims)
        ensures
            r.exp == Some(if now as int + seconds as int > u64::MAX { u64::MAX } else { (now + seconds) as u64 }),
            r.sub == self.sub && r.iss == self.iss && r.aud == self.aud && r.nbf == self.nbf && r.iat == self.iat,
    {
        Claims { exp: Some(now.saturating_add(seconds)), ..self }
    }

    /// Expires `seconds` from now.
    pub fn exp_in(self, seconds: u64) -> (r: Claims)
        ensures
            r.exp is Some,
            r.sub == self.sub && r.iss == self.iss && r.aud == self.aud && r.nbf == self.nbf && r.iat == self.iat,
    {
        let now = now_secs();
        self.exp_at(now, seconds)
    }

    pub fn nbf(self, nbf: u64) -> (r: Claims)
        ensures
            r.nbf == Some(nbf),
            r.sub == self.sub && r.iss == self.iss && r.aud == self.aud && r.exp == self.exp && r.iat == self.iat,
    {
        Claims { nbf: Some(nbf), ..self }
    }

    /// Issued now.
    pub fn iat_now(self) -> (r: Claims)
        ensures
            r.iat is Some,
            r.sub == self.sub && r.iss == self.iss && r.aud == self.aud && r.exp == self.exp && r.nbf == self.nbf,
    {
        Claims { iat: Some(now_secs()), ..self }
    }

    /// Sets a custom claim.
    pub fn claim(self, key: &str, value: &str) -> (r: Claims)
        ensures
            pair_views(r.custom@) == set_claim(pair_views(self.custom@), key@, value@),
            r.sub == self.sub && r.iss == self.iss && r.exp == self.exp,
    {
        let mut c = self;
        let mut i: usize = 0;
        while i < c.custom.len()
            invariant
                c.custom@ == self.custom@,
                c.sub == self.sub && c.iss == self.iss && c.exp == self.exp,
                i <= c.custom@.len(),
                key_pos(pair_views(c.custom@), key@, 0) == key_pos(pair_views(c.custom@), key@, i as int),
            decreases c.custom@.len() - i,
        {
            if crate::text::str_eq(c.custom[i].0.as_str(), key) {
                let ghost before = pair_views(c.custom@);
                c.custom.set(i, (owned(key), owned(value)));
                proof {
                    assert(before[i as int].0 == key@);
                    assert(pair_views(c.custom@) =~= before.update(i as int, (key@, value@)));
                }
                return c;
            }
            i += 1;
        }
        let ghost before = pair_views(c.custom@);
        c.custom.push((owned(key), owned(value)));
        assert(pair_views(c.custom@) =~= before.push((key@, value@)));
        c
    }

    /// Expired at `now`: an expiry exists and lies before `now`.
    pub fn is_expired_at(&self, now: u64) -> (r: bool)
        ensures
            r == (match self.exp {
                Some(e) => now > e,
                None => false,
            }),
    {
        match self.exp {
            Some(e) => now > e,
            None => false,
        }
    }

    /// Not valid before a time still to come at `now`.
    pub fn is_not_yet_valid_at(&self, now: u64) -> (r: bool)
        ensures
            r == (match self.nbf {
                Some(n) => now < n,
                None => false,
            }),
    {
        match self.nbf {
            Some(n) => now < n,
            None => false,
        }
    }

    /// Expired by the clock.
    pub fn is_expired(&self) -> (r: bool)
        ensures
            self.exp is None ==> !r,
    {
        self.is_expired_at(now_secs())
    }

    /// Not yet valid by the clock.
    pub fn is_not_yet_valid(&self) -> (r: bool)
        ensures
            self.nbf is None ==> !r,
    {
        self.is_not_yet_valid_at(now_secs())
    }
}

/// Signing and validation settings.
#[derive(Debug, Clone)]
pub struct JwtConfig {
    pub secret: Vec<u8>,
    pub algorithm: Algorithm,
    pub validate_exp: bool,
    pub validate_nbf: bool,
    /// Seconds of leeway for `exp` and `nbf`.
    pub leeway: u64,
}

impl JwtConfig {
    /// HS256, both times checked, no leeway.
    pub fn new(secret: &str) -> (r: JwtConfig)
        ensures
            r.secret@ == secret.spec_bytes(),
            r.algorithm == Algorithm::HS256,
            r.validate_exp && r.validate_nbf,
            r.leeway == 0,
    {
        let b = secret.as_bytes();
        let mut s: Vec<u8> = Vec::new();
        let mut i: usize = 0;
        while i < b.len()
            invariant
                i <= b@.len(),
                s@ == b@.take(i as int),
            decreases b@.len() - i,
        {
            s.push(b[i]);
            assert(s@ =~= b@.take(i + 1));
            i += 1;
        }
        assert(b@.take(b@.len() as int) =~= b@);
        JwtConfig { secret: s, algorithm: Algorithm::HS256, validate_exp: true, validate_nbf: true, leeway: 0 }
    }

    pub fn algorithm(self, alg: Algorithm) -> (r: JwtConfig)
        ensures
            r.algorithm == alg,
            r.secret == self.secret && r.leeway == self.leeway,
    {
        JwtConfig { algorithm: alg, ..self }
    }

    pub fn leeway(self, seconds: u64) -> (r: JwtConfig)
        ensures
            r.leeway == seconds,
            r.secret == self.secret && r.algorithm == self.algorithm,
    {
        JwtConfig { leeway: seconds, ..self }
    }
}

/// Why a token was refused.
#[derive(Debug, Clone, Copy, PartialEq, Eq, Structural)]
pub enum JwtError {
    InvalidFormat,
    InvalidSignature,
    AlgorithmMismatch,
    UnsupportedAlgorithm,
    Expired,
    NotYetValid,
}

/// The URL-safe Base64 alphabet.
pub open spec fn url_alphabet() -> Seq<char> {
    "ABCDEFGHIJKLMNOPQRSTUVWXYZabcdefghijklmnopqrstuvwxyz0123456789-_"@
}

/// Unpadded URL-safe Base64 of `s`.
pub open spec fn base64url_of(s: Seq<u8>) -> Seq<char>
    decreases s.len(),
{
    if s.len() == 0 {
        Seq::empty()
    } else {
        let b0 = s[0] as int;
        let b1 = if s.len() > 1 { s[1] as int } else { 0 };
        let b2 = if s.len() > 2 { s[2] as int } else { 0 };
        let t = b0 * 65536 + b1 * 256 + b2;
        let a = url_alphabet();
        let g = seq![a[t / 262144], a[(t / 4096) % 64]] + (if s.len() > 1 { seq![a[(t / 64) % 64]] } else {
            Seq::empty()
        }) + (if s.len() > 2 { seq![a[t % 64]] } else { Seq::empty() });
        if s.len() <= 3 { g } else { g + base64url_of(s.skip(3)) }
    }
}

/// Encodes bytes as unpadded URL-safe Base64.
pub fn base64url_encode(input: &[u8]) -> (r: String)
    ensures
        r@ == base64url_of(input@),
{
    let alphabet = chars_of("ABCDEFGHIJKLMNOPQRSTUVWXYZabcdefghijklmnopqrstuvwxyz0123456789-_");
    proof {
        reveal_strlit("ABCDEFGHIJKLMNOPQRSTUVWXYZabcdefghijklmnopqrstuvwxyz0123456789-_");
    }
    let mut out = String::new();
    let mut i: usize = 0;
    assert(input@.skip(0) =~= input@);
    assert(out@ + base64url_of(input@) =~= base64url_of(input@));
    while i < input.len()
        invariant
            alphabet@ == url_alphabet(),
            alphabet@.len() == 64,
            i <= input@.len(),
            i < input@.len() ==> out@ + base64url_of(input@.skip(i as int)) == base64url_of(input@),
            i >= input@.len() ==> out@ == base64url_of(input@),
        decreases input@.len() - i,
    {
        let ghost rest = input@.skip(i as int);
        let n = input.len() - i;
        let b0 = input[i] as u32;
        let b1: u32 = if n > 1 { input[i + 1] as u32 } else { 0 };
        let b2: u32 = if n > 2 { input[i + 2] as u32 } else { 0 };
        let t: u32 = b0 * 65536 + b1 * 256 + b2;
        assert(rest[0] == input@[i as int]);
        assert(n > 1 ==> rest[1] == input@[i + 1]);
        assert(n > 2 ==> rest[2] == input@[i + 2]);
        assert(t / 262144 < 64) by (nonlinear_arith)
            requires t == b0 * 65536 + b1 * 256 + b2, b0 < 256, b1 < 256, b2 < 256;
        let ghost before = out@;
        push_char(&mut out, alphabet[(t / 262144) as usize]);
        push_char(&mut out, alphabet[((t / 4096) % 64) as usize]);
        if n > 1 {
            push_char(&mut out, alphabet[((t / 64) % 64) as usize]);
        }
        if n > 2 {
            push_char(&mut out, alphabet[(t % 64) as usize]);
        }
        if n > 3 {
            assert(rest.skip(3) =~= input@.skip(i + 3));
            assert(before + base64url_of(rest) =~= out@ + base64url_of(input@.skip(i + 3)));
            i += 3;
        } else {
            assert(out@ =~= before + base64url_of(rest));
            i = input.len();
        }
    }
    out
}

/// The value of a URL-safe (or standard) Base64 digit byte, or -1.
pub open spec fn url_val(c: u8) -> int {
    if 65 <= c <= 90 {
        c - 65
    } else if 97 <= c <= 122 {
        c - 71
    } else if 48 <= c <= 57 {
        c + 4
    } else if c == 45 || c == 43 {
        62
    } else if c == 95 || c == 47 {
        63
    } else {
        -1
    }
}

fn url_digit(c: u8) -> (r: i32)
    ensures
        r as int == url_val(c),
{
    if 65 <= c && c <= 90 {
        c as i32 - 65
    } else if 97 <= c && c <= 122 {
        c as i32 - 71
    } else if 48 <= c && c <= 57 {
        c as i32 + 4
    } else if c == 45 || c == 43 {
        62
    } else if c == 95 || c == 47 {
        63
    } else {
        -1
    }
}

/// Some group of four, after trailing `=` are dropped, starts with a
/// character that is not a digit, or has a second character that is not.
pub open spec fn bad_url_group(s: Seq<u8>) -> bool {
    exists|i: int| 0 <= i < s.len() && #[trigger] (i % 4) == 0 && (url_val(s[i]) < 0 || (i + 1 < s.len() && url_val(s[i + 1]) < 0))
}

/// `s` without trailing `=` bytes.
pub open spec fn trim_eq(s: Seq<u8>) -> Seq<u8>
    decreases s.len(),
{
    if s.len() > 0 && s.last() == 61 { trim_eq(s.drop_last()) } else { s }
}

proof fn lemma_trim_eq(s: Seq<u8>, j: int)
    requires
        0 <= j <= s.len(),
        forall|k: int| j <= k < s.len() ==> s[k] == 61,
        j == 0 || s[j - 1] != 61,
    ensures
        trim_eq(s) == s.take(j),
    decreases s.len() - j,
{
    if s.len() > j {
        assert(s.drop_last().take(j) =~= s.take(j));
        lemma_trim_eq(s.drop_last(), j);
    } else {
        assert(s.take(j) =~= s);
    }
}

/// A digit value as the decoder widens it: a missing digit is 0, a bad one
/// has every bit set.
pub open spec fn widened(s: Seq<u8>, j: int) -> u32 {
    if j >= s.len() { 0 } else if url_val(s[j]) >= 0 { url_val(s[j]) as u32 } else { 0xFFFF_FFFFu32 }
}

/// The bytes of the group of four starting at `i`: one, then one more for a
/// good third digit, then one more for a good fourth digit.
pub open spec fn url_group_bytes(s: Seq<u8>, i: int) -> Seq<u8> {
    let t: u32 = ((url_val(s[i]) as u32) << 18u32) | ((widened(s, i + 1)) << 12u32) | (widened(s, i + 2) << 6u32)
        | widened(s, i + 3);
    seq![(t >> 16u32) as u8] + (if i + 2 < s.len() && url_val(s[i + 2]) >= 0 { seq![(t >> 8u32) as u8] } else {
        Seq::empty()
    }) + (if i + 3 < s.len() && url_val(s[i + 3]) >= 0 { seq![t as u8] } else { Seq::empty() })
}

/// The bytes of the groups from `i` on.
pub open spec fn url_bytes_from(s: Seq<u8>, i: int) -> Seq<u8>
    decreases s.len() + 4 - i,
{
    if i < 0 || i >= s.len() {
        Seq::empty()
    } else {
        url_group_bytes(s, i) + url_bytes_from(s, i + 4)
    }
}

/// Decodes URL-safe Base64, padded or not, also taking `+` and `/`. Fails
/// exactly when a group of four starts with a non-digit or has a non-digit
/// second character; other bad digits only garble the bytes they feed.
pub fn base64url_decode(input: &str) -> (r: Option<Vec<u8>>)
    ensures
        r is None <==> bad_url_group(trim_eq(input.spec_bytes())),
        r is Some ==> r->0@ == url_bytes_from(trim_eq(input.spec_bytes()), 0),
{
    let bytes = input.as_bytes();
    let mut n = bytes.len();
    while n > 0 && bytes[n - 1] == 61
        invariant
            n <= bytes@.len(),
            forall|k: int| n <= k < bytes@.len() ==> bytes@[k] == 61,
        decreases n,
    {
        n -= 1;
    }
    proof {
        lemma_trim_eq(bytes@, n as int);
    }
    let ghost s = bytes@.take(n as int);
    let mut out: Vec<u8> = Vec::new();
    let mut i: usize = 0;
    assert(out@ + url_bytes_from(s, 0) =~= url_bytes_from(s, 0));
    while i < n
        invariant
            n <= bytes@.len(),
            bytes@ == input.spec_bytes(),
            trim_eq(input.spec_bytes()) == s,
            s == bytes@.take(n as int),
            i % 4 == 0 || i == n,
            i <= n,
            forall|k: int| 0 <= k < i && k < n && #[trigger] (k % 4) == 0 ==> !(url_val(s[k]) < 0 || (k + 1 < s.len()
                && url_val(s[k + 1]) < 0)),
            out@ + url_bytes_from(s, i as int) == url_bytes_from(s, 0),
        decreases n - i,
    {
        let b0 = url_digit(bytes[i]);
        let b1: i32 = if i + 1 < n { url_digit(bytes[i + 1]) } else { 0 };
        let b2: i32 = if i + 2 < n { url_digit(bytes[i + 2]) } else { 0 };
        let b3: i32 = if i + 3 < n { url_digit(bytes[i + 3]) } else { 0 };
        if b0 < 0 || b1 < 0 {
            proof {
                assert(s[i as int] == bytes@[i as int]);
                assert(i + 1 < n ==> s[i + 1] == bytes@[i + 1]);
                assert(bad_url_group(s)) by {
                    assert((i as int) % 4 == 0);
                }
            }
            return None;
        }
        let w2: u32 = if b2 >= 0 { b2 as u32 } else { 0xFFFF_FFFF };
        let w3: u32 = if b3 >= 0 { b3 as u32 } else { 0xFFFF_FFFF };
        proof {
            assert(s[i as int] == bytes@[i as int]);
            assert(i + 1 < n ==> s[i + 1] == bytes@[i + 1]);
            assert(i + 2 < n ==> s[i + 2] == bytes@[i + 2]);
            assert(i + 3 < n ==> s[i + 3] == bytes@[i + 3]);
            assert(b1 as u32 == widened(s, i + 1));
            assert(w2 == widened(s, i + 2));
            assert(w3 == widened(s, i + 3));
        }
        let ghost before = out@;
        let triple: u32 = ((b0 as u32) << 18u32) | ((b1 as u32) << 12u32) | (w2 << 6u32) | w3;
        out.push((triple >> 16u32) as u8);
        if i + 2 < n && b2 >= 0 {
            out.push((triple >> 8u32) as u8);
        }
        if i + 3 < n && b3 >= 0 {
            out.push(triple as u8);
        }
        proof {
            assert(out@ =~= before + url_group_bytes(s, i as int));
            assert(n - i <= 4 ==> url_bytes_from(s, i + 4) =~= Seq::<u8>::empty());
            assert(before + url_bytes_from(s, i as int) =~= out@ + url_bytes_from(s, i + 4));
        }
        if n - i > 4 {
            i += 4;
        } else {
            i = n;
        }
    }
    proof {
        assert(url_bytes_from(s, i as int) =~= Seq::<u8>::empty());
        assert(out@ + Seq::<u8>::empty() =~= out@);
        assert(!bad_url_group(s)) by {
            if bad_url_group(s) {
                let k = choose|k: int| 0 <= k < s.len() && #[trigger] (k % 4) == 0 && (url_val(s[k]) < 0 || (k + 1 < s.len()
                    && url_val(s[k + 1]) < 0));
                assert(k < i || k >= n);
            }
        }
    }
    Some(out)
}

/// `"name":"value"`.
pub open spec fn string_member(name: Seq<char>, v: Seq<char>) -> Seq<char> {
    seq!['"'] + name + "\":\""@ + v + seq!['"']
}

/// `"name":number`.
pub open spec fn number_member(name: Seq<char>, v: u64) -> Seq<char> {
    seq!['"'] + name + "\":"@ + decimal(v as nat)
}

/// The members of the claims object, in order: registered claims that are
/// set, then custom claims.
pub open spec fn claim_members(c: Claims) -> Seq<Seq<char>> {
    let opt_s = |name: Seq<char>, o: Option<String>| match o {
        Some(v) => seq![string_member(name, v@)],
        None => Seq::<Seq<char>>::empty(),
    };
    let opt_n = |name: Seq<char>, o: Option<u64>| match o {
        Some(v) => seq![number_member(name, v)],
        None => Seq::<Seq<char>>::empty(),
    };
    opt_s("iss"@, c.iss) + opt_s("sub"@, c.sub) + opt_s("aud"@, c.aud) + opt_n("exp"@, c.exp) + opt_n("nbf"@, c.nbf)
        + opt_n("iat"@, c.iat) + opt_s("jti"@, c.jti) + custom_members(pair_views(c.custom@))
}

/// Custom claims as string members.
pub open spec fn custom_members(custom: Seq<(Seq<char>, Seq<char>)>) -> Seq<Seq<char>> {
    custom.map_values(|p: (Seq<char>, Seq<char>)| string_member(p.0, p.1))
}

/// Items joined with commas.
pub open spec fn comma_joined(items: Seq<Seq<char>>) -> Seq<char>
    decreases items.len(),
{
    if items.len() == 0 {
        Seq::empty()
    } else if items.len() == 1 {
        items[0]
    } else {
        comma_joined(items.drop_last()) + seq![','] + items.last()
    }
}

/// The JSON object of the claims.
pub open spec fn claims_json(c: Claims) -> Seq<char> {
    seq!['{'] + comma_joined(claim_members(c)) + seq!['}']
}

fn string_member_text(name: &str, v: &str) -> (r: String)
    ensures
        r@ == string_member(name@, v@),
{
    let mut s = String::new();
    push_char(&mut s, '"');
    push_chars(&mut s, name);
    push_chars(&mut s, "\":\"");
    push_chars(&mut s, v);
    push_char(&mut s, '"');
    assert(s@ =~= string_member(name@, v@));
    s
}

fn number_member_text(name: &str, v: u64) -> (r: String)
    ensures
        r@ == number_member(name@, v),
{
    let mut s = String::new();
    push_char(&mut s, '"');
    push_chars(&mut s, name);
    push_chars(&mut s, "\":");
    push_decimal(&mut s, v);
    assert(s@ =~= number_member(name@, v));
    s
}

fn push_opt_string(parts: &mut Vec<String>, name: &str, o: &Option<String>)
    ensures
        string_views(final(parts)@) == string_views(old(parts)@) + match o {
            Some(v) => seq![string_member(name@, v@)],
            None => Seq::<Seq<char>>::empty(),
        },
{
    match o {
        Some(v) => {
            parts.push(string_member_text(name, v.as_str()));
            assert(string_views(parts@) =~= string_views(old(parts)@) + seq![string_member(name@, v@)]);
        },
        None => {
            assert(string_views(old(parts)@) + Seq::<Seq<char>>::empty() =~= string_views(old(parts)@));
        },
    }
}

fn push_opt_number(parts: &mut Vec<String>, name: &str, o: Option<u64>)
    ensures
        string_views(final(parts)@) == string_views(old(parts)@) + match o {
            Some(v) => seq![number_member(name@, v)],
            None => Seq::<Seq<char>>::empty(),
        },
{
    match o {
        Some(v) => {
            parts.push(number_member_text(name, v));
            assert(string_views(parts@) =~= string_views(old(parts)@) + seq![number_member(name@, v)]);
        },
        None => {
            assert(string_views(old(parts)@) + Seq::<Seq<char>>::empty() =~= string_views(old(parts)@));
        },
    }
}

pub open spec fn string_views(v: Seq<String>) -> Seq<Seq<char>> {
    v.map_values(|s: String| s@)
}

/// The signer and checker.
pub struct Jwt {
    pub config: JwtConfig,
}

impl Jwt {
    pub fn new(config: JwtConfig) -> (r: Jwt)
        ensures
            r.config == config,
    {
        Jwt { config }
    }

    /// HMAC-SHA-256 of the message under the secret.
    pub fn sign(&self, message: &str) -> (r: Vec<u8>)
        ensures
            r@.len() == 32,
    {
        hmac_sha256(message.as_bytes(), self.config.secret.as_slice())
    }

    /// The claims as a JSON object.
    pub fn claims_to_json(&self, claims: &Claims) -> (r: String)
        ensures
            r@ == claims_json(*claims),
    {
        let mut parts: Vec<String> = Vec::new();
        push_opt_string(&mut parts, "iss", &claims.iss);
        push_opt_string(&mut parts, "sub", &claims.sub);
        push_opt_string(&mut parts, "aud", &claims.aud);
        push_opt_number(&mut parts, "exp", claims.exp);
        push_opt_number(&mut parts, "nbf", claims.nbf);
        push_opt_number(&mut parts, "iat", claims.iat);
        push_opt_string(&mut parts, "jti", &claims.jti);
        let ghost fixed = string_views(parts@);
        let mut i: usize = 0;
        while i < claims.custom.len()
            invariant
                i <= claims.custom@.len(),
                string_views(parts@) == fixed + custom_members(pair_views(claims.custom@)).take(i as int),
            decreases claims.custom@.len() - i,
        {
            let (k, v) = &claims.custom[i];
            assert(pair_views(claims.custom@)[i as int] == (k@, v@));
            let ghost pv = string_views(parts@);
            let m = string_member_text(k.as_str(), v.as_str());
            parts.push(m);
            assert(string_views(parts@) =~= pv.push(string_member(k@, v@)));
            assert(custom_members(pair_views(claims.custom@)).take(i + 1) =~= custom_members(
                pair_views(claims.custom@),
            ).take(i as int).push(string_member(k@, v@)));
            assert(string_views(parts@) =~= fixed + custom_members(pair_views(claims.custom@)).take(i + 1));
            i += 1;
        }
        proof {
            let m = custom_members(pair_views(claims.custom@));
            assert(m.take(m.len() as int) =~= m);
            assert(string_views(parts@) =~= claim_members(*claims));
        }
        let mut s = String::new();
        push_char(&mut s, '{');
        let mut j: usize = 0;
        let ghost items = string_views(parts@);
        while j < parts.len()
            invariant
                items == string_views(parts@),
                j <= parts@.len(),
                s@ == seq!['{'] + comma_joined(items.take(j as int)),
            decreases parts@.len() - j,
        {
            if j > 0 {
                push_char(&mut s, ',');
            }
            push_chars(&mut s, parts[j].as_str());
            assert(items.take(j + 1).drop_last() =~= items.take(j as int));
            proof {
                if j == 0 {
                    assert(s@ =~= seq!['{'] + comma_joined(items.take(1)));
                } else {
                    assert(s@ =~= seq!['{'] + comma_joined(items.take(j + 1)));
                }
            }
            j += 1;
        }
        push_char(&mut s, '}');
        assert(items.take(items.len() as int) =~= items);
        s
    }

    /// The compact token: URL-safe Base64 of the header and of the claims,
    /// and of the signature over those two joined by a dot.
    pub fn encode(&self, claims: &Claims) -> (r: String)
        ensures
            exists|sig: Seq<u8>| sig.len() == 32 && r@ == base64url_of(vstd::utf8::encode_utf8("{\"alg\":\"HS256\",\"typ\":\"JWT\"}"@))
                + seq!['.'] + base64url_of(vstd::utf8::encode_utf8(claims_json(*claims))) + seq!['.'] + base64url_of(sig),
    {
        let header_json = "{\"alg\":\"HS256\",\"typ\":\"JWT\"}";
        let header_b64 = base64url_encode(header_json.as_bytes());
        let claims_text = self.claims_to_json(claims);
        let claims_b64 = base64url_encode(claims_text.as_str().as_bytes());
        let mut message = owned(header_b64.as_str());
        push_char(&mut message, '.');
        push_chars(&mut message, claims_b64.as_str());
        let signature = self.sign(message.as_str());
        let sig_b64 = base64url_encode(signature.as_slice());
        let mut token = owned(message.as_str());
        push_char(&mut token, '.');
        push_chars(&mut token, sig_b64.as_str());
        assert(token@ =~= header_b64@ + seq!['.'] + claims_b64@ + seq!['.'] + sig_b64@);
        token
    }

    /// The algorithm named in a header's JSON: the text after the first
    /// `"alg":"` up to the next quote.
    pub fn parse_algorithm(&self, header: &str) -> (r: Result<Algorithm, JwtError>)
        ensures
            match find_from(header@, "\"alg\":\""@, 0) {
                None => r == Err::<Algorithm, JwtError>(JwtError::InvalidFormat),
                Some(start) => match crate::auth::first_char(header@, '"', start + 7) {
                    end => if end >= header@.len() {
                        r == Err::<Algorithm, JwtError>(JwtError::InvalidFormat)
                    } else {
                        match Algorithm::from_name(header@.subrange(start + 7, end)) {
                            Some(a) => r == Ok::<Algorithm, JwtError>(a),
                            None => r == Err::<Algorithm, JwtError>(JwtError::UnsupportedAlgorithm),
                        }
                    },
                },
            },
    {
        let hs = chars_of(header);
        let pat = chars_of("\"alg\":\"");
        proof {
            reveal_strlit("\"alg\":\"");
        }
        let hl = hs.len();
        proof {
            lemma_find_from_found(hs@, pat@, 0);
            assert(pat@.len() == 7);
        }
        match find_text(&hs, &pat, 0) {
            None => Err(JwtError::InvalidFormat),
            Some(start) => {
                let from = start + 7;
                let mut end = from;
                while end < hs.len() && hs[end] != '"'
                    invariant
                        from <= end <= hs@.len(),
                        crate::auth::first_char(hs@, '"', from as int) == crate::auth::first_char(hs@, '"', end as int),
                    decreases hs@.len() - end,
                {
                    end += 1;
                }
                if end >= hs.len() {
                    return Err(JwtError::InvalidFormat);
                }
                let name = string_of(&hs.as_slice()[from..end]);
                match Algorithm::from_str(name.as_str()) {
                    Some(a) => Ok(a),
                    None => Err(JwtError::UnsupportedAlgorithm),
                }
            },
        }
    }

    /// Reads the registered claims back from a claims object.
    pub fn parse_claims(&self, json: &str) -> (r: Result<Claims, JwtError>)
        ensures
            r is Ok,
            r->Ok_0.custom@.len() == 0,
    {
        let mut claims = Claims::new();
        claims.iss = extract_string_field(json, "iss");
        claims.sub = extract_string_field(json, "sub");
        claims.aud = extract_string_field(json, "aud");
        claims.jti = extract_string_field(json, "jti");
        claims.exp = extract_number_field(json, "exp");
        claims.nbf = extract_number_field(json, "nbf");
        claims.iat = extract_number_field(json, "iat");
        Ok(claims)
    }

    /// Checks a token at time `now` (seconds): three parts, a readable
    /// header naming the configured algorithm, a matching signature, readable
    /// claims, and, when configured, not expired and already valid.
    pub fn decode_at(&self, token: &str, now: u64) -> (r: Result<Claims, JwtError>)
        ensures
            pieces(token@, '.').len() != 3 ==> r == Err::<Claims, JwtError>(JwtError::InvalidFormat),
            r is Ok ==> pieces(token@, '.').len() == 3,
            r is Ok && self.config.validate_exp ==> !(match r->Ok_0.exp {
                Some(e) => now > e,
                None => false,
            }),
            r is Ok && self.config.validate_nbf ==> !(match r->Ok_0.nbf {
                Some(n) => now < n,
                None => false,
            }),
    {
        let parts = split_pieces(token, '.');
        if parts.len() != 3 {
            return Err(JwtError::InvalidFormat);
        }
        let header_bytes = match base64url_decode(parts[0].as_str()) {
            Some(b) => b,
            None => return Err(JwtError::InvalidFormat),
        };
        let header_str = match utf8_string(header_bytes) {
            Some(s) => s,
            None => return Err(JwtError::InvalidFormat),
        };
        let alg = match self.parse_algorithm(header_str.as_str()) {
            Ok(a) => a,
            Err(e) => return Err(e),
        };
        if alg != self.config.algorithm {
            return Err(JwtError::AlgorithmMismatch);
        }
        let mut message = owned(parts[0].as_str());
        push_char(&mut message, '.');
        push_chars(&mut message, parts[1].as_str());
        let signature = match base64url_decode(parts[2].as_str()) {
            Some(b) => b,
            None => return Err(JwtError::InvalidSignature),
        };
        let expected = self.sign(message.as_str());
        if !constant_time_eq(signature.as_slice(), expected.as_slice()) {
            return Err(JwtError::InvalidSignature);
        }
        let claims_bytes = match base64url_decode(parts[1].as_str()) {
            Some(b) => b,
            None => return Err(JwtError::InvalidFormat),
        };
        let claims_str = match utf8_string(claims_bytes) {
            Some(s) => s,
            None => return Err(JwtError::InvalidFormat),
        };
        let claims = match self.parse_claims(claims_str.as_str()) {
            Ok(c) => c,
            Err(e) => return Err(e),
        };
        if self.config.validate_exp && claims.is_expired_at(now) {
            return Err(JwtError::Expired);
        }
        if self.config.validate_nbf && claims.is_not_yet_valid_at(now) {
            return Err(JwtError::NotYetValid);
        }
        Ok(claims)
    }

    /// Checks a token against the clock.
    pub fn decode(&self, token: &str) -> (r: Result<Claims, JwtError>)
        ensures
            pieces(token@, '.').len() != 3 ==> r == Err::<Claims, JwtError>(JwtError::InvalidFormat),
            r is Ok ==> pieces(token@, '.').len() == 3,
    {
        self.decode_at(token, now_secs())
    }
}

/// The JWT middleware.
pub struct JwtMiddleware {
    pub jwt: Jwt,
}

impl JwtMiddleware {
    pub fn new(config: JwtConfig) -> (r: JwtMiddleware)
        ensures
            r.jwt.config == config,
    {
        JwtMiddleware { jwt: Jwt::new(config) }
    }
}

/// The string value of a member: the text after the first `"field":"` up to
/// the next quote.
pub open spec fn string_field(json: Seq<char>, field: Seq<char>) -> Option<Seq<char>> {
    let pat = seq!['"'] + field + "\":\""@;
    match find_from(json, pat, 0) {
        None => None,
        Some(start) => {
            let from = start + pat.len();
            let end = crate::auth::first_char(json, '"', from);
            if end >= json.len() { None } else { Some(json.subrange(from, end)) }
        },
    }
}

/// Extracts a string member from JSON text without a full parser.
pub fn extract_string_field(json: &str, field: &str) -> (r: Option<String>)
    ensures
        match string_field(json@, field@) {
            Some(v) => r is Some && r->0@ == v,
            None => r is None,
        },
{
    let js = chars_of(json);
    let mut p = String::new();
    push_char(&mut p, '"');
    push_chars(&mut p, field);
    push_chars(&mut p, "\":\"");
    let pat = chars_of(p.as_str());
    assert(pat@ =~= seq!['"'] + field@ + "\":\""@);
    let jl = js.len();
    proof {
        lemma_find_from_found(js@, pat@, 0);
    }
    match find_text(&js, &pat, 0) {
        None => None,
        Some(start) => {
            let from = start + pat.len();
            let mut end = from;
            while end < js.len() && js[end] != '"'
                invariant
                    from <= end <= js@.len(),
                    crate::auth::first_char(js@, '"', from as int) == crate::auth::first_char(js@, '"', end as int),
                decreases js@.len() - end,
            {
                end += 1;
            }
            if end >= js.len() {
                return None;
            }
            Some(string_of(&js.as_slice()[from..end]))
        },
    }
}

/// The leading ASCII digits of `s` from `from` on, as an index.
pub open spec fn digits_end(s: Seq<char>, from: int) -> int
    decreases s.len() - from,
{
    if from < 0 || from >= s.len() {
        s.len() as int
    } else if '0' <= s[from] && s[from] <= '9' {
        digits_end(s, from + 1)
    } else {
        from
    }
}

/// The number member: the digits right after the first `"field":`.
pub open spec fn number_field(json: Seq<char>, field: Seq<char>) -> Option<u64> {
    let pat = seq!['"'] + field + "\":"@;
    match find_from(json, pat, 0) {
        None => None,
        Some(start) => {
            let from = start + pat.len();
            u64_of(json.subrange(from, digits_end(json, from)))
        },
    }
}

/// Extracts a numeric member from JSON text without a full parser.
pub fn extract_number_field(json: &str, field: &str) -> (r: Option<u64>)
    ensures
        r == number_field(json@, field@),
{
    let js = chars_of(json);
    let mut p = String::new();
    push_char(&mut p, '"');
    push_chars(&mut p, field);
    push_chars(&mut p, "\":");
    let pat = chars_of(p.as_str());
    assert(pat@ =~= seq!['"'] + field@ + "\":"@);
    let jl = js.len();
    proof {
        lemma_find_from_found(js@, pat@, 0);
    }
    match find_text(&js, &pat, 0) {
        None => None,
        Some(start) => {
            let from = start + pat.len();
            let mut end = from;
            while end < js.len() && '0' <= js[end] && js[end] <= '9'
                invariant
                    from <= end <= js@.len(),
                    digits_end(js@, from as int) == digits_end(js@, end as int),
                decreases js@.len() - end,
            {
                end += 1;
            }
            let digits = string_of(&js.as_slice()[from..end]);
            parse_u64_text(digits.as_str())
        },
    }
}

} // verus!
