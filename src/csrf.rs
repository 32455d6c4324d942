//! CSRF protection by signed, timestamped tokens.
use vstd::prelude::*;
use crate::method::Method;
use crate::text::{owned, push_chars, push_char, push_decimal, decimal, split_pieces, pieces};
use crate::crypto::{hmac_sha256, hex_encode, hex_of, hex_decode, unhex, constant_time_eq};
use crate::range::u64_of;
use crate::clock::clock_nanos;
use crate::compress::starts_with;
use vstd::string::StringSliceAdditionalSpecFns;

verus! {

/// CSRF settings.
#[derive(Debug, Clone)]
pub struct CsrfConfig {
    pub cookie_name: String,
    pub header_name: String,
    pub field_name: String,
    /// Token lifetime in seconds.
    pub ttl: u64,
    pub safe_methods: Vec<Method>,
    pub exclude_paths: Vec<String>,
}

impl CsrfConfig {
    /// `csrf_token` cookie, `X-CSRF-Token` header, `_csrf` field, one hour,
    /// GET, HEAD and OPTIONS safe, no excluded paths.
    pub fn new() -> (r: CsrfConfig)
        ensures
            r.cookie_name@ == "csrf_token"@,
            r.header_name@ == "X-CSRF-Token"@,
            r.field_name@ == "_csrf"@,
            r.ttl == 3600,
            r.safe_methods@ == seq![Method::Get, Method::Head, Method::Options],
            r.exclude_paths@.len() == 0,
    {
        let safe_methods = vec![Method::Get, Method::Head, Method::Options];
        CsrfConfig {
            cookie_name: owned("csrf_token"),
            header_name: owned("X-CSRF-Token"),
            field_name: owned("_csrf"),
            ttl: 3600,
            safe_methods,
            exclude_paths: Vec::new(),
        }
    }

    pub fn cookie_name(self, name: &str) -> (r: CsrfConfig)
        ensures
            r.cookie_name@ == name@,
            r.header_name == self.header_name && r.ttl == self.ttl,
            r.safe_methods == self.safe_methods && r.exclude_paths == self.exclude_paths,
    {
        CsrfConfig { cookie_name: owned(name), ..self }
    }

    pub fn header_name(self, name: &str) -> (r: CsrfConfig)
        ensures
            r.header_name@ == name@,
            r.cookie_name == self.cookie_name && r.ttl == self.ttl,
            r.safe_methods == self.safe_methods && r.exclude_paths == self.exclude_paths,
    {
        CsrfConfig { header_name: owned(name), ..self }
    }

    pub fn ttl(self, seconds: u64) -> (r: CsrfConfig)
        ensures
            r.ttl == seconds,
            r.cookie_name == self.cookie_name && r.header_name == self.header_name,
            r.safe_methods == self.safe_methods && r.exclude_paths == self.exclude_paths,
    {
        CsrfConfig { ttl: seconds, ..self }
    }

    /// Adds a path prefix that is not checked.
    pub fn exclude(self, path: &str) -> (r: CsrfConfig)
        ensures
            r.exclude_paths@.len() == self.exclude_paths@.len() + 1,
            r.exclude_paths@.drop_last() == self.exclude_paths@,
            r.exclude_paths@.last()@ == path@,
            r.ttl == self.ttl && r.safe_methods == self.safe_methods,
    {
        let mut c = self;
        c.exclude_paths.push(owned(path));
        assert(c.exclude_paths@.drop_last() =~= self.exclude_paths@);
        c
    }
}

/// The CSRF middleware: a configuration and a signing secret.
pub struct Csrf {
    pub config: CsrfConfig,
    pub secret: Vec<u8>,
}

/// The token text for a timestamp, a random number and a signature.
pub open spec fn token_text(ts: u64, random: u64, sig: Seq<u8>) -> Seq<char> {
    decimal(ts as nat) + seq!['.'] + decimal(random as nat) + seq!['.'] + hex_of(sig)
}

impl Csrf {
    pub fn new(secret: &[u8], config: CsrfConfig) -> (r: Csrf)
        ensures
            r.secret@ == secret@,
            r.config == config,
    {
        let mut s: Vec<u8> = Vec::new();
        let mut i: usize = 0;
        while i < secret.len()
            invariant
                i <= secret@.len(),
                s@ == secret@.take(i as int),
            decreases secret@.len() - i,
        {
            s.push(secret[i]);
            assert(s@ =~= secret@.take(i + 1));
            i += 1;
        }
        assert(secret@.take(secret@.len() as int) =~= secret@);
        Csrf { config, secret: s }
    }

    /// A CSRF guard with the default configuration.
    pub fn with_secret(secret: &str) -> (r: Csrf)
        ensures
            r.secret@ == secret.spec_bytes(),
    {
        Csrf::new(secret.as_bytes(), CsrfConfig::new())
    }

    /// HMAC-SHA-256 of the message under the secret.
    pub fn sign(&self, message: &str) -> (r: Vec<u8>)
        ensures
            r@.len() == 32,
    {
        hmac_sha256(message.as_bytes(), self.secret.as_slice())
    }

    /// The token for a timestamp and a random number:
    /// `timestamp.random.signature`, the signature over `timestamp.random` in hex.
    pub fn token_at(&self, timestamp: u64, random: u64) -> (r: String)
        ensures
            exists|sig: Seq<u8>| sig.len() == 32 && r@ == token_text(timestamp, random, sig),
    {
        let mut payload = String::new();
        push_decimal(&mut payload, timestamp);
        push_char(&mut payload, '.');
        push_decimal(&mut payload, random);
        let sig = self.sign(payload.as_str());
        let mut token = owned(payload.as_str());
        push_char(&mut token, '.');
        let h = hex_encode(sig.as_slice());
        push_chars(&mut token, h.as_str());
        assert(token@ =~= token_text(timestamp, random, sig@));
        token
    }

    /// A fresh token, stamped with the clock.
    pub fn generate_token(&self) -> (r: String)
        ensures
            exists|ts: u64, random: u64, sig: Seq<u8>| sig.len() == 32 && r@ == token_text(ts, random, sig),
    {
        let nanos = clock_nanos();
        let secs = nanos / 1_000_000_000;
        self.token_at(secs, pseudo_random(nanos, secs))
    }

    /// Whether `token` is well formed, unexpired at `now` (in seconds), and
    /// carries the right signature. A token is refused when it is not three
    /// `.`-separated parts, its timestamp is not a number, it is older than
    /// the lifetime, or its signature is not hex.
    pub fn verify_token_at(&self, token: &str, now: u64) -> (r: bool)
        ensures
            r ==> {
                let ps = pieces(token@, '.');
                &&& ps.len() == 3
                &&& u64_of(ps[0]) is Some
                &&& now <= u64_of(ps[0])->0 + self.config.ttl
                &&& unhex(vstd::utf8::encode_utf8(ps[2])) is Some
            },
    {
        let parts = split_pieces(token, '.');
        if parts.len() != 3 {
            return false;
        }
        let timestamp = match crate::range::parse_u64_text(parts[0].as_str()) {
            Some(t) => t,
            None => return false,
        };
        if now as u128 > timestamp as u128 + self.config.ttl as u128 {
            return false;
        }
        let mut payload = owned(parts[0].as_str());
        push_char(&mut payload, '.');
        push_chars(&mut payload, parts[1].as_str());
        let expected = self.sign(payload.as_str());
        let provided = match hex_decode(parts[2].as_str()) {
            Some(s) => s,
            None => return false,
        };
        constant_time_eq(expected.as_slice(), provided.as_slice())
    }

    /// Checks a token against the clock.
    pub fn verify_token(&self, token: &str) -> (r: bool)
        ensures
            r ==> pieces(token@, '.').len() == 3,
    {
        let secs = clock_nanos() / 1_000_000_000;
        self.verify_token_at(token, secs)
    }

    /// Methods that need no token.
    pub fn is_safe_method(&self, method: &Method) -> (r: bool)
        ensures
            r == self.config.safe_methods@.contains(*method),
    {
        let mut i: usize = 0;
        while i < self.config.safe_methods.len()
            invariant
                i <= self.config.safe_methods@.len(),
                forall|k: int| 0 <= k < i ==> self.config.safe_methods@[k] != *method,
            decreases self.config.safe_methods@.len() - i,
        {
            if self.config.safe_methods[i] == *method {
                return true;
            }
            i += 1;
        }
        false
    }

    /// Paths under an excluded prefix need no token.
    pub fn is_excluded_path(&self, path: &str) -> (r: bool)
        ensures
            r == exists|k: int| 0 <= k < self.config.exclude_paths@.len() && starts_with(path@, #[trigger] self.config.exclude_paths@[k]@),
    {
        let mut i: usize = 0;
        while i < self.config.exclude_paths.len()
            invariant
                i <= self.config.exclude_paths@.len(),
                forall|k: int| 0 <= k < i ==> !starts_with(path@, #[trigger] self.config.exclude_paths@[k]@),
            decreases self.config.exclude_paths@.len() - i,
        {
            if crate::compress::starts_with_text(path, self.config.exclude_paths[i].as_str()) {
                return true;
            }
            i += 1;
        }
        false
    }
}

/// A number mixed from the clock's nanoseconds and seconds.
pub fn pseudo_random(nanos: u64, secs: u64) -> (r: u64)
    ensures
        r == nanos ^ ((secs << 32u64) as u64),
{
    nanos ^ (secs << 32u64)
}

} // verus!
