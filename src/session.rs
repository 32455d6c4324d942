//! Session identifiers: random ids and their signed cookie form.
use vstd::prelude::*;
use crate::text::{owned, push_char, push_chars, chars_of, string_of};
use crate::crypto::{hmac_sha256, constant_time_eq};
use crate::jwt::{base64url_encode, base64url_of};
use crate::tracing::{fill_from_seed, xorshift_bytes};
use crate::clock::clock_nanos;
use vstd::string::StringSliceAdditionalSpecFns;

verus! {

/// A random 32-character session id: 24 pseudo-random bytes, seeded from
/// the clock, in unpadded URL-safe Base64.
pub fn generate_session_id() -> (r: String)
    ensures
        exists|seed: u64| r@ == base64url_of(#[trigger] xorshift_bytes(seed, 24)),
{
    let bytes = fill_from_seed(clock_nanos(), 24);
    base64url_encode(bytes.as_slice())
}

/// `id`, a dot, and the URL-safe Base64 of its HMAC-SHA-256 under the secret.
pub fn sign_session_id(id: &str, secret: &str) -> (r: String)
    ensures
        exists|sig: Seq<u8>| sig.len() == 32 && r@ == id@ + seq!['.'] + base64url_of(sig),
{
    let signature = hmac_sha256(id.as_bytes(), secret.as_bytes());
    let encoded = base64url_encode(signature.as_slice());
    let mut out = owned(id);
    push_char(&mut out, '.');
    push_chars(&mut out, encoded.as_str());
    assert(out@ =~= id@ + seq!['.'] + base64url_of(signature@));
    out
}

/// The index of the last `.` in `s`, or -1.
pub open spec fn last_dot_index(s: Seq<char>) -> int
    decreases s.len(),
{
    if s.len() == 0 {
        -1
    } else if s.last() == '.' {
        s.len() - 1
    } else {
        last_dot_index(s.drop_last())
    }
}

/// The id of a signed session id whose signature checks out under the
/// secret: the text before the last dot.
pub fn verify_session_id(signed: &str, secret: &str) -> (r: Option<String>)
    ensures
        last_dot_index(signed@) < 0 ==> r is None,
        r is Some ==> last_dot_index(signed@) >= 0 && r->0@ == signed@.take(last_dot_index(signed@)),
{
    let cs = chars_of(signed);
    let mut d = cs.len();
    assert(cs@.take(cs@.len() as int) =~= cs@);
    while d > 0 && cs[d - 1] != '.'
        invariant
            d <= cs@.len(),
            last_dot_index(cs@) == last_dot_index(cs@.take(d as int)),
        decreases d,
    {
        assert(cs@.take(d as int).drop_last() =~= cs@.take(d - 1));
        d -= 1;
    }
    if d == 0 {
        assert(cs@.take(0) =~= Seq::<char>::empty());
        return None;
    }
    assert(cs@.take(d as int).last() == '.');
    let dot = d - 1;
    let id = string_of(&cs.as_slice()[0..dot]);
    let signature = string_of(&cs.as_slice()[dot + 1..cs.len()]);
    let expected = hmac_sha256(id.as_str().as_bytes(), secret.as_bytes());
    let expected_encoded = base64url_encode(expected.as_slice());
    if constant_time_eq(signature.as_str().as_bytes(), expected_encoded.as_str().as_bytes()) {
        assert(id@ =~= signed@.take(dot as int));
        Some(id)
    } else {
        None
    }
}

} // verus!
