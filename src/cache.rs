//! Response caching helpers: content-derived entity tags.
use vstd::prelude::*;
use crate::text::push_char;
use crate::range::{hex, push_hex};

verus! {

pub const FNV_OFFSET: u64 = 0xcbf29ce484222325;
pub const FNV_PRIME: u64 = 0x100000001b3;

/// FNV-1a over `data`, from the 64-bit offset basis.
pub open spec fn fnv1a(data: Seq<u8>) -> u64
    decreases data.len(),
{
    if data.len() == 0 {
        FNV_OFFSET
    } else {
        (((fnv1a(data.drop_last()) ^ (data.last() as u64)) as int * FNV_PRIME as int) % 0x1_0000_0000_0000_0000) as u64
    }
}

/// The 64-bit FNV-1a hash of `data`.
pub fn simple_hash(data: &[u8]) -> (r: u64)
    ensures
        r == fnv1a(data@),
{
    let mut hash: u64 = FNV_OFFSET;
    let mut i: usize = 0;
    while i < data.len()
        invariant
            i <= data@.len(),
            hash == fnv1a(data@.take(i as int)),
        decreases data@.len() - i,
    {
        assert(data@.take(i + 1).drop_last() =~= data@.take(i as int));
        hash = (hash ^ data[i] as u64).wrapping_mul(FNV_PRIME);
        i += 1;
    }
    assert(data@.take(data@.len() as int) =~= data@);
    hash
}

/// `n` as sixteen lowercase hex digits.
pub fn hex_encode_u64(n: u64) -> (r: String)
    ensures
        r@ == crate::tracing::hex_padded(n as nat, 16),
{
    crate::tracing::hex_text_padded(n, 16)
}

/// A strong entity tag for a body: its FNV-1a hash in hex, quoted.
pub fn etag(body: &[u8]) -> (r: String)
    ensures
        r@ == seq!['"'] + crate::tracing::hex_padded(fnv1a(body@) as nat, 16) + seq!['"'],
{
    let mut s = String::new();
    push_char(&mut s, '"');
    let h = hex_encode_u64(simple_hash(body));
    crate::text::push_chars(&mut s, h.as_str());
    push_char(&mut s, '"');
    assert(s@ =~= seq!['"'] + crate::tracing::hex_padded(fnv1a(body@) as nat, 16) + seq!['"']);
    s
}

} // verus!
