//! SHA-1 and Base64, as the WebSocket handshake needs them.
use vstd::prelude::*;
use vstd::string::StringSliceAdditionalSpecFns;
use crate::text::{chars_of, push_char, push_chars};

verus! {

/// The Base64 alphabet.
pub open spec fn b64_alphabet() -> Seq<char> {
    "ABCDEFGHIJKLMNOPQRSTUVWXYZabcdefghijklmnopqrstuvwxyz0123456789+/"@
}

/// The four characters that encode the group starting at the front of `s`:
/// up to three bytes, `=`-padded.
pub open spec fn b64_group(s: Seq<u8>) -> Seq<char> {
    let b0 = s[0] as int;
    let b1 = if s.len() > 1 { s[1] as int } else { 0 };
    let b2 = if s.len() > 2 { s[2] as int } else { 0 };
    let t = b0 * 65536 + b1 * 256 + b2;
    let a = b64_alphabet();
    seq![
        a[t / 262144],
        a[(t / 4096) % 64],
        if s.len() > 1 { a[(t / 64) % 64] } else { '=' },
        if s.len() > 2 { a[t % 64] } else { '=' },
    ]
}

/// Standard padded Base64 of `s`.
pub open spec fn base64_of(s: Seq<u8>) -> Seq<char>
    decreases s.len(),
{
    if s.len() == 0 {
        Seq::empty()
    } else if s.len() <= 3 {
        b64_group(s)
    } else {
        b64_group(s) + base64_of(s.skip(3))
    }
}

/// Every three bytes, or fewer at the end, become four characters.
pub proof fn lemma_base64_len(s: Seq<u8>)
    ensures
        base64_of(s).len() == 4 * ((s.len() + 2) / 3),
    decreases s.len(),
{
    if s.len() > 3 {
        lemma_base64_len(s.skip(3));
    }
}

/// Encodes bytes as standard padded Base64.
pub fn base64_encode(input: &[u8]) -> (r: String)
    ensures
        r@ == base64_of(input@),
{
    let alphabet = chars_of("ABCDEFGHIJKLMNOPQRSTUVWXYZabcdefghijklmnopqrstuvwxyz0123456789+/");
    proof {
        reveal_strlit("ABCDEFGHIJKLMNOPQRSTUVWXYZabcdefghijklmnopqrstuvwxyz0123456789+/");
    }
    let mut out = String::new();
    let mut i: usize = 0;
    assert(input@.skip(0) =~= input@);
    assert(out@ + base64_of(input@) =~= base64_of(input@));
    while i < input.len()
        invariant
            alphabet@ == b64_alphabet(),
            alphabet@.len() == 64,
            i <= input@.len(),
            i < input@.len() ==> out@ + base64_of(input@.skip(i as int)) == base64_of(input@),
            i >= input@.len() ==> out@ == base64_of(input@),
        decreases input@.len() - i,
    {
        let ghost rest = input@.skip(i as int);
        let n = input.len() - i;
        let b0 = input[i] as u32;
        let b1: u32 = if n > 1 { input[i + 1] as u32 } else { 0 };
        let b2: u32 = if n > 2 { input[i + 2] as u32 } else { 0 };
        let t: u32 = b0 * 65536 + b1 * 256 + b2;
        assert(rest[0] == input@[i as int]);
        assert(n > 1 ==> rest[1] == input@[i + 1]);
        assert(n > 2 ==> rest[2] == input@[i + 2]);
        assert(t / 262144 < 64) by (nonlinear_arith)
            requires t == b0 * 65536 + b1 * 256 + b2, b0 < 256, b1 < 256, b2 < 256;
        let ghost before = out@;
        push_char(&mut out, alphabet[(t / 262144) as usize]);
        push_char(&mut out, alphabet[((t / 4096) % 64) as usize]);
        if n > 1 {
            push_char(&mut out, alphabet[((t / 64) % 64) as usize]);
        } else {
            push_char(&mut out, '=');
        }
        if n > 2 {
            push_char(&mut out, alphabet[(t % 64) as usize]);
        } else {
            push_char(&mut out, '=');
        }
        assert(out@ =~= before + b64_group(rest));
        if n > 3 {
            assert(rest.skip(3) =~= input@.skip(i + 3));
            assert(before + b64_group(rest) + base64_of(input@.skip(i + 3)) =~= before + base64_of(rest));
            i += 3;
        } else {
            i = input.len();
        }
    }
    out
}

/// Left rotation of a 32-bit word.
fn rotl(x: u32, n: u32) -> (r: u32)
    requires
        0 < n < 32,
{
    (x << n) | (x >> (32 - n))
}

/// The word at `chunk[4 * i..4 * i + 4]`, big-endian.
fn word_at(data: &Vec<u8>, at: usize) -> (r: u32)
    requires
        at + 4 <= data@.len(),
        at <= usize::MAX - 4,
{
    let b0 = data[at] as u32;
    let b1 = data[at + 1] as u32;
    let b2 = data[at + 2] as u32;
    let b3 = data[at + 3] as u32;
    assert(b0 * 16777216 + b1 * 65536 + b2 * 256 + b3 <= 0xFFFF_FFFF) by (nonlinear_arith)
        requires b0 < 256, b1 < 256, b2 < 256, b3 < 256;
    b0 * 16777216 + b1 * 65536 + b2 * 256 + b3
}

/// Appends the four big-endian bytes of `x`.
fn push_be32(out: &mut Vec<u8>, x: u32)
    ensures
        final(out)@.len() == old(out)@.len() + 4,
{
    out.push((x / 16777216) as u8);
    out.push(((x / 65536) % 256) as u8);
    out.push(((x / 256) % 256) as u8);
    out.push((x % 256) as u8);
}

/// The SHA-1 digest of `input`.
pub fn sha1(input: &[u8]) -> (r: Vec<u8>)
    ensures
        r@.len() == 20,
{
    let mut h0: u32 = 0x67452301;
    let mut h1: u32 = 0xEFCDAB89;
    let mut h2: u32 = 0x98BADCFE;
    let mut h3: u32 = 0x10325476;
    let mut h4: u32 = 0xC3D2E1F0;
    let ml: u64 = (input.len() as u64).wrapping_mul(8);
    let mut padded: Vec<u8> = Vec::new();
    let mut i: usize = 0;
    while i < input.len()
        invariant
            i <= input@.len(),
            padded@.len() == i,
        decreases input@.len() - i,
    {
        padded.push(input[i]);
        i += 1;
    }
    padded.push(0x80);
    while padded.len() % 64 != 56
        decreases 64 - (padded@.len() % 64) + if padded@.len() % 64 > 56 { 64int } else { 0 },
    {
        padded.push(0);
    }
    push_be32(&mut padded, (ml / 4294967296) as u32);
    push_be32(&mut padded, (ml % 4294967296) as u32);
    let mut chunk: usize = 0;
    let plen = padded.len();
    while chunk <= plen && plen - chunk >= 64
        invariant
            plen == padded@.len(),
        decreases plen - chunk,
    {
        let mut w: Vec<u32> = Vec::new();
        let mut j: usize = 0;
        while j < 16
            invariant
                j <= 16,
                w@.len() == j,
                chunk + 64 <= padded@.len(),
                plen == padded@.len(),
            decreases 16 - j,
        {
            w.push(word_at(&padded, chunk + j * 4));
            j += 1;
        }
        while j < 80
            invariant
                16 <= j <= 80,
                w@.len() == j,
            decreases 80 - j,
        {
            let x = w[j - 3] ^ w[j - 8] ^ w[j - 14] ^ w[j - 16];
            w.push(rotl(x, 1));
            j += 1;
        }
        let mut a = h0;
        let mut b = h1;
        let mut c = h2;
        let mut d = h3;
        let mut e = h4;
        let mut k: usize = 0;
        while k < 80
            invariant
                k <= 80,
                w@.len() == 80,
            decreases 80 - k,
        {
            let (f, kc) = if k < 20 {
                ((b & c) | ((!b) & d), 0x5A827999u32)
            } else if k < 40 {
                (b ^ c ^ d, 0x6ED9EBA1u32)
            } else if k < 60 {
                ((b & c) | (b & d) | (c & d), 0x8F1BBCDCu32)
            } else {
                (b ^ c ^ d, 0xCA62C1D6u32)
            };
            let temp = rotl(a, 5).wrapping_add(f).wrapping_add(e).wrapping_add(kc).wrapping_add(w[k]);
            e = d;
            d = c;
            c = rotl(b, 30);
            b = a;
            a = temp;
            k += 1;
        }
        h0 = h0.wrapping_add(a);
        h1 = h1.wrapping_add(b);
        h2 = h2.wrapping_add(c);
        h3 = h3.wrapping_add(d);
        h4 = h4.wrapping_add(e);
        chunk += 64;
    }
    let mut out: Vec<u8> = Vec::new();
    push_be32(&mut out, h0);
    push_be32(&mut out, h1);
    push_be32(&mut out, h2);
    push_be32(&mut out, h3);
    push_be32(&mut out, h4);
    out
}

/// Right rotation of a 32-bit word.
fn rotr(x: u32, n: u32) -> (r: u32)
    requires
        0 < n < 32,
{
    (x >> n) | (x << (32 - n))
}

/// The message padded to whole 64-byte blocks: a one bit, zeros, and the bit
/// length as a big-endian 64-bit number.
fn pad_message(input: &[u8]) -> (r: Vec<u8>)
    ensures
        r@.len() >= input@.len(),
{
    let ml: u64 = (input.len() as u64).wrapping_mul(8);
    let mut padded: Vec<u8> = Vec::new();
    let mut i: usize = 0;
    while i < input.len()
        invariant
            i <= input@.len(),
            padded@.len() == i,
        decreases input@.len() - i,
    {
        padded.push(input[i]);
        i += 1;
    }
    padded.push(0x80);
    while padded.len() % 64 != 56
        invariant
            padded@.len() >= input@.len(),
        decreases 64 - (padded@.len() % 64) + if padded@.len() % 64 > 56 { 64int } else { 0 },
    {
        padded.push(0);
    }
    push_be32(&mut padded, (ml / 4294967296) as u32);
    push_be32(&mut padded, (ml % 4294967296) as u32);
    padded
}

/// The SHA-256 digest of `input`.
pub fn sha256(input: &[u8]) -> (r: Vec<u8>)
    ensures
        r@.len() == 32,
{
    let k: Vec<u32> = vec![
        0x428a2f98, 0x71374491, 0xb5c0fbcf, 0xe9b5dba5, 0x3956c25b, 0x59f111f1, 0x923f82a4, 0xab1c5ed5,
        0xd807aa98, 0x12835b01, 0x243185be, 0x550c7dc3, 0x72be5d74, 0x80deb1fe, 0x9bdc06a7, 0xc19bf174,
        0xe49b69c1, 0xefbe4786, 0x0fc19dc6, 0x240ca1cc, 0x2de92c6f, 0x4a7484aa, 0x5cb0a9dc, 0x76f988da,
        0x983e5152, 0xa831c66d, 0xb00327c8, 0xbf597fc7, 0xc6e00bf3, 0xd5a79147, 0x06ca6351, 0x14292967,
        0x27b70a85, 0x2e1b2138, 0x4d2c6dfc, 0x53380d13, 0x650a7354, 0x766a0abb, 0x81c2c92e, 0x92722c85,
        0xa2bfe8a1, 0xa81a664b, 0xc24b8b70, 0xc76c51a3, 0xd192e819, 0xd6990624, 0xf40e3585, 0x106aa070,
        0x19a4c116, 0x1e376c08, 0x2748774c, 0x34b0bcb5, 0x391c0cb3, 0x4ed8aa4a, 0x5b9cca4f, 0x682e6ff3,
        0x748f82ee, 0x78a5636f, 0x84c87814, 0x8cc70208, 0x90befffa, 0xa4506ceb, 0xbef9a3f7, 0xc67178f2
    ];
    let mut h: Vec<u32> = vec![0x6a09e667, 0xbb67ae85, 0x3c6ef372, 0xa54ff53a, 0x510e527f, 0x9b05688c, 0x1f83d9ab, 0x5be0cd19];
    let padded = pad_message(input);
    let plen = padded.len();
    let mut chunk: usize = 0;
    while chunk <= plen && plen - chunk >= 64
        invariant
            plen == padded@.len(),
            h@.len() == 8,
            k@.len() == 64,
        decreases plen - chunk,
    {
        let mut w: Vec<u32> = Vec::new();
        let mut j: usize = 0;
        while j < 16
            invariant
                j <= 16,
                w@.len() == j,
                chunk + 64 <= padded@.len(),
                plen == padded@.len(),
            decreases 16 - j,
        {
            w.push(word_at(&padded, chunk + j * 4));
            j += 1;
        }
        while j < 64
            invariant
                16 <= j <= 64,
                w@.len() == j,
            decreases 64 - j,
        {
            let s0 = rotr(w[j - 15], 7) ^ rotr(w[j - 15], 18) ^ (w[j - 15] >> 3u32);
            let s1 = rotr(w[j - 2], 17) ^ rotr(w[j - 2], 19) ^ (w[j - 2] >> 10u32);
            w.push(w[j - 16].wrapping_add(s0).wrapping_add(w[j - 7]).wrapping_add(s1));
            j += 1;
        }
        let mut a = h[0];
        let mut b = h[1];
        let mut c = h[2];
        let mut d = h[3];
        let mut e = h[4];
        let mut f = h[5];
        let mut g = h[6];
        let mut hh = h[7];
        let mut i: usize = 0;
        while i < 64
            invariant
                i <= 64,
                w@.len() == 64,
                k@.len() == 64,
            decreases 64 - i,
        {
            let s1 = rotr(e, 6) ^ rotr(e, 11) ^ rotr(e, 25);
            let ch = (e & f) ^ ((!e) & g);
            let temp1 = hh.wrapping_add(s1).wrapping_add(ch).wrapping_add(k[i]).wrapping_add(w[i]);
            let s0 = rotr(a, 2) ^ rotr(a, 13) ^ rotr(a, 22);
            let maj = (a & b) ^ (a & c) ^ (b & c);
            let temp2 = s0.wrapping_add(maj);
            hh = g;
            g = f;
            f = e;
            e = d.wrapping_add(temp1);
            d = c;
            c = b;
            b = a;
            a = temp1.wrapping_add(temp2);
            i += 1;
        }
        let v0 = h[0].wrapping_add(a);
        h.set(0, v0);
        let v1 = h[1].wrapping_add(b);
        h.set(1, v1);
        let v2 = h[2].wrapping_add(c);
        h.set(2, v2);
        let v3 = h[3].wrapping_add(d);
        h.set(3, v3);
        let v4 = h[4].wrapping_add(e);
        h.set(4, v4);
        let v5 = h[5].wrapping_add(f);
        h.set(5, v5);
        let v6 = h[6].wrapping_add(g);
        h.set(6, v6);
        let v7 = h[7].wrapping_add(hh);
        h.set(7, v7);
        chunk += 64;
    }
    let mut out: Vec<u8> = Vec::new();
    let mut q: usize = 0;
    while q < 8
        invariant
            q <= 8,
            h@.len() == 8,
            out@.len() == 4 * q,
        decreases 8 - q,
    {
        push_be32(&mut out, h[q]);
        q += 1;
    }
    out
}

/// HMAC-SHA-256 of `message` under `key`.
pub fn hmac_sha256(message: &[u8], key: &[u8]) -> (r: Vec<u8>)
    ensures
        r@.len() == 32,
{
    let mut key_block: Vec<u8> = Vec::new();
    if key.len() > 64 {
        let hk = sha256(key);
        let mut i: usize = 0;
        while i < 32
            invariant
                hk@.len() == 32,
                i <= 32,
                key_block@.len() == i,
            decreases 32 - i,
        {
            key_block.push(hk[i]);
            i += 1;
        }
    } else {
        let mut i: usize = 0;
        while i < key.len()
            invariant
                i <= key@.len(),
                key_block@.len() == i,
            decreases key@.len() - i,
        {
            key_block.push(key[i]);
            i += 1;
        }
    }
    while key_block.len() < 64
        invariant
            key_block@.len() <= 64,
        decreases 64 - key_block@.len(),
    {
        key_block.push(0);
    }
    let mut inner: Vec<u8> = Vec::new();
    let mut outer: Vec<u8> = Vec::new();
    let mut i: usize = 0;
    while i < 64
        invariant
            key_block@.len() == 64,
            i <= 64,
        decreases 64 - i,
    {
        inner.push(0x36u8 ^ key_block[i]);
        outer.push(0x5cu8 ^ key_block[i]);
        i += 1;
    }
    let mut j: usize = 0;
    while j < message.len()
        invariant
            j <= message@.len(),
        decreases message@.len() - j,
    {
        inner.push(message[j]);
        j += 1;
    }
    let inner_hash = sha256(inner.as_slice());
    let mut q: usize = 0;
    while q < 32
        invariant
            inner_hash@.len() == 32,
            q <= 32,
        decreases 32 - q,
    {
        outer.push(inner_hash[q]);
        q += 1;
    }
    sha256(outer.as_slice())
}

/// The lowercase hex digit of a nibble.
pub open spec fn nibble_char(v: nat) -> char {
    crate::range::hex_digit(v)
}

/// Two lowercase hex digits per byte.
pub open spec fn hex_of(b: Seq<u8>) -> Seq<char>
    decreases b.len(),
{
    if b.len() == 0 {
        Seq::empty()
    } else {
        hex_of(b.drop_last()) + seq![nibble_char(b.last() as nat / 16), nibble_char(b.last() as nat % 16)]
    }
}

fn nibble(v: u8) -> (r: char)
    requires
        v < 16,
    ensures
        r == nibble_char(v as nat),
{
    match v {
        0 => '0',
        1 => '1',
        2 => '2',
        3 => '3',
        4 => '4',
        5 => '5',
        6 => '6',
        7 => '7',
        8 => '8',
        9 => '9',
        10 => 'a',
        11 => 'b',
        12 => 'c',
        13 => 'd',
        14 => 'e',
        _ => 'f',
    }
}

/// Bytes as lowercase hex.
pub fn hex_encode(bytes: &[u8]) -> (r: String)
    ensures
        r@ == hex_of(bytes@),
{
    let mut s = String::new();
    let mut i: usize = 0;
    while i < bytes.len()
        invariant
            i <= bytes@.len(),
            s@ == hex_of(bytes@.take(i as int)),
        decreases bytes@.len() - i,
    {
        let b = bytes[i];
        push_char(&mut s, nibble(b / 16));
        push_char(&mut s, nibble(b % 16));
        assert(bytes@.take(i + 1).drop_last() =~= bytes@.take(i as int));
        assert(s@ =~= hex_of(bytes@.take(i + 1)));
        i += 1;
    }
    assert(bytes@.take(bytes@.len() as int) =~= bytes@);
    s
}

/// The value of a hex digit in either case.
pub open spec fn hex_val(c: u8) -> Option<u8> {
    if 48 <= c <= 57 {
        Some((c - 48) as u8)
    } else if 97 <= c <= 102 {
        Some((c - 87) as u8)
    } else if 65 <= c <= 70 {
        Some((c - 55) as u8)
    } else {
        None
    }
}

/// The value of a hex digit byte.
pub fn hex_char_to_val(c: u8) -> (r: Option<u8>)
    ensures
        r == hex_val(c),
{
    if 48 <= c && c <= 57 {
        Some(c - 48)
    } else if 97 <= c && c <= 102 {
        Some(c - 87)
    } else if 65 <= c && c <= 70 {
        Some(c - 55)
    } else {
        None
    }
}

/// The bytes that pairs of hex digits spell; `None` on an odd length or a
/// character that is not a hex digit.
pub open spec fn unhex(s: Seq<u8>) -> Option<Seq<u8>>
    decreases s.len(),
{
    if s.len() == 0 {
        Some(Seq::empty())
    } else if s.len() == 1 {
        None
    } else {
        match (unhex(s.take(s.len() - 2)), hex_val(s[s.len() - 2]), hex_val(s[s.len() - 1])) {
            (Some(init), Some(hi), Some(lo)) => Some(init.push((hi * 16 + lo) as u8)),
            _ => None,
        }
    }
}

/// Decodes hex text, digits in either case.
pub fn hex_decode(s: &str) -> (r: Option<Vec<u8>>)
    ensures
        match unhex(s.spec_bytes()) {
            Some(b) => r is Some && r->0@ == b,
            None => r is None,
        },
{
    let bytes = s.as_bytes();
    if bytes.len() % 2 != 0 {
        proof {
            lemma_unhex_odd(bytes@);
        }
        return None;
    }
    let mut out: Vec<u8> = Vec::new();
    let mut i: usize = 0;
    while i < bytes.len()
        invariant
            bytes@ == s.spec_bytes(),
            bytes@.len() % 2 == 0,
            i % 2 == 0,
            i <= bytes@.len(),
            unhex(bytes@.take(i as int)) == Some(out@),
        decreases bytes@.len() - i,
    {
        let hi = match hex_char_to_val(bytes[i]) {
            Some(v) => v,
            None => {
                proof {
                    assert(bytes@.take(i + 2).take(i as int) =~= bytes@.take(i as int));
                    lemma_unhex_prefix(bytes@, i + 2);
                }
                return None;
            },
        };
        let lo = match hex_char_to_val(bytes[i + 1]) {
            Some(v) => v,
            None => {
                proof {
                    assert(bytes@.take(i + 2).take(i as int) =~= bytes@.take(i as int));
                    lemma_unhex_prefix(bytes@, i + 2);
                }
                return None;
            },
        };
        out.push(hi * 16 + lo);
        assert(bytes@.take(i + 2).take(i as int) =~= bytes@.take(i as int));
        i += 2;
    }
    assert(bytes@.take(bytes@.len() as int) =~= bytes@);
    Some(out)
}

proof fn lemma_unhex_odd(s: Seq<u8>)
    requires
        s.len() % 2 == 1,
    ensures
        unhex(s) is None,
    decreases s.len(),
{
    if s.len() > 1 {
        lemma_unhex_odd(s.take(s.len() - 2));
    }
}

/// Once an even prefix fails to decode, so does every longer text.
proof fn lemma_unhex_prefix(s: Seq<u8>, j: int)
    requires
        0 <= j <= s.len(),
        j % 2 == 0,
        s.len() % 2 == 0,
        unhex(s.take(j)) is None,
    ensures
        unhex(s) is None,
    decreases s.len() - j,
{
    if j < s.len() {
        assert(s.take(j + 2).take(j) =~= s.take(j));
        lemma_unhex_prefix(s, j + 2);
    } else {
        assert(s.take(j) =~= s);
    }
}

/// Equality of two byte strings, examining every byte whatever the
/// outcome.
pub fn constant_time_eq(a: &[u8], b: &[u8]) -> (r: bool)
    ensures
        r == (a@ == b@),
{
    if a.len() != b.len() {
        return false;
    }
    let mut acc: u8 = 0;
    let mut i: usize = 0;
    while i < a.len()
        invariant
            a@.len() == b@.len(),
            i <= a@.len(),
            (acc == 0) == forall|k: int| 0 <= k < i ==> a@[k] == b@[k],
        decreases a@.len() - i,
    {
        let x = a[i];
        let y = b[i];
        assert((acc | (x ^ y)) == 0 <==> (acc == 0 && x == y)) by (bit_vector);
        acc = acc | (x ^ y);
        i += 1;
    }
    proof {
        if acc == 0 {
            assert(a@ =~= b@);
        }
    }
    acc == 0
}

/// The GUID that RFC 6455 appends to the client's key.
pub const WEBSOCKET_GUID: &'static str = "258EAFA5-E914-47DA-95CA-C5AB0DC85B11";

/// The `Sec-WebSocket-Accept` value for a client key: Base64 of the SHA-1 of
/// the key followed by the RFC 6455 GUID; always 28 characters.
pub fn websocket_accept_key(client_key: &str) -> (r: String)
    ensures
        r@.len() == 28,
{
    let mut concat = String::new();
    push_chars(&mut concat, client_key);
    push_chars(&mut concat, WEBSOCKET_GUID);
    let hash = sha1(concat.as_str().as_bytes());
    let r = base64_encode(hash.as_slice());
    proof {
        lemma_base64_len(hash@);
    }
    r
}

} // verus!
