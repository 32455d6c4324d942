//! Request identifiers: configuration, and UUID, nano, short and counter ids
//! drawn from a caller-supplied seed.
use vstd::prelude::*;
use crate::text::{owned, push_char, chars_of};
use crate::range::{hex, push_hex};
use crate::clock::clock_nanos;

verus! {

/// How request ids are made.
#[derive(Debug, Clone, Copy, PartialEq, Eq, Structural)]
pub enum IdGenerator {
    Uuid,
    NanoId,
    ShortId,
    Counter,
}

/// Request-id settings.
#[derive(Debug, Clone)]
pub struct TracingConfig {
    pub header_name: String,
    pub generate_id: bool,
    pub log_requests: bool,
    pub log_responses: bool,
    pub id_generator: IdGenerator,
}

impl TracingConfig {
    /// `X-Request-ID`, ids generated as nano ids, no logging.
    pub fn new() -> (r: TracingConfig)
        ensures
            r.header_name@ == "X-Request-ID"@,
            r.generate_id && !r.log_requests && !r.log_responses,
            r.id_generator == IdGenerator::NanoId,
    {
        TracingConfig {
            header_name: owned("X-Request-ID"),
            generate_id: true,
            log_requests: false,
            log_responses: false,
            id_generator: IdGenerator::NanoId,
        }
    }

    pub fn header_name(self, name: &str) -> (r: TracingConfig)
        ensures
            r.header_name@ == name@,
            r.generate_id == self.generate_id && r.log_requests == self.log_requests,
            r.log_responses == self.log_responses && r.id_generator == self.id_generator,
    {
        TracingConfig { header_name: owned(name), ..self }
    }

    pub fn generate_id(self, generate: bool) -> (r: TracingConfig)
        ensures
            r.header_name == self.header_name && r.generate_id == generate && r.log_requests == self.log_requests,
            r.log_responses == self.log_responses && r.id_generator == self.id_generator,
    {
        TracingConfig { generate_id: generate, ..self }
    }

    pub fn log_requests(self) -> (r: TracingConfig)
        ensures
            r.header_name == self.header_name && r.generate_id == self.generate_id && r.log_requests,
            r.log_responses == self.log_responses && r.id_generator == self.id_generator,
    {
        TracingConfig { log_requests: true, ..self }
    }

    pub fn log_responses(self) -> (r: TracingConfig)
        ensures
            r.header_name == self.header_name && r.generate_id == self.generate_id,
            r.log_requests == self.log_requests && r.log_responses && r.id_generator == self.id_generator,
    {
        TracingConfig { log_responses: true, ..self }
    }

    pub fn id_generator(self, generator: IdGenerator) -> (r: TracingConfig)
        ensures
            r.header_name == self.header_name && r.generate_id == self.generate_id,
            r.log_requests == self.log_requests && r.log_responses == self.log_responses,
            r.id_generator == generator,
    {
        TracingConfig { id_generator: generator, ..self }
    }
}

/// The request-id middleware.
pub struct Tracing {
    pub config: TracingConfig,
}

impl Tracing {
    pub fn new(config: TracingConfig) -> (r: Tracing)
        ensures
            r.config == config,
    {
        Tracing { config }
    }
}

/// One xorshift64 step.
pub open spec fn xorshift(s: u64) -> u64 {
    let a = s ^ ((s << 13u64) as u64);
    let b = a ^ (a >> 7u64);
    b ^ ((b << 17u64) as u64)
}

/// `n` bytes from a xorshift64 stream started at `seed`: the low byte of
/// each successive state.
pub open spec fn xorshift_bytes(seed: u64, n: nat) -> Seq<u8>
    decreases n,
{
    if n == 0 {
        Seq::empty()
    } else {
        seq![(xorshift(seed) % 256) as u8] + xorshift_bytes(xorshift(seed), (n - 1) as nat)
    }
}

/// `n` pseudo-random bytes from `seed`.
pub fn fill_from_seed(seed: u64, n: usize) -> (r: Vec<u8>)
    ensures
        r@ == xorshift_bytes(seed, n as nat),
        r@.len() == n,
{
    let mut out: Vec<u8> = Vec::new();
    let mut s = seed;
    let mut i: usize = 0;
    while i < n
        invariant
            i <= n,
            out@.len() == i,
            out@ + xorshift_bytes(s, (n - i) as nat) == xorshift_bytes(seed, n as nat),
        decreases n - i,
    {
        let a = s ^ (s << 13u64);
        let b = a ^ (a >> 7u64);
        let c = b ^ (b << 17u64);
        assert(c == xorshift(s));
        let ghost before = out@;
        out.push((c % 256) as u8);
        assert(before + xorshift_bytes(s, (n - i) as nat) =~= out@ + xorshift_bytes(c, (n - i - 1) as nat));
        s = c;
        i += 1;
    }
    assert(out@ + xorshift_bytes(s, 0) =~= out@);
    out
}

/// `n` in lowercase hex, zero-padded on the left to `w` digits.
pub open spec fn hex_padded(n: nat, w: nat) -> Seq<char> {
    let h = hex(n);
    if h.len() >= w { h } else { Seq::new((w - h.len()) as nat, |i: int| '0') + h }
}

fn push_hex_padded(s: &mut String, n: u64, w: usize)
    ensures
        final(s)@ == old(s)@ + hex_padded(n as nat, w as nat),
{
    let mut digits = String::new();
    push_hex(&mut digits, n);
    let dc = chars_of(digits.as_str());
    let mut k: usize = dc.len();
    while k < w
        invariant
            dc@ == hex(n as nat),
            dc@.len() <= k <= w || (dc@.len() >= w && k == dc@.len()),
            s@ == old(s)@ + Seq::new((k - dc@.len()) as nat, |i: int| '0'),
        decreases w - k,
    {
        push_char(s, '0');
        assert(old(s)@ + Seq::new((k + 1 - dc@.len()) as nat, |i: int| '0') =~= (old(s)@ + Seq::new((k - dc@.len()) as nat, |i: int| '0')).push('0'));
        k += 1;
    }
    let ghost zeros = s@;
    crate::text::push_chars(s, digits.as_str());
    proof {
        if dc@.len() >= w {
            assert(zeros =~= old(s)@);
        }
        assert(final(s)@ =~= old(s)@ + hex_padded(n as nat, w as nat));
    }
}

/// `n` in lowercase hex, zero-padded to `w` digits.
pub(crate) fn hex_text_padded(n: u64, w: usize) -> (r: String)
    ensures
        r@ == hex_padded(n as nat, w as nat),
{
    let mut s = String::new();
    push_hex_padded(&mut s, n, w);
    s
}

/// The number that big-endian bytes spell.
fn be_number(b: &Vec<u8>, from: usize, to: usize) -> (r: u64)
    requires
        from <= to <= b@.len(),
        to - from <= 8,
    ensures
        r as nat == crate::websocket::be_value(b@.subrange(from as int, to as int)),
{
    crate::websocket::read_be_slice(b.as_slice(), from, to)
}

/// The UUID text of sixteen bytes after the version and variant bits are set.
pub open spec fn uuid_text(b: Seq<u8>) -> Seq<char> {
    let v = b.update(6, ((b[6] % 16) + 64) as u8).update(8, ((b[8] % 64) + 128) as u8);
    hex_padded(crate::websocket::be_value(v.subrange(0, 4)), 8) + seq!['-']
        + hex_padded(crate::websocket::be_value(v.subrange(4, 6)), 4) + seq!['-']
        + hex_padded(crate::websocket::be_value(v.subrange(6, 8)), 4) + seq!['-']
        + hex_padded(crate::websocket::be_value(v.subrange(8, 10)), 4) + seq!['-']
        + hex_padded(crate::websocket::be_value(v.subrange(10, 16)), 12)
}

/// A version-4 UUID text from sixteen random bytes.
pub fn uuid_from_bytes(random: &Vec<u8>) -> (r: String)
    requires
        random@.len() == 16,
    ensures
        r@ == uuid_text(random@),
{
    let mut bytes = random.clone();
    let b6 = random[6];
    let b8 = random[8];
    bytes.set(6, (b6 % 16) + 64);
    bytes.set(8, (b8 % 64) + 128);
    let ghost v = random@.update(6, ((b6 % 16) + 64) as u8).update(8, ((b8 % 64) + 128) as u8);
    assert(bytes@ =~= v);
    let mut s = String::new();
    push_hex_padded(&mut s, be_number(&bytes, 0, 4), 8);
    push_char(&mut s, '-');
    push_hex_padded(&mut s, be_number(&bytes, 4, 6), 4);
    push_char(&mut s, '-');
    push_hex_padded(&mut s, be_number(&bytes, 6, 8), 4);
    push_char(&mut s, '-');
    push_hex_padded(&mut s, be_number(&bytes, 8, 10), 4);
    push_char(&mut s, '-');
    push_hex_padded(&mut s, be_number(&bytes, 10, 16), 12);
    assert(s@ =~= uuid_text(random@));
    s
}

/// Characters drawn from `alphabet` by each random byte modulo its size.
pub open spec fn pick_chars(random: Seq<u8>, alphabet: Seq<char>) -> Seq<char> {
    Seq::new(random.len(), |i: int| alphabet[random[i] as int % alphabet.len() as int])
}

fn pick(random: &Vec<u8>, alphabet: &str) -> (r: String)
    requires
        alphabet@.len() > 0,
    ensures
        r@ == pick_chars(random@, alphabet@),
{
    let a = chars_of(alphabet);
    let mut s = String::new();
    let mut i: usize = 0;
    while i < random.len()
        invariant
            a@ == alphabet@,
            a@.len() > 0,
            i <= random@.len(),
            s@ == pick_chars(random@, alphabet@).take(i as int),
        decreases random@.len() - i,
    {
        let k = (random[i] as usize) % a.len();
        push_char(&mut s, a[k]);
        assert(s@ =~= pick_chars(random@, alphabet@).take(i + 1));
        i += 1;
    }
    assert(s@ =~= pick_chars(random@, alphabet@));
    s
}

/// A 21-character nano id from random bytes.
pub fn nano_id_from_bytes(random: &Vec<u8>) -> (r: String)
    ensures
        r@ == pick_chars(random@, "0123456789ABCDEFGHIJKLMNOPQRSTUVWXYZabcdefghijklmnopqrstuvwxyz_-"@),
{
    proof {
        reveal_strlit("0123456789ABCDEFGHIJKLMNOPQRSTUVWXYZabcdefghijklmnopqrstuvwxyz_-");
    }
    pick(random, "0123456789ABCDEFGHIJKLMNOPQRSTUVWXYZabcdefghijklmnopqrstuvwxyz_-")
}

/// An alphanumeric short id from random bytes.
pub fn short_id_from_bytes(random: &Vec<u8>) -> (r: String)
    ensures
        r@ == pick_chars(random@, "0123456789ABCDEFGHIJKLMNOPQRSTUVWXYZabcdefghijklmnopqrstuvwxyz"@),
{
    proof {
        reveal_strlit("0123456789ABCDEFGHIJKLMNOPQRSTUVWXYZabcdefghijklmnopqrstuvwxyz");
    }
    pick(random, "0123456789ABCDEFGHIJKLMNOPQRSTUVWXYZabcdefghijklmnopqrstuvwxyz")
}

/// A random version-4 UUID, seeded from the clock.
pub fn generate_uuid() -> (r: String)
    ensures
        exists|seed: u64| r@ == uuid_text(#[trigger] xorshift_bytes(seed, 16)),
{
    uuid_from_bytes(&fill_from_seed(clock_nanos(), 16))
}

/// A random 21-character id, seeded from the clock.
pub fn generate_nano_id() -> (r: String)
    ensures
        r@.len() == 21,
{
    let b = fill_from_seed(clock_nanos(), 21);
    nano_id_from_bytes(&b)
}

/// A random 8-character id, seeded from the clock.
pub fn generate_short_id() -> (r: String)
    ensures
        r@.len() == 8,
{
    let b = fill_from_seed(clock_nanos(), 8);
    short_id_from_bytes(&b)
}

/// The next id of a caller-owned counter, as sixteen hex digits; the counter
/// advances by one, wrapping.
pub fn generate_counter_id(counter: &mut u64) -> (r: String)
    ensures
        r@ == hex_padded(*old(counter) as nat, 16),
        *final(counter) == (if *old(counter) == u64::MAX { 0 } else { (*old(counter) + 1) as u64 }),
{
    let count = *counter;
    *counter = count.wrapping_add(1);
    let mut s = String::new();
    push_hex_padded(&mut s, count, 16);
    s
}

} // verus!
