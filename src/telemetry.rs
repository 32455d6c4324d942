//! Telemetry helpers: the W3C `tracestate` list, span kinds, and counters.
use vstd::prelude::*;
use crate::text::{owned, push_chars, push_char, split_pieces, pieces, trim, trimmed, chars_of, string_of};
use crate::range::index_of;
use crate::tracing::{xorshift, hex_padded, hex_text_padded, fill_from_seed, xorshift_bytes};
use crate::crypto::{hex_encode, hex_of};
use crate::clock::clock_nanos;

verus! {

/// The `key=value` entries of a `tracestate` header, in order: each
/// comma-separated member is trimmed and split at its first `=`; members
/// without one are skipped.
pub open spec fn tracestate_entries(ps: Seq<Seq<char>>) -> Seq<(Seq<char>, Seq<char>)>
    decreases ps.len(),
{
    if ps.len() == 0 {
        Seq::empty()
    } else {
        let t = trimmed(ps.last());
        let c = index_of(t, '=');
        let rest = tracestate_entries(ps.drop_last());
        if c < t.len() { rest.push((t.take(c), t.skip(c + 1))) } else { rest }
    }
}

pub open spec fn pair_views(v: Seq<(String, String)>) -> Seq<(Seq<char>, Seq<char>)> {
    v.map_values(|p: (String, String)| (p.0@, p.1@))
}

/// Parses a `tracestate` header into its entries.
pub fn parse_tracestate(header: &str) -> (r: Vec<(String, String)>)
    ensures
        pair_views(r@) == tracestate_entries(pieces(header@, ',')),
{
    let ps = split_pieces(header, ',');
    let ghost pv = pieces(header@, ',');
    let mut out: Vec<(String, String)> = Vec::new();
    let mut i: usize = 0;
    while i < ps.len()
        invariant
            i <= ps@.len(),
            ps@.len() == pv.len(),
            forall|k: int| 0 <= k < ps@.len() ==> (#[trigger] ps@[k])@ == pv[k],
            pair_views(out@) == tracestate_entries(pv.take(i as int)),
        decreases ps@.len() - i,
    {
        assert(pv.take(i + 1).drop_last() =~= pv.take(i as int));
        assert(pv.take(i + 1).last() == ps@[i as int]@);
        let t = trim(ps[i].as_str());
        let cs = chars_of(t.as_str());
        let mut c: usize = 0;
        while c < cs.len() && cs[c] != '='
            invariant
                c <= cs@.len(),
                crate::auth::first_char(cs@, '=', 0) == crate::auth::first_char(cs@, '=', c as int),
            decreases cs@.len() - c,
        {
            c += 1;
        }
        if c < cs.len() {
            let key = string_of(&cs.as_slice()[0..c]);
            let value = string_of(&cs.as_slice()[c + 1..cs.len()]);
            assert(key@ =~= cs@.take(c as int));
            assert(value@ =~= cs@.skip(c + 1));
            let ghost before = out@;
            out.push((key, value));
            assert(pair_views(out@) =~= pair_views(before).push((cs@.take(c as int), cs@.skip(c + 1))));
        }
        i += 1;
    }
    assert(pv.take(pv.len() as int) =~= pv);
    out
}

/// `key=value` entries joined with commas.
pub open spec fn tracestate_text(es: Seq<(Seq<char>, Seq<char>)>) -> Seq<char>
    decreases es.len(),
{
    if es.len() == 0 {
        Seq::empty()
    } else if es.len() == 1 {
        es[0].0 + seq!['='] + es[0].1
    } else {
        tracestate_text(es.drop_last()) + seq![','] + es.last().0 + seq!['='] + es.last().1
    }
}

/// Formats entries as a `tracestate` header.
pub fn format_tracestate(state: &[(String, String)]) -> (r: String)
    ensures
        r@ == tracestate_text(pair_views(state@)),
{
    let mut s = String::new();
    let mut i: usize = 0;
    while i < state.len()
        invariant
            i <= state@.len(),
            s@ == tracestate_text(pair_views(state@.take(i as int))),
        decreases state@.len() - i,
    {
        assert(pair_views(state@.take(i + 1)).drop_last() =~= pair_views(state@.take(i as int)));
        if i > 0 {
            push_char(&mut s, ',');
        }
        push_chars(&mut s, state[i].0.as_str());
        push_char(&mut s, '=');
        push_chars(&mut s, state[i].1.as_str());
        proof {
            if i == 0 {
                assert(s@ =~= tracestate_text(pair_views(state@.take(1))));
            } else {
                assert(s@ =~= tracestate_text(pair_views(state@.take(i + 1))));
            }
        }
        i += 1;
    }
    assert(state@.take(state@.len() as int) =~= state@);
    s
}

/// The role of a span.
#[derive(Debug, Clone, Copy, PartialEq, Eq, Structural)]
pub enum SpanKind {
    Internal,
    Server,
    Client,
    Producer,
    Consumer,
}

impl SpanKind {
    /// The OTLP value of the kind.
    pub fn as_i32(&self) -> (r: i32)
        ensures
            r == (match self {
                SpanKind::Internal => 0i32,
                SpanKind::Server => 1i32,
                SpanKind::Client => 2i32,
                SpanKind::Producer => 3i32,
                SpanKind::Consumer => 4i32,
            }),
    {
        match self {
            SpanKind::Internal => 0,
            SpanKind::Server => 1,
            SpanKind::Client => 2,
            SpanKind::Producer => 3,
            SpanKind::Consumer => 4,
        }
    }
}

/// A monotonically increasing counter; additions wrap at `u64::MAX`.
pub struct Counter {
    pub name: String,
    pub value: u64,
}

impl Counter {
    pub fn new(name: &str) -> (r: Counter)
        ensures
            r.name@ == name@,
            r.value == 0,
    {
        Counter { name: owned(name), value: 0 }
    }

    pub fn name(&self) -> (r: &str)
        ensures
            r@ == self.name@,
    {
        self.name.as_str()
    }

    pub fn add(&mut self, delta: u64)
        ensures
            final(self).name == old(self).name,
            final(self).value == (old(self).value as int + delta as int) % 0x1_0000_0000_0000_0000,
    {
        self.value = self.value.wrapping_add(delta);
    }

    pub fn inc(&mut self)
        ensures
            final(self).name == old(self).name,
            final(self).value == (old(self).value as int + 1) % 0x1_0000_0000_0000_0000,
    {
        self.add(1);
    }

    pub fn get(&self) -> (r: u64)
        ensures
            r == self.value,
    {
        self.value
    }
}

/// A gauge; its value is kept as the bits of a 64-bit float.
pub struct Gauge {
    pub name: String,
    pub bits: u64,
}

impl Gauge {
    pub fn new(name: &str) -> (r: Gauge)
        ensures
            r.name@ == name@,
            r.bits == 0,
    {
        Gauge { name: owned(name), bits: 0 }
    }

    pub fn name(&self) -> (r: &str)
        ensures
            r@ == self.name@,
    {
        self.name.as_str()
    }
}

/// The state used when a generator is seeded with zero.
pub const DEFAULT_SEED: u64 = 0x853c49e6748fea9b;

/// A caller-owned xorshift64 generator for trace and span ids.
pub struct TraceRng {
    pub state: u64,
}

/// A generator from a seed; zero, which xorshift would never leave, is
/// replaced by a fixed nonzero seed.
pub fn seed_rng(seed: u64) -> (r: TraceRng)
    ensures
        r.state == (if seed == 0 { DEFAULT_SEED } else { seed }),
{
    TraceRng { state: if seed == 0 { DEFAULT_SEED } else { seed } }
}

impl TraceRng {
    /// Advances the state and returns it.
    pub fn next_u64(&mut self) -> (r: u64)
        ensures
            r == xorshift(old(self).state),
            final(self).state == r,
    {
        let x = self.state;
        let a = x ^ (x << 13u64);
        let b = a ^ (a >> 7u64);
        let c = b ^ (b << 17u64);
        self.state = c;
        c
    }
}

/// A 32-hex-digit trace id from the next two numbers of the generator.
pub fn generate_trace_id(rng: &mut TraceRng) -> (r: String)
    ensures
        r@ == hex_padded(xorshift(old(rng).state) as nat, 16) + hex_padded(xorshift(xorshift(old(rng).state)) as nat, 16),
        final(rng).state == xorshift(xorshift(old(rng).state)),
{
    let high = rng.next_u64();
    let low = rng.next_u64();
    let mut s = hex_text_padded(high, 16);
    let l = hex_text_padded(low, 16);
    push_chars(&mut s, l.as_str());
    s
}

/// A 16-hex-digit span id from the next number of the generator.
pub fn generate_span_id(rng: &mut TraceRng) -> (r: String)
    ensures
        r@ == hex_padded(xorshift(old(rng).state) as nat, 16),
        final(rng).state == xorshift(old(rng).state),
{
    let id = rng.next_u64();
    hex_text_padded(id, 16)
}

/// A WebSocket mask: the low four bytes of the next number, high first.
pub fn generate_mask(rng: &mut TraceRng) -> (r: [u8; 4])
    ensures
        ({
            let x = xorshift(old(rng).state);
            r@ == seq![((x / 16777216) % 256) as u8, ((x / 65536) % 256) as u8, ((x / 256) % 256) as u8, (x % 256) as u8]
        }),
        final(rng).state == xorshift(old(rng).state),
{
    let r = rng.next_u64();
    let m = [((r / 16777216) % 256) as u8, ((r / 65536) % 256) as u8, ((r / 256) % 256) as u8, (r % 256) as u8];
    assert(m@ =~= seq![((r / 16777216) % 256) as u8, ((r / 65536) % 256) as u8, ((r / 256) % 256) as u8, (r % 256) as u8]);
    m
}

/// Bytes as lowercase hex.
pub fn bytes_to_hex(bytes: &[u8]) -> (r: String)
    ensures
        r@ == hex_of(bytes@),
{
    hex_encode(bytes)
}

/// `len` pseudo-random bytes seeded from the clock.
pub fn generate_random_bytes(len: usize) -> (r: Vec<u8>)
    ensures
        r@.len() == len,
        exists|seed: u64| r@ == #[trigger] xorshift_bytes(seed, len as nat),
{
    fill_from_seed(clock_nanos(), len)
}

/// The clock in nanoseconds since the Unix epoch.
pub fn current_time_nanos() -> (r: u64) {
    clock_nanos()
}

/// A W3C trace context.
#[derive(Debug, Clone)]
pub struct SpanContext {
    pub trace_id: String,
    pub span_id: String,
    pub trace_flags: u8,
    pub trace_state: Option<String>,
}

pub open spec fn is_hex_char(c: char) -> bool {
    ('0' <= c && c <= '9') || ('a' <= c && c <= 'f') || ('A' <= c && c <= 'F')
}

/// `n` characters, every one a hex digit.
pub open spec fn hex_field(s: Seq<char>, n: nat) -> bool {
    s.len() == n && forall|i: int| 0 <= i < s.len() ==> is_hex_char(#[trigger] s[i])
}

pub open spec fn hex_char_val(c: char) -> nat {
    if '0' <= c && c <= '9' {
        (c as int - 48) as nat
    } else if 'a' <= c && c <= 'f' {
        (c as int - 87) as nat
    } else {
        (c as int - 55) as nat
    }
}

/// The accepted `traceparent` parts: version `00`, a 32-digit trace id that
/// is not all zeros, a 16-digit span id and two flag digits.
pub open spec fn traceparent_ok(ps: Seq<Seq<char>>) -> bool {
    &&& ps.len() == 4
    &&& ps[0] == "00"@
    &&& hex_field(ps[1], 32)
    &&& !(forall|i: int| 0 <= i < 32 ==> #[trigger] ps[1][i] == '0')
    &&& hex_field(ps[2], 16)
    &&& hex_field(ps[3], 2)
}

fn all_hex(cs: &Vec<char>) -> (r: bool)
    ensures
        r == forall|i: int| 0 <= i < cs@.len() ==> is_hex_char(#[trigger] cs@[i]),
{
    let mut i: usize = 0;
    while i < cs.len()
        invariant
            i <= cs@.len(),
            forall|k: int| 0 <= k < i ==> is_hex_char(#[trigger] cs@[k]),
        decreases cs@.len() - i,
    {
        let c = cs[i];
        if !(('0' <= c && c <= '9') || ('a' <= c && c <= 'f') || ('A' <= c && c <= 'F')) {
            return false;
        }
        i += 1;
    }
    true
}

fn hex_value(c: char) -> (r: u8)
    requires
        is_hex_char(c),
    ensures
        r as nat == hex_char_val(c),
        r < 16,
{
    if '0' <= c && c <= '9' {
        (c as u32 - 48) as u8
    } else if 'a' <= c && c <= 'f' {
        (c as u32 - 87) as u8
    } else {
        (c as u32 - 55) as u8
    }
}

/// Reads a `traceparent` header: `00-<trace id>-<span id>-<flags>`.
pub fn parse_traceparent(header: &str) -> (r: Option<SpanContext>)
    ensures
        traceparent_ok(pieces(header@, '-')) ==> r is Some && r->0.trace_id@ == pieces(header@, '-')[1]
            && r->0.span_id@ == pieces(header@, '-')[2]
            && r->0.trace_flags as nat == hex_char_val(pieces(header@, '-')[3][0]) * 16 + hex_char_val(
            pieces(header@, '-')[3][1],
        ) && r->0.trace_state is None,
        !traceparent_ok(pieces(header@, '-')) ==> r is None,
{
    let parts = split_pieces(header, '-');
    let ghost pv = pieces(header@, '-');
    if parts.len() != 4 {
        return None;
    }
    proof {
        reveal_strlit("00");
    }
    if !crate::text::str_eq(parts[0].as_str(), "00") {
        return None;
    }
    let t = chars_of(parts[1].as_str());
    if t.len() != 32 || !all_hex(&t) {
        return None;
    }
    let mut z: usize = 0;
    while z < 32 && t[z] == '0'
        invariant
            t@.len() == 32,
            z <= 32,
            forall|i: int| 0 <= i < z ==> t@[i] == '0',
        decreases 32 - z,
    {
        z += 1;
    }
    if z == 32 {
        return None;
    }
    let sp = chars_of(parts[2].as_str());
    if sp.len() != 16 || !all_hex(&sp) {
        return None;
    }
    let f = chars_of(parts[3].as_str());
    if f.len() != 2 || !all_hex(&f) {
        return None;
    }
    let flags = hex_value(f[0]) * 16 + hex_value(f[1]);
    Some(SpanContext { trace_id: string_of(t.as_slice()), span_id: string_of(sp.as_slice()), trace_flags: flags, trace_state: None })
}

impl SpanContext {
    /// The sampled flag, the lowest bit of the flags.
    pub fn is_sampled(&self) -> (r: bool)
        ensures
            r == (self.trace_flags % 2 == 1),
    {
        self.trace_flags % 2 == 1
    }
}

/// `00-<trace id>-<span id>-<flags as two hex digits>`.
pub fn format_traceparent(ctx: &SpanContext) -> (r: String)
    ensures
        r@ == "00-"@ + ctx.trace_id@ + seq!['-'] + ctx.span_id@ + seq!['-'] + hex_padded(ctx.trace_flags as nat, 2),
{
    let mut s = owned("00-");
    push_chars(&mut s, ctx.trace_id.as_str());
    push_char(&mut s, '-');
    push_chars(&mut s, ctx.span_id.as_str());
    push_char(&mut s, '-');
    let f = hex_text_padded(ctx.trace_flags as u64, 2);
    push_chars(&mut s, f.as_str());
    s
}

} // verus!
