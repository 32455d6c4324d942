//! WebSocket frames: opcodes, encoding and decoding, close frames, an
//! outgoing frame queue, and the handshake's accept key.
use vstd::prelude::*;
use vstd::string::StringSliceAdditionalSpecFns;
use crate::crypto::{base64_encode, base64_of, sha1};
use crate::text::{owned, push_chars, to_lower, lower_of, str_eq, contains_str};

verus! {

/// A frame opcode.
#[derive(Debug, Clone, Copy, PartialEq, Eq, Structural)]
pub enum Opcode {
    Continuation,
    Text,
    Binary,
    Close,
    Ping,
    Pong,
}

impl Opcode {
    /// The opcode's four-bit value.
    pub open spec fn code(self) -> u8 {
        match self {
            Opcode::Continuation => 0,
            Opcode::Text => 1,
            Opcode::Binary => 2,
            Opcode::Close => 8,
            Opcode::Ping => 9,
            Opcode::Pong => 10,
        }
    }

    /// The opcode whose value is `v`, if any.
    pub open spec fn from_code(v: u8) -> Option<Opcode> {
        if v == 0 {
            Some(Opcode::Continuation)
        } else if v == 1 {
            Some(Opcode::Text)
        } else if v == 2 {
            Some(Opcode::Binary)
        } else if v == 8 {
            Some(Opcode::Close)
        } else if v == 9 {
            Some(Opcode::Ping)
        } else if v == 10 {
            Some(Opcode::Pong)
        } else {
            None
        }
    }

    pub fn as_u8(&self) -> (r: u8)
        ensures
            r == self.code(),
    {
        match self {
            Opcode::Continuation => 0,
            Opcode::Text => 1,
            Opcode::Binary => 2,
            Opcode::Close => 8,
            Opcode::Ping => 9,
            Opcode::Pong => 10,
        }
    }

    /// The opcode in the low four bits of `byte`.
    pub fn from_u8(byte: u8) -> (r: Option<Opcode>)
        ensures
            r == Opcode::from_code(byte % 16),
    {
        match byte % 16 {
            0 => Some(Opcode::Continuation),
            1 => Some(Opcode::Text),
            2 => Some(Opcode::Binary),
            8 => Some(Opcode::Close),
            9 => Some(Opcode::Ping),
            10 => Some(Opcode::Pong),
            _ => None,
        }
    }
}

/// A close frame's status code and reason.
#[derive(Debug, Clone)]
pub struct CloseFrame {
    pub code: u16,
    pub reason: String,
}

impl CloseFrame {
    pub fn normal() -> (r: CloseFrame)
        ensures
            r.code == 1000,
            r.reason@ == "Normal closure"@,
    {
        CloseFrame { code: 1000, reason: owned("Normal closure") }
    }

    pub fn going_away() -> (r: CloseFrame)
        ensures
            r.code == 1001,
            r.reason@ == "Going away"@,
    {
        CloseFrame { code: 1001, reason: owned("Going away") }
    }

    pub fn protocol_error() -> (r: CloseFrame)
        ensures
            r.code == 1002,
            r.reason@ == "Protocol error"@,
    {
        CloseFrame { code: 1002, reason: owned("Protocol error") }
    }
}

/// A message delivered to a WebSocket handler.
#[derive(Debug, Clone)]
pub enum WebSocketMessage {
    Text(String),
    Binary(Vec<u8>),
    Ping(Vec<u8>),
    Pong(Vec<u8>),
    Close(Option<CloseFrame>),
}

/// One WebSocket frame.
#[derive(Debug, Clone)]
pub struct Frame {
    pub fin: bool,
    pub opcode: Opcode,
    pub mask: Option<[u8; 4]>,
    pub payload: Vec<u8>,
}

/// `k` big-endian bytes of `n`, modulo `256^k`.
pub open spec fn be_bytes(n: nat, k: nat) -> Seq<u8>
    decreases k,
{
    if k == 0 {
        Seq::empty()
    } else {
        be_bytes(n / 256, (k - 1) as nat).push((n % 256) as u8)
    }
}

/// The number that the big-endian bytes `s` spell.
pub open spec fn be_value(s: Seq<u8>) -> nat
    decreases s.len(),
{
    if s.len() == 0 {
        0
    } else {
        be_value(s.drop_last()) * 256 + s.last() as nat
    }
}

/// `p` with each byte xored with the mask byte at its position modulo four.
pub open spec fn masked(p: Seq<u8>, m: [u8; 4]) -> Seq<u8> {
    Seq::new(p.len(), |i: int| p[i] ^ m@[i % 4])
}

/// The length field: one byte below 126, else a marker and two or eight bytes.
pub open spec fn length_field(n: nat, mask_bit: u8) -> Seq<u8> {
    if n < 126 {
        seq![(mask_bit + n) as u8]
    } else if n < 65536 {
        seq![(mask_bit + 126) as u8] + be_bytes(n, 2)
    } else {
        seq![(mask_bit + 127) as u8] + be_bytes(n, 8)
    }
}

/// The wire form of a frame.
pub open spec fn frame_bytes(fin: bool, op: Opcode, mask: Option<[u8; 4]>, payload: Seq<u8>) -> Seq<u8> {
    let first = ((if fin { 128int } else { 0int }) + op.code()) as u8;
    let mask_bit: u8 = if mask is Some { 128 } else { 0 };
    seq![first] + length_field(payload.len(), mask_bit) + match mask {
        Some(m) => m@ + masked(payload, m),
        None => payload,
    }
}

/// Appends `k` big-endian bytes of `n`.
fn push_be(out: &mut Vec<u8>, n: u64, k: usize)
    ensures
        final(out)@ == old(out)@ + be_bytes(n as nat, k as nat),
    decreases k,
{
    if k == 0 {
        assert(old(out)@ + Seq::<u8>::empty() =~= old(out)@);
        return;
    }
    push_be(out, n / 256, k - 1);
    out.push((n % 256) as u8);
    assert(final(out)@ =~= old(out)@ + be_bytes(n as nat, k as nat));
}

/// Appends the bytes of `src`.
fn push_all(out: &mut Vec<u8>, src: &[u8])
    ensures
        final(out)@ == old(out)@ + src@,
{
    let mut i: usize = 0;
    while i < src.len()
        invariant
            i <= src@.len(),
            out@ == old(out)@ + src@.take(i as int),
        decreases src@.len() - i,
    {
        out.push(src[i]);
        assert(old(out)@ + src@.take(i + 1) =~= (old(out)@ + src@.take(i as int)).push(src@[i as int]));
        i += 1;
    }
    assert(src@.take(src@.len() as int) =~= src@);
}

/// Encodes a frame from its parts.
fn encode_parts(fin: bool, opcode: Opcode, mask: Option<[u8; 4]>, payload: &[u8]) -> (r: Vec<u8>)
    ensures
        r@ == frame_bytes(fin, opcode, mask, payload@),
{
    let mut buf: Vec<u8> = Vec::new();
    let first: u8 = (if fin { 128u8 } else { 0u8 }) + opcode.as_u8();
    buf.push(first);
    let len = payload.len();
    let mask_bit: u8 = if mask.is_some() { 128 } else { 0 };
    if len < 126 {
        buf.push(mask_bit + len as u8);
    } else if len < 65536 {
        buf.push(mask_bit + 126);
        push_be(&mut buf, len as u64, 2);
    } else {
        buf.push(mask_bit + 127);
        push_be(&mut buf, len as u64, 8);
    }
    let ghost head = buf@;
    assert(head =~= seq![first] + length_field(payload@.len(), mask_bit));
    match mask {
        Some(m) => {
            push_all(&mut buf, m.as_slice());
            let mut i: usize = 0;
            while i < payload.len()
                invariant
                    i <= payload@.len(),
                    buf@ == head + m@ + masked(payload@, m).take(i as int),
                decreases payload@.len() - i,
            {
                buf.push(payload[i] ^ m[i % 4]);
                assert(masked(payload@, m).take(i + 1) =~= masked(payload@, m).take(i as int).push(payload@[i as int] ^ m@[(i % 4) as int]));
                i += 1;
            }
            assert(masked(payload@, m).take(payload@.len() as int) =~= masked(payload@, m));
        },
        None => {
            push_all(&mut buf, payload);
        },
    }
    buf
}

/// What `Frame::decode` reads from `d`: fin, opcode, mask, payload and the
/// number of bytes taken, or `None` when `d` does not hold a whole frame.
pub open spec fn decode_model(d: Seq<u8>) -> Option<(bool, Opcode, Option<[u8; 4]>, Seq<u8>, nat)> {
    if d.len() < 2 {
        None
    } else {
        match Opcode::from_code(d[0] % 16) {
            None => None,
            Some(op) => {
                let fin = d[0] >= 128;
                let masked_bit = d[1] >= 128;
                let short = d[1] % 128;
                let (plen, off) = if short == 126 {
                    (be_value(d.subrange(2, 4)), 4int)
                } else if short == 127 {
                    (be_value(d.subrange(2, 10)), 10int)
                } else {
                    (short as nat, 2int)
                };
                if d.len() < off {
                    None
                } else if masked_bit && d.len() < off + 4 {
                    None
                } else {
                    let start = if masked_bit { off + 4 } else { off };
                    if d.len() < start + plen {
                        None
                    } else {
                        let raw = d.subrange(start, start + plen);
                        if masked_bit {
                            let m = [d[off], d[off + 1], d[off + 2], d[off + 3]];
                            Some((fin, op, Some(m), masked(raw, m), (start + plen) as nat))
                        } else {
                            Some((fin, op, None, raw, (start + plen) as nat))
                        }
                    }
                }
            }
        }
    }
}

impl Frame {
    pub fn text(data: &str) -> (r: Frame)
        ensures
            r.fin && r.opcode == Opcode::Text && r.mask is None,
            r.payload@ == data.spec_bytes(),
    {
        let mut payload = Vec::new();
        push_all(&mut payload, data.as_bytes());
        Frame { fin: true, opcode: Opcode::Text, mask: None, payload }
    }

    pub fn binary(data: &[u8]) -> (r: Frame)
        ensures
            r.fin && r.opcode == Opcode::Binary && r.mask is None,
            r.payload@ == data@,
    {
        let mut payload = Vec::new();
        push_all(&mut payload, data);
        Frame { fin: true, opcode: Opcode::Binary, mask: None, payload }
    }

    pub fn ping(data: &[u8]) -> (r: Frame)
        ensures
            r.fin && r.opcode == Opcode::Ping && r.mask is None,
            r.payload@ == data@,
    {
        let mut payload = Vec::new();
        push_all(&mut payload, data);
        Frame { fin: true, opcode: Opcode::Ping, mask: None, payload }
    }

    pub fn pong(data: &[u8]) -> (r: Frame)
        ensures
            r.fin && r.opcode == Opcode::Pong && r.mask is None,
            r.payload@ == data@,
    {
        let mut payload = Vec::new();
        push_all(&mut payload, data);
        Frame { fin: true, opcode: Opcode::Pong, mask: None, payload }
    }

    /// A close frame: the code in two big-endian bytes, then the reason.
    pub fn close(code: u16, reason: &str) -> (r: Frame)
        ensures
            r.fin && r.opcode == Opcode::Close && r.mask is None,
            r.payload@ == be_bytes(code as nat, 2) + reason.spec_bytes(),
    {
        let mut payload = Vec::new();
        push_be(&mut payload, code as u64, 2);
        push_all(&mut payload, reason.as_bytes());
        assert(Seq::<u8>::empty() + be_bytes(code as nat, 2) =~= be_bytes(code as nat, 2));
        Frame { fin: true, opcode: Opcode::Close, mask: None, payload }
    }

    /// The wire form of the frame, masked when it carries a mask.
    pub fn encode(&self) -> (r: Vec<u8>)
        ensures
            r@ == frame_bytes(self.fin, self.opcode, self.mask, self.payload@),
    {
        encode_parts(self.fin, self.opcode, self.mask, self.payload.as_slice())
    }

    /// Reads one frame from the front of `data`, unmasking its payload; gives
    /// the frame and the number of bytes it took.
    pub fn decode(data: &[u8]) -> (r: Option<(Frame, usize)>)
        ensures
            match decode_model(data@) {
                None => r is None,
                Some((fin, op, mask, payload, n)) => r is Some && (r->0).0.fin == fin && (r->0).0.opcode == op
                    && (r->0).0.mask == mask && (r->0).0.payload@ == payload && (r->0).1 == n,
            },
    {
        let len = data.len();
        if len < 2 {
            return None;
        }
        let fin = data[0] >= 128;
        let opcode = match Opcode::from_u8(data[0]) {
            Some(op) => op,
            None => return None,
        };
        let is_masked = data[1] >= 128;
        let short = data[1] % 128;
        let mut payload_len: u64 = short as u64;
        let mut offset: usize = 2;
        if short == 126 {
            if len < 4 {
                return None;
            }
            payload_len = read_be(data, 2, 4);
            offset = 4;
        } else if short == 127 {
            if len < 10 {
                return None;
            }
            payload_len = read_be(data, 2, 10);
            offset = 10;
        }
        let mask: Option<[u8; 4]> = if is_masked {
            if len - offset < 4 {
                return None;
            }
            let m = [data[offset], data[offset + 1], data[offset + 2], data[offset + 3]];
            offset += 4;
            Some(m)
        } else {
            None
        };
        if ((len - offset) as u64) < payload_len {
            return None;
        }
        let plen = payload_len as usize;
        let end = offset + plen;
        let mut payload: Vec<u8> = Vec::new();
        let mut i: usize = 0;
        while i < plen
            invariant
                i <= plen,
                end == offset + plen,
                end <= data@.len(),
                payload@.len() == i,
                forall|j: int| 0 <= j < i ==> payload@[j] == match mask {
                    Some(m) => data@[offset + j] ^ m@[j % 4],
                    None => data@[offset + j],
                },
            decreases plen - i,
        {
            let b = data[offset + i];
            let v = match mask {
                Some(m) => b ^ m[i % 4],
                None => b,
            };
            payload.push(v);
            i += 1;
        }
        proof {
            let raw = data@.subrange(offset as int, end as int);
            match mask {
                Some(m) => {
                    assert(payload@ =~= masked(raw, m));
                },
                None => {
                    assert(payload@ =~= raw);
                },
            }
        }
        Some((Frame { fin, opcode, mask, payload }, end))
    }
}

/// Reads the big-endian number in `data[from..to]`, at most eight bytes.
fn read_be(data: &[u8], from: usize, to: usize) -> (r: u64)
    requires
        from <= to <= data@.len(),
        to - from <= 8,
    ensures
        r as nat == be_value(data@.subrange(from as int, to as int)),
{
    let mut v: u64 = 0;
    let mut i: usize = from;
    while i < to
        invariant
            from <= i <= to,
            to <= data@.len(),
            v as nat == be_value(data@.subrange(from as int, i as int)),
            v < pow256((i - from) as nat),
            to - from <= 8,
        decreases to - i,
    {
        assert(data@.subrange(from as int, i + 1).drop_last() =~= data@.subrange(from as int, i as int));
        proof {
            lemma_pow256_bound((i - from) as nat);
        }
        let b = data[i];
        assert(v * 256 + b < pow256((i - from + 1) as nat)) by (nonlinear_arith)
            requires
                v < pow256((i - from) as nat),
                b < 256,
                pow256((i - from + 1) as nat) == pow256((i - from) as nat) * 256;
        v = v * 256 + b as u64;
        i += 1;
    }
    v
}

/// Reads the big-endian number in `data[from..to]`, at most eight bytes.
pub(crate) fn read_be_slice(data: &[u8], from: usize, to: usize) -> (r: u64)
    requires
        from <= to <= data@.len(),
        to - from <= 8,
    ensures
        r as nat == be_value(data@.subrange(from as int, to as int)),
{
    read_be(data, from, to)
}

/// `256^k`.
pub open spec fn pow256(k: nat) -> nat
    decreases k,
{
    if k == 0 { 1 } else { pow256((k - 1) as nat) * 256 }
}

proof fn lemma_pow256_bound(k: nat)
    requires
        k < 8,
    ensures
        pow256(k + 1) == pow256(k) * 256,
        pow256(k + 1) <= 0x1_0000_0000_0000_0000,
    decreases k,
{
    reveal_with_fuel(pow256, 9);
    if k > 0 {
        lemma_pow256_bound((k - 1) as nat);
    }
}

/// Callbacks that an application implements to serve a WebSocket.
pub trait WebSocketHandler {
    fn on_open(&self, ws: &WebSocket);

    fn on_message(&self, ws: &WebSocket, msg: WebSocketMessage);

    fn on_close(&self, ws: &WebSocket, frame: Option<CloseFrame>);

    fn on_error(&self, ws: &WebSocket, error: &str);
}

/// A connection's outgoing frame queue.
pub struct WebSocket {
    pub id: u64,
    /// Frames queued for sending, oldest first.
    pub send_buffer: Vec<Frame>,
}

impl WebSocket {
    /// The frames queued and not yet taken, oldest first.
    pub open spec fn queued(&self) -> Seq<Frame> {
        self.send_buffer@
    }

    pub fn new(id: u64) -> (r: WebSocket)
        ensures
            r.id == id,
            r.queued().len() == 0,
    {
        WebSocket { id, send_buffer: Vec::new() }
    }

    /// Queues a frame.
    pub fn send_frame(&mut self, frame: Frame)
        ensures
            final(self).id == old(self).id,
            final(self).queued() == old(self).queued().push(frame),
    {
        self.send_buffer.push(frame);
    }

    /// Queues a text frame.
    pub fn send_text(&mut self, data: &str)
        ensures
            final(self).id == old(self).id,
            final(self).queued().len() == old(self).queued().len() + 1,
            final(self).queued().drop_last() == old(self).queued(),
            final(self).queued().last().opcode == Opcode::Text,
            final(self).queued().last().payload@ == data.spec_bytes(),
    {
        self.send_frame(Frame::text(data));
    }

    /// Queues a binary frame.
    pub fn send_binary(&mut self, data: &[u8])
        ensures
            final(self).id == old(self).id,
            final(self).queued().len() == old(self).queued().len() + 1,
            final(self).queued().drop_last() == old(self).queued(),
            final(self).queued().last().opcode == Opcode::Binary,
            final(self).queued().last().payload@ == data@,
    {
        self.send_frame(Frame::binary(data));
    }

    /// Queues a ping frame.
    pub fn ping(&mut self, data: &[u8])
        ensures
            final(self).id == old(self).id,
            final(self).queued().len() == old(self).queued().len() + 1,
            final(self).queued().drop_last() == old(self).queued(),
            final(self).queued().last().opcode == Opcode::Ping,
            final(self).queued().last().payload@ == data@,
    {
        self.send_frame(Frame::ping(data));
    }

    /// Queues a close frame.
    pub fn close(&mut self, code: u16, reason: &str)
        ensures
            final(self).id == old(self).id,
            final(self).queued().len() == old(self).queued().len() + 1,
            final(self).queued().drop_last() == old(self).queued(),
            final(self).queued().last().opcode == Opcode::Close,
            final(self).queued().last().payload@ == be_bytes(code as nat, 2) + reason.spec_bytes(),
    {
        self.send_frame(Frame::close(code, reason));
    }

    /// Takes every queued frame, leaving the queue empty.
    pub fn take_frames(&mut self) -> (r: Vec<Frame>)
        ensures
            r@ == old(self).queued(),
            final(self).queued().len() == 0,
            final(self).id == old(self).id,
    {
        let mut out: Vec<Frame> = Vec::new();
        std::mem::swap(&mut out, &mut self.send_buffer);
        out
    }
}

/// The `Sec-WebSocket-Accept` value for a client key.
pub fn generate_accept_key(key: &str) -> (r: String)
    ensures
        r@.len() == 28,
{
    crate::crypto::websocket_accept_key(key)
}

/// Encodes an unmasked frame, as a server sends it.
pub fn encode_frame(opcode: Opcode, payload: &[u8], fin: bool) -> (r: Vec<u8>)
    ensures
        r@ == frame_bytes(fin, opcode, None, payload@),
{
    encode_parts(fin, opcode, None, payload)
}

/// Encodes a text frame.
pub fn encode_text(text: &str, fin: bool) -> (r: Vec<u8>)
    ensures
        r@ == frame_bytes(fin, Opcode::Text, None, text.spec_bytes()),
{
    encode_frame(Opcode::Text, text.as_bytes(), fin)
}

/// Encodes a binary frame.
pub fn encode_binary(data: &[u8], fin: bool) -> (r: Vec<u8>)
    ensures
        r@ == frame_bytes(fin, Opcode::Binary, None, data@),
{
    encode_frame(Opcode::Binary, data, fin)
}

/// Encodes a final ping frame.
pub fn encode_ping(data: &[u8]) -> (r: Vec<u8>)
    ensures
        r@ == frame_bytes(true, Opcode::Ping, None, data@),
{
    encode_frame(Opcode::Ping, data, true)
}

/// Encodes a final pong frame.
pub fn encode_pong(data: &[u8]) -> (r: Vec<u8>)
    ensures
        r@ == frame_bytes(true, Opcode::Pong, None, data@),
{
    encode_frame(Opcode::Pong, data, true)
}

/// The payload of a close frame: the code, then the reason, only when a code
/// is given.
pub open spec fn close_payload(code: Option<u16>, reason: Option<Seq<u8>>) -> Seq<u8> {
    match code {
        Some(c) => be_bytes(c as nat, 2) + match reason {
            Some(t) => t,
            None => Seq::empty(),
        },
        None => Seq::empty(),
    }
}

/// Encodes a final close frame.
pub fn encode_close(code: Option<u16>, reason: Option<&str>) -> (r: Vec<u8>)
    ensures
        r@ == frame_bytes(true, Opcode::Close, None, close_payload(code, match reason {
            Some(t) => Some(t.spec_bytes()),
            None => None,
        })),
{
    let mut payload: Vec<u8> = Vec::new();
    match code {
        Some(c) => {
            push_be(&mut payload, c as u64, 2);
            match reason {
                Some(t) => push_all(&mut payload, t.as_bytes()),
                None => {},
            }
        },
        None => {},
    }
    proof {
        match code {
            Some(c) => {
                assert(payload@ =~= close_payload(code, match reason {
                    Some(t) => Some(t.spec_bytes()),
                    None => None,
                }));
            },
            None => {},
        }
    }
    encode_frame(Opcode::Close, payload.as_slice(), true)
}

/// The four facts an upgrade request must show, after reading the headers in
/// order (a later header of the same name overrides an earlier one): upgrade
/// to `websocket`, a connection naming `upgrade`, a non-empty key, version 13.
pub open spec fn upgrade_flags(hs: Seq<(Seq<char>, Seq<char>)>) -> (bool, bool, bool, bool)
    decreases hs.len(),
{
    if hs.len() == 0 {
        (false, false, false, false)
    } else {
        let f = upgrade_flags(hs.drop_last());
        let name = lower_of(hs.last().0);
        let value = hs.last().1;
        if name == "upgrade"@ {
            (lower_of(value) == "websocket"@, f.1, f.2, f.3)
        } else if name == "connection"@ {
            (f.0, crate::text::occurs_in(lower_of(value), "upgrade"@), f.2, f.3)
        } else if name == "sec-websocket-key"@ {
            (f.0, f.1, value.len() > 0, f.3)
        } else if name == "sec-websocket-version"@ {
            (f.0, f.1, f.2, value == "13"@)
        } else {
            f
        }
    }
}

/// The views of header pairs.
pub open spec fn header_views(hs: Seq<(String, String)>) -> Seq<(Seq<char>, Seq<char>)> {
    hs.map_values(|p: (String, String)| (p.0@, p.1@))
}

/// Whether the headers ask for a WebSocket upgrade.
pub fn is_websocket_upgrade(headers: &[(String, String)]) -> (r: bool)
    ensures
        r == ({
            let f = upgrade_flags(header_views(headers@));
            f.0 && f.1 && f.2 && f.3
        }),
{
    let mut has_upgrade = false;
    let mut has_connection = false;
    let mut has_key = false;
    let mut has_version = false;
    let mut i: usize = 0;
    while i < headers.len()
        invariant
            i <= headers@.len(),
            (has_upgrade, has_connection, has_key, has_version) == upgrade_flags(header_views(headers@.take(i as int))),
        decreases headers@.len() - i,
    {
        let (name, value) = &headers[i];
        let name_lower = to_lower(name.as_str());
        let value_lower = to_lower(value.as_str());
        assert(header_views(headers@.take(i + 1)).drop_last() =~= header_views(headers@.take(i as int)));
        assert(header_views(headers@.take(i + 1)).last() == (name@, value@));
        if str_eq(name_lower.as_str(), "upgrade") {
            has_upgrade = str_eq(value_lower.as_str(), "websocket");
        } else if str_eq(name_lower.as_str(), "connection") {
            has_connection = contains_str(value_lower.as_str(), "upgrade");
        } else if str_eq(name_lower.as_str(), "sec-websocket-key") {
            has_key = !value.as_str().is_empty();
        } else if str_eq(name_lower.as_str(), "sec-websocket-version") {
            has_version = str_eq(value.as_str(), "13");
        }
        i += 1;
    }
    assert(headers@.take(headers@.len() as int) =~= headers@);
    has_upgrade && has_connection && has_key && has_version
}

} // verus!
