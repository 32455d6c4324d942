//! Request body size limits: sizes written as `10mb`, `500kb`, `1gb`, and
//! their display.
use vstd::prelude::*;
use crate::text::{owned, push_chars, push_char, push_decimal, decimal, digit_char, chars_of, string_of,
    trim, trimmed, to_lower, lower_of};

verus! {

pub const KB: usize = 1024;
pub const MB: usize = 1048576;
pub const GB: usize = 1073741824;

/// A body size limit and the message sent when it is exceeded.
#[derive(Debug, Clone)]
pub struct BodyLimitConfig {
    pub max_size: usize,
    pub message: String,
}

/// `s` is made of ASCII digits.
pub open spec fn all_digits(s: Seq<char>) -> bool {
    forall|i: int| 0 <= i < s.len() ==> '0' <= #[trigger] s[i] && s[i] <= '9'
}

/// The number that ASCII digits spell.
pub open spec fn digits_value(s: Seq<char>) -> nat
    decreases s.len(),
{
    if s.len() == 0 {
        0
    } else {
        digits_value(s.drop_last()) * 10 + (s.last() as nat - 48) as nat
    }
}

/// `s` without one leading `+`.
pub open spec fn unsigned_digits(s: Seq<char>) -> Seq<char> {
    if s.len() > 0 && s[0] == '+' { s.skip(1) } else { s }
}

/// Relies on usize's FromStr: an optional `+`, then one or more ASCII digits
/// whose value fits.
#[verifier::external_body]
fn parse_usize(s: &str) -> (r: Option<usize>)
    ensures
        r is Some <==> (unsigned_digits(s@).len() > 0 && all_digits(unsigned_digits(s@))
            && digits_value(unsigned_digits(s@)) <= usize::MAX),
        r is Some ==> r->0 as nat == digits_value(unsigned_digits(s@)),
{
    s.parse::<usize>().ok()
}

/// `s` ends with `t`.
pub open spec fn ends_with(s: Seq<char>, t: Seq<char>) -> bool {
    t.len() <= s.len() && s.skip(s.len() - t.len()) == t
}

/// The number part and the multiplier of a size text, once trimmed and
/// lowercased.
pub open spec fn size_parts(s: Seq<char>) -> (Seq<char>, nat) {
    if ends_with(s, "gb"@) {
        (s.take(s.len() - 2), GB as nat)
    } else if ends_with(s, "mb"@) {
        (s.take(s.len() - 2), MB as nat)
    } else if ends_with(s, "kb"@) {
        (s.take(s.len() - 2), KB as nat)
    } else if ends_with(s, "b"@) {
        (s.take(s.len() - 1), 1)
    } else {
        (s, 1)
    }
}

/// The byte count that a size text names, when it is a number that fits.
pub open spec fn parsed_size(s: Seq<char>) -> Option<nat> {
    parsed_lowered_size(lower_of(trimmed(s)))
}

/// The byte count that an already trimmed, lowercased size text names.
pub open spec fn parsed_lowered_size(s: Seq<char>) -> Option<nat> {
    let (num, mult) = size_parts(s);
    let t = unsigned_digits(trimmed(num));
    if t.len() > 0 && all_digits(t) && digits_value(t) <= usize::MAX && digits_value(t) * mult <= usize::MAX {
        Some(digits_value(t) * mult)
    } else {
        None
    }
}

fn ends_with_chars(cs: &Vec<char>, t: &str) -> (r: bool)
    ensures
        r == ends_with(cs@, t@),
{
    let tc = chars_of(t);
    if tc.len() > cs.len() {
        return false;
    }
    let cl = cs.len();
    let off = cl - tc.len();
    let mut i: usize = 0;
    while i < tc.len()
        invariant
            cl == cs@.len(),
            off + tc@.len() == cs@.len(),
            tc@ == t@,
            i <= tc@.len(),
            forall|k: int| 0 <= k < i ==> cs@[off + k] == tc@[k],
        decreases tc@.len() - i,
    {
        if cs[off + i] != tc[i] {
            assert(cs@.skip(off as int)[i as int] != t@[i as int]);
            return false;
        }
        i += 1;
    }
    assert(cs@.skip(off as int) =~= t@);
    true
}

impl BodyLimitConfig {
    /// A limit of `max_size` bytes with the default message.
    pub fn new(max_size: usize) -> (r: BodyLimitConfig)
        ensures
            r.max_size == max_size,
            r.message@ == "Request body too large"@,
    {
        BodyLimitConfig { max_size, message: owned("Request body too large") }
    }

    pub fn bytes(size: usize) -> (r: BodyLimitConfig)
        ensures
            r.max_size == size,
    {
        BodyLimitConfig::new(size)
    }

    pub fn kb(size: usize) -> (r: BodyLimitConfig)
        requires
            size * KB <= usize::MAX,
        ensures
            r.max_size == size * KB,
    {
        BodyLimitConfig::new(size * KB)
    }

    pub fn mb(size: usize) -> (r: BodyLimitConfig)
        requires
            size * MB <= usize::MAX,
        ensures
            r.max_size == size * MB,
    {
        BodyLimitConfig::new(size * MB)
    }

    pub fn gb(size: usize) -> (r: BodyLimitConfig)
        requires
            size * GB <= usize::MAX,
        ensures
            r.max_size == size * GB,
    {
        BodyLimitConfig::new(size * GB)
    }

    /// Reads a size such as `10mb`, `500kb`, `1gb`, `100b` or `100`; case and
    /// surrounding whitespace do not matter. `None` when the number is not
    /// one, or the size does not fit.
    pub fn parse(s: &str) -> (r: Option<BodyLimitConfig>)
        ensures
            match parsed_size(s@) {
                Some(n) => r is Some && r->0.max_size == n,
                None => r is None,
            },
    {
        let t = trim(s);
        let lower = to_lower(t.as_str());
        BodyLimitConfig::parse_lowered(lower.as_str())
    }

    /// Reads a size text that is already trimmed and lowercased.
    pub fn parse_lowered(lower: &str) -> (r: Option<BodyLimitConfig>)
        ensures
            match parsed_lowered_size(lower@) {
                Some(n) => r is Some && r->0.max_size == n,
                None => r is None,
            },
    {
        let cs = chars_of(lower);
        proof {
            reveal_strlit("gb");
            reveal_strlit("mb");
            reveal_strlit("kb");
            reveal_strlit("b");
        }
        let (cut, mult): (usize, usize) = if ends_with_chars(&cs, "gb") {
            (cs.len() - 2, GB)
        } else if ends_with_chars(&cs, "mb") {
            (cs.len() - 2, MB)
        } else if ends_with_chars(&cs, "kb") {
            (cs.len() - 2, KB)
        } else if ends_with_chars(&cs, "b") {
            (cs.len() - 1, 1)
        } else {
            (cs.len(), 1)
        };
        let num = string_of(&cs.as_slice()[0..cut]);
        assert(num@ =~= size_parts(lower@).0);
        let num_t = trim(num.as_str());
        match parse_usize(num_t.as_str()) {
            Some(n) => {
                match n.checked_mul(mult) {
                    Some(v) => Some(BodyLimitConfig::new(v)),
                    None => None,
                }
            },
            None => None,
        }
    }

    pub fn message(self, msg: &str) -> (r: BodyLimitConfig)
        ensures
            r.max_size == self.max_size,
            r.message@ == msg@,
    {
        BodyLimitConfig { message: owned(msg), ..self }
    }
}

/// `n / d` rounded to the nearest integer, ties to even.
pub open spec fn round_half_even(n: nat, d: nat) -> nat
    recommends
        d > 0,
{
    let q = n / d;
    let r = n % d;
    if 2 * r > d || (2 * r == d && q % 2 == 1) { q + 1 } else { q }
}

/// A size as people read it: bytes below 1 KiB, else KiB, MiB or GiB with
/// one decimal, rounded half to even.
pub open spec fn size_text(bytes: nat) -> Seq<char> {
    if bytes < KB {
        decimal(bytes) + "B"@
    } else {
        let (unit, suffix) = if bytes >= GB {
            (GB as nat, "GB"@)
        } else if bytes >= MB {
            (MB as nat, "MB"@)
        } else {
            (KB as nat, "KB"@)
        };
        let tenths = round_half_even(bytes * 10, unit);
        decimal(tenths / 10) + seq!['.', digit_char(tenths % 10)] + suffix
    }
}

/// Formats a byte count for messages.
pub fn format_size(bytes: usize) -> (r: String)
    ensures
        r@ == size_text(bytes as nat),
{
    if bytes < KB {
        let mut s = String::new();
        push_decimal(&mut s, bytes as u64);
        push_chars(&mut s, "B");
        proof {
            assert(s@ =~= decimal(bytes as nat) + "B"@);
        }
        return s;
    }
    let (unit, suffix): (u128, &str) = if bytes >= GB {
        (GB as u128, "GB")
    } else if bytes >= MB {
        (MB as u128, "MB")
    } else {
        (KB as u128, "KB")
    };
    let n: u128 = bytes as u128 * 10;
    let q = n / unit;
    let rem = n % unit;
    let tenths: u128 = if 2 * rem > unit || (2 * rem == unit && q % 2 == 1) { q + 1 } else { q };
    let mut s = String::new();
    push_decimal(&mut s, (tenths / 10) as u64);
    push_char(&mut s, '.');
    push_char(&mut s, digit_of(tenths % 10));
    push_chars(&mut s, suffix);
    s
}

fn digit_of(d: u128) -> (r: char)
    requires
        d < 10,
    ensures
        r == digit_char(d as nat),
{
    match d {
        0 => '0',
        1 => '1',
        2 => '2',
        3 => '3',
        4 => '4',
        5 => '5',
        6 => '6',
        7 => '7',
        8 => '8',
        _ => '9',
    }
}

/// The body limit middleware.
pub struct BodyLimit {
    pub config: BodyLimitConfig,
}

impl BodyLimit {
    pub fn new(config: BodyLimitConfig) -> (r: BodyLimit)
        ensures
            r.config == config,
    {
        BodyLimit { config }
    }

    /// One MiB, for JSON bodies.
    pub fn json() -> (r: BodyLimit)
        ensures
            r.config.max_size == MB,
    {
        BodyLimit::new(BodyLimitConfig::mb(1))
    }

    /// Ten MiB, for uploads.
    pub fn upload() -> (r: BodyLimit)
        ensures
            r.config.max_size == 10 * MB,
    {
        BodyLimit::new(BodyLimitConfig::mb(10))
    }

    /// A hundred MiB, for large uploads.
    pub fn large_upload() -> (r: BodyLimit)
        ensures
            r.config.max_size == 100 * MB,
    {
        BodyLimit::new(BodyLimitConfig::mb(100))
    }
}

} // verus!
