//! Reverse-proxy helpers: the forwarded protocol and the forwarded-for chain.
use vstd::prelude::*;
use crate::text::{split_pieces, pieces, trim, trimmed};

verus! {

/// The protocol a client used.
#[derive(Debug, Clone, Copy, PartialEq, Eq, Structural)]
pub enum Protocol {
    Http,
    Https,
}

impl Protocol {
    pub open spec fn name(self) -> Seq<char> {
        match self {
            Protocol::Http => "http"@,
            Protocol::Https => "https"@,
        }
    }

    pub fn as_str(&self) -> (r: &'static str)
        ensures
            r@ == self.name(),
    {
        match self {
            Protocol::Http => "http",
            Protocol::Https => "https",
        }
    }

    pub fn default_port(&self) -> (r: u16)
        ensures
            r == (match self {
                Protocol::Http => 80u16,
                Protocol::Https => 443u16,
            }),
    {
        match self {
            Protocol::Http => 80,
            Protocol::Https => 443,
        }
    }
}

/// The trimmed, non-empty entries of a list.
pub open spec fn nonempty_trimmed(ps: Seq<Seq<char>>) -> Seq<Seq<char>>
    decreases ps.len(),
{
    if ps.len() == 0 {
        Seq::empty()
    } else if trimmed(ps.last()).len() == 0 {
        nonempty_trimmed(ps.drop_last())
    } else {
        nonempty_trimmed(ps.drop_last()).push(trimmed(ps.last()))
    }
}

/// The addresses of an `X-Forwarded-For` header: its comma-separated
/// entries, trimmed, with empty ones dropped.
pub fn parse_forwarded_for(header: &str) -> (r: Vec<String>)
    ensures
        r@.len() == nonempty_trimmed(pieces(header@, ',')).len(),
        forall|i: int| 0 <= i < r@.len() ==> (#[trigger] r@[i])@ == nonempty_trimmed(pieces(header@, ','))[i],
{
    let ps = split_pieces(header, ',');
    let ghost pv = pieces(header@, ',');
    let mut out: Vec<String> = Vec::new();
    let mut i: usize = 0;
    while i < ps.len()
        invariant
            i <= ps@.len(),
            ps@.len() == pv.len(),
            pv == pieces(header@, ','),
            forall|k: int| 0 <= k < ps@.len() ==> (#[trigger] ps@[k])@ == pv[k],
            out@.len() == nonempty_trimmed(pv.take(i as int)).len(),
            forall|k: int| 0 <= k < out@.len() ==> (#[trigger] out@[k])@ == nonempty_trimmed(pv.take(i as int))[k],
        decreases ps@.len() - i,
    {
        let t = trim(ps[i].as_str());
        assert(pv.take(i + 1).drop_last() =~= pv.take(i as int));
        assert(pv.take(i + 1).last() == ps@[i as int]@);
        if !t.as_str().is_empty() {
            out.push(t);
        }
        i += 1;
    }
    assert(pv.take(pv.len() as int) =~= pv);
    out
}

} // verus!
