//! Forward scans over byte sequences, and the byte searches they rest on.
use vstd::prelude::*;

verus! {

/// The first index at or after `from` whose byte satisfies `p`, or `s.len()`
/// when there is none.
pub open spec fn next_where(s: Seq<u8>, from: int, p: spec_fn(u8) -> bool) -> int
    decreases s.len() - from,
{
    if from < 0 || from >= s.len() {
        s.len() as int
    } else if p(s[from]) {
        from
    } else {
        next_where(s, from + 1, p)
    }
}

/// A found index characterises `next_where`.
pub proof fn lemma_next_where(s: Seq<u8>, from: int, i: int, p: spec_fn(u8) -> bool)
    requires
        0 <= from <= i <= s.len(),
        forall|j: int| from <= j < i ==> !p(s[j]),
        i == s.len() || p(s[i]),
    ensures
        next_where(s, from, p) == i,
    decreases i - from,
{
    if from < i {
        lemma_next_where(s, from + 1, i, p);
    }
}

/// What `next_where` returns: a bound, and nothing satisfying `p` before it.
pub proof fn lemma_next_where_facts(s: Seq<u8>, from: int, p: spec_fn(u8) -> bool)
    requires
        0 <= from <= s.len(),
    ensures
        from <= next_where(s, from, p) <= s.len(),
        next_where(s, from, p) < s.len() ==> p(s[next_where(s, from, p)]),
        forall|j: int| from <= j < next_where(s, from, p) ==> !p(#[trigger] s[j]),
    decreases s.len() - from,
{
    if from < s.len() && !p(s[from]) {
        lemma_next_where_facts(s, from + 1, p);
    }
}

/// Relies on memchr::memchr: the index of the first occurrence of `needle`.
#[verifier::external_body]
pub(crate) fn find_byte(needle: u8, hay: &[u8]) -> (r: Option<usize>)
    ensures
        match r {
            Some(i) => i < hay@.len() && hay@[i as int] == needle && forall|j: int|
                0 <= j < i ==> hay@[j] != needle,
            None => forall|j: int| 0 <= j < hay@.len() ==> hay@[j] != needle,
        },
{
    memchr::memchr(needle, hay)
}

/// Relies on memchr::memchr2: the index of the first occurrence of either needle.
#[verifier::external_body]
pub(crate) fn find_either(n1: u8, n2: u8, hay: &[u8]) -> (r: Option<usize>)
    ensures
        match r {
            Some(i) => i < hay@.len() && (hay@[i as int] == n1 || hay@[i as int] == n2)
                && forall|j: int| 0 <= j < i ==> hay@[j] != n1 && hay@[j] != n2,
            None => forall|j: int| 0 <= j < hay@.len() ==> hay@[j] != n1 && hay@[j] != n2,
        },
{
    memchr::memchr2(n1, n2, hay)
}

} // verus!
