//! Byte-level reading and searching shared by the container parsers.
//!
//! The spec functions here describe what the parsers read from a file:
//! fixed-width integers in either byte order and the first place where a
//! byte pattern occurs.
use vstd::prelude::*;

verus! {

/// Big-endian 16-bit value of the two bytes at `off`.
pub open spec fn be16(d: Seq<u8>, off: int) -> u16 {
    (d[off] as int * 256 + d[off + 1] as int) as u16
}

/// Little-endian 16-bit value of the two bytes at `off`.
pub open spec fn le16(d: Seq<u8>, off: int) -> u16 {
    (d[off + 1] as int * 256 + d[off] as int) as u16
}

/// Big-endian 32-bit value of the four bytes at `off`.
pub open spec fn be32(d: Seq<u8>, off: int) -> u32 {
    (d[off] as int * 16777216 + d[off + 1] as int * 65536 + d[off + 2] as int * 256
        + d[off + 3] as int) as u32
}

/// Little-endian 32-bit value of the four bytes at `off`.
pub open spec fn le32(d: Seq<u8>, off: int) -> u32 {
    (d[off + 3] as int * 16777216 + d[off + 2] as int * 65536 + d[off + 1] as int * 256
        + d[off] as int) as u32
}

/// `needle` occurs in `hay` starting at byte `pos`.
pub open spec fn matches_at(hay: Seq<u8>, pos: int, needle: Seq<u8>) -> bool {
    &&& 0 <= pos
    &&& pos + needle.len() <= hay.len()
    &&& hay.subrange(pos, pos + needle.len()) == needle
}

/// `needle` occurs in `hay` at some position below `limit`.
pub open spec fn occurs_before(hay: Seq<u8>, needle: Seq<u8>, limit: int) -> bool {
    exists|p: int| 0 <= p < limit && #[trigger] matches_at(hay, p, needle)
}

/// Position of the first occurrence of a non-empty `needle` in `hay`.
#[verifier::opaque]
pub open spec fn first_match(hay: Seq<u8>, needle: Seq<u8>) -> Option<int> {
    if needle.len() == 0 || needle.len() > hay.len() {
        None
    } else if occurs_before(hay, needle, hay.len() as int + 1) {
        Some(choose|p: int| #[trigger] matches_at(hay, p, needle)
            && forall|q: int| 0 <= q < p ==> !#[trigger] matches_at(hay, q, needle))
    } else {
        None
    }
}

proof fn lemma_least_match_exists(hay: Seq<u8>, needle: Seq<u8>, n: int)
    requires
        occurs_before(hay, needle, n),
    ensures
        exists|p: int| #[trigger] matches_at(hay, p, needle)
            && forall|q: int| 0 <= q < p ==> !#[trigger] matches_at(hay, q, needle),
    decreases n,
{
    let w = choose|w: int| 0 <= w < n && #[trigger] matches_at(hay, w, needle);
    if occurs_before(hay, needle, w) {
        lemma_least_match_exists(hay, needle, w);
    } else {
        assert forall|q: int| 0 <= q < w implies !#[trigger] matches_at(hay, q, needle) by {
            if matches_at(hay, q, needle) {
                assert(occurs_before(hay, needle, w));
            }
        }
    }
}

/// What [`first_match`] gives: the least position where a non-empty needle
/// occurs, within bounds, or `None` when it occurs nowhere.
pub proof fn lemma_first_match(hay: Seq<u8>, needle: Seq<u8>)
    ensures
        needle.len() == 0 ==> first_match(hay, needle) is None,
        match first_match(hay, needle) {
            Some(p) => {
                &&& 0 <= p
                &&& p + needle.len() <= hay.len()
                &&& matches_at(hay, p, needle)
                &&& forall|q: int| 0 <= q < p ==> !#[trigger] matches_at(hay, q, needle)
            },
            None => needle.len() == 0 || forall|q: int| !#[trigger] matches_at(hay, q, needle),
        },
{
    reveal(first_match);
    if needle.len() == 0 || needle.len() > hay.len() {
    } else if occurs_before(hay, needle, hay.len() as int + 1) {
        lemma_least_match_exists(hay, needle, hay.len() as int + 1);
    } else {
        assert forall|q: int| !#[trigger] matches_at(hay, q, needle) by {
            if matches_at(hay, q, needle) {
                assert(0 <= q < hay.len() + 1);
            }
        }
    }
}

/// The first occurrence is unique: it is the least matching position.
pub proof fn lemma_first_match_is_least(hay: Seq<u8>, needle: Seq<u8>, p: int)
    requires
        needle.len() > 0,
        matches_at(hay, p, needle),
        forall|q: int| 0 <= q < p ==> !#[trigger] matches_at(hay, q, needle),
    ensures
        first_match(hay, needle) == Some(p),
{
    lemma_first_match(hay, needle);
    match first_match(hay, needle) {
        Some(c) => {
            if c < p {
                assert(!matches_at(hay, c, needle));
            } else if p < c {
                assert(!matches_at(hay, p, needle));
            }
        },
        None => {
            assert(!matches_at(hay, p, needle));
        },
    }
}

/// A non-empty needle that occurs nowhere has no first occurrence.
pub proof fn lemma_first_match_none(hay: Seq<u8>, needle: Seq<u8>)
    requires
        needle.len() > 0,
        forall|q: int| !#[trigger] matches_at(hay, q, needle),
    ensures
        first_match(hay, needle) is None,
{
    lemma_first_match(hay, needle);
}

/// Exec check that `needle` occurs in `hay` at `pos`.
pub fn bytes_match_at(hay: &[u8], pos: usize, needle: &[u8]) -> (r: bool)
    ensures
        r == matches_at(hay@, pos as int, needle@),
{
    if pos > hay.len() || needle.len() > hay.len() - pos {
        return false;
    }
    let mut i: usize = 0;
    while i < needle.len()
        invariant
            pos + needle@.len() <= hay@.len(),
            hay@.len() == hay.len(),
            i <= needle@.len(),
            forall|k: int| 0 <= k < i ==> hay@[pos + k] == needle@[k],
        decreases needle@.len() - i,
    {
        if hay[pos + i] != needle[i] {
            assert(hay@.subrange(pos as int, pos + needle@.len())[i as int] != needle@[i as int]);
            return false;
        }
        i = i + 1;
    }
    assert(hay@.subrange(pos as int, pos + needle@.len()) =~= needle@);
    true
}

/// Append the bytes of `s` to `v`.
pub fn append_bytes(v: &mut Vec<u8>, s: &[u8])
    ensures
        final(v)@ == old(v)@ + s@,
{
    let ghost start = v@;
    let mut i: usize = 0;
    while i < s.len()
        invariant
            i <= s@.len(),
            v@ == start + s@.take(i as int),
        decreases s@.len() - i,
    {
        v.push(s[i]);
        i = i + 1;
        assert(v@ =~= start + s@.take(i as int));
    }
    assert(s@.take(s@.len() as int) =~= s@);
}

} // verus!
