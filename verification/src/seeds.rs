//! The seed bytes of deterministic address derivation.
//!
//! A candidate record's address is derived from the domain-separation tag
//! `candidate`, the owning poll's address, and the one-byte little-endian
//! encoding of the pre-increment candidate counter; a voter receipt's
//! address from the tag `receipt`, the poll's address, and the voter's
//! identity bytes. The derivation hashes the concatenation of those seed
//! parts in that order; any consumer that predicts or validates addresses
//! must reproduce these bytes exactly. Distinct inputs give distinct seed
//! bytes, which is what makes a derived address a uniqueness guard.

use vstd::prelude::*;
use crate::pubkey::Pubkey;

verus! {

broadcast use crate::pubkey::lemma_pubkey_len;

/// The domain-separation tag of candidate addresses: the bytes of
/// `candidate`.
pub open spec fn candidate_seed_tag() -> Seq<u8> {
    seq![99u8, 97u8, 110u8, 100u8, 105u8, 100u8, 97u8, 116u8, 101u8]
}

/// The domain-separation tag of receipt addresses: the bytes of `receipt`.
pub open spec fn receipt_seed_tag() -> Seq<u8> {
    seq![114u8, 101u8, 99u8, 101u8, 105u8, 112u8, 116u8]
}

/// The concatenated seed bytes of a candidate address: tag, poll address,
/// one-byte counter.
pub open spec fn candidate_seed(poll: Seq<u8>, count: u8) -> Seq<u8> {
    candidate_seed_tag() + poll + seq![count]
}

/// The concatenated seed bytes of a receipt address: tag, poll address,
/// voter identity.
pub open spec fn receipt_seed(poll: Seq<u8>, voter: Seq<u8>) -> Seq<u8> {
    receipt_seed_tag() + poll + voter
}

/// The seed bytes from which a candidate's address is derived.
pub fn candidate_seed_bytes(poll: &Pubkey, count: u8) -> (r: Vec<u8>)
    ensures
        r@ == candidate_seed(poll@, count),
{
    let mut out: Vec<u8> = Vec::new();
    out.push(99);
    out.push(97);
    out.push(110);
    out.push(100);
    out.push(105);
    out.push(100);
    out.push(97);
    out.push(116);
    out.push(101);
    proof {
        assert(out@ =~= candidate_seed_tag());
    }
    crate::codec::write_key(&mut out, poll);
    out.push(count);
    proof {
        assert(out@ =~= candidate_seed(poll@, count));
    }
    out
}

/// The seed bytes from which a receipt's address is derived.
pub fn receipt_seed_bytes(poll: &Pubkey, voter: &Pubkey) -> (r: Vec<u8>)
    ensures
        r@ == receipt_seed(poll@, voter@),
{
    let mut out: Vec<u8> = Vec::new();
    out.push(114);
    out.push(101);
    out.push(99);
    out.push(101);
    out.push(105);
    out.push(112);
    out.push(116);
    proof {
        assert(out@ =~= receipt_seed_tag());
    }
    crate::codec::write_key(&mut out, poll);
    crate::codec::write_key(&mut out, voter);
    proof {
        assert(out@ =~= receipt_seed(poll@, voter@));
    }
    out
}

/// Two candidate derivations agree only on the same poll and counter: the
/// seed bytes pin both down.
pub proof fn lemma_candidate_seed_injective(p1: Seq<u8>, c1: u8, p2: Seq<u8>, c2: u8)
    requires
        p1.len() == 32,
        p2.len() == 32,
        candidate_seed(p1, c1) == candidate_seed(p2, c2),
    ensures
        p1 == p2,
        c1 == c2,
{
    let s1 = candidate_seed(p1, c1);
    let s2 = candidate_seed(p2, c2);
    assert(p1 =~= s1.subrange(9, 41));
    assert(p2 =~= s2.subrange(9, 41));
    assert(c1 == s1[41]);
    assert(c2 == s2[41]);
}

/// Two receipt derivations agree only on the same poll and voter: the seed
/// bytes pin both down.
pub proof fn lemma_receipt_seed_injective(p1: Seq<u8>, v1: Seq<u8>, p2: Seq<u8>, v2: Seq<u8>)
    requires
        p1.len() == 32,
        v1.len() == 32,
        p2.len() == 32,
        v2.len() == 32,
        receipt_seed(p1, v1) == receipt_seed(p2, v2),
    ensures
        p1 == p2,
        v1 == v2,
{
    let s1 = receipt_seed(p1, v1);
    let s2 = receipt_seed(p2, v2);
    assert(p1 =~= s1.subrange(7, 39));
    assert(p2 =~= s2.subrange(7, 39));
    assert(v1 =~= s1.subrange(39, 71));
    assert(v2 =~= s2.subrange(39, 71));
}

/// A candidate seed is never a receipt seed: the domain tags differ.
pub proof fn lemma_seed_domains_disjoint(p1: Seq<u8>, c: u8, p2: Seq<u8>, v: Seq<u8>)
    ensures
        candidate_seed(p1, c) != receipt_seed(p2, v),
{
    let s1 = candidate_seed(p1, c);
    let s2 = receipt_seed(p2, v);
    assert(s1[0] == 99u8);
    assert(s2[0] == 114u8);
}

} // verus!
