//! The record layer of the binary contract: each record is a fixed
//! eight-byte type tag followed by its fields in declaration order, with
//! little-endian integers and length-prefixed text, and nothing after them.
//!
//! Decoding is stated as a pure function of the bytes; encoding then
//! decoding any well-formed record yields the record back.

use vstd::prelude::*;
use vstd::bytes::{spec_u64_to_le_bytes, spec_u32_to_le_bytes};
use vstd::utf8::encode_utf8;
use crate::accounts::{
    CandidateAccount, CandidateView, PollAccount, PollView, ReceiptView, VoterReceipt,
    MAX_CANDIDATES, MAX_DESCRIPTION_BYTES, MAX_NAME_BYTES,
};
use crate::codec::{
    concat_keys, lemma_read_keys_props, lemma_read_string_bound, enc_keys, enc_string, lemma_read_bytes_of, lemma_read_key_of, lemma_read_keys_of,
    lemma_read_string_of, lemma_read_u32_of, lemma_read_u64_of, lemma_read_u8_of, read_key,
    read_keys, read_string, read_u32, read_u64, read_u8, take_key, take_keys, take_string,
    take_u32, take_u64, take_u8, write_key, write_keys, write_string, write_u32, write_u64,
};
use crate::pubkey::Pubkey;

verus! {

broadcast use crate::pubkey::lemma_pubkey_len;

/// The type tag that opens every encoded poll record.
pub open spec fn poll_record_tag() -> Seq<u8> {
    seq![109u8, 254u8, 117u8, 41u8, 232u8, 74u8, 172u8, 45u8]
}

/// The type tag that opens every encoded candidate record.
pub open spec fn candidate_record_tag() -> Seq<u8> {
    seq![69u8, 203u8, 73u8, 43u8, 203u8, 170u8, 96u8, 121u8]
}

/// The type tag that opens every encoded voter receipt record.
pub open spec fn receipt_record_tag() -> Seq<u8> {
    seq![94u8, 230u8, 87u8, 51u8, 169u8, 216u8, 144u8, 98u8]
}

/// The eight tag bytes of a poll record.
pub fn poll_record_tag_bytes() -> (r: [u8; 8])
    ensures
        r@ == poll_record_tag(),
{
    let r: [u8; 8] = [109, 254, 117, 41, 232, 74, 172, 45];
    proof {
        assert(r@ =~= poll_record_tag());
    }
    r
}

/// The eight tag bytes of a candidate record.
pub fn candidate_record_tag_bytes() -> (r: [u8; 8])
    ensures
        r@ == candidate_record_tag(),
{
    let r: [u8; 8] = [69, 203, 73, 43, 203, 170, 96, 121];
    proof {
        assert(r@ =~= candidate_record_tag());
    }
    r
}

/// The eight tag bytes of a voter receipt record.
pub fn receipt_record_tag_bytes() -> (r: [u8; 8])
    ensures
        r@ == receipt_record_tag(),
{
    let r: [u8; 8] = [94, 230, 87, 51, 169, 216, 144, 98];
    proof {
        assert(r@ =~= receipt_record_tag());
    }
    r
}

/// Appends an eight-byte tag.
pub fn write_tag(out: &mut Vec<u8>, tag: [u8; 8])
    ensures
        final(out)@ == old(out)@ + tag@,
{
    let mut i: usize = 0;
    while i < 8
        invariant
            i <= 8,
            out@ == old(out)@ + tag@.take(i as int),
        decreases 8 - i,
    {
        out.push(tag[i]);
        proof {
            assert(old(out)@ + tag@.take(i as int) + seq![tag@[i as int]] =~= old(out)@
                + tag@.take(i as int + 1));
        }
        i = i + 1;
    }
    proof {
        assert(tag@.take(8) =~= tag@);
    }
}

/// Whether the bytes start with the given eight-byte tag.
pub fn check_tag(b: &[u8], tag: [u8; 8]) -> (r: bool)
    ensures
        r == (b@.len() >= 8 && b@.take(8) == tag@),
{
    if b.len() < 8 {
        return false;
    }
    let mut i: usize = 0;
    while i < 8
        invariant
            i <= 8,
            b@.len() >= 8,
            forall|j: int| 0 <= j < i ==> b@[j] == tag@[j],
        decreases 8 - i,
    {
        if b[i] != tag[i] {
            assert(b@.take(8)[i as int] != tag@[i as int]);
            return false;
        }
        i = i + 1;
    }
    proof {
        assert(b@.take(8) =~= tag@);
    }
    true
}

/// The encoded form of a poll record.
pub open spec fn spec_encode_poll(p: PollView) -> Seq<u8> {
    poll_record_tag() + (p.authority + (enc_string(p.name) + (enc_string(p.description) + (
    spec_u64_to_le_bytes(p.start_time) + (spec_u64_to_le_bytes(p.end_time) + (seq![
        p.candidate_count,
    ] + enc_keys(p.candidates)))))))
}

/// The poll record a byte string holds, if any: the tag, each field in
/// order within its bounds, a candidate list in lockstep with the counter,
/// and nothing after them.
pub open spec fn spec_decode_poll(b: Seq<u8>) -> Option<PollView> {
    if b.len() < 8 || b.take(8) != poll_record_tag() {
        None
    } else {
        match read_key(b.skip(8)) {
            None => None,
            Some((authority, b1)) => match read_string(b1, MAX_NAME_BYTES as nat) {
                None => None,
                Some((name, b2)) => match read_string(b2, MAX_DESCRIPTION_BYTES as nat) {
                    None => None,
                    Some((description, b3)) => match read_u64(b3) {
                        None => None,
                        Some((start_time, b4)) => match read_u64(b4) {
                            None => None,
                            Some((end_time, b5)) => match read_u8(b5) {
                                None => None,
                                Some((candidate_count, b6)) => match read_u32(b6) {
                                    None => None,
                                    Some((n, b7)) => if n != candidate_count as u32
                                        || candidate_count > MAX_CANDIDATES {
                                        None
                                    } else {
                                        match read_keys(b7, n as nat) {
                                            None => None,
                                            Some((candidates, b8)) => if b8.len() != 0 {
                                                None
                                            } else {
                                                Some(
                                                    PollView {
                                                        authority,
                                                        name,
                                                        description,
                                                        start_time,
                                                        end_time,
                                                        candidate_count,
                                                        candidates,
                                                    },
                                                )
                                            },
                                        }
                                    },
                                },
                            },
                        },
                    },
                },
            },
        }
    }
}

/// The encoded form of a candidate record.
pub open spec fn spec_encode_candidate(c: CandidateView) -> Seq<u8> {
    candidate_record_tag() + (c.poll + (enc_string(c.name) + spec_u64_to_le_bytes(c.votes)))
}

/// The candidate record a byte string holds, if any.
pub open spec fn spec_decode_candidate(b: Seq<u8>) -> Option<CandidateView> {
    if b.len() < 8 || b.take(8) != candidate_record_tag() {
        None
    } else {
        match read_key(b.skip(8)) {
            None => None,
            Some((poll, b1)) => match read_string(b1, MAX_NAME_BYTES as nat) {
                None => None,
                Some((name, b2)) => match read_u64(b2) {
                    None => None,
                    Some((votes, b3)) => if b3.len() != 0 {
                        None
                    } else {
                        Some(CandidateView { poll, name, votes })
                    },
                },
            },
        }
    }
}

/// The encoded form of a voter receipt record.
pub open spec fn spec_encode_receipt(r: ReceiptView) -> Seq<u8> {
    receipt_record_tag() + (r.voter + r.poll)
}

/// The voter receipt record a byte string holds, if any.
pub open spec fn spec_decode_receipt(b: Seq<u8>) -> Option<ReceiptView> {
    if b.len() < 8 || b.take(8) != receipt_record_tag() {
        None
    } else {
        match read_key(b.skip(8)) {
            None => None,
            Some((voter, b1)) => match read_key(b1) {
                None => None,
                Some((poll, b2)) => if b2.len() != 0 {
                    None
                } else {
                    Some(ReceiptView { voter, poll })
                },
            },
        }
    }
}

/// Encodes a poll record.
pub fn encode_poll_account(p: &PollAccount) -> (r: Vec<u8>)
    requires
        p@.wf(),
    ensures
        r@ == spec_encode_poll(p@),
{
    let mut out: Vec<u8> = Vec::new();
    write_tag(&mut out, poll_record_tag_bytes());
    write_key(&mut out, &p.authority);
    write_string(&mut out, &p.name);
    write_string(&mut out, &p.description);
    write_u64(&mut out, p.start_time);
    write_u64(&mut out, p.end_time);
    out.push(p.candidate_count);
    write_u32(&mut out, p.candidates.len() as u32);
    write_keys(&mut out, &p.candidates, 0);
    proof {
        assert(p.candidates@.skip(0) =~= p.candidates@);
        assert(out@ =~= spec_encode_poll(p@));
    }
    out
}

/// Decodes a poll record; yields the record exactly when
/// [`spec_decode_poll`] does, and any record it yields is well formed.
pub fn decode_poll_account(b: &[u8]) -> (r: Option<PollAccount>)
    ensures
        match r {
            Some(p) => spec_decode_poll(b@) == Some(p@) && p@.wf(),
            None => spec_decode_poll(b@) is None,
        },
{
    if !check_tag(b, poll_record_tag_bytes()) {
        return None;
    }
    proof {
        assert(b@.skip(8) == b@.skip(8 as int));
    }
    let (authority, pos1) = match take_key(b, 8) {
        None => {
            return None;
        },
        Some(v) => v,
    };
    let (name, pos2) = match take_string(b, pos1, MAX_NAME_BYTES as u32) {
        None => {
            return None;
        },
        Some(v) => v,
    };
    let (description, pos3) = match take_string(b, pos2, MAX_DESCRIPTION_BYTES as u32) {
        None => {
            return None;
        },
        Some(v) => v,
    };
    let (start_time, pos4) = match take_u64(b, pos3) {
        None => {
            return None;
        },
        Some(v) => v,
    };
    let (end_time, pos5) = match take_u64(b, pos4) {
        None => {
            return None;
        },
        Some(v) => v,
    };
    let (candidate_count, pos6) = match take_u8(b, pos5) {
        None => {
            return None;
        },
        Some(v) => v,
    };
    let (n, pos7) = match take_u32(b, pos6) {
        None => {
            return None;
        },
        Some(v) => v,
    };
    if n != candidate_count as u32 || candidate_count > MAX_CANDIDATES {
        return None;
    }
    let (candidates, pos8) = match take_keys(b, pos7, n) {
        None => {
            return None;
        },
        Some(v) => v,
    };
    if pos8 != b.len() {
        proof {
            assert(b@.skip(pos8 as int).len() == b@.len() - pos8);
        }
        return None;
    }
    proof {
        assert(b@.skip(pos8 as int).len() == 0);
        crate::codec::lemma_read_string_bound(b@.skip(pos1 as int), MAX_NAME_BYTES as nat);
        crate::codec::lemma_read_string_bound(b@.skip(pos2 as int), MAX_DESCRIPTION_BYTES as nat);
        crate::codec::lemma_read_keys_props(b@.skip(pos7 as int), n as nat);
    }
    Some(
        PollAccount {
            authority,
            name,
            description,
            start_time,
            end_time,
            candidate_count,
            candidates,
        },
    )
}

/// Encodes a candidate record.
pub fn encode_candidate_account(c: &CandidateAccount) -> (r: Vec<u8>)
    requires
        c@.wf(),
    ensures
        r@ == spec_encode_candidate(c@),
{
    let mut out: Vec<u8> = Vec::new();
    write_tag(&mut out, candidate_record_tag_bytes());
    write_key(&mut out, &c.poll);
    write_string(&mut out, &c.name);
    write_u64(&mut out, c.votes);
    proof {
        assert(out@ =~= spec_encode_candidate(c@));
    }
    out
}

/// Decodes a candidate record; yields the record exactly when
/// [`spec_decode_candidate`] does, and any record it yields is well formed.
pub fn decode_candidate_account(b: &[u8]) -> (r: Option<CandidateAccount>)
    ensures
        match r {
            Some(c) => spec_decode_candidate(b@) == Some(c@) && c@.wf(),
            None => spec_decode_candidate(b@) is None,
        },
{
    if !check_tag(b, candidate_record_tag_bytes()) {
        return None;
    }
    let (poll, pos1) = match take_key(b, 8) {
        None => {
            return None;
        },
        Some(v) => v,
    };
    let (name, pos2) = match take_string(b, pos1, MAX_NAME_BYTES as u32) {
        None => {
            return None;
        },
        Some(v) => v,
    };
    let (votes, pos3) = match take_u64(b, pos2) {
        None => {
            return None;
        },
        Some(v) => v,
    };
    if pos3 != b.len() {
        proof {
            assert(b@.skip(pos3 as int).len() == b@.len() - pos3);
        }
        return None;
    }
    proof {
        assert(b@.skip(pos3 as int).len() == 0);
        crate::codec::lemma_read_string_bound(b@.skip(pos1 as int), MAX_NAME_BYTES as nat);
    }
    Some(CandidateAccount { poll, name, votes })
}

/// Encodes a voter receipt record.
pub fn encode_voter_receipt(r: &VoterReceipt) -> (out: Vec<u8>)
    ensures
        out@ == spec_encode_receipt(r@),
{
    let mut out: Vec<u8> = Vec::new();
    write_tag(&mut out, receipt_record_tag_bytes());
    write_key(&mut out, &r.voter);
    write_key(&mut out, &r.poll);
    proof {
        assert(out@ =~= spec_encode_receipt(r@));
    }
    out
}

/// Decodes a voter receipt record; yields the record exactly when
/// [`spec_decode_receipt`] does, and any record it yields is well formed.
pub fn decode_voter_receipt(b: &[u8]) -> (r: Option<VoterReceipt>)
    ensures
        match r {
            Some(x) => spec_decode_receipt(b@) == Some(x@) && x@.wf(),
            None => spec_decode_receipt(b@) is None,
        },
{
    if !check_tag(b, receipt_record_tag_bytes()) {
        return None;
    }
    let (voter, pos1) = match take_key(b, 8) {
        None => {
            return None;
        },
        Some(v) => v,
    };
    let (poll, pos2) = match take_key(b, pos1) {
        None => {
            return None;
        },
        Some(v) => v,
    };
    if pos2 != b.len() {
        proof {
            assert(b@.skip(pos2 as int).len() == b@.len() - pos2);
        }
        return None;
    }
    proof {
        assert(b@.skip(pos2 as int).len() == 0);
    }
    Some(VoterReceipt { voter, poll })
}

/// Encoding then decoding any well-formed poll record yields the record
/// back, equal in every field.
pub proof fn lemma_poll_round_trip(p: PollView)
    requires
        p.wf(),
    ensures
        spec_decode_poll(spec_encode_poll(p)) == Some(p),
{
    let b = spec_encode_poll(p);
    let t1 = enc_string(p.name) + (enc_string(p.description) + (spec_u64_to_le_bytes(p.start_time)
        + (spec_u64_to_le_bytes(p.end_time) + (seq![p.candidate_count] + enc_keys(
        p.candidates,
    )))));
    let t2 = enc_string(p.description) + (spec_u64_to_le_bytes(p.start_time) + (
    spec_u64_to_le_bytes(p.end_time) + (seq![p.candidate_count] + enc_keys(p.candidates))));
    let t3 = spec_u64_to_le_bytes(p.start_time) + (spec_u64_to_le_bytes(p.end_time) + (seq![
        p.candidate_count,
    ] + enc_keys(p.candidates)));
    let t4 = spec_u64_to_le_bytes(p.end_time) + (seq![p.candidate_count] + enc_keys(p.candidates));
    let t5 = seq![p.candidate_count] + enc_keys(p.candidates);
    let t6 = enc_keys(p.candidates);
    assert(b.take(8) =~= poll_record_tag());
    assert(b.skip(8) =~= p.authority + t1);
    lemma_read_key_of(p.authority, t1);
    lemma_read_string_of(p.name, t2, MAX_NAME_BYTES as nat);
    lemma_read_string_of(p.description, t3, MAX_DESCRIPTION_BYTES as nat);
    lemma_read_u64_of(p.start_time, t4);
    lemma_read_u64_of(p.end_time, t5);
    lemma_read_u8_of(p.candidate_count, t6);
    assert(t6 =~= spec_u32_to_le_bytes(p.candidates.len() as u32) + (concat_keys(p.candidates)
        + Seq::<u8>::empty()));
    lemma_read_u32_of(p.candidates.len() as u32, concat_keys(p.candidates) + Seq::<u8>::empty());
    lemma_read_keys_of(p.candidates, Seq::<u8>::empty());
    assert(concat_keys(p.candidates) + Seq::<u8>::empty() =~= concat_keys(p.candidates));
}

/// Encoding then decoding any well-formed candidate record yields the
/// record back, equal in every field.
pub proof fn lemma_candidate_round_trip(c: CandidateView)
    requires
        c.wf(),
    ensures
        spec_decode_candidate(spec_encode_candidate(c)) == Some(c),
{
    let b = spec_encode_candidate(c);
    let t1 = enc_string(c.name) + spec_u64_to_le_bytes(c.votes);
    let t2 = spec_u64_to_le_bytes(c.votes);
    assert(b.take(8) =~= candidate_record_tag());
    assert(b.skip(8) =~= c.poll + t1);
    lemma_read_key_of(c.poll, t1);
    lemma_read_string_of(c.name, t2, MAX_NAME_BYTES as nat);
    lemma_read_u64_of(c.votes, Seq::<u8>::empty());
    assert(t2 =~= spec_u64_to_le_bytes(c.votes) + Seq::<u8>::empty());
}

/// Encoding then decoding any well-formed voter receipt yields the record
/// back, equal in every field.
pub proof fn lemma_receipt_round_trip(r: ReceiptView)
    requires
        r.wf(),
    ensures
        spec_decode_receipt(spec_encode_receipt(r)) == Some(r),
{
    let b = spec_encode_receipt(r);
    assert(b.take(8) =~= receipt_record_tag());
    assert(b.skip(8) =~= r.voter + r.poll);
    lemma_read_key_of(r.voter, r.poll);
    assert(r.poll =~= r.poll + Seq::<u8>::empty());
    lemma_read_key_of(r.poll, Seq::<u8>::empty());
}

} // verus!
