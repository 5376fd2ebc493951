//! The instruction side of the binary contract, and the log projection.
//!
//! Each operation's serialized argument payload opens with a fixed
//! eight-byte discriminant, followed by the arguments in declaration order.
//! An off-chain consumer filters a transaction stream by program identity
//! and discriminant, decodes the arguments, and joins them with the
//! accounts the instruction names; that projection is a pure function from
//! observed instructions to typed records, and failure to match is a skip,
//! never an error.

use vstd::prelude::*;
use vstd::bytes::spec_u64_to_le_bytes;
use vstd::string::StringExecFns;
use vstd::utf8::encode_utf8;
use crate::accounts::{MAX_DESCRIPTION_BYTES, MAX_NAME_BYTES};
use crate::codec::{
    enc_string, lemma_read_string_of, lemma_read_u64_of, read_string, read_u64, take_string,
    take_u64, write_string, write_u64,
};
use crate::records::{check_tag, write_tag};

verus! {

/// The discriminant that opens an `initialize_poll` argument payload.
pub open spec fn initialize_poll_args_tag() -> Seq<u8> {
    seq![193u8, 22u8, 99u8, 197u8, 18u8, 33u8, 115u8, 117u8]
}

/// The discriminant that opens an `add_candidate` argument payload.
pub open spec fn add_candidate_args_tag() -> Seq<u8> {
    seq![172u8, 34u8, 30u8, 247u8, 165u8, 210u8, 224u8, 164u8]
}

/// The discriminant that opens a `vote` argument payload.
pub open spec fn vote_args_tag() -> Seq<u8> {
    seq![227u8, 110u8, 155u8, 23u8, 136u8, 126u8, 172u8, 25u8]
}

/// The eight discriminant bytes of `initialize_poll`.
pub fn initialize_poll_args_tag_bytes() -> (r: [u8; 8])
    ensures
        r@ == initialize_poll_args_tag(),
{
    let r: [u8; 8] = [193, 22, 99, 197, 18, 33, 115, 117];
    proof {
        assert(r@ =~= initialize_poll_args_tag());
    }
    r
}

/// The eight discriminant bytes of `add_candidate`.
pub fn add_candidate_args_tag_bytes() -> (r: [u8; 8])
    ensures
        r@ == add_candidate_args_tag(),
{
    let r: [u8; 8] = [172, 34, 30, 247, 165, 210, 224, 164];
    proof {
        assert(r@ =~= add_candidate_args_tag());
    }
    r
}

/// The eight discriminant bytes of `vote`.
pub fn vote_args_tag_bytes() -> (r: [u8; 8])
    ensures
        r@ == vote_args_tag(),
{
    let r: [u8; 8] = [227, 110, 155, 23, 136, 126, 172, 25];
    proof {
        assert(r@ =~= vote_args_tag());
    }
    r
}

/// The encoded argument payload of `initialize_poll`.
pub open spec fn spec_encode_initialize_poll_args(
    name: Seq<char>,
    description: Seq<char>,
    start_time: u64,
    end_time: u64,
) -> Seq<u8> {
    initialize_poll_args_tag() + (enc_string(name) + (enc_string(description) + (
    spec_u64_to_le_bytes(start_time) + spec_u64_to_le_bytes(end_time))))
}

/// The `initialize_poll` arguments a payload carries, if any. Bytes after
/// the arguments are ignored, as a stream consumer reads from the front.
pub open spec fn spec_decode_initialize_poll_args(b: Seq<u8>) -> Option<
    (Seq<char>, Seq<char>, u64, u64),
> {
    if b.len() < 8 || b.take(8) != initialize_poll_args_tag() {
        None
    } else {
        match read_string(b.skip(8), MAX_NAME_BYTES as nat) {
            None => None,
            Some((name, b1)) => match read_string(b1, MAX_DESCRIPTION_BYTES as nat) {
                None => None,
                Some((description, b2)) => match read_u64(b2) {
                    None => None,
                    Some((start_time, b3)) => match read_u64(b3) {
                        None => None,
                        Some((end_time, b4)) => Some((name, description, start_time, end_time)),
                    },
                },
            },
        }
    }
}

/// The encoded argument payload of `add_candidate`.
pub open spec fn spec_encode_add_candidate_args(candidate_name: Seq<char>) -> Seq<u8> {
    add_candidate_args_tag() + enc_string(candidate_name)
}

/// The `add_candidate` argument a payload carries, if any.
pub open spec fn spec_decode_add_candidate_args(b: Seq<u8>) -> Option<Seq<char>> {
    if b.len() < 8 || b.take(8) != add_candidate_args_tag() {
        None
    } else {
        match read_string(b.skip(8), MAX_NAME_BYTES as nat) {
            None => None,
            Some((candidate_name, b1)) => Some(candidate_name),
        }
    }
}

/// The encoded argument payload of `vote`, which carries no arguments.
pub open spec fn spec_encode_vote_args() -> Seq<u8> {
    vote_args_tag()
}

/// Whether a payload is a `vote` instruction.
pub open spec fn spec_is_vote_args(b: Seq<u8>) -> bool {
    b.len() >= 8 && b.take(8) == vote_args_tag()
}

/// Encodes an `initialize_poll` argument payload.
pub fn encode_initialize_poll_args(
    name: &String,
    description: &String,
    start_time: u64,
    end_time: u64,
) -> (r: Vec<u8>)
    requires
        encode_utf8(name@).len() <= MAX_NAME_BYTES,
        encode_utf8(description@).len() <= MAX_DESCRIPTION_BYTES,
    ensures
        r@ == spec_encode_initialize_poll_args(name@, description@, start_time, end_time),
{
    let mut out: Vec<u8> = Vec::new();
    write_tag(&mut out, initialize_poll_args_tag_bytes());
    write_string(&mut out, name);
    write_string(&mut out, description);
    write_u64(&mut out, start_time);
    write_u64(&mut out, end_time);
    proof {
        assert(out@ =~= spec_encode_initialize_poll_args(
            name@,
            description@,
            start_time,
            end_time,
        ));
    }
    out
}

/// Decodes an `initialize_poll` argument payload.
pub fn decode_initialize_poll_args(b: &[u8]) -> (r: Option<(String, String, u64, u64)>)
    ensures
        match r {
            Some(v) => spec_decode_initialize_poll_args(b@) == Some((v.0@, v.1@, v.2, v.3)),
            None => spec_decode_initialize_poll_args(b@) is None,
        },
{
    if !check_tag(b, initialize_poll_args_tag_bytes()) {
        return None;
    }
    let (name, pos1) = match take_string(b, 8, MAX_NAME_BYTES as u32) {
        None => {
            return None;
        },
        Some(v) => v,
    };
    let (description, pos2) = match take_string(b, pos1, MAX_DESCRIPTION_BYTES as u32) {
        None => {
            return None;
        },
        Some(v) => v,
    };
    let (start_time, pos3) = match take_u64(b, pos2) {
        None => {
            return None;
        },
        Some(v) => v,
    };
    let (end_time, pos4) = match take_u64(b, pos3) {
        None => {
            return None;
        },
        Some(v) => v,
    };
    Some((name, description, start_time, end_time))
}

/// Decodes an `add_candidate` argument payload.
pub fn decode_add_candidate_args(b: &[u8]) -> (r: Option<String>)
    ensures
        match r {
            Some(v) => spec_decode_add_candidate_args(b@) == Some(v@),
            None => spec_decode_add_candidate_args(b@) is None,
        },
{
    if !check_tag(b, add_candidate_args_tag_bytes()) {
        return None;
    }
    let (candidate_name, pos1) = match take_string(b, 8, MAX_NAME_BYTES as u32) {
        None => {
            return None;
        },
        Some(v) => v,
    };
    Some(candidate_name)
}

/// Encodes an `add_candidate` argument payload.
pub fn encode_add_candidate_args(candidate_name: &String) -> (r: Vec<u8>)
    requires
        encode_utf8(candidate_name@).len() <= MAX_NAME_BYTES,
    ensures
        r@ == spec_encode_add_candidate_args(candidate_name@),
{
    let mut out: Vec<u8> = Vec::new();
    write_tag(&mut out, add_candidate_args_tag_bytes());
    write_string(&mut out, candidate_name);
    proof {
        assert(out@ =~= spec_encode_add_candidate_args(candidate_name@));
    }
    out
}

/// Encodes a `vote` argument payload.
pub fn encode_vote_args() -> (r: Vec<u8>)
    ensures
        r@ == spec_encode_vote_args(),
{
    let mut out: Vec<u8> = Vec::new();
    write_tag(&mut out, vote_args_tag_bytes());
    proof {
        assert(out@ =~= spec_encode_vote_args());
    }
    out
}

/// Whether a payload is a `vote` instruction.
pub fn is_vote_args(b: &[u8]) -> (r: bool)
    ensures
        r == spec_is_vote_args(b@),
{
    check_tag(b, vote_args_tag_bytes())
}

/// Encoding then decoding any bounded `initialize_poll` argument payload
/// yields the arguments back, equal in every field.
pub proof fn lemma_initialize_poll_args_round_trip(
    name: Seq<char>,
    description: Seq<char>,
    start_time: u64,
    end_time: u64,
)
    requires
        encode_utf8(name).len() <= MAX_NAME_BYTES,
        encode_utf8(description).len() <= MAX_DESCRIPTION_BYTES,
    ensures
        spec_decode_initialize_poll_args(
            spec_encode_initialize_poll_args(name, description, start_time, end_time),
        ) == Some((name, description, start_time, end_time)),
{
    let b = spec_encode_initialize_poll_args(name, description, start_time, end_time);
    let t1 = enc_string(description) + (spec_u64_to_le_bytes(start_time) + spec_u64_to_le_bytes(
        end_time,
    ));
    let t2 = spec_u64_to_le_bytes(start_time) + spec_u64_to_le_bytes(end_time);
    let t3 = spec_u64_to_le_bytes(end_time);
    assert(b.take(8) =~= initialize_poll_args_tag());
    assert(b.skip(8) =~= enc_string(name) + t1);
    lemma_read_string_of(name, t1, MAX_NAME_BYTES as nat);
    lemma_read_string_of(description, t2, MAX_DESCRIPTION_BYTES as nat);
    lemma_read_u64_of(start_time, t3);
    assert(t3 =~= spec_u64_to_le_bytes(end_time) + Seq::<u8>::empty());
    lemma_read_u64_of(end_time, Seq::<u8>::empty());
}

/// Encoding then decoding any bounded `add_candidate` argument payload
/// yields the argument back.
pub proof fn lemma_add_candidate_args_round_trip(candidate_name: Seq<char>)
    requires
        encode_utf8(candidate_name).len() <= MAX_NAME_BYTES,
    ensures
        spec_decode_add_candidate_args(spec_encode_add_candidate_args(candidate_name)) == Some(
            candidate_name,
        ),
{
    let b = spec_encode_add_candidate_args(candidate_name);
    assert(b.take(8) =~= add_candidate_args_tag());
    assert(b.skip(8) =~= enc_string(candidate_name) + Seq::<u8>::empty());
    lemma_read_string_of(candidate_name, Seq::<u8>::empty(), MAX_NAME_BYTES as nat);
}

/// Encoding a `vote` payload yields a payload that reads as a vote.
pub proof fn lemma_vote_args_round_trip()
    ensures
        spec_is_vote_args(spec_encode_vote_args()),
{
    assert(spec_encode_vote_args().take(8) =~= vote_args_tag());
}

} // verus!
