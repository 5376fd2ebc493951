//! The three record types and their mathematical views.

use vstd::prelude::*;
use vstd::utf8::encode_utf8;
use crate::pubkey::Pubkey;

verus! {

/// Longest allowed name, in UTF-8 bytes.
pub const MAX_NAME_BYTES: usize = 32;

/// Longest allowed description, in UTF-8 bytes.
pub const MAX_DESCRIPTION_BYTES: usize = 280;

/// Most candidates a single poll can register.
pub const MAX_CANDIDATES: u8 = 15;

/// The root record of one voting event.
///
/// `candidate_count` is the authoritative number of registered candidates;
/// the `candidates` list is an append-only cache kept in lockstep with it.
#[derive(Clone, Debug)]
pub struct PollAccount {
    pub authority: Pubkey,
    pub name: String,
    pub description: String,
    pub start_time: u64,
    pub end_time: u64,
    pub candidate_count: u8,
    pub candidates: Vec<Pubkey>,
}

/// The mathematical value of a [`PollAccount`].
#[verifier::ext_equal]
pub struct PollView {
    pub authority: Seq<u8>,
    pub name: Seq<char>,
    pub description: Seq<char>,
    pub start_time: u64,
    pub end_time: u64,
    pub candidate_count: u8,
    pub candidates: Seq<Seq<u8>>,
}

impl View for PollAccount {
    type V = PollView;

    open spec fn view(&self) -> PollView {
        PollView {
            authority: self.authority@,
            name: self.name@,
            description: self.description@,
            start_time: self.start_time,
            end_time: self.end_time,
            candidate_count: self.candidate_count,
            candidates: self.candidates@.map_values(|k: Pubkey| k@),
        }
    }
}

impl PollView {
    /// Well-formedness: bounded text, a counter within capacity, and the
    /// candidate list in lockstep with the counter.
    pub open spec fn wf(self) -> bool {
        &&& self.authority.len() == 32
        &&& encode_utf8(self.name).len() <= MAX_NAME_BYTES
        &&& encode_utf8(self.description).len() <= MAX_DESCRIPTION_BYTES
        &&& self.candidate_count <= MAX_CANDIDATES
        &&& self.candidates.len() == self.candidate_count
        &&& forall|i: int| 0 <= i < self.candidates.len() ==> self.candidates[i].len() == 32
    }
}

/// One registered candidate, holding its vote tally and a back-reference
/// to the poll it belongs to.
#[derive(Clone, Debug)]
pub struct CandidateAccount {
    pub poll: Pubkey,
    pub name: String,
    pub votes: u64,
}

/// The mathematical value of a [`CandidateAccount`].
#[verifier::ext_equal]
pub struct CandidateView {
    pub poll: Seq<u8>,
    pub name: Seq<char>,
    pub votes: u64,
}

impl View for CandidateAccount {
    type V = CandidateView;

    open spec fn view(&self) -> CandidateView {
        CandidateView { poll: self.poll@, name: self.name@, votes: self.votes }
    }
}

impl CandidateView {
    /// Well-formedness: a 32-byte back-reference and a bounded name.
    pub open spec fn wf(self) -> bool {
        &&& self.poll.len() == 32
        &&& encode_utf8(self.name).len() <= MAX_NAME_BYTES
    }
}

/// The marker record whose existence proves that a voter already voted in
/// a poll. It carries no payload beyond the two identities.
#[derive(Clone, Debug)]
pub struct VoterReceipt {
    pub voter: Pubkey,
    pub poll: Pubkey,
}

/// The mathematical value of a [`VoterReceipt`].
#[verifier::ext_equal]
pub struct ReceiptView {
    pub voter: Seq<u8>,
    pub poll: Seq<u8>,
}

impl View for VoterReceipt {
    type V = ReceiptView;

    open spec fn view(&self) -> ReceiptView {
        ReceiptView { voter: self.voter@, poll: self.poll@ }
    }
}

impl ReceiptView {
    /// Well-formedness: both identities are 32 bytes.
    pub open spec fn wf(self) -> bool {
        &&& self.voter.len() == 32
        &&& self.poll.len() == 32
    }
}

} // verus!
