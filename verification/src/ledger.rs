//! The executable store and the three entry points of the protocol.
//!
//! A [`Ledger`] holds every record that exists. Each operation either
//! completes and reports `Ok`, or reports a failure reason and leaves the
//! store byte-for-byte unchanged; its exact effect is stated against the
//! transition functions of [`crate::state`].

use vstd::prelude::*;
use vstd::utf8::encode_utf8;
use crate::accounts::{
    CandidateAccount, CandidateView, PollAccount, PollView, VoterReceipt, MAX_CANDIDATES,
    MAX_DESCRIPTION_BYTES, MAX_NAME_BYTES,
};
use crate::errors::ErrorCode;
use crate::pubkey::Pubkey;
use crate::state::{
    add_candidate_outcome, add_candidate_step, alist_find, alist_has, initialize_poll_outcome,
    initialize_poll_step, lemma_add_candidate_preserves_wf, lemma_alist_find_index,
    lemma_alist_find_none, lemma_alist_update_index, lemma_initialize_poll_preserves_wf,
    lemma_vote_preserves_wf, vote_outcome, vote_step, LedgerView,
};

verus! {

broadcast use crate::pubkey::lemma_pubkey_len;

struct PollEntry {
    addr: Pubkey,
    account: PollAccount,
}

impl View for PollEntry {
    type V = (Seq<u8>, PollView);

    closed spec fn view(&self) -> (Seq<u8>, PollView) {
        (self.addr@, self.account@)
    }
}

struct CandidateEntry {
    addr: Pubkey,
    account: CandidateAccount,
}

impl View for CandidateEntry {
    type V = (Seq<u8>, CandidateView);

    closed spec fn view(&self) -> (Seq<u8>, CandidateView) {
        (self.addr@, self.account@)
    }
}

struct ReceiptEntry {
    account: VoterReceipt,
}

impl View for ReceiptEntry {
    type V = ((Seq<u8>, Seq<u8>), crate::accounts::ReceiptView);

    closed spec fn view(&self) -> ((Seq<u8>, Seq<u8>), crate::accounts::ReceiptView) {
        ((self.account.poll@, self.account.voter@), self.account@)
    }
}

/// The store of all records, keyed as [`LedgerView`] describes.
pub struct Ledger {
    polls: Vec<PollEntry>,
    candidates: Vec<CandidateEntry>,
    receipts: Vec<ReceiptEntry>,
}

impl View for Ledger {
    type V = LedgerView;

    closed spec fn view(&self) -> LedgerView {
        LedgerView {
            polls: self.polls@.map_values(|e: PollEntry| e@),
            candidates: self.candidates@.map_values(|e: CandidateEntry| e@),
            receipts: self.receipts@.map_values(|e: ReceiptEntry| e@),
        }
    }
}

impl Ledger {
    /// The store is well formed. Constructors establish this and every
    /// operation preserves it.
    pub open spec fn inv(&self) -> bool {
        self@.wf()
    }

    /// An empty store.
    pub fn new() -> (r: Ledger)
        ensures
            r.inv(),
            r@ == LedgerView::empty(),
    {
        let r = Ledger { polls: Vec::new(), candidates: Vec::new(), receipts: Vec::new() };
        proof {
            assert(r@.polls =~= LedgerView::empty().polls);
            assert(r@.candidates =~= LedgerView::empty().candidates);
            assert(r@.receipts =~= LedgerView::empty().receipts);
        }
        r
    }

    fn find_poll_index(&self, addr: &Pubkey) -> (r: Option<usize>)
        ensures
            match r {
                Some(i) => {
                    &&& i < self@.polls.len()
                    &&& self@.polls[i as int].0 == addr@
                    &&& forall|j: int| 0 <= j < i ==> self@.polls[j].0 != addr@
                    &&& alist_find(self@.polls, addr@) == Some(self@.polls[i as int].1)
                },
                None => !alist_has(self@.polls, addr@),
            },
    {
        let n = self.polls.len();
        let mut i: usize = 0;
        while i < n
            invariant
                n == self.polls.len(),
                i <= n,
                forall|j: int| 0 <= j < i ==> self@.polls[j].0 != addr@,
            decreases n - i,
        {
            if self.polls[i].addr.same(addr) {
                proof {
                    lemma_alist_find_index(self@.polls, addr@, i as int);
                }
                return Some(i);
            }
            i = i + 1;
        }
        proof {
            lemma_alist_find_none(self@.polls, addr@);
        }
        None
    }

    fn find_candidate_index(&self, addr: &Pubkey) -> (r: Option<usize>)
        ensures
            match r {
                Some(i) => {
                    &&& i < self@.candidates.len()
                    &&& self@.candidates[i as int].0 == addr@
                    &&& forall|j: int| 0 <= j < i ==> self@.candidates[j].0 != addr@
                    &&& alist_find(self@.candidates, addr@) == Some(self@.candidates[i as int].1)
                },
                None => !alist_has(self@.candidates, addr@),
            },
    {
        let n = self.candidates.len();
        let mut i: usize = 0;
        while i < n
            invariant
                n == self.candidates.len(),
                i <= n,
                forall|j: int| 0 <= j < i ==> self@.candidates[j].0 != addr@,
            decreases n - i,
        {
            if self.candidates[i].addr.same(addr) {
                proof {
                    lemma_alist_find_index(self@.candidates, addr@, i as int);
                }
                return Some(i);
            }
            i = i + 1;
        }
        proof {
            lemma_alist_find_none(self@.candidates, addr@);
        }
        None
    }

    fn find_receipt_index(&self, poll: &Pubkey, voter: &Pubkey) -> (r: Option<usize>)
        ensures
            match r {
                Some(i) => {
                    &&& i < self@.receipts.len()
                    &&& self@.receipts[i as int].0 == (poll@, voter@)
                    &&& alist_find(self@.receipts, (poll@, voter@)) == Some(
                        self@.receipts[i as int].1,
                    )
                },
                None => !alist_has(self@.receipts, (poll@, voter@)),
            },
    {
        let n = self.receipts.len();
        let mut i: usize = 0;
        while i < n
            invariant
                n == self.receipts.len(),
                i <= n,
                forall|j: int| 0 <= j < i ==> self@.receipts[j].0 != (poll@, voter@),
            decreases n - i,
        {
            if self.receipts[i].account.poll.same(poll) && self.receipts[i].account.voter.same(
                voter,
            ) {
                proof {
                    lemma_alist_find_index(self@.receipts, (poll@, voter@), i as int);
                }
                return Some(i);
            }
            i = i + 1;
        }
        proof {
            lemma_alist_find_none(self@.receipts, (poll@, voter@));
        }
        None
    }

    /// Whether an address already holds a record.
    fn is_occupied(&self, addr: &Pubkey) -> (r: bool)
        ensures
            r == self@.occupied(addr@),
    {
        match self.find_poll_index(addr) {
            Some(_) => true,
            None => match self.find_candidate_index(addr) {
                Some(_) => true,
                None => false,
            },
        }
    }

    /// The poll record at an address, if one exists.
    pub fn get_poll(&self, addr: &Pubkey) -> (r: Option<&PollAccount>)
        ensures
            match r {
                Some(p) => alist_find(self@.polls, addr@) == Some(p@),
                None => !alist_has(self@.polls, addr@),
            },
    {
        match self.find_poll_index(addr) {
            Some(i) => Some(&self.polls[i].account),
            None => None,
        }
    }

    /// The candidate record at an address, if one exists.
    pub fn get_candidate(&self, addr: &Pubkey) -> (r: Option<&CandidateAccount>)
        ensures
            match r {
                Some(c) => alist_find(self@.candidates, addr@) == Some(c@),
                None => !alist_has(self@.candidates, addr@),
            },
    {
        match self.find_candidate_index(addr) {
            Some(i) => Some(&self.candidates[i].account),
            None => None,
        }
    }

    /// Whether a receipt exists for the (poll, voter) pair.
    pub fn has_receipt(&self, poll: &Pubkey, voter: &Pubkey) -> (r: bool)
        ensures
            r == alist_has(self@.receipts, (poll@, voter@)),
    {
        self.find_receipt_index(poll, voter).is_some()
    }
}

/// The accounts an `initialize_poll` call names: the caller and the fresh
/// address that will hold the new poll record.
#[derive(Clone, Copy, Debug)]
pub struct InitializePoll {
    pub signer: Pubkey,
    pub poll_account: Pubkey,
}

/// The accounts an `add_candidate` call names. The candidate address is
/// derived from (poll address, pre-increment counter); see [`crate::seeds`].
#[derive(Clone, Copy, Debug)]
pub struct AddCandidate {
    pub signer: Pubkey,
    pub poll_account: Pubkey,
    pub candidate_account: Pubkey,
}

/// The accounts a `vote` call names. The receipt is keyed by the
/// (poll address, voter identity) pair itself.
#[derive(Clone, Copy, Debug)]
pub struct Vote {
    pub signer: Pubkey,
    pub poll_account: Pubkey,
    pub candidate_account: Pubkey,
}

/// Creates a poll record at a caller-supplied fresh address, with the
/// caller as authority, a zero candidate counter and an empty candidate
/// list. Fails with `AllocationError` exactly when the address already
/// holds data. The time window is recorded unchecked: `start_time` may
/// exceed `end_time`, which makes a poll nobody can vote in.
pub fn initialize_poll(
    ledger: &mut Ledger,
    accounts: InitializePoll,
    name: String,
    description: String,
    start_time: u64,
    end_time: u64,
) -> (r: Result<(), ErrorCode>)
    requires
        old(ledger).inv(),
        encode_utf8(name@).len() <= MAX_NAME_BYTES,
        encode_utf8(description@).len() <= MAX_DESCRIPTION_BYTES,
    ensures
        final(ledger).inv(),
        r == initialize_poll_outcome(old(ledger)@, accounts.poll_account@),
        final(ledger)@ == initialize_poll_step(
            old(ledger)@,
            accounts.signer@,
            accounts.poll_account@,
            name@,
            description@,
            start_time,
            end_time,
        ),
{
    proof {
        lemma_initialize_poll_preserves_wf(
            old(ledger)@,
            accounts.signer@,
            accounts.poll_account@,
            name@,
            description@,
            start_time,
            end_time,
        );
    }
    if ledger.is_occupied(&accounts.poll_account) {
        return Err(ErrorCode::AllocationError);
    }
    let account = PollAccount {
        authority: accounts.signer,
        name: name,
        description: description,
        start_time: start_time,
        end_time: end_time,
        candidate_count: 0,
        candidates: Vec::new(),
    };
    let ghost v0 = ledger@;
    ledger.polls.push(PollEntry { addr: accounts.poll_account, account: account });
    proof {
        assert(ledger@.polls =~~= v0.polls.push(
            (
                accounts.poll_account@,
                crate::state::fresh_poll(
                    accounts.signer@,
                    name@,
                    description@,
                    start_time,
                    end_time,
                ),
            ),
        ));
        assert(ledger@ =~~= initialize_poll_step(
            v0,
            accounts.signer@,
            accounts.poll_account@,
            name@,
            description@,
            start_time,
            end_time,
        ));
    }
    Ok(())
}

/// Registers one candidate. Fails with `Unauthorized` unless the caller is
/// the poll's authority, with `CapacityExceeded` at a full poll, and with
/// `AllocationError` when the candidate address is already occupied — the
/// losing side of a derivation race. On success the candidate record is
/// created with a zero tally from the pre-increment counter's address, the
/// address is appended to the poll's list, and the counter grows by one.
pub fn add_candidate(ledger: &mut Ledger, accounts: AddCandidate, candidate_name: String) -> (r:
    Result<(), ErrorCode>)
    requires
        old(ledger).inv(),
        alist_has(old(ledger)@.polls, accounts.poll_account@),
        encode_utf8(candidate_name@).len() <= MAX_NAME_BYTES,
    ensures
        final(ledger).inv(),
        r == add_candidate_outcome(
            old(ledger)@,
            accounts.signer@,
            accounts.poll_account@,
            accounts.candidate_account@,
        ),
        final(ledger)@ == add_candidate_step(
            old(ledger)@,
            accounts.signer@,
            accounts.poll_account@,
            accounts.candidate_account@,
            candidate_name@,
        ),
{
    proof {
        lemma_add_candidate_preserves_wf(
            old(ledger)@,
            accounts.signer@,
            accounts.poll_account@,
            accounts.candidate_account@,
            candidate_name@,
        );
    }
    let idx = ledger.find_poll_index(&accounts.poll_account).unwrap();
    if !ledger.polls[idx].account.authority.same(&accounts.signer) {
        return Err(ErrorCode::Unauthorized);
    }
    if ledger.polls[idx].account.candidate_count >= MAX_CANDIDATES {
        return Err(ErrorCode::CapacityExceeded);
    }
    if ledger.is_occupied(&accounts.candidate_account) {
        return Err(ErrorCode::AllocationError);
    }
    let ghost v0 = ledger@;
    let ghost p = alist_find(v0.polls, accounts.poll_account@)->Some_0;
    let ghost nm = candidate_name@;
    let account = CandidateAccount {
        poll: accounts.poll_account,
        name: candidate_name,
        votes: 0,
    };
    ledger.candidates.push(CandidateEntry { addr: accounts.candidate_account, account: account });
    let entry = &mut ledger.polls[idx];
    entry.account.candidates.push(accounts.candidate_account);
    entry.account.candidate_count = entry.account.candidate_count + 1;
    proof {
        let v2 = add_candidate_step(
            v0,
            accounts.signer@,
            accounts.poll_account@,
            accounts.candidate_account@,
            nm,
        );
        let p2 = PollView {
            candidate_count: (p.candidate_count + 1) as u8,
            candidates: p.candidates.push(accounts.candidate_account@),
            ..p
        };
        lemma_alist_update_index(v0.polls, accounts.poll_account@, p2, idx as int);
        assert(ledger@.candidates =~~= v2.candidates);
        assert(ledger@.polls =~~= v2.polls);
        assert(ledger@.receipts =~~= v2.receipts);
        assert(ledger@ =~~= v2);
    }
    Ok(())
}

/// Casts one vote. Fails with `PollNotStarted` before the window, with
/// `PollEnded` after it, with `InvalidCandidateForPoll` when the candidate's
/// back-reference names another poll, and with `AllocationError` when a
/// receipt for the (poll, voter) pair already exists — the structural guard
/// that makes a second vote by the same voter impossible. On success the
/// candidate's tally grows by exactly one and the receipt is created.
pub fn vote(ledger: &mut Ledger, accounts: Vote, now: i64) -> (r: Result<(), ErrorCode>)
    requires
        old(ledger).inv(),
        alist_has(old(ledger)@.polls, accounts.poll_account@),
        alist_has(old(ledger)@.candidates, accounts.candidate_account@),
        alist_find(old(ledger)@.candidates, accounts.candidate_account@)->Some_0.votes
            < u64::MAX,
    ensures
        final(ledger).inv(),
        r == vote_outcome(
            old(ledger)@,
            accounts.signer@,
            accounts.poll_account@,
            accounts.candidate_account@,
            now,
        ),
        final(ledger)@ == vote_step(
            old(ledger)@,
            accounts.signer@,
            accounts.poll_account@,
            accounts.candidate_account@,
            now,
        ),
{
    proof {
        lemma_vote_preserves_wf(
            old(ledger)@,
            accounts.signer@,
            accounts.poll_account@,
            accounts.candidate_account@,
            now,
        );
    }
    let pidx = ledger.find_poll_index(&accounts.poll_account).unwrap();
    let cidx = ledger.find_candidate_index(&accounts.candidate_account).unwrap();
    if now < #[verifier::truncate] (ledger.polls[pidx].account.start_time as i64) {
        return Err(ErrorCode::PollNotStarted);
    }
    if now > #[verifier::truncate] (ledger.polls[pidx].account.end_time as i64) {
        return Err(ErrorCode::PollEnded);
    }
    if !ledger.candidates[cidx].account.poll.same(&accounts.poll_account) {
        return Err(ErrorCode::InvalidCandidateForPoll);
    }
    if ledger.find_receipt_index(&accounts.poll_account, &accounts.signer).is_some() {
        return Err(ErrorCode::AllocationError);
    }
    let ghost v0 = ledger@;
    let ghost c = alist_find(v0.candidates, accounts.candidate_account@)->Some_0;
    let entry = &mut ledger.candidates[cidx];
    entry.account.votes = entry.account.votes + 1;
    ledger.receipts.push(
        ReceiptEntry {
            account: VoterReceipt { voter: accounts.signer, poll: accounts.poll_account },
        },
    );
    proof {
        let v2 = vote_step(
            v0,
            accounts.signer@,
            accounts.poll_account@,
            accounts.candidate_account@,
            now,
        );
        let c2 = CandidateView { votes: (c.votes + 1) as u64, ..c };
        lemma_alist_update_index(v0.candidates, accounts.candidate_account@, c2, cidx as int);
        assert(ledger@.polls =~~= v2.polls);
        assert(ledger@.candidates =~~= v2.candidates);
        assert(ledger@.receipts =~~= v2.receipts);
        assert(ledger@ =~~= v2);
    }
    Ok(())
}

} // verus!
