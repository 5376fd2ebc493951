//! The protocol's laws: properties that relate several operations, proved
//! once and for all over the transition functions of [`crate::state`].

use vstd::prelude::*;
use vstd::utf8::encode_utf8;
use crate::accounts::{PollView, MAX_NAME_BYTES};
use crate::errors::ErrorCode;
use crate::state::{
    add_candidate_outcome, add_candidate_step, alist_find, alist_has, fresh_poll,
    initialize_poll_outcome, initialize_poll_step, lemma_add_candidate_preserves_wf,
    lemma_alist_find_push, lemma_alist_find_update, lemma_vote_preserves_wf, vote_outcome,
    vote_step, LedgerView,
};

verus! {

/// Reading a poll back right after a successful `initialize_poll` yields a
/// record with the caller as authority, a zero candidate counter and an
/// empty candidate list.
pub proof fn lemma_initialize_poll_read_back(
    v: LedgerView,
    signer: Seq<u8>,
    poll_addr: Seq<u8>,
    name: Seq<char>,
    description: Seq<char>,
    start_time: u64,
    end_time: u64,
)
    requires
        initialize_poll_outcome(v, poll_addr) is Ok,
    ensures
        alist_find(
            initialize_poll_step(v, signer, poll_addr, name, description, start_time, end_time)
                .polls,
            poll_addr,
        ) == Some(fresh_poll(signer, name, description, start_time, end_time)),
        fresh_poll(signer, name, description, start_time, end_time).candidate_count == 0,
        fresh_poll(signer, name, description, start_time, end_time).candidates
            == Seq::<Seq<u8>>::empty(),
{
    let p = fresh_poll(signer, name, description, start_time, end_time);
    lemma_alist_find_push(v.polls, poll_addr, p, poll_addr);
}

/// One `add_candidate` call: its address and name.
pub struct AddOp {
    pub addr: Seq<u8>,
    pub name: Seq<char>,
}

/// The store after a sequence of `add_candidate` calls by one signer
/// against one poll, applied in order.
pub open spec fn apply_adds(
    v: LedgerView,
    signer: Seq<u8>,
    poll_addr: Seq<u8>,
    ops: Seq<AddOp>,
) -> LedgerView
    decreases ops.len(),
{
    if ops.len() == 0 {
        v
    } else {
        apply_adds(
            add_candidate_step(v, signer, poll_addr, ops[0].addr, ops[0].name),
            signer,
            poll_addr,
            ops.drop_first(),
        )
    }
}

/// Every call in the sequence succeeds.
pub open spec fn adds_all_succeed(
    v: LedgerView,
    signer: Seq<u8>,
    poll_addr: Seq<u8>,
    ops: Seq<AddOp>,
) -> bool
    decreases ops.len(),
{
    ops.len() == 0 || {
        &&& add_candidate_outcome(v, signer, poll_addr, ops[0].addr) is Ok
        &&& adds_all_succeed(
            add_candidate_step(v, signer, poll_addr, ops[0].addr, ops[0].name),
            signer,
            poll_addr,
            ops.drop_first(),
        )
    }
}

/// Every operand is a 32-byte address and a bounded name.
pub open spec fn adds_wf(ops: Seq<AddOp>) -> bool {
    forall|i: int| 0 <= i < ops.len() ==> {
        &&& (#[trigger] ops[i]).addr.len() == 32
        &&& encode_utf8(ops[i].name).len() <= MAX_NAME_BYTES
    }
}

/// After any sequence of successful `add_candidate` calls, the counter has
/// grown by exactly the number of calls, and the poll's candidate list is
/// the old list followed by the new addresses in call order.
pub proof fn lemma_adds_in_call_order(
    v: LedgerView,
    signer: Seq<u8>,
    poll_addr: Seq<u8>,
    ops: Seq<AddOp>,
)
    requires
        v.wf(),
        alist_has(v.polls, poll_addr),
        adds_wf(ops),
        adds_all_succeed(v, signer, poll_addr, ops),
    ensures
        ({
            let p = alist_find(v.polls, poll_addr)->Some_0;
            let v2 = apply_adds(v, signer, poll_addr, ops);
            let p2 = alist_find(v2.polls, poll_addr)->Some_0;
            &&& v2.wf()
            &&& alist_has(v2.polls, poll_addr)
            &&& p2.candidate_count == p.candidate_count + ops.len()
            &&& p2.candidates == p.candidates + ops.map_values(|op: AddOp| op.addr)
        }),
    decreases ops.len(),
{
    let p = alist_find(v.polls, poll_addr)->Some_0;
    let v2 = apply_adds(v, signer, poll_addr, ops);
    if ops.len() == 0 {
        assert(p.candidates + ops.map_values(|op: AddOp| op.addr) =~= p.candidates);
    } else {
        let v1 = add_candidate_step(v, signer, poll_addr, ops[0].addr, ops[0].name);
        let p1 = PollView {
            candidate_count: (p.candidate_count + 1) as u8,
            candidates: p.candidates.push(ops[0].addr),
            ..p
        };
        lemma_add_candidate_preserves_wf(v, signer, poll_addr, ops[0].addr, ops[0].name);
        lemma_alist_find_update(v.polls, poll_addr, p1, poll_addr);
        assert(alist_find(v1.polls, poll_addr) == Some(p1));
        assert(adds_wf(ops.drop_first()));
        lemma_adds_in_call_order(v1, signer, poll_addr, ops.drop_first());
        let pend = alist_find(apply_adds(v1, signer, poll_addr, ops.drop_first()).polls, poll_addr)
            ->Some_0;
        assert(pend.candidates == p1.candidates + ops.drop_first().map_values(
            |op: AddOp| op.addr,
        ));
        assert(p.candidates.push(ops[0].addr) + ops.drop_first().map_values(|op: AddOp| op.addr)
            =~= p.candidates + ops.map_values(|op: AddOp| op.addr));
    }
}

/// After a voter's successful vote in a poll, a receipt for the pair
/// exists, every further `vote` call by the same voter in the same poll
/// fails — whichever candidate it targets and whenever it comes — and the
/// failed call changes nothing, so the targeted candidate's tally is
/// untouched. Together with `vote_outcome`, which grants success whenever
/// the window, the back-reference and the missing receipt allow it, a vote
/// succeeds exactly once per (poll, voter) pair.
pub proof fn lemma_second_vote_fails(
    v: LedgerView,
    voter: Seq<u8>,
    poll_addr: Seq<u8>,
    first_cand: Seq<u8>,
    second_cand: Seq<u8>,
    first_time: i64,
    second_time: i64,
)
    requires
        v.wf(),
        alist_has(v.polls, poll_addr),
        alist_has(v.candidates, first_cand),
        alist_find(v.candidates, first_cand)->Some_0.votes < u64::MAX,
        voter.len() == 32,
        vote_outcome(v, voter, poll_addr, first_cand, first_time) is Ok,
    ensures
        ({
            let v1 = vote_step(v, voter, poll_addr, first_cand, first_time);
            let p = alist_find(v1.polls, poll_addr)->Some_0;
            let c = alist_find(v1.candidates, second_cand)->Some_0;
            &&& v1.wf()
            &&& alist_has(v1.receipts, (poll_addr, voter))
            &&& vote_outcome(v1, voter, poll_addr, second_cand, second_time) is Err
            &&& (second_time >= p.start_time as i64 && second_time <= p.end_time as i64
                && c.poll == poll_addr) ==> vote_outcome(
                v1,
                voter,
                poll_addr,
                second_cand,
                second_time,
            ) == Err::<(), ErrorCode>(ErrorCode::AllocationError)
            &&& vote_step(v1, voter, poll_addr, second_cand, second_time) == v1
        }),
{
    let v1 = vote_step(v, voter, poll_addr, first_cand, first_time);
    lemma_vote_preserves_wf(v, voter, poll_addr, first_cand, first_time);
    let receipt = crate::accounts::ReceiptView { voter: voter, poll: poll_addr };
    lemma_alist_find_push(v.receipts, (poll_addr, voter), receipt, (poll_addr, voter));
    assert(alist_has(v1.receipts, (poll_addr, voter)));
    assert(vote_outcome(v1, voter, poll_addr, second_cand, second_time) is Err);
}

/// One `vote` call: the voter, the candidate it names, and its time.
pub struct VoteOp {
    pub voter: Seq<u8>,
    pub cand: Seq<u8>,
    pub time: i64,
}

/// The store after a sequence of `vote` calls against one poll, applied in
/// order.
pub open spec fn apply_votes(v: LedgerView, poll_addr: Seq<u8>, ops: Seq<VoteOp>) -> LedgerView
    decreases ops.len(),
{
    if ops.len() == 0 {
        v
    } else {
        apply_votes(
            vote_step(v, ops[0].voter, poll_addr, ops[0].cand, ops[0].time),
            poll_addr,
            ops.drop_first(),
        )
    }
}

/// How many of the calls, applied in order, succeed and name `cand`.
pub open spec fn successful_votes_for(
    v: LedgerView,
    poll_addr: Seq<u8>,
    ops: Seq<VoteOp>,
    cand: Seq<u8>,
) -> nat
    decreases ops.len(),
{
    if ops.len() == 0 {
        0
    } else {
        let here: nat = if ops[0].cand == cand && vote_outcome(
            v,
            ops[0].voter,
            poll_addr,
            ops[0].cand,
            ops[0].time,
        ) is Ok {
            1
        } else {
            0
        };
        here + successful_votes_for(
            vote_step(v, ops[0].voter, poll_addr, ops[0].cand, ops[0].time),
            poll_addr,
            ops.drop_first(),
            cand,
        )
    }
}

/// A candidate's tally counts exactly the successful `vote` calls that
/// named it: after any sequence of calls against the poll, the tally has
/// grown by the number of calls that succeeded for that candidate.
pub proof fn lemma_tally_counts_successful_votes(
    v: LedgerView,
    poll_addr: Seq<u8>,
    ops: Seq<VoteOp>,
    cand: Seq<u8>,
)
    requires
        v.wf(),
        alist_has(v.polls, poll_addr),
        alist_has(v.candidates, cand),
        forall|i: int| 0 <= i < ops.len() ==> (#[trigger] ops[i]).voter.len() == 32,
        forall|i: int| 0 <= i < ops.len() ==> alist_has(v.candidates, (#[trigger] ops[i]).cand),
        forall|k: Seq<u8>|
            #![trigger alist_find(v.candidates, k)]
            alist_has(v.candidates, k) ==> alist_find(v.candidates, k)->Some_0.votes + ops.len()
                <= u64::MAX,
    ensures
        ({
            let v2 = apply_votes(v, poll_addr, ops);
            &&& v2.wf()
            &&& alist_has(v2.candidates, cand)
            &&& alist_find(v2.candidates, cand)->Some_0.votes == alist_find(
                v.candidates,
                cand,
            )->Some_0.votes + successful_votes_for(v, poll_addr, ops, cand)
        }),
    decreases ops.len(),
{
    if ops.len() > 0 {
        let v1 = vote_step(v, ops[0].voter, poll_addr, ops[0].cand, ops[0].time);
        lemma_vote_preserves_wf(v, ops[0].voter, poll_addr, ops[0].cand, ops[0].time);
        let c = alist_find(v.candidates, ops[0].cand)->Some_0;
        let c2 = crate::accounts::CandidateView { votes: (c.votes + 1) as u64, ..c };
        if vote_outcome(v, ops[0].voter, poll_addr, ops[0].cand, ops[0].time) is Ok {
            assert forall|k: Seq<u8>| alist_has(v1.candidates, k) implies {
                &&& alist_has(v.candidates, k)
                &&& #[trigger] alist_find(v1.candidates, k)->Some_0.votes + ops.drop_first().len()
                    <= u64::MAX
            } by {
                lemma_alist_find_update(v.candidates, ops[0].cand, c2, k);
            }
            assert forall|i: int| 0 <= i < ops.drop_first().len() implies alist_has(
                v1.candidates,
                (#[trigger] ops.drop_first()[i]).cand,
            ) by {
                assert(ops.drop_first()[i] == ops[i + 1]);
                lemma_alist_find_update(v.candidates, ops[0].cand, c2, ops[i + 1].cand);
            }
            lemma_alist_find_update(v.candidates, ops[0].cand, c2, cand);
            lemma_tally_counts_successful_votes(v1, poll_addr, ops.drop_first(), cand);
        } else {
            assert(v1 == v);
            assert forall|i: int| 0 <= i < ops.drop_first().len() implies alist_has(
                v1.candidates,
                (#[trigger] ops.drop_first()[i]).cand,
            ) by {
                assert(ops.drop_first()[i] == ops[i + 1]);
            }
            lemma_tally_counts_successful_votes(v1, poll_addr, ops.drop_first(), cand);
        }
    }
}

/// A failed operation of any kind leaves the store byte-for-byte unchanged.
pub proof fn lemma_failures_change_nothing(
    v: LedgerView,
    signer: Seq<u8>,
    poll_addr: Seq<u8>,
    cand_addr: Seq<u8>,
    name: Seq<char>,
    description: Seq<char>,
    start_time: u64,
    end_time: u64,
    now: i64,
)
    ensures
        initialize_poll_outcome(v, poll_addr) is Err ==> initialize_poll_step(
            v,
            signer,
            poll_addr,
            name,
            description,
            start_time,
            end_time,
        ) == v,
        add_candidate_outcome(v, signer, poll_addr, cand_addr) is Err ==> add_candidate_step(
            v,
            signer,
            poll_addr,
            cand_addr,
            name,
        ) == v,
        vote_outcome(v, signer, poll_addr, cand_addr, now) is Err ==> vote_step(
            v,
            signer,
            poll_addr,
            cand_addr,
            now,
        ) == v,
{
}

} // verus!
