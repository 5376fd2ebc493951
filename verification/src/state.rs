//! The protocol's state-transition system, stated over mathematical values.
//!
//! A ledger state is three association lists: polls keyed by their address,
//! candidates keyed by their address, and voter receipts keyed by the
//! (poll address, voter identity) pair. Keying receipts by that pair is the
//! abstract form of deterministic receipt addressing: at most one receipt
//! per pair can ever be created, and a colliding creation fails.

use vstd::prelude::*;
use vstd::utf8::encode_utf8;
use crate::accounts::{
    CandidateView, PollView, ReceiptView, MAX_CANDIDATES, MAX_DESCRIPTION_BYTES, MAX_NAME_BYTES,
};
use crate::errors::ErrorCode;

verus! {

/// First value bound to `k`, scanning from the front.
pub open spec fn alist_find<K, V>(s: Seq<(K, V)>, k: K) -> Option<V>
    decreases s.len(),
{
    if s.len() == 0 {
        None
    } else if s[0].0 == k {
        Some(s[0].1)
    } else {
        alist_find(s.drop_first(), k)
    }
}

/// Whether some entry binds `k`.
pub open spec fn alist_has<K, V>(s: Seq<(K, V)>, k: K) -> bool {
    alist_find(s, k) is Some
}

/// The list with the first binding of `k` replaced by `v`; unchanged when
/// no entry binds `k`.
pub open spec fn alist_update<K, V>(s: Seq<(K, V)>, k: K, v: V) -> Seq<(K, V)>
    decreases s.len(),
{
    if s.len() == 0 {
        s
    } else if s[0].0 == k {
        seq![(k, v)].add(s.drop_first())
    } else {
        seq![s[0]].add(alist_update(s.drop_first(), k, v))
    }
}

/// No two entries bind the same key.
pub open spec fn alist_unique<K, V>(s: Seq<(K, V)>) -> bool {
    forall|i: int, j: int| 0 <= i < j < s.len() ==> s[i].0 != s[j].0
}

/// A key is bound exactly when some entry carries it.
pub proof fn lemma_alist_has_exists<K, V>(s: Seq<(K, V)>, k: K)
    ensures
        alist_has(s, k) <==> exists|i: int| 0 <= i < s.len() && s[i].0 == k,
    decreases s.len(),
{
    if s.len() > 0 {
        lemma_alist_has_exists(s.drop_first(), k);
        if s[0].0 == k {
        } else if alist_has(s.drop_first(), k) {
            let i = choose|i: int| 0 <= i < s.drop_first().len() && s.drop_first()[i].0 == k;
            assert(s[i + 1].0 == k);
        } else {
            assert forall|i: int| 0 <= i < s.len() implies s[i].0 != k by {
                if i > 0 {
                    assert(s.drop_first()[i - 1].0 != k);
                }
            }
        }
    }
}

/// At the first entry carrying `k`, the scan stops and returns its value.
pub proof fn lemma_alist_find_index<K, V>(s: Seq<(K, V)>, k: K, i: int)
    requires
        0 <= i < s.len(),
        s[i].0 == k,
        forall|j: int| 0 <= j < i ==> s[j].0 != k,
    ensures
        alist_find(s, k) == Some(s[i].1),
    decreases i,
{
    if i > 0 {
        let t = s.drop_first();
        assert(forall|j: int| 0 <= j < i - 1 ==> t[j].0 != k);
        lemma_alist_find_index(t, k, i - 1);
    }
}

/// A scan over entries that all carry other keys finds nothing.
pub proof fn lemma_alist_find_none<K, V>(s: Seq<(K, V)>, k: K)
    requires
        forall|j: int| 0 <= j < s.len() ==> s[j].0 != k,
    ensures
        alist_find(s, k) is None,
    decreases s.len(),
{
    if s.len() > 0 {
        let t = s.drop_first();
        assert(forall|j: int| 0 <= j < t.len() ==> t[j].0 != k);
        lemma_alist_find_none(t, k);
    }
}

/// Replacing the first binding of `k` is an update at its index.
pub proof fn lemma_alist_update_index<K, V>(s: Seq<(K, V)>, k: K, v: V, i: int)
    requires
        0 <= i < s.len(),
        s[i].0 == k,
        forall|j: int| 0 <= j < i ==> s[j].0 != k,
    ensures
        alist_update(s, k, v) == s.update(i, (k, v)),
    decreases i,
{
    if i == 0 {
        assert(alist_update(s, k, v) =~= s.update(0, (k, v)));
    } else {
        let t = s.drop_first();
        assert(forall|j: int| 0 <= j < i - 1 ==> t[j].0 != k);
        lemma_alist_update_index(t, k, v, i - 1);
        assert(alist_update(s, k, v) =~= s.update(i, (k, v)));
    }
}

/// What a scan finds after an entry is appended.
pub proof fn lemma_alist_find_push<K, V>(s: Seq<(K, V)>, k: K, v: V, k2: K)
    ensures
        alist_find(s.push((k, v)), k2) == (if alist_has(s, k2) {
            alist_find(s, k2)
        } else if k2 == k {
            Some(v)
        } else {
            None::<V>
        }),
    decreases s.len(),
{
    if s.len() == 0 {
        assert(s.push((k, v)).drop_first() =~= Seq::<(K, V)>::empty());
    } else {
        assert(s.push((k, v))[0] == s[0]);
        assert(s.push((k, v)).drop_first() =~= s.drop_first().push((k, v)));
        lemma_alist_find_push(s.drop_first(), k, v, k2);
    }
}

/// What a scan finds after the first binding of `k` is replaced.
pub proof fn lemma_alist_find_update<K, V>(s: Seq<(K, V)>, k: K, v: V, k2: K)
    ensures
        alist_find(alist_update(s, k, v), k2) == (if k2 == k && alist_has(s, k) {
            Some(v)
        } else {
            alist_find(s, k2)
        }),
    decreases s.len(),
{
    if s.len() == 0 {
    } else if s[0].0 == k {
        let u = alist_update(s, k, v);
        assert(u[0] == (k, v));
        assert(u.drop_first() =~= s.drop_first());
    } else {
        let u = alist_update(s, k, v);
        assert(u[0] == s[0]);
        assert(u.drop_first() =~= alist_update(s.drop_first(), k, v));
        lemma_alist_find_update(s.drop_first(), k, v, k2);
    }
}

/// An update keeps the length and every key, and changes values only to `v`
/// at entries keyed by `k`.
pub proof fn lemma_alist_update_pointwise<K, V>(s: Seq<(K, V)>, k: K, v: V)
    ensures
        alist_update(s, k, v).len() == s.len(),
        forall|i: int| 0 <= i < s.len() ==> (#[trigger] alist_update(s, k, v)[i]).0 == s[i].0,
        forall|i: int| 0 <= i < s.len() ==> (alist_update(s, k, v)[i].1 == s[i].1 || (s[i].0 == k
            && alist_update(s, k, v)[i].1 == v)),
    decreases s.len(),
{
    if s.len() > 0 {
        lemma_alist_update_pointwise(s.drop_first(), k, v);
        if s[0].0 == k {
            let u = alist_update(s, k, v);
            assert(u.drop_first() =~= s.drop_first());
            assert forall|i: int| 0 <= i < s.len() implies (#[trigger] u[i]).0 == s[i].0 by {
                if i > 0 {
                    assert(u[i] == s.drop_first()[i - 1]);
                }
            }
        } else {
            let u = alist_update(s, k, v);
            let ut = alist_update(s.drop_first(), k, v);
            assert(u.drop_first() =~= ut);
            assert forall|i: int| 0 <= i < s.len() implies (#[trigger] u[i]).0 == s[i].0 by {
                if i > 0 {
                    assert(u[i] == ut[i - 1]);
                    assert(s[i] == s.drop_first()[i - 1]);
                }
            }
            assert forall|i: int| 0 <= i < s.len() implies (u[i].1 == s[i].1 || (s[i].0 == k
                && u[i].1 == v)) by {
                if i > 0 {
                    assert(u[i] == ut[i - 1]);
                    assert(s[i] == s.drop_first()[i - 1]);
                }
            }
        }
    }
}

/// The whole store: every record that exists, by address or by key pair.
#[verifier::ext_equal]
pub struct LedgerView {
    pub polls: Seq<(Seq<u8>, PollView)>,
    pub candidates: Seq<(Seq<u8>, CandidateView)>,
    pub receipts: Seq<((Seq<u8>, Seq<u8>), ReceiptView)>,
}

impl LedgerView {
    /// Whether an address already holds a record. Receipts are keyed by
    /// pair, so they occupy no address of their own in this model.
    pub open spec fn occupied(self, addr: Seq<u8>) -> bool {
        alist_has(self.polls, addr) || alist_has(self.candidates, addr)
    }

    /// Every reachable state is well formed: keys are unique, every record
    /// is well formed, every candidate and every receipt refers back to a
    /// poll that exists, and every receipt's key pair matches its fields.
    pub open spec fn wf(self) -> bool {
        &&& alist_unique(self.polls)
        &&& alist_unique(self.candidates)
        &&& alist_unique(self.receipts)
        &&& forall|i: int| 0 <= i < self.polls.len() ==> {
            &&& self.polls[i].0.len() == 32
            &&& (#[trigger] self.polls[i]).1.wf()
        }
        &&& forall|i: int| 0 <= i < self.candidates.len() ==> {
            &&& self.candidates[i].0.len() == 32
            &&& (#[trigger] self.candidates[i]).1.wf()
            &&& alist_has(self.polls, self.candidates[i].1.poll)
        }
        &&& forall|i: int| 0 <= i < self.receipts.len() ==> {
            &&& (#[trigger] self.receipts[i]).1.wf()
            &&& self.receipts[i].0.0 == self.receipts[i].1.poll
            &&& self.receipts[i].0.1 == self.receipts[i].1.voter
            &&& alist_has(self.polls, self.receipts[i].1.poll)
        }
    }

    /// The empty store.
    pub open spec fn empty() -> LedgerView {
        LedgerView { polls: Seq::empty(), candidates: Seq::empty(), receipts: Seq::empty() }
    }
}

/// The poll record a fresh `initialize_poll` writes.
pub open spec fn fresh_poll(
    signer: Seq<u8>,
    name: Seq<char>,
    description: Seq<char>,
    start_time: u64,
    end_time: u64,
) -> PollView {
    PollView {
        authority: signer,
        name: name,
        description: description,
        start_time: start_time,
        end_time: end_time,
        candidate_count: 0,
        candidates: Seq::empty(),
    }
}

/// What `initialize_poll` reports: the one failure is a target address
/// that already holds data.
pub open spec fn initialize_poll_outcome(v: LedgerView, poll_addr: Seq<u8>) -> Result<
    (),
    ErrorCode,
> {
    if v.occupied(poll_addr) {
        Err(ErrorCode::AllocationError)
    } else {
        Ok(())
    }
}

/// The store after `initialize_poll`: unchanged on failure; on success the
/// new poll is bound to `poll_addr` with the caller as authority, a zero
/// counter and an empty candidate list.
pub open spec fn initialize_poll_step(
    v: LedgerView,
    signer: Seq<u8>,
    poll_addr: Seq<u8>,
    name: Seq<char>,
    description: Seq<char>,
    start_time: u64,
    end_time: u64,
) -> LedgerView {
    if initialize_poll_outcome(v, poll_addr) is Err {
        v
    } else {
        LedgerView {
            polls: v.polls.push(
                (poll_addr, fresh_poll(signer, name, description, start_time, end_time)),
            ),
            ..v
        }
    }
}

/// What `add_candidate` reports: `Unauthorized` for any caller but the
/// authority, `CapacityExceeded` at a full poll, `AllocationError` when the
/// derived candidate address is already occupied, in that order.
pub open spec fn add_candidate_outcome(
    v: LedgerView,
    signer: Seq<u8>,
    poll_addr: Seq<u8>,
    cand_addr: Seq<u8>,
) -> Result<(), ErrorCode>
    recommends
        alist_has(v.polls, poll_addr),
{
    let p = alist_find(v.polls, poll_addr)->Some_0;
    if p.authority != signer {
        Err(ErrorCode::Unauthorized)
    } else if p.candidate_count >= MAX_CANDIDATES {
        Err(ErrorCode::CapacityExceeded)
    } else if v.occupied(cand_addr) {
        Err(ErrorCode::AllocationError)
    } else {
        Ok(())
    }
}

/// The store after `add_candidate`: unchanged on failure; on success the
/// new candidate is bound to `cand_addr` with a zero tally, its address is
/// appended to the poll's list, and the counter grows by exactly one.
pub open spec fn add_candidate_step(
    v: LedgerView,
    signer: Seq<u8>,
    poll_addr: Seq<u8>,
    cand_addr: Seq<u8>,
    name: Seq<char>,
) -> LedgerView
    recommends
        alist_has(v.polls, poll_addr),
{
    if add_candidate_outcome(v, signer, poll_addr, cand_addr) is Err {
        v
    } else {
        let p = alist_find(v.polls, poll_addr)->Some_0;
        let p2 = PollView {
            candidate_count: (p.candidate_count + 1) as u8,
            candidates: p.candidates.push(cand_addr),
            ..p
        };
        LedgerView {
            polls: alist_update(v.polls, poll_addr, p2),
            candidates: v.candidates.push(
                (cand_addr, CandidateView { poll: poll_addr, name: name, votes: 0 }),
            ),
            ..v
        }
    }
}

/// What `vote` reports: the time window is checked first, then the
/// candidate's back-reference, and last the receipt collision that guards
/// against double voting.
pub open spec fn vote_outcome(
    v: LedgerView,
    signer: Seq<u8>,
    poll_addr: Seq<u8>,
    cand_addr: Seq<u8>,
    now: i64,
) -> Result<(), ErrorCode>
    recommends
        alist_has(v.polls, poll_addr),
        alist_has(v.candidates, cand_addr),
{
    let p = alist_find(v.polls, poll_addr)->Some_0;
    let c = alist_find(v.candidates, cand_addr)->Some_0;
    if now < p.start_time as i64 {
        Err(ErrorCode::PollNotStarted)
    } else if now > p.end_time as i64 {
        Err(ErrorCode::PollEnded)
    } else if c.poll != poll_addr {
        Err(ErrorCode::InvalidCandidateForPoll)
    } else if alist_has(v.receipts, (poll_addr, signer)) {
        Err(ErrorCode::AllocationError)
    } else {
        Ok(())
    }
}

/// The store after `vote`: unchanged on failure; on success the candidate's
/// tally grows by exactly one and the receipt for (poll, voter) is created.
pub open spec fn vote_step(
    v: LedgerView,
    signer: Seq<u8>,
    poll_addr: Seq<u8>,
    cand_addr: Seq<u8>,
    now: i64,
) -> LedgerView
    recommends
        alist_has(v.polls, poll_addr),
        alist_has(v.candidates, cand_addr),
        alist_find(v.candidates, cand_addr)->Some_0.votes < u64::MAX,
{
    if vote_outcome(v, signer, poll_addr, cand_addr, now) is Err {
        v
    } else {
        let c = alist_find(v.candidates, cand_addr)->Some_0;
        let c2 = CandidateView { votes: (c.votes + 1) as u64, ..c };
        LedgerView {
            candidates: alist_update(v.candidates, cand_addr, c2),
            receipts: v.receipts.push(
                ((poll_addr, signer), ReceiptView { voter: signer, poll: poll_addr }),
            ),
            ..v
        }
    }
}

} // verus!

verus! {

/// A found value is the value of some entry carrying its key.
pub proof fn lemma_alist_find_exists<K, V>(s: Seq<(K, V)>, k: K)
    requires
        alist_has(s, k),
    ensures
        exists|i: int| 0 <= i < s.len() && s[i] == (k, alist_find(s, k)->Some_0),
    decreases s.len(),
{
    if s[0].0 == k {
        assert(s[0] == (k, alist_find(s, k)->Some_0));
    } else {
        lemma_alist_find_exists(s.drop_first(), k);
        let i = choose|i: int|
            0 <= i < s.drop_first().len() && s.drop_first()[i] == (
            k,
            alist_find(s.drop_first(), k)->Some_0,
            );
        assert(s[i + 1] == (k, alist_find(s, k)->Some_0));
    }
}

/// A successful `initialize_poll` leads from a well-formed store to a
/// well-formed store, and a failed one changes nothing.
pub proof fn lemma_initialize_poll_preserves_wf(
    v: LedgerView,
    signer: Seq<u8>,
    poll_addr: Seq<u8>,
    name: Seq<char>,
    description: Seq<char>,
    start_time: u64,
    end_time: u64,
)
    requires
        v.wf(),
        signer.len() == 32,
        poll_addr.len() == 32,
        encode_utf8(name).len() <= MAX_NAME_BYTES,
        encode_utf8(description).len() <= MAX_DESCRIPTION_BYTES,
    ensures
        initialize_poll_step(v, signer, poll_addr, name, description, start_time, end_time).wf(),
{
    let v2 = initialize_poll_step(v, signer, poll_addr, name, description, start_time, end_time);
    if initialize_poll_outcome(v, poll_addr) is Ok {
        lemma_alist_has_exists(v.polls, poll_addr);
        assert(alist_unique(v2.polls));
        assert forall|x: Seq<u8>| alist_has(v.polls, x) implies alist_has(v2.polls, x) by {
            lemma_alist_has_exists(v.polls, x);
            let j = choose|j: int| 0 <= j < v.polls.len() && v.polls[j].0 == x;
            assert(v2.polls[j].0 == x);
            lemma_alist_has_exists(v2.polls, x);
        }
        assert forall|i: int| 0 <= i < v2.candidates.len() implies {
            &&& v2.candidates[i].0.len() == 32
            &&& (#[trigger] v2.candidates[i]).1.wf()
            &&& alist_has(v2.polls, v2.candidates[i].1.poll)
        } by {
            assert(alist_has(v.polls, v.candidates[i].1.poll));
        }
        assert forall|i: int| 0 <= i < v2.receipts.len() implies alist_has(
            v2.polls,
            (#[trigger] v2.receipts[i]).1.poll,
        ) by {
            assert(alist_has(v.polls, v.receipts[i].1.poll));
        }
    }
}

/// A successful `add_candidate` leads from a well-formed store to a
/// well-formed store, and a failed one changes nothing.
pub proof fn lemma_add_candidate_preserves_wf(
    v: LedgerView,
    signer: Seq<u8>,
    poll_addr: Seq<u8>,
    cand_addr: Seq<u8>,
    name: Seq<char>,
)
    requires
        v.wf(),
        alist_has(v.polls, poll_addr),
        cand_addr.len() == 32,
        encode_utf8(name).len() <= MAX_NAME_BYTES,
    ensures
        add_candidate_step(v, signer, poll_addr, cand_addr, name).wf(),
{
    let v2 = add_candidate_step(v, signer, poll_addr, cand_addr, name);
    if add_candidate_outcome(v, signer, poll_addr, cand_addr) is Ok {
        let p = alist_find(v.polls, poll_addr)->Some_0;
        let p2 = PollView {
            candidate_count: (p.candidate_count + 1) as u8,
            candidates: p.candidates.push(cand_addr),
            ..p
        };
        lemma_alist_find_exists(v.polls, poll_addr);
        assert(p.wf());
        assert(p2.wf());
        lemma_alist_update_pointwise(v.polls, poll_addr, p2);
        assert(alist_unique(v2.polls));
        assert forall|i: int| 0 <= i < v2.polls.len() implies {
            &&& v2.polls[i].0.len() == 32
            &&& (#[trigger] v2.polls[i]).1.wf()
        } by {
            assert(v2.polls[i].1 == v.polls[i].1 || v2.polls[i].1 == p2);
        }
        lemma_alist_has_exists(v.candidates, cand_addr);
        assert(alist_unique(v2.candidates));
        assert forall|x: Seq<u8>| alist_has(v.polls, x) implies alist_has(v2.polls, x) by {
            lemma_alist_has_exists(v.polls, x);
            let j = choose|j: int| 0 <= j < v.polls.len() && v.polls[j].0 == x;
            assert(alist_update(v.polls, poll_addr, p2)[j].0 == x);
            lemma_alist_has_exists(v2.polls, x);
        }
        assert forall|i: int| 0 <= i < v2.candidates.len() implies {
            &&& v2.candidates[i].0.len() == 32
            &&& (#[trigger] v2.candidates[i]).1.wf()
            &&& alist_has(v2.polls, v2.candidates[i].1.poll)
        } by {
            if i < v.candidates.len() {
                assert(v2.candidates[i] == v.candidates[i]);
            } else {
                assert(v2.candidates[i] == (
                    cand_addr,
                    CandidateView { poll: poll_addr, name: name, votes: 0 },
                ));
            }
        }
        assert forall|i: int| 0 <= i < v2.receipts.len() implies alist_has(
            v2.polls,
            (#[trigger] v2.receipts[i]).1.poll,
        ) by {
            assert(alist_has(v.polls, v.receipts[i].1.poll));
        }
    }
}

/// A successful `vote` leads from a well-formed store to a well-formed
/// store, and a failed one changes nothing.
pub proof fn lemma_vote_preserves_wf(
    v: LedgerView,
    signer: Seq<u8>,
    poll_addr: Seq<u8>,
    cand_addr: Seq<u8>,
    now: i64,
)
    requires
        v.wf(),
        alist_has(v.polls, poll_addr),
        alist_has(v.candidates, cand_addr),
        signer.len() == 32,
        alist_find(v.candidates, cand_addr)->Some_0.votes < u64::MAX,
    ensures
        vote_step(v, signer, poll_addr, cand_addr, now).wf(),
{
    let v2 = vote_step(v, signer, poll_addr, cand_addr, now);
    if vote_outcome(v, signer, poll_addr, cand_addr, now) is Ok {
        let c = alist_find(v.candidates, cand_addr)->Some_0;
        let c2 = CandidateView { votes: (c.votes + 1) as u64, ..c };
        lemma_alist_find_exists(v.candidates, cand_addr);
        assert(c.wf());
        lemma_alist_update_pointwise(v.candidates, cand_addr, c2);
        assert(alist_unique(v2.candidates));
        assert forall|i: int| 0 <= i < v2.candidates.len() implies {
            &&& v2.candidates[i].0.len() == 32
            &&& (#[trigger] v2.candidates[i]).1.wf()
            &&& alist_has(v2.polls, v2.candidates[i].1.poll)
        } by {
            assert(v2.candidates[i].1 == v.candidates[i].1 || v2.candidates[i].1 == c2);
        }
        lemma_alist_has_exists(v.receipts, (poll_addr, signer));
        assert(alist_unique(v2.receipts));
        lemma_alist_find_exists(v.polls, poll_addr);
    }
}

} // verus!
