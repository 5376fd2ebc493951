use voting::errors::ErrorCode;
use voting::ledger::{
    add_candidate, initialize_poll, vote, AddCandidate, InitializePoll, Ledger, Vote,
};
use voting::pubkey::Pubkey;

fn key(tag: u8) -> Pubkey {
    Pubkey::new([tag; 32])
}

fn fresh_poll_at(ledger: &mut Ledger, authority: Pubkey, poll: Pubkey, start: u64, end: u64) {
    let r = initialize_poll(
        ledger,
        InitializePoll { signer: authority, poll_account: poll },
        String::from("Favorite dish"),
        String::from("Pick exactly one"),
        start,
        end,
    );
    assert_eq!(r, Ok(()));
}

#[test]
fn initialize_poll_reads_back_fresh() {
    let mut ledger = Ledger::new();
    let authority = key(1);
    let poll = key(2);
    let r = initialize_poll(
        &mut ledger,
        InitializePoll { signer: authority, poll_account: poll },
        String::from("Name"),
        String::from("Description"),
        100,
        200,
    );
    assert_eq!(r, Ok(()));
    let p = ledger.get_poll(&poll).expect("poll must exist");
    assert_eq!(p.candidate_count, 0);
    assert_eq!(p.candidates.len(), 0);
    assert_eq!(p.name, "Name");
    assert_eq!(p.description, "Description");
    assert_eq!(p.start_time, 100);
    assert_eq!(p.end_time, 200);
    assert!(p.authority.same(&authority));
}

#[test]
fn initialize_poll_occupied_address_fails() {
    let mut ledger = Ledger::new();
    let authority = key(1);
    let poll = key(2);
    fresh_poll_at(&mut ledger, authority, poll, 100, 200);
    let r = initialize_poll(
        &mut ledger,
        InitializePoll { signer: key(9), poll_account: poll },
        String::from("Other"),
        String::from("Other"),
        0,
        1,
    );
    assert_eq!(r, Err(ErrorCode::AllocationError));
    // the first record is untouched
    let p = ledger.get_poll(&poll).expect("poll must exist");
    assert_eq!(p.name, "Favorite dish");
    assert!(p.authority.same(&authority));
}

#[test]
fn reversed_window_is_recorded_unchecked() {
    let mut ledger = Ledger::new();
    let authority = key(1);
    let poll = key(2);
    // start after end: accepted at creation, and no vote can ever land
    fresh_poll_at(&mut ledger, authority, poll, 300, 200);
    let cand = key(3);
    let r = add_candidate(
        &mut ledger,
        AddCandidate { signer: authority, poll_account: poll, candidate_account: cand },
        String::from("Alice"),
    );
    assert_eq!(r, Ok(()));
    let early = vote(
        &mut ledger,
        Vote { signer: key(4), poll_account: poll, candidate_account: cand },
        250,
    );
    assert_eq!(early, Err(ErrorCode::PollNotStarted));
}

#[test]
fn fifteen_adds_in_call_order() {
    let mut ledger = Ledger::new();
    let authority = key(1);
    let poll = key(2);
    fresh_poll_at(&mut ledger, authority, poll, 100, 200);
    let mut expected: Vec<Pubkey> = Vec::new();
    for i in 0..15u8 {
        let cand = key(100 + i);
        let r = add_candidate(
            &mut ledger,
            AddCandidate { signer: authority, poll_account: poll, candidate_account: cand },
            format!("Candidate {}", i),
        );
        assert_eq!(r, Ok(()));
        expected.push(cand);
        let p = ledger.get_poll(&poll).expect("poll must exist");
        assert_eq!(p.candidate_count as usize, (i as usize) + 1);
        assert_eq!(p.candidates.len(), (i as usize) + 1);
    }
    let p = ledger.get_poll(&poll).expect("poll must exist");
    assert_eq!(p.candidate_count, 15);
    for (got, want) in p.candidates.iter().zip(expected.iter()) {
        assert!(got.same(want));
    }
}

#[test]
fn sixteenth_add_fails_capacity_and_changes_nothing() {
    let mut ledger = Ledger::new();
    let authority = key(1);
    let poll = key(2);
    fresh_poll_at(&mut ledger, authority, poll, 100, 200);
    for i in 0..15u8 {
        let r = add_candidate(
            &mut ledger,
            AddCandidate {
                signer: authority,
                poll_account: poll,
                candidate_account: key(100 + i),
            },
            format!("Candidate {}", i),
        );
        assert_eq!(r, Ok(()));
    }
    let overflow = key(200);
    let r = add_candidate(
        &mut ledger,
        AddCandidate { signer: authority, poll_account: poll, candidate_account: overflow },
        String::from("One too many"),
    );
    assert_eq!(r, Err(ErrorCode::CapacityExceeded));
    let p = ledger.get_poll(&poll).expect("poll must exist");
    assert_eq!(p.candidate_count, 15);
    assert_eq!(p.candidates.len(), 15);
    assert!(ledger.get_candidate(&overflow).is_none());
}

#[test]
fn add_by_non_authority_fails_unauthorized() {
    let mut ledger = Ledger::new();
    let authority = key(1);
    let poll = key(2);
    fresh_poll_at(&mut ledger, authority, poll, 100, 200);
    let cand = key(3);
    let r = add_candidate(
        &mut ledger,
        AddCandidate { signer: key(9), poll_account: poll, candidate_account: cand },
        String::from("Mallory"),
    );
    assert_eq!(r, Err(ErrorCode::Unauthorized));
    // no allocation took place
    assert!(ledger.get_candidate(&cand).is_none());
    let p = ledger.get_poll(&poll).expect("poll must exist");
    assert_eq!(p.candidate_count, 0);
}

#[test]
fn add_at_occupied_address_fails_allocation() {
    let mut ledger = Ledger::new();
    let authority = key(1);
    let poll = key(2);
    fresh_poll_at(&mut ledger, authority, poll, 100, 200);
    let cand = key(3);
    let r1 = add_candidate(
        &mut ledger,
        AddCandidate { signer: authority, poll_account: poll, candidate_account: cand },
        String::from("Alice"),
    );
    assert_eq!(r1, Ok(()));
    // the losing side of a derivation race re-creates at the same address
    let r2 = add_candidate(
        &mut ledger,
        AddCandidate { signer: authority, poll_account: poll, candidate_account: cand },
        String::from("Bob"),
    );
    assert_eq!(r2, Err(ErrorCode::AllocationError));
    let p = ledger.get_poll(&poll).expect("poll must exist");
    assert_eq!(p.candidate_count, 1);
}

#[test]
fn vote_window_is_enforced() {
    let mut ledger = Ledger::new();
    let authority = key(1);
    let poll = key(2);
    let cand = key(3);
    fresh_poll_at(&mut ledger, authority, poll, 100, 200);
    let r = add_candidate(
        &mut ledger,
        AddCandidate { signer: authority, poll_account: poll, candidate_account: cand },
        String::from("Alice"),
    );
    assert_eq!(r, Ok(()));
    let before = vote(
        &mut ledger,
        Vote { signer: key(4), poll_account: poll, candidate_account: cand },
        99,
    );
    assert_eq!(before, Err(ErrorCode::PollNotStarted));
    let after = vote(
        &mut ledger,
        Vote { signer: key(4), poll_account: poll, candidate_account: cand },
        201,
    );
    assert_eq!(after, Err(ErrorCode::PollEnded));
    assert_eq!(ledger.get_candidate(&cand).expect("candidate").votes, 0);
    // both window edges admit a vote
    let at_start = vote(
        &mut ledger,
        Vote { signer: key(4), poll_account: poll, candidate_account: cand },
        100,
    );
    assert_eq!(at_start, Ok(()));
    let at_end = vote(
        &mut ledger,
        Vote { signer: key(5), poll_account: poll, candidate_account: cand },
        200,
    );
    assert_eq!(at_end, Ok(()));
    assert_eq!(ledger.get_candidate(&cand).expect("candidate").votes, 2);
}

#[test]
fn cross_poll_candidate_is_rejected() {
    let mut ledger = Ledger::new();
    let authority = key(1);
    let poll_a = key(2);
    let poll_b = key(3);
    fresh_poll_at(&mut ledger, authority, poll_a, 100, 200);
    fresh_poll_at(&mut ledger, authority, poll_b, 100, 200);
    let cand_b = key(4);
    let r = add_candidate(
        &mut ledger,
        AddCandidate { signer: authority, poll_account: poll_b, candidate_account: cand_b },
        String::from("Bob"),
    );
    assert_eq!(r, Ok(()));
    // vote in poll A naming poll B's candidate
    let cross = vote(
        &mut ledger,
        Vote { signer: key(5), poll_account: poll_a, candidate_account: cand_b },
        150,
    );
    assert_eq!(cross, Err(ErrorCode::InvalidCandidateForPoll));
    assert_eq!(ledger.get_candidate(&cand_b).expect("candidate").votes, 0);
}

#[test]
fn second_vote_by_same_voter_fails() {
    let mut ledger = Ledger::new();
    let authority = key(1);
    let poll = key(2);
    let cand_a = key(3);
    let cand_b = key(4);
    let voter = key(5);
    fresh_poll_at(&mut ledger, authority, poll, 100, 200);
    for (addr, name) in [(cand_a, "Alice"), (cand_b, "Bob")] {
        let r = add_candidate(
            &mut ledger,
            AddCandidate { signer: authority, poll_account: poll, candidate_account: addr },
            String::from(name),
        );
        assert_eq!(r, Ok(()));
    }
    let first = vote(
        &mut ledger,
        Vote { signer: voter, poll_account: poll, candidate_account: cand_a },
        150,
    );
    assert_eq!(first, Ok(()));
    assert!(ledger.has_receipt(&poll, &voter));
    // the same voter again, even for the other candidate
    let second = vote(
        &mut ledger,
        Vote { signer: voter, poll_account: poll, candidate_account: cand_b },
        160,
    );
    assert_eq!(second, Err(ErrorCode::AllocationError));
    assert_eq!(ledger.get_candidate(&cand_a).expect("candidate").votes, 1);
    assert_eq!(ledger.get_candidate(&cand_b).expect("candidate").votes, 0);
    // a different voter is still free to vote
    let other = vote(
        &mut ledger,
        Vote { signer: key(6), poll_account: poll, candidate_account: cand_b },
        170,
    );
    assert_eq!(other, Ok(()));
}

#[test]
fn full_scenario_alice_gets_one_vote() {
    let now: i64 = 1_700_000_000;
    let mut ledger = Ledger::new();
    let authority = key(1);
    let poll = key(2);
    let cand = key(3);
    let voter = key(4);
    let r = initialize_poll(
        &mut ledger,
        InitializePoll { signer: authority, poll_account: poll },
        String::from("Full Integration Test Poll"),
        String::from("Automated test poll."),
        (now - 60) as u64,
        (now + 3600) as u64,
    );
    assert_eq!(r, Ok(()));
    let r = add_candidate(
        &mut ledger,
        AddCandidate { signer: authority, poll_account: poll, candidate_account: cand },
        String::from("Alice"),
    );
    assert_eq!(r, Ok(()));
    let p = ledger.get_poll(&poll).expect("poll");
    assert_eq!(p.candidate_count, 1);
    assert!(p.candidates[0].same(&cand));
    let r = vote(
        &mut ledger,
        Vote { signer: voter, poll_account: poll, candidate_account: cand },
        now,
    );
    assert_eq!(r, Ok(()));
    assert_eq!(ledger.get_candidate(&cand).expect("candidate").votes, 1);
    assert!(ledger.has_receipt(&poll, &voter));
    let again = vote(
        &mut ledger,
        Vote { signer: voter, poll_account: poll, candidate_account: cand },
        now + 1,
    );
    assert_eq!(again, Err(ErrorCode::AllocationError));
    assert_eq!(ledger.get_candidate(&cand).expect("candidate").votes, 1);
}

#[test]
fn tally_counts_only_successful_votes() {
    let mut ledger = Ledger::new();
    let authority = key(1);
    let poll = key(2);
    let alice = key(3);
    let bob = key(4);
    fresh_poll_at(&mut ledger, authority, poll, 100, 200);
    for (addr, name) in [(alice, "Alice"), (bob, "Bob")] {
        let r = add_candidate(
            &mut ledger,
            AddCandidate { signer: authority, poll_account: poll, candidate_account: addr },
            String::from(name),
        );
        assert_eq!(r, Ok(()));
    }
    // six calls naming Alice: three succeed, one is out of the window,
    // one repeats a voter, and one goes to Bob
    let calls: [(Pubkey, Pubkey, i64); 6] = [
        (key(10), alice, 150),
        (key(11), alice, 99),   // too early
        (key(11), alice, 150),
        (key(10), alice, 160),  // double vote
        (key(12), bob, 150),
        (key(13), alice, 200),
    ];
    let mut alice_successes = 0u64;
    for (voter, cand, t) in calls {
        let r = vote(
            &mut ledger,
            Vote { signer: voter, poll_account: poll, candidate_account: cand },
            t,
        );
        if r.is_ok() && cand.same(&alice) {
            alice_successes += 1;
        }
    }
    assert_eq!(alice_successes, 3);
    assert_eq!(ledger.get_candidate(&alice).expect("candidate").votes, 3);
    assert_eq!(ledger.get_candidate(&bob).expect("candidate").votes, 1);
}
