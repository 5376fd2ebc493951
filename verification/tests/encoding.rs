use voting::accounts::{CandidateAccount, PollAccount, VoterReceipt};
use voting::indexer::{map_program_data, program_id, InstructionRecord};
use voting::instructions::{
    decode_add_candidate_args, decode_initialize_poll_args, encode_add_candidate_args,
    encode_initialize_poll_args, encode_vote_args, is_vote_args,
};
use voting::pubkey::Pubkey;
use voting::records::{
    decode_candidate_account, decode_poll_account, decode_voter_receipt,
    encode_candidate_account, encode_poll_account, encode_voter_receipt,
};
use voting::seeds::{candidate_seed_bytes, receipt_seed_bytes};

fn key(tag: u8) -> Pubkey {
    Pubkey::new([tag; 32])
}

#[test]
fn poll_record_round_trip() {
    let poll = PollAccount {
        authority: key(1),
        name: String::from("Favorite dish"),
        description: String::from("Pick exactly one"),
        start_time: 1_700_000_000,
        end_time: 1_700_003_600,
        candidate_count: 2,
        candidates: vec![key(3), key(4)],
    };
    let bytes = encode_poll_account(&poll);
    let back = decode_poll_account(bytes.as_slice()).expect("round trip");
    assert!(back.authority.same(&poll.authority));
    assert_eq!(back.name, poll.name);
    assert_eq!(back.description, poll.description);
    assert_eq!(back.start_time, poll.start_time);
    assert_eq!(back.end_time, poll.end_time);
    assert_eq!(back.candidate_count, poll.candidate_count);
    assert_eq!(back.candidates.len(), 2);
    assert!(back.candidates[0].same(&key(3)));
    assert!(back.candidates[1].same(&key(4)));
}

#[test]
fn candidate_record_round_trip_and_exact_bytes() {
    let cand = CandidateAccount {
        poll: key(2),
        name: String::from("AB"),
        votes: 7,
    };
    let bytes = encode_candidate_account(&cand);
    // tag, 32 poll bytes, u32 length prefix, text, u64 tally — all little endian
    let mut expected: Vec<u8> = vec![69, 203, 73, 43, 203, 170, 96, 121];
    expected.extend_from_slice(&[2u8; 32]);
    expected.extend_from_slice(&[2, 0, 0, 0]);
    expected.extend_from_slice(b"AB");
    expected.extend_from_slice(&[7, 0, 0, 0, 0, 0, 0, 0]);
    assert_eq!(bytes, expected);
    let back = decode_candidate_account(bytes.as_slice()).expect("round trip");
    assert!(back.poll.same(&cand.poll));
    assert_eq!(back.name, "AB");
    assert_eq!(back.votes, 7);
}

#[test]
fn receipt_record_round_trip_and_exact_bytes() {
    let receipt = VoterReceipt { voter: key(5), poll: key(2) };
    let bytes = encode_voter_receipt(&receipt);
    let mut expected: Vec<u8> = vec![94, 230, 87, 51, 169, 216, 144, 98];
    expected.extend_from_slice(&[5u8; 32]);
    expected.extend_from_slice(&[2u8; 32]);
    assert_eq!(bytes, expected);
    let back = decode_voter_receipt(bytes.as_slice()).expect("round trip");
    assert!(back.voter.same(&receipt.voter));
    assert!(back.poll.same(&receipt.poll));
}

#[test]
fn record_decode_rejects_malformed_bytes() {
    let receipt = VoterReceipt { voter: key(5), poll: key(2) };
    let good = encode_voter_receipt(&receipt);
    // wrong tag
    let mut wrong_tag = good.clone();
    wrong_tag[0] ^= 1;
    assert!(decode_voter_receipt(wrong_tag.as_slice()).is_none());
    // truncated
    assert!(decode_voter_receipt(&good[..good.len() - 1]).is_none());
    // trailing garbage
    let mut long = good.clone();
    long.push(0);
    assert!(decode_voter_receipt(long.as_slice()).is_none());
    // a receipt is not a candidate
    assert!(decode_candidate_account(good.as_slice()).is_none());
}

#[test]
fn poll_decode_rejects_count_list_mismatch() {
    let poll = PollAccount {
        authority: key(1),
        name: String::from("N"),
        description: String::from("D"),
        start_time: 0,
        end_time: 1,
        candidate_count: 1,
        candidates: vec![key(3)],
    };
    let good = encode_poll_account(&poll);
    assert!(decode_poll_account(good.as_slice()).is_some());
    // flip the stored counter so it disagrees with the list's length prefix
    let mut mismatch = good.clone();
    let count_at = good.len() - (4 + 32) - 1;
    assert_eq!(mismatch[count_at], 1);
    mismatch[count_at] = 2;
    assert!(decode_poll_account(mismatch.as_slice()).is_none());
}

#[test]
fn poll_decode_rejects_oversized_name() {
    // a 33-byte name breaks the record bound
    let name_bytes = [b'x'; 33];
    let mut bytes: Vec<u8> = vec![109, 254, 117, 41, 232, 74, 172, 45];
    bytes.extend_from_slice(&[1u8; 32]);
    bytes.extend_from_slice(&[33, 0, 0, 0]);
    bytes.extend_from_slice(&name_bytes);
    bytes.extend_from_slice(&[0, 0, 0, 0]); // description
    bytes.extend_from_slice(&[0; 8]); // start
    bytes.extend_from_slice(&[0; 8]); // end
    bytes.push(0); // count
    bytes.extend_from_slice(&[0, 0, 0, 0]); // empty list
    assert!(decode_poll_account(bytes.as_slice()).is_none());
}

#[test]
fn initialize_poll_args_round_trip() {
    let bytes = encode_initialize_poll_args(
        &String::from("Name"),
        &String::from("Longer description"),
        123,
        456,
    );
    assert_eq!(&bytes[..8], &[193, 22, 99, 197, 18, 33, 115, 117]);
    let (name, description, start, end) =
        decode_initialize_poll_args(bytes.as_slice()).expect("round trip");
    assert_eq!(name, "Name");
    assert_eq!(description, "Longer description");
    assert_eq!(start, 123);
    assert_eq!(end, 456);
    // a consumer reads from the front: trailing bytes are ignored
    let mut padded = bytes.clone();
    padded.extend_from_slice(&[9, 9, 9]);
    assert!(decode_initialize_poll_args(padded.as_slice()).is_some());
    // the other decoders do not claim this payload
    assert!(decode_add_candidate_args(bytes.as_slice()).is_none());
    assert!(!is_vote_args(bytes.as_slice()));
}

#[test]
fn add_candidate_args_round_trip() {
    let bytes = encode_add_candidate_args(&String::from("Alice"));
    assert_eq!(&bytes[..8], &[172, 34, 30, 247, 165, 210, 224, 164]);
    let name = decode_add_candidate_args(bytes.as_slice()).expect("round trip");
    assert_eq!(name, "Alice");
    assert!(decode_initialize_poll_args(bytes.as_slice()).is_none());
}

#[test]
fn vote_args_round_trip() {
    let bytes = encode_vote_args();
    assert_eq!(bytes, vec![227, 110, 155, 23, 136, 126, 172, 25]);
    assert!(is_vote_args(bytes.as_slice()));
    assert!(decode_add_candidate_args(bytes.as_slice()).is_none());
}

#[test]
fn candidate_seed_bytes_are_exact() {
    let seed = candidate_seed_bytes(&key(2), 3);
    let mut expected: Vec<u8> = Vec::new();
    expected.extend_from_slice(b"candidate");
    expected.extend_from_slice(&[2u8; 32]);
    expected.push(3);
    assert_eq!(seed, expected);
}

#[test]
fn receipt_seed_bytes_are_exact() {
    let seed = receipt_seed_bytes(&key(2), &key(5));
    let mut expected: Vec<u8> = Vec::new();
    expected.extend_from_slice(b"receipt");
    expected.extend_from_slice(&[2u8; 32]);
    expected.extend_from_slice(&[5u8; 32]);
    assert_eq!(seed, expected);
}

fn record(program: String, data: Vec<u8>, accounts: Vec<&str>, trx: &str) -> InstructionRecord {
    InstructionRecord {
        trx_hash: String::from(trx),
        program_id: program,
        data,
        accounts: accounts.into_iter().map(String::from).collect(),
    }
}

#[test]
fn map_program_data_projects_the_stream() {
    let pid = program_id();
    let init_data =
        encode_initialize_poll_args(&String::from("Poll"), &String::from("Desc"), 10, 20);
    let add_data = encode_add_candidate_args(&String::from("Alice"));
    let vote_data = encode_vote_args();
    let stream = vec![
        record(pid.clone(), init_data.clone(), vec!["signer1", "poll1"], "tx1"),
        // another program's instruction is skipped
        record(String::from("SomeOtherProgram"), add_data.clone(), vec!["s", "p", "c"], "tx2"),
        record(pid.clone(), add_data.clone(), vec!["signer1", "poll1", "cand1"], "tx3"),
        // an unknown discriminant is skipped
        record(pid.clone(), vec![0, 1, 2, 3, 4, 5, 6, 7], vec!["a", "b", "c", "d"], "tx4"),
        record(pid.clone(), vote_data.clone(), vec!["voter1", "poll1", "cand1", "receipt1"], "tx5"),
        // too few accounts for a vote: skipped
        record(pid.clone(), vote_data.clone(), vec!["voter2", "poll1"], "tx6"),
    ];
    let data = map_program_data(&stream);
    assert_eq!(data.initialize_poll_instruction_list.len(), 1);
    let init = &data.initialize_poll_instruction_list[0];
    assert_eq!(init.trx_hash, "tx1");
    assert_eq!(init.name, "Poll");
    assert_eq!(init.description, "Desc");
    assert_eq!(init.start_time, 10);
    assert_eq!(init.end_time, 20);
    assert_eq!(init.acct_signer, "signer1");
    assert_eq!(init.acct_poll_account, "poll1");
    assert_eq!(data.add_candidate_instruction_list.len(), 1);
    let add = &data.add_candidate_instruction_list[0];
    assert_eq!(add.trx_hash, "tx3");
    assert_eq!(add.candidate_name, "Alice");
    assert_eq!(add.acct_signer, "signer1");
    assert_eq!(add.acct_poll_account, "poll1");
    assert_eq!(add.acct_candidate_account, "cand1");
    assert_eq!(data.vote_instruction_list.len(), 1);
    let v = &data.vote_instruction_list[0];
    assert_eq!(v.trx_hash, "tx5");
    assert_eq!(v.acct_signer, "voter1");
    assert_eq!(v.acct_poll_account, "poll1");
    assert_eq!(v.acct_candidate_account, "cand1");
    assert_eq!(v.acct_voter_receipt, "receipt1");
}

#[test]
fn map_program_data_keeps_stream_order() {
    let pid = program_id();
    let add_a = encode_add_candidate_args(&String::from("Alice"));
    let add_b = encode_add_candidate_args(&String::from("Bob"));
    let stream = vec![
        record(pid.clone(), add_a, vec!["s", "p", "c1"], "tx1"),
        record(pid.clone(), add_b, vec!["s", "p", "c2"], "tx2"),
    ];
    let data = map_program_data(&stream);
    assert_eq!(data.add_candidate_instruction_list.len(), 2);
    assert_eq!(data.add_candidate_instruction_list[0].candidate_name, "Alice");
    assert_eq!(data.add_candidate_instruction_list[1].candidate_name, "Bob");
}

#[test]
fn non_ascii_text_survives_the_codec() {
    let cand = CandidateAccount {
        poll: key(2),
        name: String::from("Año nuevo"),
        votes: 1,
    };
    let bytes = encode_candidate_account(&cand);
    let back = decode_candidate_account(bytes.as_slice()).expect("round trip");
    assert_eq!(back.name, "Año nuevo");
    // invalid UTF-8 in a text field is rejected
    let mut broken = bytes.clone();
    broken[44] = 0xff; // inside the name bytes
    assert!(decode_candidate_account(broken.as_slice()).is_none());
}

#[test]
fn distinct_inputs_give_distinct_seeds() {
    assert_ne!(candidate_seed_bytes(&key(2), 0), candidate_seed_bytes(&key(2), 1));
    assert_ne!(candidate_seed_bytes(&key(2), 0), candidate_seed_bytes(&key(3), 0));
    assert_ne!(receipt_seed_bytes(&key(2), &key(5)), receipt_seed_bytes(&key(2), &key(6)));
    assert_ne!(
        candidate_seed_bytes(&key(2), 5).first(),
        receipt_seed_bytes(&key(2), &key(5)).first()
    );
}
