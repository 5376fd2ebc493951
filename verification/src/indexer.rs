//! The stream projection: from observed instructions to typed records.
//!
//! An off-chain consumer watches the runtime's transaction stream. For
//! every instruction it sees the transaction hash, the program identity,
//! the raw argument payload and the account addresses the instruction
//! names. [`map_program_data`] keeps the instructions of this program,
//! decodes each payload by its discriminant, and joins it with the named
//! accounts; anything that does not match is skipped. It reads, and never
//! writes, protocol state.

use vstd::prelude::*;
use vstd::string::StringExecFns;
use crate::instructions::{
    decode_add_candidate_args, decode_initialize_poll_args, is_vote_args,
    spec_decode_add_candidate_args, spec_decode_initialize_poll_args, spec_is_vote_args,
};

verus! {

/// The identity under which the voting program is deployed.
pub open spec fn spec_program_id() -> Seq<char> {
    "Doo2arLUifZbfqGVS5Uh7nexAMmsMzaQH5zcwZhSoijz"@
}

/// The identity under which the voting program is deployed.
pub fn program_id() -> (r: String)
    ensures
        r@ == spec_program_id(),
{
    String::from_str("Doo2arLUifZbfqGVS5Uh7nexAMmsMzaQH5zcwZhSoijz")
}

/// One instruction as observed on the stream: its transaction's hash, the
/// program it addresses, its raw argument payload, and the addresses of
/// the accounts it names, in declaration order.
pub struct InstructionRecord {
    pub trx_hash: String,
    pub program_id: String,
    pub data: Vec<u8>,
    pub accounts: Vec<String>,
}

/// The mathematical value of an [`InstructionRecord`].
#[verifier::ext_equal]
pub struct InstructionRecordView {
    pub trx_hash: Seq<char>,
    pub program_id: Seq<char>,
    pub data: Seq<u8>,
    pub accounts: Seq<Seq<char>>,
}

impl View for InstructionRecord {
    type V = InstructionRecordView;

    open spec fn view(&self) -> InstructionRecordView {
        InstructionRecordView {
            trx_hash: self.trx_hash@,
            program_id: self.program_id@,
            data: self.data@,
            accounts: self.accounts@.map_values(|s: String| s@),
        }
    }
}

/// One decoded `initialize_poll` call.
pub struct InitializePollInstruction {
    pub trx_hash: String,
    pub name: String,
    pub description: String,
    pub start_time: u64,
    pub end_time: u64,
    pub acct_signer: String,
    pub acct_poll_account: String,
}

/// The mathematical value of an [`InitializePollInstruction`].
#[verifier::ext_equal]
pub struct InitializePollInstructionView {
    pub trx_hash: Seq<char>,
    pub name: Seq<char>,
    pub description: Seq<char>,
    pub start_time: u64,
    pub end_time: u64,
    pub acct_signer: Seq<char>,
    pub acct_poll_account: Seq<char>,
}

impl View for InitializePollInstruction {
    type V = InitializePollInstructionView;

    open spec fn view(&self) -> InitializePollInstructionView {
        InitializePollInstructionView {
            trx_hash: self.trx_hash@,
            name: self.name@,
            description: self.description@,
            start_time: self.start_time,
            end_time: self.end_time,
            acct_signer: self.acct_signer@,
            acct_poll_account: self.acct_poll_account@,
        }
    }
}

/// One decoded `add_candidate` call.
pub struct AddCandidateInstruction {
    pub trx_hash: String,
    pub candidate_name: String,
    pub acct_signer: String,
    pub acct_poll_account: String,
    pub acct_candidate_account: String,
}

/// The mathematical value of an [`AddCandidateInstruction`].
#[verifier::ext_equal]
pub struct AddCandidateInstructionView {
    pub trx_hash: Seq<char>,
    pub candidate_name: Seq<char>,
    pub acct_signer: Seq<char>,
    pub acct_poll_account: Seq<char>,
    pub acct_candidate_account: Seq<char>,
}

impl View for AddCandidateInstruction {
    type V = AddCandidateInstructionView;

    open spec fn view(&self) -> AddCandidateInstructionView {
        AddCandidateInstructionView {
            trx_hash: self.trx_hash@,
            candidate_name: self.candidate_name@,
            acct_signer: self.acct_signer@,
            acct_poll_account: self.acct_poll_account@,
            acct_candidate_account: self.acct_candidate_account@,
        }
    }
}

/// One decoded `vote` call.
pub struct VoteInstruction {
    pub trx_hash: String,
    pub acct_signer: String,
    pub acct_poll_account: String,
    pub acct_candidate_account: String,
    pub acct_voter_receipt: String,
}

/// The mathematical value of a [`VoteInstruction`].
#[verifier::ext_equal]
pub struct VoteInstructionView {
    pub trx_hash: Seq<char>,
    pub acct_signer: Seq<char>,
    pub acct_poll_account: Seq<char>,
    pub acct_candidate_account: Seq<char>,
    pub acct_voter_receipt: Seq<char>,
}

impl View for VoteInstruction {
    type V = VoteInstructionView;

    open spec fn view(&self) -> VoteInstructionView {
        VoteInstructionView {
            trx_hash: self.trx_hash@,
            acct_signer: self.acct_signer@,
            acct_poll_account: self.acct_poll_account@,
            acct_candidate_account: self.acct_candidate_account@,
            acct_voter_receipt: self.acct_voter_receipt@,
        }
    }
}

/// Everything one pass over a stream segment decodes.
pub struct Data {
    pub add_candidate_instruction_list: Vec<AddCandidateInstruction>,
    pub initialize_poll_instruction_list: Vec<InitializePollInstruction>,
    pub vote_instruction_list: Vec<VoteInstruction>,
}

/// The mathematical value of a [`Data`].
#[verifier::ext_equal]
pub struct DataView {
    pub add_candidate_instruction_list: Seq<AddCandidateInstructionView>,
    pub initialize_poll_instruction_list: Seq<InitializePollInstructionView>,
    pub vote_instruction_list: Seq<VoteInstructionView>,
}

impl View for Data {
    type V = DataView;

    open spec fn view(&self) -> DataView {
        DataView {
            add_candidate_instruction_list: self.add_candidate_instruction_list@.map_values(
                |x: AddCandidateInstruction| x@,
            ),
            initialize_poll_instruction_list: self.initialize_poll_instruction_list@.map_values(
                |x: InitializePollInstruction| x@,
            ),
            vote_instruction_list: self.vote_instruction_list@.map_values(
                |x: VoteInstruction| x@,
            ),
        }
    }
}

/// The `initialize_poll` record one instruction yields, if any: the
/// program matches, the payload decodes, and the two named accounts are
/// the signer and the poll.
pub open spec fn spec_init_entry(t: InstructionRecordView) -> Option<
    InitializePollInstructionView,
> {
    if t.program_id != spec_program_id() {
        None
    } else {
        match spec_decode_initialize_poll_args(t.data) {
            None => None,
            Some((name, description, start_time, end_time)) => if t.accounts.len() < 2 {
                None
            } else {
                Some(
                    InitializePollInstructionView {
                        trx_hash: t.trx_hash,
                        name,
                        description,
                        start_time,
                        end_time,
                        acct_signer: t.accounts[0],
                        acct_poll_account: t.accounts[1],
                    },
                )
            },
        }
    }
}

/// The `add_candidate` record one instruction yields, if any: the program
/// matches, the payload decodes, and the three named accounts are the
/// signer, the poll and the candidate.
pub open spec fn spec_add_entry(t: InstructionRecordView) -> Option<AddCandidateInstructionView> {
    if t.program_id != spec_program_id() {
        None
    } else {
        match spec_decode_add_candidate_args(t.data) {
            None => None,
            Some(candidate_name) => if t.accounts.len() < 3 {
                None
            } else {
                Some(
                    AddCandidateInstructionView {
                        trx_hash: t.trx_hash,
                        candidate_name,
                        acct_signer: t.accounts[0],
                        acct_poll_account: t.accounts[1],
                        acct_candidate_account: t.accounts[2],
                    },
                )
            },
        }
    }
}

/// The `vote` record one instruction yields, if any: the program matches,
/// the payload carries the vote discriminant, and the four named accounts
/// are the signer, the poll, the candidate and the receipt.
pub open spec fn spec_vote_entry(t: InstructionRecordView) -> Option<VoteInstructionView> {
    if t.program_id != spec_program_id() {
        None
    } else if !spec_is_vote_args(t.data) || t.accounts.len() < 4 {
        None
    } else {
        Some(
            VoteInstructionView {
                trx_hash: t.trx_hash,
                acct_signer: t.accounts[0],
                acct_poll_account: t.accounts[1],
                acct_candidate_account: t.accounts[2],
                acct_voter_receipt: t.accounts[3],
            },
        )
    }
}

/// All `initialize_poll` records of a stream segment, in stream order.
pub open spec fn collect_init(s: Seq<InstructionRecordView>) -> Seq<InitializePollInstructionView>
    decreases s.len(),
{
    if s.len() == 0 {
        Seq::empty()
    } else {
        collect_init(s.drop_last()) + match spec_init_entry(s.last()) {
            Some(x) => seq![x],
            None => Seq::empty(),
        }
    }
}

/// All `add_candidate` records of a stream segment, in stream order.
pub open spec fn collect_add(s: Seq<InstructionRecordView>) -> Seq<AddCandidateInstructionView>
    decreases s.len(),
{
    if s.len() == 0 {
        Seq::empty()
    } else {
        collect_add(s.drop_last()) + match spec_add_entry(s.last()) {
            Some(x) => seq![x],
            None => Seq::empty(),
        }
    }
}

/// All `vote` records of a stream segment, in stream order.
pub open spec fn collect_vote(s: Seq<InstructionRecordView>) -> Seq<VoteInstructionView>
    decreases s.len(),
{
    if s.len() == 0 {
        Seq::empty()
    } else {
        collect_vote(s.drop_last()) + match spec_vote_entry(s.last()) {
            Some(x) => seq![x],
            None => Seq::empty(),
        }
    }
}

/// Projects a stream segment to the typed records of this program's three
/// operations, each list in stream order. Instructions of other programs,
/// payloads under no known discriminant, and instructions that name too
/// few accounts are skipped.
pub fn map_program_data(instructions: &Vec<InstructionRecord>) -> (r: Data)
    ensures
        r@.initialize_poll_instruction_list == collect_init(
            instructions@.map_values(|t: InstructionRecord| t@),
        ),
        r@.add_candidate_instruction_list == collect_add(
            instructions@.map_values(|t: InstructionRecord| t@),
        ),
        r@.vote_instruction_list == collect_vote(
            instructions@.map_values(|t: InstructionRecord| t@),
        ),
{
    let ghost s = instructions@.map_values(|t: InstructionRecord| t@);
    let pid = program_id();
    let mut add_candidate_instruction_list: Vec<AddCandidateInstruction> = Vec::new();
    let mut initialize_poll_instruction_list: Vec<InitializePollInstruction> = Vec::new();
    let mut vote_instruction_list: Vec<VoteInstruction> = Vec::new();
    let n = instructions.len();
    let mut i: usize = 0;
    while i < n
        invariant
            n == instructions@.len(),
            i <= n,
            s == instructions@.map_values(|t: InstructionRecord| t@),
            pid@ == spec_program_id(),
            initialize_poll_instruction_list@.map_values(|x: InitializePollInstruction| x@)
                == collect_init(s.take(i as int)),
            add_candidate_instruction_list@.map_values(|x: AddCandidateInstruction| x@)
                == collect_add(s.take(i as int)),
            vote_instruction_list@.map_values(|x: VoteInstruction| x@) == collect_vote(
                s.take(i as int),
            ),
        decreases n - i,
    {
        let t = &instructions[i];
        proof {
            assert(s.take(i as int + 1).drop_last() =~= s.take(i as int));
            assert(s.take(i as int + 1).last() == t@);
        }
        let ghost init0 = initialize_poll_instruction_list@;
        let ghost add0 = add_candidate_instruction_list@;
        let ghost vote0 = vote_instruction_list@;
        if t.program_id == pid {
            if let Some(candidate_name) = decode_add_candidate_args(t.data.as_slice()) {
                if t.accounts.len() >= 3 {
                    add_candidate_instruction_list.push(
                        AddCandidateInstruction {
                            trx_hash: t.trx_hash.clone(),
                            candidate_name: candidate_name,
                            acct_signer: t.accounts[0].clone(),
                            acct_poll_account: t.accounts[1].clone(),
                            acct_candidate_account: t.accounts[2].clone(),
                        },
                    );
                }
            }
            if let Some(args) = decode_initialize_poll_args(t.data.as_slice()) {
                if t.accounts.len() >= 2 {
                    let (name, description, start_time, end_time) = args;
                    initialize_poll_instruction_list.push(
                        InitializePollInstruction {
                            trx_hash: t.trx_hash.clone(),
                            name: name,
                            description: description,
                            start_time: start_time,
                            end_time: end_time,
                            acct_signer: t.accounts[0].clone(),
                            acct_poll_account: t.accounts[1].clone(),
                        },
                    );
                }
            }
            if is_vote_args(t.data.as_slice()) {
                if t.accounts.len() >= 4 {
                    vote_instruction_list.push(
                        VoteInstruction {
                            trx_hash: t.trx_hash.clone(),
                            acct_signer: t.accounts[0].clone(),
                            acct_poll_account: t.accounts[1].clone(),
                            acct_candidate_account: t.accounts[2].clone(),
                            acct_voter_receipt: t.accounts[3].clone(),
                        },
                    );
                }
            }
        }
        proof {
            assert(initialize_poll_instruction_list@.map_values(
                |x: InitializePollInstruction| x@,
            ) =~= collect_init(s.take(i as int + 1)));
            assert(add_candidate_instruction_list@.map_values(|x: AddCandidateInstruction| x@)
                =~= collect_add(s.take(i as int + 1)));
            assert(vote_instruction_list@.map_values(|x: VoteInstruction| x@) =~= collect_vote(
                s.take(i as int + 1),
            ));
        }
        i = i + 1;
    }
    proof {
        assert(s.take(n as int) =~= s);
    }
    Data { add_candidate_instruction_list, initialize_poll_instruction_list, vote_instruction_list }
}

} // verus!
