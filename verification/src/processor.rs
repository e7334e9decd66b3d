//! The program's entry: decodes an instruction, checks the accounts that came
//! with it and drives the election state machine.

use vstd::prelude::*;
use crate::address::{check_address, election_address, election_seeds, program_derived_address};
use crate::error::{ProgramError, VoteError};
use crate::gateway::ComputationRequest;
use crate::instruction::{
    spec_encrypted_vote, spec_unpack, unpack_encrypted_vote, InstructionView, VoteInstruction,
};
use crate::model::{
    cast_vote_error, cast_vote_next, cast_vote_request, init_election_error, init_election_next,
    init_election_request, register_voters_error, register_voters_next, reveal_result_error,
    reveal_result_next, reveal_result_request, ProtocolView,
};
use crate::protocol::Protocol;
use crate::state::{
    bytes32_eq, Bytes32, ElectionKey, ElectionState, EncryptedBallot, NullifierAccount,
    PartitionKey,
};

verus! {

/// What the processor reads of an account that came with an instruction.
#[derive(Clone, Copy, Debug)]
pub struct AccountMeta {
    /// The account's address.
    pub key: Bytes32,
    /// Whether the account signed the transaction.
    pub is_signer: bool,
    /// The election whose record the account holds, if it holds one.
    pub election: Option<ElectionKey>,
    /// The registry partition whose record the account holds, if it holds
    /// one.
    pub partition: Option<PartitionKey>,
}

/// What a processed instruction did.
#[derive(Debug)]
pub enum Processed {
    /// An election was created under `election`, at an address with bump
    /// seed `bump`; `request` asks for its first tally.
    ElectionInitialized { election: ElectionKey, bump: u8, request: ComputationRequest },
    /// Fingerprints were appended to a registry partition.
    VotersRegistered,
    /// A ballot was accepted; `request` asks to add it to the tally,
    /// `nullifier` is the record that was created for it, and `ballot` is the
    /// record to store of it.
    VoteCast { request: ComputationRequest, nullifier: NullifierAccount, ballot: EncryptedBallot },
    /// The election is tallying; `request` asks for the reveal.
    TallyingStarted { request: ComputationRequest },
    /// The election is completed.
    ElectionCompleted,
}

/// The refusal of an instruction that came with fewer than `needed` accounts
/// or whose first account did not sign.
pub open spec fn signer_refusal(accounts: Seq<AccountMeta>, needed: int) -> Option<ProgramError> {
    if accounts.len() < needed {
        Some(ProgramError::NotEnoughAccountKeys)
    } else if !accounts[0].is_signer {
        Some(ProgramError::MissingRequiredSignature)
    } else {
        None
    }
}

/// The refusal of an instruction on an election whose second account holds no
/// election record.
pub open spec fn election_refusal(accounts: Seq<AccountMeta>, needed: int) -> Option<ProgramError> {
    if signer_refusal(accounts, needed).is_some() {
        signer_refusal(accounts, needed)
    } else if accounts[1].election is None {
        Some(ProgramError::BorshIoError)
    } else {
        None
    }
}

/// A rejection by the protocol as the processor reports it.
pub open spec fn custom(e: Option<VoteError>) -> Option<ProgramError> {
    match e {
        Some(e) => Some(ProgramError::Custom(e)),
        None => None,
    }
}

/// Whether `supplied` is the address derived from `seeds` under `program_id`.
pub open spec fn address_matches(seeds: Seq<Seq<u8>>, program_id: Seq<u8>, supplied: Bytes32) -> bool {
    program_derived_address(seeds, program_id) matches Some(found) && found.0 == supplied@
}

/// Why `InitializeElection` is refused, if it is.
pub open spec fn initialize_election_error(
    s: ProtocolView,
    program_id: Bytes32,
    accounts: Seq<AccountMeta>,
    election_id: u64,
    start_time: i64,
    end_time: i64,
    now: u64,
) -> Option<ProgramError> {
    if signer_refusal(accounts, 3).is_some() {
        signer_refusal(accounts, 3)
    } else if start_time < now || end_time <= start_time {
        Some(ProgramError::Custom(VoteError::InvalidElectionPeriod))
    } else if !address_matches(
        election_seeds(accounts[0].key@, election_id),
        program_id@,
        accounts[1].key,
    ) {
        Some(ProgramError::InvalidArgument)
    } else {
        custom(
            init_election_error(
                s,
                ElectionKey { creator: accounts[0].key, election_id },
                start_time as u64,
                end_time as u64,
            ),
        )
    }
}

/// Why `RegisterVoters` is refused, if it is.
pub open spec fn register_voters_ix_error(
    s: ProtocolView,
    accounts: Seq<AccountMeta>,
    voter_hashes: Seq<Bytes32>,
    chunk_index: u32,
) -> Option<ProgramError> {
    if election_refusal(accounts, 4).is_some() {
        election_refusal(accounts, 4)
    } else {
        custom(
            register_voters_error(
                s,
                accounts[0].key,
                accounts[1].election->0,
                chunk_index,
                voter_hashes,
            ),
        )
    }
}

/// The refusal of a vote whose third account holds no registry partition,
/// or one of another election.
pub open spec fn partition_refusal(accounts: Seq<AccountMeta>) -> Option<ProgramError> {
    if election_refusal(accounts, 5).is_some() {
        election_refusal(accounts, 5)
    } else if accounts[2].partition is None {
        Some(ProgramError::BorshIoError)
    } else if accounts[2].partition->0.election != accounts[1].election->0 {
        Some(ProgramError::InvalidArgument)
    } else {
        None
    }
}

/// Why `CastVote` is refused, if it is. The fingerprint is looked for in the
/// partition that the third account holds, and in no other.
pub open spec fn cast_vote_ix_error(
    s: ProtocolView,
    accounts: Seq<AccountMeta>,
    voter_hash: Bytes32,
    encrypted_vote: Seq<u8>,
    nullifier: Bytes32,
    now: u64,
) -> Option<ProgramError> {
    if partition_refusal(accounts).is_some() {
        partition_refusal(accounts)
    } else if spec_encrypted_vote(encrypted_vote) is None {
        Some(ProgramError::BorshIoError)
    } else {
        custom(
            cast_vote_error(
                s,
                accounts[1].election->0,
                accounts[2].partition->0.chunk_index,
                nullifier,
                voter_hash,
                now,
            ),
        )
    }
}

/// Why `StartTallying` is refused, if it is.
pub open spec fn start_tallying_error(s: ProtocolView, accounts: Seq<AccountMeta>, now: u64) -> Option<
    ProgramError,
> {
    if election_refusal(accounts, 2).is_some() {
        election_refusal(accounts, 2)
    } else {
        custom(reveal_result_error(s, accounts[0].key, accounts[1].election->0, now))
    }
}

/// Why `CompleteElection` is refused, if it is: an election is completed by
/// its reveal alone, so the instruction succeeds only where that has happened.
pub open spec fn complete_election_error(s: ProtocolView, accounts: Seq<AccountMeta>) -> Option<
    ProgramError,
> {
    if election_refusal(accounts, 2).is_some() {
        election_refusal(accounts, 2)
    } else {
        let key = accounts[1].election->0;
        if !s.elections.contains_key(key) {
            Some(ProgramError::Custom(VoteError::ElectionNotFound))
        } else if accounts[0].key != s.elections[key].creator {
            Some(ProgramError::Custom(VoteError::NotAuthorized))
        } else if s.elections[key].state != ElectionState::Completed {
            Some(ProgramError::Custom(VoteError::ResultNotRevealed))
        } else {
            None
        }
    }
}

/// Why a decoded instruction is refused, if it is.
pub open spec fn instruction_error(
    s: ProtocolView,
    program_id: Bytes32,
    accounts: Seq<AccountMeta>,
    ix: InstructionView,
    now: u64,
) -> Option<ProgramError> {
    match ix {
        InstructionView::InitializeElection { election_id, start_time, end_time, .. } => {
            initialize_election_error(s, program_id, accounts, election_id, start_time, end_time, now)
        },
        InstructionView::RegisterVoters { voter_hashes, chunk_index } => register_voters_ix_error(
            s,
            accounts,
            voter_hashes,
            chunk_index,
        ),
        InstructionView::CastVote { voter_hash, encrypted_vote, nullifier, .. } => {
            cast_vote_ix_error(s, accounts, voter_hash, encrypted_vote, nullifier, now)
        },
        InstructionView::StartTallying => start_tallying_error(s, accounts, now),
        InstructionView::CompleteElection => complete_election_error(s, accounts),
    }
}

/// The state after a decoded instruction was processed: that of the
/// protocol's operation where the instruction is not refused.
pub open spec fn instruction_next(
    s: ProtocolView,
    program_id: Bytes32,
    accounts: Seq<AccountMeta>,
    ix: InstructionView,
    now: u64,
) -> ProtocolView {
    if instruction_error(s, program_id, accounts, ix, now).is_some() {
        s
    } else {
        match ix {
            InstructionView::InitializeElection { election_id, title, start_time, end_time, .. } => {
                init_election_next(
                    s,
                    ElectionKey { creator: accounts[0].key, election_id },
                    title,
                    start_time as u64,
                    end_time as u64,
                    now as u128,
                )
            },
            InstructionView::RegisterVoters { voter_hashes, chunk_index } => register_voters_next(
                s,
                accounts[0].key,
                accounts[1].election->0,
                chunk_index,
                voter_hashes,
            ),
            InstructionView::CastVote { voter_hash, nullifier, .. } => cast_vote_next(
                s,
                accounts[1].election->0,
                accounts[2].partition->0.chunk_index,
                nullifier,
                voter_hash,
                now,
            ),
            InstructionView::StartTallying => reveal_result_next(
                s,
                accounts[0].key,
                accounts[1].election->0,
                now,
            ),
            InstructionView::CompleteElection => s,
        }
    }
}

/// Whether `ballot` is the record of a ballot accepted at `now`.
pub open spec fn stores(
    ballot: EncryptedBallot,
    encrypted_vote: Seq<u8>,
    receipt_id: Bytes32,
    arcium_proof: Seq<u8>,
    now: u64,
) -> bool {
    &&& ballot.encrypted_data@ == encrypted_vote
    &&& ballot.receipt_id == receipt_id
    &&& ballot.timestamp == now
    &&& ballot.arcium_proof@ == arcium_proof
}

/// Whether `done` is what processing `ix` reports on success.
pub open spec fn reports(
    done: Processed,
    s: ProtocolView,
    program_id: Bytes32,
    accounts: Seq<AccountMeta>,
    ix: InstructionView,
    now: u64,
) -> bool {
    match ix {
        InstructionView::InitializeElection { election_id, .. } => {
            &&& done matches Processed::ElectionInitialized { election, bump, request }
            &&& election == ElectionKey { creator: accounts[0].key, election_id }
            &&& request@ == init_election_request(s, now as u128)
            &&& program_derived_address(election_seeds(accounts[0].key@, election_id), program_id@)
                == Some((accounts[1].key@, bump))
        },
        InstructionView::RegisterVoters { .. } => done is VotersRegistered,
        InstructionView::CastVote { encrypted_vote, receipt_id, nullifier, arcium_proof, .. } => {
            &&& done matches Processed::VoteCast { request, nullifier: record, ballot }
            &&& request@ == cast_vote_request(
                s,
                accounts[1].election->0,
                spec_encrypted_vote(encrypted_vote)->0,
            )
            &&& record == (NullifierAccount {
                election: accounts[1].election->0,
                nullifier_hash: nullifier,
            })
            &&& stores(ballot, encrypted_vote, receipt_id, arcium_proof, now)
        },
        InstructionView::StartTallying => {
            &&& done matches Processed::TallyingStarted { request }
            &&& request@ == reveal_result_request(s, accounts[1].election->0)
        },
        InstructionView::CompleteElection => done is ElectionCompleted,
    }
}

fn check_signer(accounts: &[AccountMeta], needed: usize) -> (r: Result<(), ProgramError>)
    requires
        needed >= 1,
    ensures
        match r {
            Ok(()) => signer_refusal(accounts@, needed as int) is None,
            Err(e) => signer_refusal(accounts@, needed as int) == Some(e),
        },
{
    if accounts.len() < needed {
        return Err(ProgramError::NotEnoughAccountKeys);
    }
    if !accounts[0].is_signer {
        return Err(ProgramError::MissingRequiredSignature);
    }
    Ok(())
}

fn check_election(accounts: &[AccountMeta], needed: usize) -> (r: Result<ElectionKey, ProgramError>)
    requires
        needed >= 2,
    ensures
        match r {
            Ok(key) => election_refusal(accounts@, needed as int) is None && accounts@[1].election
                == Some(key),
            Err(e) => election_refusal(accounts@, needed as int) == Some(e),
        },
{
    check_signer(accounts, needed)?;
    match accounts[1].election {
        Some(key) => Ok(key),
        None => Err(ProgramError::BorshIoError),
    }
}

/// The handler of the program's instructions.
pub struct Processor;

impl Processor {
    /// Decodes `instruction_data` and processes the instruction on the
    /// accounts that came with it, at time `now`.
    ///
    /// The first account is the one that must have signed; the second is the
    /// election's. Input that does not decode, and an instruction that is
    /// refused, leave the protocol unchanged.
    pub fn process_instruction(
        protocol: &mut Protocol,
        program_id: &Bytes32,
        accounts: &[AccountMeta],
        instruction_data: &[u8],
        now: u64,
    ) -> (r: Result<Processed, ProgramError>)
        requires
            old(protocol).wf(),
        ensures
            final(protocol).wf(),
            match spec_unpack(instruction_data@) {
                Err(e) => r is Err && r->Err_0 == e && final(protocol)@ == old(protocol)@,
                Ok(ix) => {
                    &&& final(protocol)@ == instruction_next(
                        old(protocol)@,
                        *program_id,
                        accounts@,
                        ix,
                        now,
                    )
                    &&& match r {
                        Ok(done) => instruction_error(
                            old(protocol)@,
                            *program_id,
                            accounts@,
                            ix,
                            now,
                        ) is None && reports(done, old(protocol)@, *program_id, accounts@, ix, now),
                        Err(e) => instruction_error(old(protocol)@, *program_id, accounts@, ix, now)
                            == Some(e),
                    }
                },
            },
    {
        let instruction = VoteInstruction::unpack(instruction_data)?;
        match instruction {
            VoteInstruction::InitializeElection {
                election_id,
                title,
                start_time,
                end_time,
                ..
            } => Self::process_initialize_election(
                protocol,
                program_id,
                accounts,
                election_id,
                title,
                start_time,
                end_time,
                now,
            ),
            VoteInstruction::RegisterVoters { voter_hashes, chunk_index } => {
                Self::process_register_voters(protocol, accounts, voter_hashes, chunk_index)
            },
            VoteInstruction::CastVote {
                voter_hash,
                encrypted_vote,
                receipt_id,
                nullifier,
                arcium_proof,
            } => Self::process_cast_vote(
                protocol,
                accounts,
                voter_hash,
                encrypted_vote,
                receipt_id,
                nullifier,
                arcium_proof,
                now,
            ),
            VoteInstruction::StartTallying => Self::process_start_tallying(protocol, accounts, now),
            VoteInstruction::CompleteElection => Self::process_complete_election(protocol, accounts),
        }
    }

    /// Creates the election `election_id` of the signing creator.
    ///
    /// The schedule must start no earlier than `now` and end after its start,
    /// and the election account's key must be the address derived for the
    /// election. The first tally version is `now`.
    pub fn process_initialize_election(
        protocol: &mut Protocol,
        program_id: &Bytes32,
        accounts: &[AccountMeta],
        election_id: u64,
        title: String,
        start_time: i64,
        end_time: i64,
        now: u64,
    ) -> (r: Result<Processed, ProgramError>)
        requires
            old(protocol).wf(),
        ensures
            final(protocol).wf(),
            final(protocol)@ == (if initialize_election_error(
                old(protocol)@,
                *program_id,
                accounts@,
                election_id,
                start_time,
                end_time,
                now,
            ).is_some() {
                old(protocol)@
            } else {
                init_election_next(
                    old(protocol)@,
                    ElectionKey { creator: accounts@[0].key, election_id },
                    title@,
                    start_time as u64,
                    end_time as u64,
                    now as u128,
                )
            }),
            match r {
                Ok(done) => {
                    &&& initialize_election_error(
                        old(protocol)@,
                        *program_id,
                        accounts@,
                        election_id,
                        start_time,
                        end_time,
                        now,
                    ) is None
                    &&& done matches Processed::ElectionInitialized { election, bump, request }
                    &&& election == ElectionKey { creator: accounts@[0].key, election_id }
                    &&& request@ == init_election_request(old(protocol)@, now as u128)
                    &&& program_derived_address(
                        election_seeds(accounts@[0].key@, election_id),
                        program_id@,
                    ) == Some((accounts@[1].key@, bump))
                },
                Err(e) => initialize_election_error(
                    old(protocol)@,
                    *program_id,
                    accounts@,
                    election_id,
                    start_time,
                    end_time,
                    now,
                ) == Some(e),
            },
    {
        check_signer(accounts, 3)?;
        let creator = accounts[0].key;
        if start_time < 0 || (start_time as u64) < now || end_time <= start_time {
            return Err(ProgramError::Custom(VoteError::InvalidElectionPeriod));
        }
        let derived = election_address(program_id, &creator, election_id);
        let bump = check_address(derived, &accounts[1].key)?;
        match protocol.initialize_election(
            creator,
            election_id,
            title,
            start_time as u64,
            end_time as u64,
            now,
        ) {
            Ok(request) => Ok(
                Processed::ElectionInitialized {
                    election: ElectionKey { creator, election_id },
                    bump,
                    request,
                },
            ),
            Err(e) => Err(ProgramError::Custom(e)),
        }
    }

    /// Appends fingerprints to a partition of the registry of the election
    /// that the second account holds, on behalf of the signing creator.
    pub fn process_register_voters(
        protocol: &mut Protocol,
        accounts: &[AccountMeta],
        voter_hashes: Vec<Bytes32>,
        chunk_index: u32,
    ) -> (r: Result<Processed, ProgramError>)
        requires
            old(protocol).wf(),
        ensures
            final(protocol).wf(),
            final(protocol)@ == (if register_voters_ix_error(
                old(protocol)@,
                accounts@,
                voter_hashes@,
                chunk_index,
            ).is_some() {
                old(protocol)@
            } else {
                register_voters_next(
                    old(protocol)@,
                    accounts@[0].key,
                    accounts@[1].election->0,
                    chunk_index,
                    voter_hashes@,
                )
            }),
            match r {
                Ok(done) => register_voters_ix_error(
                    old(protocol)@,
                    accounts@,
                    voter_hashes@,
                    chunk_index,
                ) is None && done is VotersRegistered,
                Err(e) => register_voters_ix_error(
                    old(protocol)@,
                    accounts@,
                    voter_hashes@,
                    chunk_index,
                ) == Some(e),
            },
    {
        let key = check_election(accounts, 4)?;
        match protocol.register_voters(&accounts[0].key, &key, chunk_index, voter_hashes) {
            Ok(()) => Ok(Processed::VotersRegistered),
            Err(e) => Err(ProgramError::Custom(e)),
        }
    }

    /// Accepts the ballot of a signing voter for the election that the second
    /// account holds. The fingerprint must be in the registry partition that
    /// the third account holds; no other partition is read. The ballot is the
    /// 80-byte encoding of ciphertext, encryption key and nonce; it is handed
    /// back with its receipt and proof as the record to store.
    pub fn process_cast_vote(
        protocol: &mut Protocol,
        accounts: &[AccountMeta],
        voter_hash: Bytes32,
        encrypted_vote: Vec<u8>,
        receipt_id: Bytes32,
        nullifier: Bytes32,
        arcium_proof: Vec<u8>,
        now: u64,
    ) -> (r: Result<Processed, ProgramError>)
        requires
            old(protocol).wf(),
        ensures
            final(protocol).wf(),
            final(protocol)@ == (if cast_vote_ix_error(
                old(protocol)@,
                accounts@,
                voter_hash,
                encrypted_vote@,
                nullifier,
                now,
            ).is_some() {
                old(protocol)@
            } else {
                cast_vote_next(
                    old(protocol)@,
                    accounts@[1].election->0,
                    accounts@[2].partition->0.chunk_index,
                    nullifier,
                    voter_hash,
                    now,
                )
            }),
            match r {
                Ok(done) => {
                    &&& cast_vote_ix_error(
                        old(protocol)@,
                        accounts@,
                        voter_hash,
                        encrypted_vote@,
                        nullifier,
                        now,
                    ) is None
                    &&& done matches Processed::VoteCast { request, nullifier: record, ballot }
                    &&& request@ == cast_vote_request(
                        old(protocol)@,
                        accounts@[1].election->0,
                        spec_encrypted_vote(encrypted_vote@)->0,
                    )
                    &&& record == (NullifierAccount {
                        election: accounts@[1].election->0,
                        nullifier_hash: nullifier,
                    })
                    &&& stores(ballot, encrypted_vote@, receipt_id, arcium_proof@, now)
                },
                Err(e) => cast_vote_ix_error(
                    old(protocol)@,
                    accounts@,
                    voter_hash,
                    encrypted_vote@,
                    nullifier,
                    now,
                ) == Some(e),
            },
    {
        let key = check_election(accounts, 5)?;
        let partition = match accounts[2].partition {
            Some(partition) => partition,
            None => {
                return Err(ProgramError::BorshIoError);
            },
        };
        if !partition.election.same(&key) {
            return Err(ProgramError::InvalidArgument);
        }
        let vote = match unpack_encrypted_vote(encrypted_vote.as_slice()) {
            Some(vote) => vote,
            None => {
                return Err(ProgramError::BorshIoError);
            },
        };
        match protocol.cast_vote(&key, partition.chunk_index, vote, nullifier, voter_hash, now) {
            Ok(request) => Ok(
                Processed::VoteCast {
                    request,
                    nullifier: NullifierAccount { election: key, nullifier_hash: nullifier },
                    ballot: EncryptedBallot {
                        encrypted_data: encrypted_vote,
                        receipt_id,
                        timestamp: now,
                        arcium_proof,
                    },
                },
            ),
            Err(e) => Err(ProgramError::Custom(e)),
        }
    }

    /// Moves the election that the second account holds to tallying, on
    /// behalf of the signing creator, and asks for the reveal.
    pub fn process_start_tallying(protocol: &mut Protocol, accounts: &[AccountMeta], now: u64) -> (r:
        Result<Processed, ProgramError>)
        requires
            old(protocol).wf(),
        ensures
            final(protocol).wf(),
            final(protocol)@ == (if start_tallying_error(old(protocol)@, accounts@, now).is_some() {
                old(protocol)@
            } else {
                reveal_result_next(
                    old(protocol)@,
                    accounts@[0].key,
                    accounts@[1].election->0,
                    now,
                )
            }),
            match r {
                Ok(done) => {
                    &&& start_tallying_error(old(protocol)@, accounts@, now) is None
                    &&& done matches Processed::TallyingStarted { request }
                    &&& request@ == reveal_result_request(old(protocol)@, accounts@[1].election->0)
                },
                Err(e) => start_tallying_error(old(protocol)@, accounts@, now) == Some(e),
            },
    {
        let key = check_election(accounts, 2)?;
        match protocol.reveal_result(&accounts[0].key, &key, now) {
            Ok(request) => Ok(Processed::TallyingStarted { request }),
            Err(e) => Err(ProgramError::Custom(e)),
        }
    }

    /// Confirms to the signing creator that the election which the second
    /// account holds is completed. Nothing is changed: an election is
    /// completed by the outcome of its reveal alone.
    pub fn process_complete_election(protocol: &Protocol, accounts: &[AccountMeta]) -> (r: Result<
        Processed,
        ProgramError,
    >)
        requires
            protocol.wf(),
        ensures
            match r {
                Ok(done) => complete_election_error(protocol@, accounts@) is None
                    && done is ElectionCompleted,
                Err(e) => complete_election_error(protocol@, accounts@) == Some(e),
            },
    {
        let key = check_election(accounts, 2)?;
        match protocol.election(&key) {
            None => Err(ProgramError::Custom(VoteError::ElectionNotFound)),
            Some(election) => {
                if !bytes32_eq(&accounts[0].key, &election.creator) {
                    Err(ProgramError::Custom(VoteError::NotAuthorized))
                } else if election.state != ElectionState::Completed {
                    Err(ProgramError::Custom(VoteError::ResultNotRevealed))
                } else {
                    Ok(Processed::ElectionCompleted)
                }
            },
        }
    }

    /// Whether `voter_hash` is registered in the addressed partition. Only
    /// that partition is read: a hash held by another partition, or by a
    /// partition of another election, is not found.
    pub fn is_voter_registered(protocol: &Protocol, partition: &PartitionKey, voter_hash: &Bytes32) -> (r:
        bool)
        requires
            protocol.wf(),
        ensures
            r == protocol@.is_registered(*partition, *voter_hash),
    {
        protocol.is_voter_registered(&partition.election, partition.chunk_index, voter_hash)
    }
}

} // verus!
