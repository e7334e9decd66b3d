use csvp_protocol::address::{
    ballot_chunk_address, check_address, election_address, nullifier_address,
    voter_registry_address,
};
use csvp_protocol::error::{ProgramError, VoteError};
use csvp_protocol::gateway::{Argument, ComputationOutcome, Operation};
use csvp_protocol::instruction::unpack_encrypted_vote;
use csvp_protocol::processor::{AccountMeta, Processed, Processor};
use csvp_protocol::protocol::Protocol;
use csvp_protocol::state::{ElectionKey, ElectionState, PartitionKey, ProtocolConfig};
use solana_program::pubkey::Pubkey;

const PROGRAM: [u8; 32] = [42u8; 32];
const CREATOR: [u8; 32] = [7u8; 32];
const VOTER: [u8; 32] = [9u8; 32];
const OTHER: [u8; 32] = [5u8; 32];
const F1: [u8; 32] = [1u8; 32];
const F2: [u8; 32] = [2u8; 32];
const N1: [u8; 32] = [11u8; 32];

fn key() -> ElectionKey {
    ElectionKey::new(CREATOR, 3)
}

fn election_key_bytes() -> [u8; 32] {
    election_address(&PROGRAM, &CREATOR, 3).unwrap().0
}

fn signer(key: [u8; 32]) -> AccountMeta {
    AccountMeta { key, is_signer: true, election: None, partition: None }
}

fn plain(key: [u8; 32]) -> AccountMeta {
    AccountMeta { key, is_signer: false, election: None, partition: None }
}

fn election_account() -> AccountMeta {
    AccountMeta {
        key: election_key_bytes(),
        is_signer: false,
        election: Some(key()),
        partition: None,
    }
}

fn partition_of(election: ElectionKey, chunk_index: u32) -> AccountMeta {
    AccountMeta {
        key: [0u8; 32],
        is_signer: false,
        election: None,
        partition: Some(PartitionKey { election, chunk_index }),
    }
}

fn tagged(tag: u8, args: Vec<u8>) -> Vec<u8> {
    let mut out = vec![tag];
    out.extend(args);
    out
}

fn initialize_data(start: i64, end: i64) -> Vec<u8> {
    tagged(
        0,
        borsh::to_vec(&(
            3u64,
            "board".to_string(),
            "yearly".to_string(),
            start,
            end,
            "cluster-123".to_string(),
            [0u8; 32],
        ))
        .unwrap(),
    )
}

fn register_data(hashes: Vec<[u8; 32]>, chunk: u32) -> Vec<u8> {
    tagged(1, borsh::to_vec(&(hashes, chunk)).unwrap())
}

fn ballot_bytes() -> Vec<u8> {
    borsh::to_vec(&([60u8; 32], [61u8; 32], 99u128)).unwrap()
}

fn cast_data(voter_hash: [u8; 32], encrypted_vote: Vec<u8>, nullifier: [u8; 32]) -> Vec<u8> {
    tagged(
        2,
        borsh::to_vec(&(voter_hash, encrypted_vote, [0u8; 32], nullifier, vec![1u8, 2, 3])).unwrap(),
    )
}

fn init_accounts() -> Vec<AccountMeta> {
    vec![signer(CREATOR), plain(election_key_bytes()), plain([0u8; 32])]
}

/// A protocol with the election created by instruction at time 50 (window
/// 100..=200), `F1` in partition 0, `F2` in partition 1, activated at nonce 0.
fn active_protocol() -> Protocol {
    let mut p = Protocol::new(ProtocolConfig::default());
    let done =
        Processor::process_instruction(&mut p, &PROGRAM, &init_accounts(), &initialize_data(100, 200), 50)
            .unwrap();
    let handle = match done {
        Processed::ElectionInitialized { request, .. } => request.handle,
        other => panic!("unexpected {:?}", other),
    };
    let accounts = vec![signer(CREATOR), election_account(), plain([0u8; 32]), plain([0u8; 32])];
    Processor::process_instruction(&mut p, &PROGRAM, &accounts, &register_data(vec![F1], 0), 60).unwrap();
    Processor::process_instruction(&mut p, &PROGRAM, &accounts, &register_data(vec![F2], 1), 60).unwrap();
    p.init_vote_stats_callback(
        handle,
        ComputationOutcome::Ciphertexts { ciphertexts: vec![[40u8; 32]; 5], nonce: 0 },
    )
    .unwrap();
    p
}

/// The accounts of a vote that addresses partition `chunk_index`.
fn vote_accounts(chunk_index: u32) -> Vec<AccountMeta> {
    vec![
        signer(VOTER),
        election_account(),
        partition_of(key(), chunk_index),
        plain([0u8; 32]),
        plain([0u8; 32]),
    ]
}

#[test]
fn election_address_is_the_program_derived_address() {
    let (expected, bump) = Pubkey::find_program_address(
        &[b"election", &3u64.to_le_bytes(), &CREATOR],
        &Pubkey::new_from_array(PROGRAM),
    );
    assert_eq!(election_address(&PROGRAM, &CREATOR, 3), Some((expected.to_bytes(), bump)));
    assert_ne!(election_address(&PROGRAM, &CREATOR, 4).unwrap().0, expected.to_bytes());
    assert_ne!(election_address(&PROGRAM, &CREATOR, 3).unwrap().0, CREATOR);
}

#[test]
fn election_id_is_seeded_little_endian() {
    let id = 0x0102_0304_0506_0708u64;
    let (expected, bump) = Pubkey::find_program_address(
        &[b"election", &[8, 7, 6, 5, 4, 3, 2, 1], &CREATOR],
        &Pubkey::new_from_array(PROGRAM),
    );
    assert_eq!(election_address(&PROGRAM, &CREATOR, id), Some((expected.to_bytes(), bump)));
}

#[test]
fn record_addresses_are_the_program_derived_addresses() {
    let program = Pubkey::new_from_array(PROGRAM);
    let election = election_key_bytes();
    let (registry, bump) = Pubkey::find_program_address(
        &[b"voters_registry", &election, &0x0a0b_0c0du32.to_le_bytes()],
        &program,
    );
    assert_eq!(
        voter_registry_address(&PROGRAM, &election, 0x0a0b_0c0d),
        Some((registry.to_bytes(), bump))
    );
    let (nullifier, bump) = Pubkey::find_program_address(&[b"nullifier", &election, &N1], &program);
    assert_eq!(nullifier_address(&PROGRAM, &election, &N1), Some((nullifier.to_bytes(), bump)));
    let (chunk, bump) =
        Pubkey::find_program_address(&[b"ballot_chunk", &election, &2u32.to_le_bytes()], &program);
    assert_eq!(ballot_chunk_address(&PROGRAM, &election, 2), Some((chunk.to_bytes(), bump)));
}

#[test]
fn check_address_compares_with_the_derived_address() {
    assert_eq!(check_address(Some((F1, 254)), &F1), Ok(254));
    assert_eq!(check_address(Some((F1, 254)), &F2), Err(ProgramError::InvalidArgument));
    assert_eq!(check_address(None, &F1), Err(ProgramError::InvalidArgument));
}

#[test]
fn unpack_encrypted_vote_reads_eighty_bytes() {
    let mut bytes = vec![60u8; 32];
    bytes.extend([61u8; 32]);
    bytes.extend(0x0102_0304_0506_0708_090a_0b0c_0d0e_0f10u128.to_le_bytes());
    let vote = unpack_encrypted_vote(&bytes).unwrap();
    assert_eq!(vote.vote_ciphertext, [60u8; 32]);
    assert_eq!(vote.vote_encryption_pubkey, [61u8; 32]);
    assert_eq!(vote.vote_nonce, 0x0102_0304_0506_0708_090a_0b0c_0d0e_0f10);
    assert!(unpack_encrypted_vote(&bytes[..79]).is_none());
    bytes.push(0);
    assert!(unpack_encrypted_vote(&bytes).is_none());
    assert!(unpack_encrypted_vote(&[]).is_none());
}

#[test]
fn initialize_election_by_instruction() {
    let mut p = Protocol::new(ProtocolConfig::default());
    let done =
        Processor::process_instruction(&mut p, &PROGRAM, &init_accounts(), &initialize_data(100, 200), 50)
            .unwrap();
    match done {
        Processed::ElectionInitialized { election, bump, request } => {
            assert_eq!(election.creator, CREATOR);
            assert_eq!(election.election_id, 3);
            assert_eq!(bump, election_address(&PROGRAM, &CREATOR, 3).unwrap().1);
            assert_eq!(request.operation, Operation::InitVoteStats);
            assert!(matches!(request.args[0], Argument::PlaintextU128(50)));
        }
        other => panic!("unexpected {:?}", other),
    }
    let e = p.election(&key()).unwrap();
    assert_eq!(e.title, "board");
    assert_eq!(e.start_time, 100);
    assert_eq!(e.end_time, 200);
    assert_eq!(e.state, ElectionState::Draft);
    assert_eq!(e.nonce, 50);
}

#[test]
fn initialize_election_checks_accounts_schedule_and_address() {
    let mut p = Protocol::new(ProtocolConfig::default());
    let data = initialize_data(100, 200);
    assert_eq!(
        Processor::process_instruction(&mut p, &PROGRAM, &init_accounts()[..2], &data, 50).unwrap_err(),
        ProgramError::NotEnoughAccountKeys
    );
    let mut unsigned = init_accounts();
    unsigned[0].is_signer = false;
    assert_eq!(
        Processor::process_instruction(&mut p, &PROGRAM, &unsigned, &data, 50).unwrap_err(),
        ProgramError::MissingRequiredSignature
    );
    // The schedule may not start in the past, nor end at or before its start.
    assert_eq!(
        Processor::process_instruction(&mut p, &PROGRAM, &init_accounts(), &data, 101).unwrap_err(),
        ProgramError::Custom(VoteError::InvalidElectionPeriod)
    );
    assert_eq!(
        Processor::process_instruction(&mut p, &PROGRAM, &init_accounts(), &initialize_data(100, 100), 50)
            .unwrap_err(),
        ProgramError::Custom(VoteError::InvalidElectionPeriod)
    );
    assert_eq!(
        Processor::process_instruction(&mut p, &PROGRAM, &init_accounts(), &initialize_data(-5, 100), 0)
            .unwrap_err(),
        ProgramError::Custom(VoteError::InvalidElectionPeriod)
    );
    let mut wrong = init_accounts();
    wrong[1].key = OTHER;
    assert_eq!(
        Processor::process_instruction(&mut p, &PROGRAM, &wrong, &data, 50).unwrap_err(),
        ProgramError::InvalidArgument
    );
    assert!(p.election(&key()).is_none());
    // A start at the very time of the call is accepted.
    assert!(Processor::process_instruction(&mut p, &PROGRAM, &init_accounts(), &data, 100).is_ok());
    assert_eq!(
        Processor::process_instruction(&mut p, &PROGRAM, &init_accounts(), &data, 100).unwrap_err(),
        ProgramError::Custom(VoteError::ElectionAlreadyExists)
    );
}

#[test]
fn undecodable_instruction_changes_nothing() {
    let mut p = Protocol::new(ProtocolConfig::default());
    assert_eq!(
        Processor::process_instruction(&mut p, &PROGRAM, &init_accounts(), &[], 50).unwrap_err(),
        ProgramError::InvalidInstructionData
    );
    assert_eq!(
        Processor::process_instruction(&mut p, &PROGRAM, &init_accounts(), &[9, 9], 50).unwrap_err(),
        ProgramError::InvalidInstructionData
    );
    let mut data = initialize_data(100, 200);
    data.pop();
    assert_eq!(
        Processor::process_instruction(&mut p, &PROGRAM, &init_accounts(), &data, 50).unwrap_err(),
        ProgramError::BorshIoError
    );
    assert_eq!(p.next_handle(), 0);
}

#[test]
fn register_voters_by_instruction() {
    let p = active_protocol();
    assert!(p.is_voter_registered(&key(), 0, &F1));
    assert!(p.is_voter_registered(&key(), 1, &F2));

    let mut p = Protocol::new(ProtocolConfig::default());
    Processor::process_instruction(&mut p, &PROGRAM, &init_accounts(), &initialize_data(100, 200), 50).unwrap();
    let data = register_data(vec![F1], 0);
    let accounts = vec![signer(OTHER), election_account(), plain([0u8; 32]), plain([0u8; 32])];
    assert_eq!(
        Processor::process_instruction(&mut p, &PROGRAM, &accounts, &data, 60).unwrap_err(),
        ProgramError::Custom(VoteError::NotAuthorized)
    );
    assert_eq!(
        Processor::process_instruction(&mut p, &PROGRAM, &accounts[..3], &data, 60).unwrap_err(),
        ProgramError::NotEnoughAccountKeys
    );
    let empty = vec![signer(CREATOR), plain(election_key_bytes()), plain([0u8; 32]), plain([0u8; 32])];
    assert_eq!(
        Processor::process_instruction(&mut p, &PROGRAM, &empty, &data, 60).unwrap_err(),
        ProgramError::BorshIoError
    );
    assert_eq!(p.registered_count(&key(), 0), 0);
    let good = vec![signer(CREATOR), election_account(), plain([0u8; 32]), plain([0u8; 32])];
    assert!(matches!(
        Processor::process_instruction(&mut p, &PROGRAM, &good, &data, 60).unwrap(),
        Processed::VotersRegistered
    ));
    assert_eq!(p.registered_count(&key(), 0), 1);
}

#[test]
fn is_voter_registered_reads_the_addressed_partition_only() {
    let p = active_protocol();
    let chunk = |i: u32| PartitionKey { election: key(), chunk_index: i };
    assert!(Processor::is_voter_registered(&p, &chunk(0), &F1));
    assert!(Processor::is_voter_registered(&p, &chunk(1), &F2));
    // A hash held by another partition is not found.
    assert!(!Processor::is_voter_registered(&p, &chunk(0), &F2));
    assert!(!Processor::is_voter_registered(&p, &chunk(1), &F1));
    assert!(!Processor::is_voter_registered(&p, &chunk(2), &F1));
    // Nor is one held under another election.
    let other = PartitionKey { election: ElectionKey::new(OTHER, 3), chunk_index: 0 };
    assert!(!Processor::is_voter_registered(&p, &other, &F1));
}

#[test]
fn a_voter_behind_a_gap_in_the_partitions_can_vote() {
    let mut p = Protocol::new(ProtocolConfig::default());
    let init = p.init_election(CREATOR, 3, "t".to_string(), 100, 200, 0).unwrap();
    p.register_voters(&CREATOR, &key(), 0, vec![F1]).unwrap();
    p.register_voters(&CREATOR, &key(), 2, vec![F2]).unwrap();
    p.init_vote_stats_callback(
        init.handle,
        ComputationOutcome::Ciphertexts { ciphertexts: vec![[40u8; 32]; 5], nonce: 0 },
    )
    .unwrap();
    // Partition 1 was never written; partition 2 is addressed and read.
    assert!(matches!(
        Processor::process_instruction(
            &mut p,
            &PROGRAM,
            &vote_accounts(2),
            &cast_data(F2, ballot_bytes(), N1),
            150
        ),
        Ok(Processed::VoteCast { .. })
    ));
}

#[test]
fn cast_vote_by_instruction() {
    let mut p = active_protocol();
    let done = Processor::process_instruction(
        &mut p,
        &PROGRAM,
        &vote_accounts(1),
        &cast_data(F2, ballot_bytes(), N1),
        150,
    )
    .unwrap();
    match done {
        Processed::VoteCast { request, nullifier, ballot } => {
            assert_eq!(request.operation, Operation::Vote);
            assert_eq!(request.args.len(), 9);
            assert!(matches!(request.args[0], Argument::ArcisPubkey(k) if k == [61u8; 32]));
            assert!(matches!(request.args[1], Argument::PlaintextU128(99)));
            assert!(matches!(request.args[2], Argument::EncryptedU64(c) if c == [60u8; 32]));
            assert!(matches!(request.args[8], Argument::PlaintextU128(0)));
            assert_eq!(nullifier.nullifier_hash, N1);
            assert_eq!(nullifier.election.creator, CREATOR);
            assert_eq!(nullifier.election.election_id, 3);
            assert_eq!(ballot.encrypted_data, ballot_bytes());
            assert_eq!(ballot.receipt_id, [0u8; 32]);
            assert_eq!(ballot.timestamp, 150);
            assert_eq!(ballot.arcium_proof, vec![1u8, 2, 3]);
        }
        other => panic!("unexpected {:?}", other),
    }
    assert!(p.has_voter_voted(&key(), &N1));
    assert_eq!(
        Processor::process_instruction(
            &mut p,
            &PROGRAM,
            &vote_accounts(0),
            &cast_data(F1, ballot_bytes(), N1),
            150
        )
        .unwrap_err(),
        ProgramError::Custom(VoteError::AlreadyVoted)
    );
}

#[test]
fn cast_vote_by_instruction_checks_the_addressed_partition_only() {
    let mut p = active_protocol();
    // F2 is registered, but in partition 1: addressing partition 0 finds nothing.
    assert_eq!(
        Processor::process_instruction(
            &mut p,
            &PROGRAM,
            &vote_accounts(0),
            &cast_data(F2, ballot_bytes(), N1),
            150
        )
        .unwrap_err(),
        ProgramError::Custom(VoteError::VoterNotRegistered)
    );
    // A partition that was never written holds nobody.
    assert_eq!(
        Processor::process_instruction(
            &mut p,
            &PROGRAM,
            &vote_accounts(7),
            &cast_data(F1, ballot_bytes(), N1),
            150
        )
        .unwrap_err(),
        ProgramError::Custom(VoteError::VoterNotRegistered)
    );
    assert!(!p.has_voter_voted(&key(), &N1));
}

#[test]
fn cast_vote_by_instruction_is_refused() {
    let mut p = active_protocol();
    let data = cast_data(F1, ballot_bytes(), N1);
    assert_eq!(
        Processor::process_instruction(&mut p, &PROGRAM, &vote_accounts(0)[..4], &data, 150)
            .unwrap_err(),
        ProgramError::NotEnoughAccountKeys
    );
    let mut unsigned = vote_accounts(0);
    unsigned[0].is_signer = false;
    assert_eq!(
        Processor::process_instruction(&mut p, &PROGRAM, &unsigned, &data, 150).unwrap_err(),
        ProgramError::MissingRequiredSignature
    );
    // The third account holds no partition.
    let mut no_partition = vote_accounts(0);
    no_partition[2] = plain([0u8; 32]);
    assert_eq!(
        Processor::process_instruction(&mut p, &PROGRAM, &no_partition, &data, 150).unwrap_err(),
        ProgramError::BorshIoError
    );
    // The third account holds a partition of another election.
    let mut foreign = vote_accounts(0);
    foreign[2] = partition_of(ElectionKey::new(OTHER, 3), 0);
    assert_eq!(
        Processor::process_instruction(&mut p, &PROGRAM, &foreign, &data, 150).unwrap_err(),
        ProgramError::InvalidArgument
    );
    assert_eq!(
        Processor::process_instruction(
            &mut p,
            &PROGRAM,
            &vote_accounts(0),
            &cast_data(F1, vec![1, 2, 3], N1),
            150
        )
        .unwrap_err(),
        ProgramError::BorshIoError
    );
    assert_eq!(
        Processor::process_instruction(&mut p, &PROGRAM, &vote_accounts(0), &data, 201).unwrap_err(),
        ProgramError::Custom(VoteError::ElectionNotOpen)
    );
    assert_eq!(
        Processor::process_instruction(
            &mut p,
            &PROGRAM,
            &vote_accounts(0),
            &cast_data(OTHER, ballot_bytes(), N1),
            150
        )
        .unwrap_err(),
        ProgramError::Custom(VoteError::VoterNotRegistered)
    );
    assert!(!p.has_voter_voted(&key(), &N1));
}

#[test]
fn start_tallying_and_complete_by_instruction() {
    let mut p = active_protocol();
    let accounts = vec![signer(CREATOR), election_account()];
    assert_eq!(
        Processor::process_instruction(&mut p, &PROGRAM, &accounts, &[3], 200).unwrap_err(),
        ProgramError::Custom(VoteError::PeriodNotElapsed)
    );
    assert_eq!(
        Processor::process_instruction(&mut p, &PROGRAM, &[signer(OTHER), election_account()], &[3], 201)
            .unwrap_err(),
        ProgramError::Custom(VoteError::NotAuthorized)
    );
    assert_eq!(
        Processor::process_instruction(&mut p, &PROGRAM, &accounts[..1], &[3], 201).unwrap_err(),
        ProgramError::NotEnoughAccountKeys
    );
    // Completion is not to be had before the reveal.
    assert_eq!(
        Processor::process_instruction(&mut p, &PROGRAM, &accounts, &[4], 201).unwrap_err(),
        ProgramError::Custom(VoteError::ResultNotRevealed)
    );
    let handle = match Processor::process_instruction(&mut p, &PROGRAM, &accounts, &[3], 201).unwrap() {
        Processed::TallyingStarted { request } => {
            assert_eq!(request.operation, Operation::RevealResult);
            assert_eq!(request.args.len(), 6);
            request.handle
        }
        other => panic!("unexpected {:?}", other),
    };
    assert_eq!(p.election(&key()).unwrap().state, ElectionState::Tallying);
    assert_eq!(
        Processor::process_instruction(&mut p, &PROGRAM, &accounts, &[4], 201).unwrap_err(),
        ProgramError::Custom(VoteError::ResultNotRevealed)
    );
    p.reveal_result_callback(handle, ComputationOutcome::Plaintexts { values: vec![0, 1, 0, 0, 0] })
        .unwrap();
    assert!(matches!(
        Processor::process_instruction(&mut p, &PROGRAM, &accounts, &[4], 300).unwrap(),
        Processed::ElectionCompleted
    ));
    assert_eq!(
        Processor::process_instruction(&mut p, &PROGRAM, &[signer(OTHER), election_account()], &[4], 300)
            .unwrap_err(),
        ProgramError::Custom(VoteError::NotAuthorized)
    );
    let mut unsigned = accounts.clone();
    unsigned[0].is_signer = false;
    assert_eq!(
        Processor::process_instruction(&mut p, &PROGRAM, &unsigned, &[4], 300).unwrap_err(),
        ProgramError::MissingRequiredSignature
    );
}
