use csvp_protocol::error::VoteError;
use csvp_protocol::gateway::{
    build_init_arguments, build_reveal_arguments, build_vote_arguments, check_shape, Argument,
    ComputationOutcome, EncryptedVote, Gateway, Operation, PendingComputation,
};
use csvp_protocol::nullifier::NullifierLedger;
use csvp_protocol::registry::VoterRegistry;
use csvp_protocol::state::{bytes32_eq, ElectionKey, ProtocolConfig};

fn key(id: u64) -> ElectionKey {
    ElectionKey::new([7u8; 32], id)
}

fn computation(operation: Operation, nonce: u128) -> PendingComputation {
    PendingComputation { operation, election: key(1), consumed_nonce: nonce }
}

#[test]
fn bytes32_eq_compares_every_byte() {
    let a = [5u8; 32];
    let mut b = [5u8; 32];
    assert!(bytes32_eq(&a, &b));
    b[31] = 6;
    assert!(!bytes32_eq(&a, &b));
    b[31] = 5;
    b[0] = 0;
    assert!(!bytes32_eq(&a, &b));
}

#[test]
fn election_keys_are_the_same_when_creator_and_id_agree() {
    assert!(key(1).same(&key(1)));
    assert!(!key(1).same(&key(2)));
    assert!(!key(1).same(&ElectionKey::new([8u8; 32], 1)));
}

#[test]
fn registry_partition_appends_behind_what_it_holds() {
    let mut partition = VoterRegistry::new(key(1), 4);
    assert_eq!(partition.chunk_index, 4);
    assert_eq!(partition.count(), 0);
    assert_eq!(partition.register(vec![[1u8; 32], [2u8; 32]], 3), Ok(()));
    assert_eq!(partition.register(vec![[3u8; 32]], 3), Ok(()));
    assert_eq!(partition.voter_hashes, vec![[1u8; 32], [2u8; 32], [3u8; 32]]);
    assert!(partition.contains(&[2u8; 32]));
    assert!(!partition.contains(&[4u8; 32]));
}

#[test]
fn registry_partition_refuses_what_does_not_fit() {
    let mut partition = VoterRegistry::new(key(1), 0);
    assert_eq!(
        partition.register(vec![[1u8; 32]; 4], 3),
        Err(VoteError::PartitionFull)
    );
    assert_eq!(partition.count(), 0);
    assert_eq!(partition.register(vec![[1u8; 32]; 3], 3), Ok(()));
    assert_eq!(partition.register(vec![[9u8; 32]], 3), Err(VoteError::PartitionFull));
    assert_eq!(partition.count(), 3);
    // A full partition still takes an empty registration.
    assert_eq!(partition.register(vec![], 3), Ok(()));
    assert_eq!(partition.count(), 3);
}

#[test]
fn nullifier_is_consumed_once() {
    let mut ledger = NullifierLedger::new();
    assert!(!ledger.contains(&key(1), &[1u8; 32]));
    assert_eq!(ledger.consume(&key(1), &[1u8; 32]), Ok(()));
    assert!(ledger.contains(&key(1), &[1u8; 32]));
    assert_eq!(ledger.consume(&key(1), &[1u8; 32]), Err(VoteError::AlreadyVoted));
    assert_eq!(ledger.consume(&key(1), &[1u8; 32]), Err(VoteError::AlreadyVoted));
    // The key is the pair of election and hash.
    assert_eq!(ledger.consume(&key(2), &[1u8; 32]), Ok(()));
    assert_eq!(ledger.consume(&key(1), &[2u8; 32]), Ok(()));
    assert!(!ledger.contains(&key(2), &[2u8; 32]));
}

#[test]
fn gateway_issues_handles_in_order_and_settles_once() {
    let mut gateway = Gateway::new();
    assert_eq!(gateway.next_handle(), 0);
    assert!(gateway.pending(0).is_none());
    let a = gateway.submit(computation(Operation::InitVoteStats, 5), build_init_arguments(5));
    let b = gateway.submit(computation(Operation::Vote, 6), vec![]);
    assert_eq!(a.handle, 0);
    assert_eq!(a.operation, Operation::InitVoteStats);
    assert!(matches!(a.args[..], [Argument::PlaintextU128(5)]));
    assert_eq!(b.handle, 1);
    assert_eq!(gateway.next_handle(), 2);
    assert_eq!(gateway.pending(1).unwrap().consumed_nonce, 6);
    gateway.settle(0);
    assert!(gateway.pending(0).is_none());
    assert_eq!(gateway.pending(1).unwrap().operation, Operation::Vote);
    // Settling again, or settling what was never issued, changes nothing.
    gateway.settle(0);
    gateway.settle(17);
    assert_eq!(gateway.next_handle(), 2);
    assert!(gateway.pending(17).is_none());
    // A settled handle is not issued again.
    assert_eq!(gateway.submit(computation(Operation::RevealResult, 0), vec![]).handle, 2);
}

#[test]
fn arguments_are_in_the_fixed_order() {
    let vote = EncryptedVote {
        vote_ciphertext: [1u8; 32],
        vote_encryption_pubkey: [2u8; 32],
        vote_nonce: 3,
    };
    let tally = vec![[10u8; 32], [11u8; 32]];
    let args = build_vote_arguments(&vote, &tally, 77);
    assert_eq!(args.len(), 6);
    assert!(matches!(args[0], Argument::ArcisPubkey(k) if k == [2u8; 32]));
    assert!(matches!(args[1], Argument::PlaintextU128(3)));
    assert!(matches!(args[2], Argument::EncryptedU64(c) if c == [1u8; 32]));
    assert!(matches!(args[3], Argument::EncryptedU64(c) if c == [10u8; 32]));
    assert!(matches!(args[4], Argument::EncryptedU64(c) if c == [11u8; 32]));
    assert!(matches!(args[5], Argument::PlaintextU128(77)));

    let args = build_reveal_arguments(&tally, 77);
    assert_eq!(args.len(), 3);
    assert!(matches!(args[0], Argument::EncryptedU64(c) if c == [10u8; 32]));
    assert!(matches!(args[1], Argument::EncryptedU64(c) if c == [11u8; 32]));
    assert!(matches!(args[2], Argument::PlaintextU128(77)));

    let args = build_reveal_arguments(&vec![], 1);
    assert_eq!(args.len(), 1);
}

#[test]
fn outcome_shape_is_checked_against_the_operation() {
    let config = ProtocolConfig::new(2, 10);
    let two = ComputationOutcome::Ciphertexts { ciphertexts: vec![[0u8; 32]; 2], nonce: 1 };
    let three = ComputationOutcome::Ciphertexts { ciphertexts: vec![[0u8; 32]; 3], nonce: 1 };
    let counts = ComputationOutcome::Plaintexts { values: vec![4, 5] };
    let one_count = ComputationOutcome::Plaintexts { values: vec![4] };
    assert!(check_shape(Operation::InitVoteStats, &two, &config));
    assert!(check_shape(Operation::Vote, &two, &config));
    assert!(!check_shape(Operation::Vote, &three, &config));
    assert!(!check_shape(Operation::Vote, &counts, &config));
    assert!(!check_shape(Operation::RevealResult, &two, &config));
    assert!(check_shape(Operation::RevealResult, &counts, &config));
    assert!(!check_shape(Operation::RevealResult, &one_count, &config));
    assert!(!check_shape(Operation::Vote, &ComputationOutcome::Aborted, &config));
    assert!(!check_shape(Operation::RevealResult, &ComputationOutcome::Aborted, &config));
}
