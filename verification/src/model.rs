//! The protocol as a state machine over mathematical values: what every
//! operation answers and what it leaves behind.

use vstd::prelude::*;
use crate::error::VoteError;
use crate::gateway::{
    init_arguments, reveal_arguments, vote_arguments, well_shaped, ComputationRequestView,
    Delivery, EncryptedVote, Operation, OutcomeView, PendingComputation,
};
use crate::state::{
    Bytes32, ElectionKey, ElectionState, ElectionView, NullifierKey, PartitionKey, ProtocolConfig,
};

verus! {

/// Everything that the protocol stores.
pub struct ProtocolView {
    pub config: ProtocolConfig,
    /// The elections, by key.
    pub elections: Map<ElectionKey, ElectionView>,
    /// The fingerprints of each registry partition, in the order of registration.
    pub partitions: Map<PartitionKey, Seq<Bytes32>>,
    /// The nullifiers that were consumed.
    pub nullifiers: Set<NullifierKey>,
    /// The requests whose outcome has not arrived, by handle.
    pub pending: Map<nat, PendingComputation>,
    /// The handle of the next request.
    pub next_handle: nat,
}

impl ProtocolView {
    /// The state of a protocol in which nothing happened yet.
    pub open spec fn initial(config: ProtocolConfig) -> ProtocolView {
        ProtocolView {
            config,
            elections: Map::empty(),
            partitions: Map::empty(),
            nullifiers: Set::empty(),
            pending: Map::empty(),
            next_handle: 0,
        }
    }

    /// Every election is stored under its own key with one slot per candidate
    /// and, while it is a draft, no counted vote; no partition exceeds the
    /// capacity; and every pending handle was issued for an election that is
    /// stored.
    pub open spec fn wf(self) -> bool {
        &&& forall|k: ElectionKey| #[trigger]
            self.elections.contains_key(k) ==> self.elections[k].key() == k
                && self.elections[k].wf(self.config)
        &&& forall|p: PartitionKey| #[trigger]
            self.partitions.contains_key(p) ==> self.partitions[p].len()
                <= self.config.partition_capacity
        &&& forall|h: nat| #[trigger]
            self.pending.contains_key(h) ==> h < self.next_handle && self.elections.contains_key(
                self.pending[h].election,
            )
    }

    /// The fingerprints of a partition; none where it was never written.
    pub open spec fn partition(self, p: PartitionKey) -> Seq<Bytes32> {
        if self.partitions.contains_key(p) {
            self.partitions[p]
        } else {
            Seq::empty()
        }
    }

    /// Whether `voter_hash` is in the addressed partition.
    pub open spec fn is_registered(self, p: PartitionKey, voter_hash: Bytes32) -> bool {
        self.partition(p).contains(voter_hash)
    }

    /// Whether a nullifier was consumed.
    pub open spec fn has_voted(self, n: NullifierKey) -> bool {
        self.nullifiers.contains(n)
    }

    /// The state after a request was recorded under the next handle.
    pub open spec fn with_request(self, p: PendingComputation) -> ProtocolView {
        ProtocolView {
            pending: self.pending.insert(self.next_handle, p),
            next_handle: self.next_handle + 1,
            ..self
        }
    }

    /// The state in which `e` is stored under its key.
    pub open spec fn with_election(self, e: ElectionView) -> ProtocolView {
        ProtocolView { elections: self.elections.insert(e.key(), e), ..self }
    }
}

/// The all-zero ciphertext block.
pub open spec fn zero_block() -> Bytes32 {
    vstd::array::spec_array_fill_for_copy_type::<u8, 32>(0u8)
}

/// An election as it is created: a draft with a zeroed tally and result.
pub open spec fn draft_election(
    config: ProtocolConfig,
    key: ElectionKey,
    title: Seq<char>,
    start_time: u64,
    end_time: u64,
    nonce: u128,
) -> ElectionView {
    ElectionView {
        creator: key.creator,
        election_id: key.election_id,
        title,
        start_time,
        end_time,
        state: ElectionState::Draft,
        total_votes: 0,
        nonce,
        encrypted_tally: Seq::new(config.candidate_count as nat, |i: int| zero_block()),
        final_result: Seq::new(config.candidate_count as nat, |i: int| 0u64),
    }
}

// ---------------------------------------------------------------------------
// Creating an election
// ---------------------------------------------------------------------------

/// Why an election cannot be created, if it cannot.
pub open spec fn init_election_error(
    s: ProtocolView,
    key: ElectionKey,
    start_time: u64,
    end_time: u64,
) -> Option<VoteError> {
    if end_time <= start_time {
        Some(VoteError::InvalidElectionPeriod)
    } else if s.elections.contains_key(key) {
        Some(VoteError::ElectionAlreadyExists)
    } else {
        None
    }
}

/// The request that creating an election submits.
pub open spec fn init_election_request(s: ProtocolView, nonce: u128) -> ComputationRequestView {
    ComputationRequestView {
        handle: s.next_handle,
        operation: Operation::InitVoteStats,
        args: init_arguments(nonce),
    }
}

/// The state after an attempt to create an election.
pub open spec fn init_election_next(
    s: ProtocolView,
    key: ElectionKey,
    title: Seq<char>,
    start_time: u64,
    end_time: u64,
    nonce: u128,
) -> ProtocolView {
    if init_election_error(s, key, start_time, end_time).is_some() {
        s
    } else {
        s.with_election(draft_election(s.config, key, title, start_time, end_time, nonce))
            .with_request(
            PendingComputation {
                operation: Operation::InitVoteStats,
                election: key,
                consumed_nonce: nonce,
            },
        )
    }
}

// ---------------------------------------------------------------------------
// Registering voters
// ---------------------------------------------------------------------------

/// Why fingerprints cannot be registered, if they cannot.
pub open spec fn register_voters_error(
    s: ProtocolView,
    authority: Bytes32,
    key: ElectionKey,
    chunk_index: u32,
    voter_hashes: Seq<Bytes32>,
) -> Option<VoteError> {
    let p = PartitionKey { election: key, chunk_index };
    if !s.elections.contains_key(key) {
        Some(VoteError::ElectionNotFound)
    } else if authority != s.elections[key].creator {
        Some(VoteError::NotAuthorized)
    } else if s.partition(p).len() + voter_hashes.len() > s.config.partition_capacity {
        Some(VoteError::PartitionFull)
    } else if s.elections[key].state != ElectionState::Draft {
        Some(VoteError::ElectionNotDraft)
    } else {
        None
    }
}

/// The state after an attempt to register fingerprints: on success they stand
/// behind those that the partition already held.
pub open spec fn register_voters_next(
    s: ProtocolView,
    authority: Bytes32,
    key: ElectionKey,
    chunk_index: u32,
    voter_hashes: Seq<Bytes32>,
) -> ProtocolView {
    let p = PartitionKey { election: key, chunk_index };
    if register_voters_error(s, authority, key, chunk_index, voter_hashes).is_some() {
        s
    } else {
        ProtocolView { partitions: s.partitions.insert(p, s.partition(p) + voter_hashes), ..s }
    }
}

// ---------------------------------------------------------------------------
// Casting a vote
// ---------------------------------------------------------------------------

/// Whether votes are accepted for `e` at time `now`.
pub open spec fn is_open(e: ElectionView, now: u64) -> bool {
    e.state == ElectionState::Active && e.start_time <= now <= e.end_time
}

/// Why a vote cannot be cast, if it cannot.
pub open spec fn cast_vote_error(
    s: ProtocolView,
    key: ElectionKey,
    voter_chunk_index: u32,
    nullifier_hash: Bytes32,
    voter_hash: Bytes32,
    now: u64,
) -> Option<VoteError> {
    let p = PartitionKey { election: key, chunk_index: voter_chunk_index };
    let n = NullifierKey { election: key, nullifier_hash };
    if !s.elections.contains_key(key) {
        Some(VoteError::ElectionNotFound)
    } else if !is_open(s.elections[key], now) {
        Some(VoteError::ElectionNotOpen)
    } else if !s.is_registered(p, voter_hash) {
        Some(VoteError::VoterNotRegistered)
    } else if s.has_voted(n) {
        Some(VoteError::AlreadyVoted)
    } else {
        None
    }
}

/// The request that a cast vote submits: the ballot, the current tally and
/// the tally's version.
pub open spec fn cast_vote_request(
    s: ProtocolView,
    key: ElectionKey,
    vote: EncryptedVote,
) -> ComputationRequestView {
    ComputationRequestView {
        handle: s.next_handle,
        operation: Operation::Vote,
        args: vote_arguments(vote, s.elections[key].encrypted_tally, s.elections[key].nonce),
    }
}

/// The state after an attempt to cast a vote: on success the nullifier is
/// consumed and the request is pending; the election itself is untouched.
pub open spec fn cast_vote_next(
    s: ProtocolView,
    key: ElectionKey,
    voter_chunk_index: u32,
    nullifier_hash: Bytes32,
    voter_hash: Bytes32,
    now: u64,
) -> ProtocolView {
    if cast_vote_error(s, key, voter_chunk_index, nullifier_hash, voter_hash, now).is_some() {
        s
    } else {
        ProtocolView {
            nullifiers: s.nullifiers.insert(NullifierKey { election: key, nullifier_hash }),
            ..s
        }.with_request(
            PendingComputation {
                operation: Operation::Vote,
                election: key,
                consumed_nonce: s.elections[key].nonce,
            },
        )
    }
}

// ---------------------------------------------------------------------------
// Requesting the reveal
// ---------------------------------------------------------------------------

/// Why the reveal cannot be requested, if it cannot.
pub open spec fn reveal_result_error(
    s: ProtocolView,
    authority: Bytes32,
    key: ElectionKey,
    now: u64,
) -> Option<VoteError> {
    if !s.elections.contains_key(key) {
        Some(VoteError::ElectionNotFound)
    } else {
        let e = s.elections[key];
        if authority != e.creator {
            Some(VoteError::NotAuthorized)
        } else if e.state != ElectionState::Tallying && now <= e.end_time {
            Some(VoteError::PeriodNotElapsed)
        } else if e.state == ElectionState::Completed {
            Some(VoteError::AlreadyCompleted)
        } else if e.state != ElectionState::Active && e.state != ElectionState::Tallying {
            Some(VoteError::ElectionNotOpen)
        } else {
            None
        }
    }
}

/// The request that asks for the reveal: the current tally and its version.
pub open spec fn reveal_result_request(s: ProtocolView, key: ElectionKey) -> ComputationRequestView {
    ComputationRequestView {
        handle: s.next_handle,
        operation: Operation::RevealResult,
        args: reveal_arguments(s.elections[key].encrypted_tally, s.elections[key].nonce),
    }
}

/// The state after an attempt to request the reveal: on success the election
/// is tallying and the request is pending.
pub open spec fn reveal_result_next(
    s: ProtocolView,
    authority: Bytes32,
    key: ElectionKey,
    now: u64,
) -> ProtocolView {
    if reveal_result_error(s, authority, key, now).is_some() {
        s
    } else {
        let e = s.elections[key];
        s.with_election(ElectionView { state: ElectionState::Tallying, ..e }).with_request(
            PendingComputation {
                operation: Operation::RevealResult,
                election: key,
                consumed_nonce: e.nonce,
            },
        )
    }
}

// ---------------------------------------------------------------------------
// Cancelling
// ---------------------------------------------------------------------------

/// Why an election cannot be cancelled, if it cannot.
pub open spec fn cancel_election_error(
    s: ProtocolView,
    authority: Bytes32,
    key: ElectionKey,
) -> Option<VoteError> {
    if !s.elections.contains_key(key) {
        Some(VoteError::ElectionNotFound)
    } else if authority != s.elections[key].creator {
        Some(VoteError::NotAuthorized)
    } else if s.elections[key].state == ElectionState::Completed {
        Some(VoteError::AlreadyCompleted)
    } else {
        None
    }
}

/// The state after an attempt to cancel an election.
pub open spec fn cancel_election_next(
    s: ProtocolView,
    authority: Bytes32,
    key: ElectionKey,
) -> ProtocolView {
    if cancel_election_error(s, authority, key).is_some() {
        s
    } else {
        s.with_election(ElectionView { state: ElectionState::Cancelled, ..s.elections[key] })
    }
}

// ---------------------------------------------------------------------------
// Applying outcomes
// ---------------------------------------------------------------------------

/// Whether a request of kind `operation` is pending under `handle`.
pub open spec fn awaits(s: ProtocolView, operation: Operation, handle: nat) -> bool {
    s.pending.contains_key(handle) && s.pending[handle].operation == operation
}

/// Why the lifecycle state of `e` refuses an outcome of `operation`, if it does.
pub open spec fn lifecycle_error(e: ElectionView, operation: Operation) -> Option<VoteError> {
    match operation {
        Operation::InitVoteStats => if e.state != ElectionState::Draft {
            Some(VoteError::ElectionNotDraft)
        } else {
            None
        },
        Operation::Vote => if e.state != ElectionState::Active {
            Some(VoteError::ElectionNotOpen)
        } else if e.total_votes == u32::MAX {
            Some(VoteError::VoteCountOverflow)
        } else {
            None
        },
        Operation::RevealResult => if e.state == ElectionState::Completed {
            Some(VoteError::AlreadyCompleted)
        } else if e.state != ElectionState::Tallying {
            Some(VoteError::ElectionNotOpen)
        } else {
            None
        },
    }
}

/// Why an outcome delivered as that of `operation` is rejected, if it is.
/// An outcome under a handle that is not pending is not rejected: it is
/// ignored. Of a pending request, an abort is reported first; then a vote
/// that was computed from another tally version than the current one; then
/// a payload of the wrong shape; then the election's lifecycle state.
pub open spec fn outcome_error(
    s: ProtocolView,
    operation: Operation,
    handle: nat,
    outcome: OutcomeView,
) -> Option<VoteError> {
    if !s.pending.contains_key(handle) {
        None
    } else {
        let p = s.pending[handle];
        if p.operation != operation {
            Some(VoteError::MalformedOutcome)
        } else if !s.elections.contains_key(p.election) {
            Some(VoteError::ElectionNotFound)
        } else {
            let e = s.elections[p.election];
            if outcome is Aborted {
                Some(VoteError::ComputationAborted)
            } else if operation == Operation::Vote && p.consumed_nonce != e.nonce {
                Some(VoteError::StaleNonce)
            } else if !well_shaped(operation, outcome, s.config) {
                Some(VoteError::MalformedOutcome)
            } else {
                lifecycle_error(e, operation)
            }
        }
    }
}

/// What an accepted delivery amounts to.
pub open spec fn outcome_delivery(s: ProtocolView, handle: nat) -> Delivery {
    if s.pending.contains_key(handle) {
        Delivery::Applied
    } else {
        Delivery::Ignored
    }
}

/// The election after a validated outcome of `operation` was applied to it.
pub open spec fn applied_election(
    e: ElectionView,
    operation: Operation,
    outcome: OutcomeView,
) -> ElectionView {
    match operation {
        Operation::InitVoteStats => ElectionView {
            encrypted_tally: outcome->ciphertexts,
            nonce: outcome->nonce,
            state: ElectionState::Active,
            ..e
        },
        Operation::Vote => ElectionView {
            encrypted_tally: outcome->ciphertexts,
            nonce: outcome->nonce,
            total_votes: (e.total_votes + 1) as u32,
            ..e
        },
        Operation::RevealResult => ElectionView {
            final_result: outcome->values,
            state: ElectionState::Completed,
            ..e
        },
    }
}

/// The state after an outcome was delivered as that of `operation`. A request
/// of that kind stops being pending, whatever the outcome holds; the election
/// changes only where the outcome is not rejected.
pub open spec fn outcome_next(
    s: ProtocolView,
    operation: Operation,
    handle: nat,
    outcome: OutcomeView,
) -> ProtocolView {
    if !awaits(s, operation, handle) {
        s
    } else {
        let p = s.pending[handle];
        let cleared = ProtocolView { pending: s.pending.remove(handle), ..s };
        if outcome_error(s, operation, handle, outcome).is_some() {
            cleared
        } else {
            cleared.with_election(applied_election(s.elections[p.election], operation, outcome))
        }
    }
}

} // verus!
