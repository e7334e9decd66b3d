//! What holds of the state machine over every history: exactly-once voting,
//! registration gating, nonce chaining, aborts that change nothing,
//! idempotent delivery of outcomes, the capacity boundary of the registry and
//! the lifecycle of an election.

use vstd::prelude::*;
use crate::error::VoteError;
use crate::gateway::{Delivery, Operation, OutcomeView};
use crate::model::{
    awaits, cancel_election_next, cast_vote_error, cast_vote_next, init_election_next, is_open,
    outcome_delivery, outcome_error, outcome_next, register_voters_error, register_voters_next,
    reveal_result_next, ProtocolView,
};
use crate::state::{Bytes32, ElectionKey, ElectionState, NullifierKey, PartitionKey};

verus! {

/// One operation on the protocol, with its inputs.
pub enum Step {
    InitElection { key: ElectionKey, title: Seq<char>, start_time: u64, end_time: u64, nonce: u128 },
    RegisterVoters {
        authority: Bytes32,
        key: ElectionKey,
        chunk_index: u32,
        voter_hashes: Seq<Bytes32>,
    },
    CastVote {
        key: ElectionKey,
        voter_chunk_index: u32,
        nullifier_hash: Bytes32,
        voter_hash: Bytes32,
        now: u64,
    },
    RevealResult { authority: Bytes32, key: ElectionKey, now: u64 },
    CancelElection { authority: Bytes32, key: ElectionKey },
    Outcome { operation: Operation, handle: nat, outcome: OutcomeView },
}

/// The state after one operation.
pub open spec fn step(s: ProtocolView, op: Step) -> ProtocolView {
    match op {
        Step::InitElection { key, title, start_time, end_time, nonce } => init_election_next(
            s,
            key,
            title,
            start_time,
            end_time,
            nonce,
        ),
        Step::RegisterVoters { authority, key, chunk_index, voter_hashes } => register_voters_next(
            s,
            authority,
            key,
            chunk_index,
            voter_hashes,
        ),
        Step::CastVote { key, voter_chunk_index, nullifier_hash, voter_hash, now } => cast_vote_next(
            s,
            key,
            voter_chunk_index,
            nullifier_hash,
            voter_hash,
            now,
        ),
        Step::RevealResult { authority, key, now } => reveal_result_next(s, authority, key, now),
        Step::CancelElection { authority, key } => cancel_election_next(s, authority, key),
        Step::Outcome { operation, handle, outcome } => outcome_next(s, operation, handle, outcome),
    }
}

/// The state after a sequence of operations, applied in order.
pub open spec fn run(s: ProtocolView, ops: Seq<Step>) -> ProtocolView
    decreases ops.len(),
{
    if ops.len() == 0 {
        s
    } else {
        step(run(s, ops.drop_last()), ops.last())
    }
}

/// Every operation keeps the state well formed: tallies and results keep
/// one slot per candidate, partitions stay within the capacity, and pending
/// requests belong to stored elections.
pub proof fn law_step_preserves_wf(s: ProtocolView, op: Step)
    requires
        s.wf(),
    ensures
        step(s, op).wf(),
{
}

/// Every history keeps the state well formed.
pub proof fn law_run_preserves_wf(s: ProtocolView, ops: Seq<Step>)
    requires
        s.wf(),
    ensures
        run(s, ops).wf(),
    decreases ops.len(),
{
    if ops.len() > 0 {
        law_run_preserves_wf(s, ops.drop_last());
        law_step_preserves_wf(run(s, ops.drop_last()), ops.last());
    }
}

/// No operation removes a nullifier or lowers a public vote counter, and no
/// operation other than an applied outcome changes a tally or its version.
pub proof fn law_step_monotone(s: ProtocolView, op: Step, n: NullifierKey, k: ElectionKey)
    requires
        s.wf(),
    ensures
        s.nullifiers.contains(n) ==> step(s, op).nullifiers.contains(n),
        s.elections.contains_key(k) ==> step(s, op).elections.contains_key(k)
            && s.elections[k].total_votes <= step(s, op).elections[k].total_votes,
        s.elections.contains_key(k) && !(op is Outcome) ==> step(s, op).elections[k].nonce
            == s.elections[k].nonce && step(s, op).elections[k].encrypted_tally
            == s.elections[k].encrypted_tally && step(s, op).elections[k].total_votes
            == s.elections[k].total_votes,
{
}

/// A consumed nullifier stays consumed through every history.
pub proof fn law_nullifiers_persist(s: ProtocolView, ops: Seq<Step>, n: NullifierKey)
    requires
        s.wf(),
        s.nullifiers.contains(n),
    ensures
        run(s, ops).nullifiers.contains(n),
    decreases ops.len(),
{
    if ops.len() > 0 {
        law_nullifiers_persist(s, ops.drop_last(), n);
        law_run_preserves_wf(s, ops.drop_last());
        law_step_monotone(run(s, ops.drop_last()), ops.last(), n, n.election);
    }
}

/// Exactly-once voting. After a vote with nullifier hash `nullifier_hash` was
/// accepted for an election, no later vote for that election with the same
/// hash is accepted, whatever happened in between and whatever else the later
/// attempt holds: it changes nothing, and where the election is open and the
/// fingerprint registered it fails with `AlreadyVoted`.
pub proof fn law_exactly_once(
    s: ProtocolView,
    key: ElectionKey,
    nullifier_hash: Bytes32,
    first_chunk: u32,
    first_voter: Bytes32,
    first_now: u64,
    between: Seq<Step>,
    second_chunk: u32,
    second_voter: Bytes32,
    second_now: u64,
)
    requires
        s.wf(),
        cast_vote_error(s, key, first_chunk, nullifier_hash, first_voter, first_now) is None,
    ensures
        ({
            let voted = cast_vote_next(s, key, first_chunk, nullifier_hash, first_voter, first_now);
            let later = run(voted, between);
            let again = cast_vote_error(
                later,
                key,
                second_chunk,
                nullifier_hash,
                second_voter,
                second_now,
            );
            &&& again is Some
            &&& cast_vote_next(later, key, second_chunk, nullifier_hash, second_voter, second_now)
                == later
            &&& later.elections.contains_key(key) && is_open(later.elections[key], second_now)
                && later.is_registered(
                PartitionKey { election: key, chunk_index: second_chunk },
                second_voter,
            ) ==> again == Some(VoteError::AlreadyVoted)
        }),
{
    let voted = cast_vote_next(s, key, first_chunk, nullifier_hash, first_voter, first_now);
    let n = NullifierKey { election: key, nullifier_hash };
    law_step_preserves_wf(
        s,
        Step::CastVote {
            key,
            voter_chunk_index: first_chunk,
            nullifier_hash,
            voter_hash: first_voter,
            now: first_now,
        },
    );
    law_nullifiers_persist(voted, between, n);
}

/// Registration gating. While an election is open, a vote with a fingerprint
/// that is not in the addressed partition fails with `VoterNotRegistered` and
/// changes nothing, whether or not its nullifier was used.
pub proof fn law_registration_gating(
    s: ProtocolView,
    key: ElectionKey,
    voter_chunk_index: u32,
    nullifier_hash: Bytes32,
    voter_hash: Bytes32,
    now: u64,
)
    requires
        s.elections.contains_key(key),
        is_open(s.elections[key], now),
        !s.is_registered(PartitionKey { election: key, chunk_index: voter_chunk_index }, voter_hash),
    ensures
        cast_vote_error(s, key, voter_chunk_index, nullifier_hash, voter_hash, now) == Some(
            VoteError::VoterNotRegistered,
        ),
        cast_vote_next(s, key, voter_chunk_index, nullifier_hash, voter_hash, now) == s,
{
}

/// Nonce chaining. The outcome of a vote that was computed from a tally
/// version other than the election's current one changes no election,
/// whatever it holds; it is rejected with `StaleNonce` unless it is an abort,
/// which is reported as one.
pub proof fn law_nonce_chaining(s: ProtocolView, handle: nat, outcome: OutcomeView)
    requires
        s.wf(),
        awaits(s, Operation::Vote, handle),
        s.pending[handle].consumed_nonce != s.elections[s.pending[handle].election].nonce,
    ensures
        outcome_next(s, Operation::Vote, handle, outcome).elections == s.elections,
        !(outcome is Aborted) ==> outcome_error(s, Operation::Vote, handle, outcome) == Some(
            VoteError::StaleNonce,
        ),
        outcome is Aborted ==> outcome_error(s, Operation::Vote, handle, outcome) == Some(
            VoteError::ComputationAborted,
        ),
{
}

/// Aborts. An aborted outcome of a pending request, of whichever operation
/// and however stale, is rejected with `ComputationAborted`; no election, no
/// partition and no nullifier is changed by it, nothing is submitted again,
/// and the request stops being pending.
pub proof fn law_abort_changes_nothing(s: ProtocolView, operation: Operation, handle: nat)
    requires
        s.wf(),
        awaits(s, operation, handle),
    ensures
        ({
            let after = outcome_next(s, operation, handle, OutcomeView::Aborted);
            &&& outcome_error(s, operation, handle, OutcomeView::Aborted) == Some(
                VoteError::ComputationAborted,
            )
            &&& after.elections == s.elections
            &&& after.partitions == s.partitions
            &&& after.nullifiers == s.nullifiers
            &&& after.next_handle == s.next_handle
            &&& after.pending == s.pending.remove(handle)
        }),
{
}

/// A draft has no counted vote, so an election becomes active with its
/// public counter at zero.
pub proof fn law_activation_starts_at_zero(s: ProtocolView, handle: nat, outcome: OutcomeView)
    requires
        s.wf(),
        awaits(s, Operation::InitVoteStats, handle),
        outcome_error(s, Operation::InitVoteStats, handle, outcome) is None,
    ensures
        ({
            let k = s.pending[handle].election;
            let after = outcome_next(s, Operation::InitVoteStats, handle, outcome).elections[k];
            &&& after.state == ElectionState::Active
            &&& after.total_votes == 0
            &&& after.encrypted_tally == outcome->ciphertexts
            &&& after.nonce == outcome->nonce
        }),
{
}

/// Idempotent delivery. Delivering under the same handle a second time, with
/// the same or another payload, leaves the state as the first delivery left
/// it; where the first delivery met a pending request, the second is ignored.
pub proof fn law_idempotent_delivery(
    s: ProtocolView,
    operation: Operation,
    handle: nat,
    outcome: OutcomeView,
    again: OutcomeView,
)
    ensures
        ({
            let once = outcome_next(s, operation, handle, outcome);
            &&& outcome_next(once, operation, handle, again) == once
            &&& awaits(s, operation, handle) ==> outcome_error(once, operation, handle, again)
                is None && outcome_delivery(once, handle) == Delivery::Ignored
        }),
{
}

/// Capacity boundary. For the creator of a stored election, a registration
/// that would take a partition beyond the capacity fails with `PartitionFull`
/// and leaves the partition as it was; while the election is a draft, one that
/// fits succeeds and appends. So a first registration of exactly the capacity
/// succeeds, and one of one more fails.
pub proof fn law_capacity_boundary(
    s: ProtocolView,
    authority: Bytes32,
    key: ElectionKey,
    chunk_index: u32,
    voter_hashes: Seq<Bytes32>,
)
    requires
        s.elections.contains_key(key),
        authority == s.elections[key].creator,
    ensures
        ({
            let p = PartitionKey { election: key, chunk_index };
            let error = register_voters_error(s, authority, key, chunk_index, voter_hashes);
            let next = register_voters_next(s, authority, key, chunk_index, voter_hashes);
            &&& s.partition(p).len() + voter_hashes.len() > s.config.partition_capacity ==> error
                == Some(VoteError::PartitionFull) && next == s
            &&& s.partition(p).len() + voter_hashes.len() <= s.config.partition_capacity
                && s.elections[key].state == ElectionState::Draft ==> error is None
                && next.partition(p) == s.partition(p) + voter_hashes && next.partition(p).len()
                == s.partition(p).len() + voter_hashes.len()
        }),
{
}

/// Whether an election may pass from state `from` to state `to` in one
/// operation.
pub open spec fn may_follow(from: ElectionState, to: ElectionState) -> bool {
    ||| to == from
    ||| from == ElectionState::Draft && to == ElectionState::Active
    ||| from == ElectionState::Active && to == ElectionState::Tallying
    ||| from == ElectionState::Tallying && to == ElectionState::Completed
    ||| from != ElectionState::Completed && to == ElectionState::Cancelled
}

/// Lifecycle. An election is never removed and keeps its identity, title and
/// schedule; its state moves only along draft, active, tallying, completed,
/// or to cancelled before it is completed; a completed election is frozen.
/// It becomes active or completed only by an outcome, and tallying or
/// cancelled only at its creator's request.
pub proof fn law_lifecycle(s: ProtocolView, op: Step, k: ElectionKey)
    requires
        s.wf(),
        s.elections.contains_key(k),
    ensures
        ({
            let before = s.elections[k];
            let after = step(s, op).elections[k];
            &&& step(s, op).elections.contains_key(k)
            &&& after.key() == k
            &&& after.title == before.title
            &&& after.start_time == before.start_time
            &&& after.end_time == before.end_time
            &&& may_follow(before.state, after.state)
            &&& before.state == ElectionState::Completed ==> after == before
            &&& after.state != before.state && (after.state == ElectionState::Active || after.state
                == ElectionState::Completed) ==> op is Outcome
            &&& after.state != before.state && after.state == ElectionState::Tallying ==> (op
                matches Step::RevealResult { authority, .. } && authority == before.creator)
            &&& after.state != before.state && after.state == ElectionState::Cancelled ==> (op
                matches Step::CancelElection { authority, .. } && authority == before.creator)
        }),
{
}

/// The registry is append-only. An operation leaves every partition as it
/// was or extends it at its end, and it extends one only where the creator
/// registers voters for a draft.
pub proof fn law_registry_append_only(s: ProtocolView, op: Step, p: PartitionKey)
    requires
        s.wf(),
    ensures
        s.partition(p).is_prefix_of(step(s, op).partition(p)),
        step(s, op).partition(p) != s.partition(p) ==> (op matches Step::RegisterVoters {
            authority,
            key,
            chunk_index,
            voter_hashes,
        } && key == p.election && chunk_index == p.chunk_index && s.elections.contains_key(key)
            && authority == s.elections[key].creator && s.elections[key].state
            == ElectionState::Draft && step(s, op).partition(p) == s.partition(p) + voter_hashes),
{
}

/// An applied vote is counted once. The outcome of a vote that is not
/// rejected replaces the tally and its version by what the outcome holds,
/// raises the election's public counter by exactly one and touches no other
/// election.
pub proof fn law_applied_vote_counts_once(
    s: ProtocolView,
    handle: nat,
    outcome: OutcomeView,
    other: ElectionKey,
)
    requires
        s.wf(),
        awaits(s, Operation::Vote, handle),
        outcome_error(s, Operation::Vote, handle, outcome) is None,
    ensures
        ({
            let k = s.pending[handle].election;
            let after = outcome_next(s, Operation::Vote, handle, outcome);
            &&& after.elections[k].total_votes == s.elections[k].total_votes + 1
            &&& after.elections[k].encrypted_tally == outcome->ciphertexts
            &&& after.elections[k].nonce == outcome->nonce
            &&& after.elections[k].state == ElectionState::Active
            &&& other != k && s.elections.contains_key(other) ==> after.elections[other]
                == s.elections[other]
        }),
{
}

} // verus!
