//! Error kinds reported by the protocol.

use vstd::prelude::*;

verus! {

/// The single, specific reason for which an operation was rejected.
#[derive(Clone, Copy, Debug, PartialEq, Eq, Structural)]
pub enum VoteError {
    /// The fingerprint is not in the addressed registry partition.
    VoterNotRegistered,
    /// A nullifier record already exists for this election and hash.
    AlreadyVoted,
    /// A privileged operation was requested by someone other than the creator.
    NotAuthorized,
    /// The partition cannot take the submitted fingerprints.
    PartitionFull,
    /// The schedule does not end after its start, or starts in the past.
    InvalidElectionPeriod,
    /// A candidate index is not below the candidate count.
    InvalidCandidateIndex,
    /// The election is not in the draft state.
    ElectionNotDraft,
    /// The election is not active, or the time is outside its voting window.
    ElectionNotOpen,
    /// The voting window has not elapsed yet.
    PeriodNotElapsed,
    /// The election is already completed.
    AlreadyCompleted,
    /// The outcome was computed from a tally that is no longer current.
    StaleNonce,
    /// The outcome's payload does not have the shape of its operation.
    MalformedOutcome,
    /// The cluster aborted the computation.
    ComputationAborted,
    /// No election is stored under the given key.
    ElectionNotFound,
    /// An election is already stored under the given key.
    ElectionAlreadyExists,
    /// The public vote counter cannot be incremented any further.
    VoteCountOverflow,
    /// The outcome of the reveal has not been applied yet.
    ResultNotRevealed,
}

/// The reasons for which the instruction processor refuses an instruction.
#[derive(Clone, Copy, Debug, PartialEq, Eq, Structural)]
pub enum ProgramError {
    /// The instruction has no tag byte or an unknown one.
    InvalidInstructionData,
    /// The instruction's arguments are not in their serialised layout.
    BorshIoError,
    /// The account that must authorise the instruction did not sign.
    MissingRequiredSignature,
    /// Fewer accounts were passed than the instruction reads.
    NotEnoughAccountKeys,
    /// An account's key is not the address derived for it, or an account
    /// holds a record of another election.
    InvalidArgument,
    /// The protocol rejected the operation.
    Custom(VoteError),
}

} // verus!
