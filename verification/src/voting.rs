//! A yes/no poll over a list of registered voters, as the cluster computes
//! it on the values inside the ciphertexts.

use vstd::prelude::*;
use crate::state::{bytes32_eq, Bytes32};

verus! {

/// The running counts of a poll.
#[derive(Clone, Copy, Debug, PartialEq, Eq, Structural)]
pub struct PollData {
    pub yes_votes: u64,
    pub no_votes: u64,
    pub total_votes: u64,
    pub is_active: bool,
}

/// What a voter is told of their ballot.
#[derive(Clone, Copy, Debug)]
pub struct VoteConfirmation {
    pub vote_registered: bool,
    pub voter_hash: Bytes32,
}

/// The counts after one more ballot.
pub open spec fn spec_update_poll_results(poll_data: PollData, choice: bool) -> PollData {
    PollData {
        yes_votes: if choice {
            (poll_data.yes_votes + 1) as u64
        } else {
            poll_data.yes_votes
        },
        no_votes: if choice {
            poll_data.no_votes
        } else {
            (poll_data.no_votes + 1) as u64
        },
        total_votes: (poll_data.total_votes + 1) as u64,
        is_active: poll_data.is_active,
    }
}

/// Whether one more ballot fits the counters that it raises: the total, and
/// the yes or the no count, whichever `choice` selects.
pub open spec fn countable(poll_data: PollData, choice: bool) -> bool {
    &&& poll_data.total_votes < u64::MAX
    &&& choice ==> poll_data.yes_votes < u64::MAX
    &&& !choice ==> poll_data.no_votes < u64::MAX
}

/// Whether `voter_hash` is among the registered voters.
pub fn check_voter_registration(voter_hash: &Bytes32, registered_voters: &Vec<Bytes32>) -> (r: bool)
    ensures
        r == registered_voters@.contains(*voter_hash),
{
    let mut i: usize = 0;
    while i < registered_voters.len()
        invariant
            i <= registered_voters.len(),
            forall|j: int| 0 <= j < i ==> registered_voters@[j] != *voter_hash,
        decreases registered_voters.len() - i,
    {
        if bytes32_eq(&registered_voters[i], voter_hash) {
            return true;
        }
        i += 1;
    }
    false
}

/// Counts one ballot: a yes where `vote_choice` holds, else a no.
pub fn update_poll_results(poll_data: PollData, vote_choice: bool) -> (r: PollData)
    requires
        countable(poll_data, vote_choice),
    ensures
        r == spec_update_poll_results(poll_data, vote_choice),
{
    let mut data = poll_data;
    if vote_choice {
        data.yes_votes = data.yes_votes + 1;
    } else {
        data.no_votes = data.no_votes + 1;
    }
    data.total_votes = data.total_votes + 1;
    data
}

/// Processes one ballot: it is counted exactly when the voter is registered,
/// and the confirmation says whether it was.
pub fn process_encrypted_vote(
    voter_biometric_hash: Bytes32,
    vote_choice: bool,
    poll_data: PollData,
    registered_voters: &Vec<Bytes32>,
) -> (r: (PollData, VoteConfirmation))
    requires
        registered_voters@.contains(voter_biometric_hash) ==> countable(poll_data, vote_choice),
    ensures
        r.1.vote_registered == registered_voters@.contains(voter_biometric_hash),
        r.1.voter_hash == voter_biometric_hash,
        r.0 == (if registered_voters@.contains(voter_biometric_hash) {
            spec_update_poll_results(poll_data, vote_choice)
        } else {
            poll_data
        }),
{
    let can_vote = check_voter_registration(&voter_biometric_hash, registered_voters);
    let updated_poll = if can_vote {
        update_poll_results(poll_data, vote_choice)
    } else {
        poll_data
    };
    let confirmation = VoteConfirmation {
        vote_registered: can_vote,
        voter_hash: voter_biometric_hash,
    };
    (updated_poll, confirmation)
}

/// The final counts of a poll: yes, no, total.
pub fn tally_final_results(poll_data: PollData) -> (r: (u64, u64, u64))
    ensures
        r == (poll_data.yes_votes, poll_data.no_votes, poll_data.total_votes),
{
    (poll_data.yes_votes, poll_data.no_votes, poll_data.total_votes)
}

} // verus!
