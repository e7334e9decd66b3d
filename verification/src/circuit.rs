//! What the cluster's three computations do to the values inside the
//! ciphertexts: the tally of an election as plain counters.

use vstd::prelude::*;
use crate::state::MAX_CANDIDATES;

verus! {

/// The vote count of every candidate.
#[derive(Clone, Copy, Debug)]
pub struct VoteStats {
    pub candidate_counts: [u64; MAX_CANDIDATES],
}

/// One ballot: the index of the chosen candidate.
#[derive(Clone, Copy, Debug)]
pub struct UserVote {
    pub candidate_index: u64,
}

/// The counts after `vote` was added to `counts`: the chosen candidate's count
/// grows by one; a ballot for an index that is no candidate's is left out.
pub open spec fn spec_vote(vote: UserVote, counts: Seq<u64>) -> Seq<u64> {
    if vote.candidate_index < counts.len() {
        counts.update(
            vote.candidate_index as int,
            (counts[vote.candidate_index as int] + 1) as u64,
        )
    } else {
        counts
    }
}

/// A tally in which every candidate has no vote.
pub fn init_vote_stats() -> (stats: VoteStats)
    ensures
        forall|i: int| 0 <= i < MAX_CANDIDATES ==> stats.candidate_counts@[i] == 0,
{
    VoteStats { candidate_counts: [0u64;MAX_CANDIDATES] }
}

/// Adds one ballot to a tally.
pub fn vote(vote_ctxt: UserVote, vote_stats_ctxt: VoteStats) -> (stats: VoteStats)
    requires
        vote_ctxt.candidate_index < MAX_CANDIDATES
            ==> vote_stats_ctxt.candidate_counts@[vote_ctxt.candidate_index as int] < u64::MAX,
    ensures
        stats.candidate_counts@ == spec_vote(vote_ctxt, vote_stats_ctxt.candidate_counts@),
{
    let mut vote_stats = vote_stats_ctxt;
    if vote_ctxt.candidate_index < MAX_CANDIDATES as u64 {
        let index = vote_ctxt.candidate_index as usize;
        let count = vote_stats.candidate_counts[index];
        vote_stats.candidate_counts[index] = count + 1;
    }
    vote_stats
}

/// The public result: every candidate's count, in order.
pub fn reveal_result(vote_stats_ctxt: VoteStats) -> (public_results: [u64; MAX_CANDIDATES])
    ensures
        public_results@ == vote_stats_ctxt.candidate_counts@,
{
    let mut public_results: [u64; MAX_CANDIDATES] = [0u64;MAX_CANDIDATES];
    let mut i: usize = 0;
    while i < MAX_CANDIDATES
        invariant
            i <= MAX_CANDIDATES,
            forall|j: int| 0 <= j < i ==> public_results@[j] == vote_stats_ctxt.candidate_counts@[j],
        decreases MAX_CANDIDATES - i,
    {
        public_results[i] = vote_stats_ctxt.candidate_counts[i];
        i += 1;
    }
    public_results
}

} // verus!
