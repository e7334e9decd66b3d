use csvp_protocol::circuit::{init_vote_stats, reveal_result, vote, UserVote, VoteStats};
use csvp_protocol::voting::{
    check_voter_registration, process_encrypted_vote, tally_final_results, update_poll_results,
    PollData,
};

#[test]
fn init_vote_stats_is_all_zero() {
    assert_eq!(init_vote_stats().candidate_counts, [0u64; 5]);
}

#[test]
fn vote_increments_the_chosen_candidate() {
    let stats = VoteStats { candidate_counts: [3, 0, 7, 0, 1] };
    let after = vote(UserVote { candidate_index: 2 }, stats);
    assert_eq!(after.candidate_counts, [3, 0, 8, 0, 1]);
    let after = vote(UserVote { candidate_index: 0 }, after);
    assert_eq!(after.candidate_counts, [4, 0, 8, 0, 1]);
    let after = vote(UserVote { candidate_index: 4 }, after);
    assert_eq!(after.candidate_counts, [4, 0, 8, 0, 2]);
}

#[test]
fn vote_for_no_candidate_is_left_out_not_wrapped() {
    let stats = VoteStats { candidate_counts: [3, 0, 7, 0, 1] };
    assert_eq!(vote(UserVote { candidate_index: 5 }, stats).candidate_counts, [3, 0, 7, 0, 1]);
    assert_eq!(vote(UserVote { candidate_index: u64::MAX }, stats).candidate_counts, [3, 0, 7, 0, 1]);
    assert_eq!(
        vote(UserVote { candidate_index: 1u64 << 32 }, stats).candidate_counts,
        [3, 0, 7, 0, 1]
    );
}

#[test]
fn reveal_result_hands_out_the_counts() {
    let stats = VoteStats { candidate_counts: [0, 0, 1, 0, 0] };
    assert_eq!(reveal_result(stats), [0, 0, 1, 0, 0]);
    assert_eq!(
        reveal_result(vote(UserVote { candidate_index: 2 }, init_vote_stats())),
        [0, 0, 1, 0, 0]
    );
}

#[test]
fn poll_counts_a_registered_voter() {
    let poll = PollData { yes_votes: 2, no_votes: 1, total_votes: 3, is_active: true };
    let voters = vec![[1u8; 32], [2u8; 32]];
    let (after, confirmation) = process_encrypted_vote([2u8; 32], true, poll, &voters);
    assert_eq!(after, PollData { yes_votes: 3, no_votes: 1, total_votes: 4, is_active: true });
    assert!(confirmation.vote_registered);
    assert_eq!(confirmation.voter_hash, [2u8; 32]);
    let (after, _) = process_encrypted_vote([1u8; 32], false, after, &voters);
    assert_eq!(after, PollData { yes_votes: 3, no_votes: 2, total_votes: 5, is_active: true });
}

#[test]
fn poll_leaves_out_an_unregistered_voter() {
    let poll = PollData { yes_votes: 2, no_votes: 1, total_votes: 3, is_active: true };
    let voters = vec![[1u8; 32], [2u8; 32]];
    let (after, confirmation) = process_encrypted_vote([3u8; 32], true, poll, &voters);
    assert_eq!(after, poll);
    assert!(!confirmation.vote_registered);
    assert_eq!(confirmation.voter_hash, [3u8; 32]);
    let (after, confirmation) = process_encrypted_vote([3u8; 32], false, poll, &vec![]);
    assert_eq!(after, poll);
    assert!(!confirmation.vote_registered);
}

#[test]
fn poll_needs_room_only_in_the_counters_it_raises() {
    let voters = vec![[1u8; 32]];
    // The no count is full: a yes still fits.
    let poll = PollData { yes_votes: 0, no_votes: u64::MAX, total_votes: 7, is_active: true };
    assert_eq!(
        update_poll_results(poll, true),
        PollData { yes_votes: 1, no_votes: u64::MAX, total_votes: 8, is_active: true }
    );
    // The yes count is full: a no still fits.
    let poll = PollData { yes_votes: u64::MAX, no_votes: 0, total_votes: 7, is_active: true };
    let (after, _) = process_encrypted_vote([1u8; 32], false, poll, &voters);
    assert_eq!(after, PollData { yes_votes: u64::MAX, no_votes: 1, total_votes: 8, is_active: true });
    // Every counter is full: an unregistered voter's ballot raises none.
    let full = PollData {
        yes_votes: u64::MAX,
        no_votes: u64::MAX,
        total_votes: u64::MAX,
        is_active: true,
    };
    let (after, confirmation) = process_encrypted_vote([2u8; 32], true, full, &voters);
    assert_eq!(after, full);
    assert!(!confirmation.vote_registered);
}

#[test]
fn poll_helpers() {
    let voters = vec![[1u8; 32], [2u8; 32]];
    assert!(check_voter_registration(&[1u8; 32], &voters));
    assert!(!check_voter_registration(&[4u8; 32], &voters));
    let mut almost = [1u8; 32];
    almost[31] = 0;
    assert!(!check_voter_registration(&almost, &voters));
    let poll = PollData { yes_votes: 0, no_votes: 0, total_votes: 0, is_active: false };
    let poll = update_poll_results(poll, true);
    let poll = update_poll_results(poll, false);
    let poll = update_poll_results(poll, false);
    assert_eq!(tally_final_results(poll), (1, 2, 3));
    assert!(!poll.is_active);
}
