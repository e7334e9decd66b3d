//! The election state machine: the stored records and the operations that
//! callers and the computation cluster drive it with.

use vstd::prelude::*;
use crate::error::VoteError;
use crate::gateway::{
    build_init_arguments, build_reveal_arguments, build_vote_arguments, check_shape,
    Argument, ComputationOutcome, ComputationRequest, ComputationRequestView, Delivery,
    EncryptedVote, Gateway, Operation, PendingComputation,
};
use crate::model::{
    cancel_election_error, cancel_election_next, cast_vote_error, cast_vote_next,
    cast_vote_request, draft_election, init_election_error, init_election_next,
    init_election_request, outcome_delivery, outcome_error, outcome_next, register_voters_error,
    register_voters_next, reveal_result_error, reveal_result_next, reveal_result_request,
    zero_block, ProtocolView,
};
use crate::nullifier::NullifierLedger;
use crate::registry::VoterRegistry;
use crate::state::{
    bytes32_eq, Bytes32, Election, ElectionKey, ElectionState, ElectionView, NullifierKey,
    PartitionKey, ProtocolConfig,
};
use crate::table::{
    lemma_push_contains, lemma_table_absent, lemma_table_entry, lemma_table_push,
    lemma_table_update, table_map,
};

verus! {

/// The keys of a sequence of elections.
pub open spec fn election_keys(s: Seq<Election>) -> Seq<ElectionKey> {
    s.map_values(|e: Election| e@.key())
}

/// The contents of a sequence of elections.
pub open spec fn election_views(s: Seq<Election>) -> Seq<ElectionView> {
    s.map_values(|e: Election| e@)
}

/// The keys of a sequence of partitions.
pub open spec fn registry_keys(s: Seq<VoterRegistry>) -> Seq<PartitionKey> {
    s.map_values(|r: VoterRegistry| r.key())
}

/// The contents of a sequence of partitions.
pub open spec fn registry_views(s: Seq<VoterRegistry>) -> Seq<Seq<Bytes32>> {
    s.map_values(|r: VoterRegistry| r.voter_hashes@)
}

/// The protocol's whole state: elections, registry partitions, nullifier
/// records and the requests whose outcome has not arrived.
pub struct Protocol {
    config: ProtocolConfig,
    elections: Vec<Election>,
    registries: Vec<VoterRegistry>,
    nullifiers: NullifierLedger,
    gateway: Gateway,
}

impl View for Protocol {
    type V = ProtocolView;

    closed spec fn view(&self) -> ProtocolView {
        ProtocolView {
            config: self.config,
            elections: table_map(election_keys(self.elections@), election_views(self.elections@)),
            partitions: table_map(
                registry_keys(self.registries@),
                registry_views(self.registries@),
            ),
            nullifiers: self.nullifiers@,
            pending: self.gateway@.pending,
            next_handle: self.gateway@.next_handle,
        }
    }
}

impl Protocol {
    /// No key is stored twice; every election has one slot per candidate and,
    /// while it is a draft, no counted vote; no partition exceeds the capacity;
    /// and every pending handle was issued for an election that is stored.
    pub closed spec fn wf(&self) -> bool {
        &&& election_keys(self.elections@).no_duplicates()
        &&& registry_keys(self.registries@).no_duplicates()
        &&& forall|i: int|
            0 <= i < self.elections@.len() ==> (#[trigger] self.elections@[i])@.wf(self.config)
        &&& forall|i: int|
            0 <= i < self.registries@.len() ==> (#[trigger] self.registries@[i]).voter_hashes@.len()
                <= self.config.partition_capacity
        &&& forall|h: nat| #[trigger]
            self.gateway@.pending.contains_key(h) ==> election_keys(self.elections@).contains(
                self.gateway@.pending[h].election,
            )
    }

    /// A well-formed protocol has a well-formed state.
    pub proof fn lemma_view_wf(&self)
        requires
            self.wf(),
        ensures
            self@.wf(),
    {
        let s = self@;
        let elections = election_keys(self.elections@);
        let registries = registry_keys(self.registries@);
        assert forall|k: ElectionKey| #[trigger] s.elections.contains_key(k) implies s.elections[k].key()
            == k && s.elections[k].wf(s.config) by {
            assert(elections[elections.index_of(k)] == k);
        }
        assert forall|p: PartitionKey| #[trigger] s.partitions.contains_key(p) implies s.partitions[p].len()
            <= s.config.partition_capacity by {
            assert(registries[registries.index_of(p)] == p);
        }
        self.gateway.lemma_wf();
    }

    /// A protocol in which nothing happened yet.
    pub fn new(config: ProtocolConfig) -> (r: Protocol)
        ensures
            r.wf(),
            r@ == ProtocolView::initial(config),
    {
        let r = Protocol {
            config,
            elections: Vec::new(),
            registries: Vec::new(),
            nullifiers: NullifierLedger::new(),
            gateway: Gateway::new(),
        };
        assert(r@.elections =~= Map::empty());
        assert(r@.partitions =~= Map::empty());
        r
    }

    /// The sizes that the protocol was built with.
    pub fn config(&self) -> (r: ProtocolConfig)
        ensures
            r == self@.config,
    {
        self.config
    }

    /// The handle that the next request will get.
    pub fn next_handle(&self) -> (r: u64)
        ensures
            r == self@.next_handle,
    {
        self.gateway.next_handle()
    }

    fn find_election(&self, key: &ElectionKey) -> (r: Option<usize>)
        requires
            self.wf(),
        ensures
            match r {
                Some(i) => i < self.elections@.len() && self.elections@[i as int]@.key() == *key
                    && self@.elections.contains_key(*key) && self@.elections[*key]
                    == self.elections@[i as int]@,
                None => !self@.elections.contains_key(*key),
            },
    {
        let mut i: usize = 0;
        while i < self.elections.len()
            invariant
                self.wf(),
                i <= self.elections.len(),
                forall|j: int| 0 <= j < i ==> self.elections@[j]@.key() != *key,
            decreases self.elections.len() - i,
        {
            if self.elections[i].key().same(key) {
                proof {
                    lemma_table_entry(
                        election_keys(self.elections@),
                        election_views(self.elections@),
                        i as int,
                    );
                }
                return Some(i);
            }
            i += 1;
        }
        proof {
            lemma_table_absent(
                election_keys(self.elections@),
                election_views(self.elections@),
                *key,
            );
        }
        None
    }

    fn find_registry(&self, key: &ElectionKey, chunk_index: u32) -> (r: Option<usize>)
        requires
            self.wf(),
        ensures
            ({
                let p = PartitionKey { election: *key, chunk_index };
                match r {
                    Some(i) => i < self.registries@.len() && self.registries@[i as int].key() == p
                        && self@.partitions.contains_key(p) && self@.partitions[p]
                        == self.registries@[i as int].voter_hashes@,
                    None => !self@.partitions.contains_key(p),
                }
            }),
    {
        let ghost p = PartitionKey { election: *key, chunk_index };
        let mut i: usize = 0;
        while i < self.registries.len()
            invariant
                self.wf(),
                i <= self.registries.len(),
                p == (PartitionKey { election: *key, chunk_index }),
                forall|j: int| 0 <= j < i ==> self.registries@[j].key() != p,
            decreases self.registries.len() - i,
        {
            if self.registries[i].chunk_index == chunk_index && self.registries[i].election.same(
                key,
            ) {
                proof {
                    lemma_table_entry(
                        registry_keys(self.registries@),
                        registry_views(self.registries@),
                        i as int,
                    );
                }
                return Some(i);
            }
            i += 1;
        }
        proof {
            lemma_table_absent(registry_keys(self.registries@), registry_views(self.registries@), p);
        }
        None
    }

    /// The election stored under `key`, if there is one.
    pub fn election(&self, key: &ElectionKey) -> (r: Option<&Election>)
        requires
            self.wf(),
        ensures
            r.is_some() == self@.elections.contains_key(*key),
            r matches Some(e) ==> e@ == self@.elections[*key],
    {
        match self.find_election(key) {
            Some(i) => Some(&self.elections[i]),
            None => None,
        }
    }

    /// The registry partition stored under the election and the index, if
    /// one was written.
    pub fn registry(&self, key: &ElectionKey, chunk_index: u32) -> (r: Option<&VoterRegistry>)
        requires
            self.wf(),
        ensures
            r.is_some() == self@.partitions.contains_key(
                PartitionKey { election: *key, chunk_index },
            ),
            r matches Some(registry) ==> registry.key() == (PartitionKey {
                election: *key,
                chunk_index,
            }) && registry.voter_hashes@ == self@.partitions[PartitionKey {
                election: *key,
                chunk_index,
            }],
    {
        match self.find_registry(key, chunk_index) {
            Some(i) => Some(&self.registries[i]),
            None => None,
        }
    }

    /// The number of fingerprints in the addressed partition.
    pub fn registered_count(&self, key: &ElectionKey, chunk_index: u32) -> (r: usize)
        requires
            self.wf(),
        ensures
            r == self@.partition(PartitionKey { election: *key, chunk_index }).len(),
    {
        match self.find_registry(key, chunk_index) {
            Some(i) => self.registries[i].voter_hashes.len(),
            None => 0,
        }
    }

    /// Whether a partition was ever written under the index.
    pub fn has_partition(&self, key: &ElectionKey, chunk_index: u32) -> (r: bool)
        requires
            self.wf(),
        ensures
            r == self@.partitions.contains_key(PartitionKey { election: *key, chunk_index }),
    {
        self.find_registry(key, chunk_index).is_some()
    }

    /// Whether `voter_hash` is registered in the addressed partition. Only
    /// that partition is read.
    pub fn is_voter_registered(&self, key: &ElectionKey, chunk_index: u32, voter_hash: &Bytes32) -> (r:
        bool)
        requires
            self.wf(),
        ensures
            r == self@.is_registered(PartitionKey { election: *key, chunk_index }, *voter_hash),
    {
        match self.find_registry(key, chunk_index) {
            Some(i) => self.registries[i].contains(voter_hash),
            None => false,
        }
    }

    /// Whether a nullifier record exists for the election and the hash.
    pub fn has_voter_voted(&self, key: &ElectionKey, nullifier_hash: &Bytes32) -> (r: bool)
        ensures
            r == self@.has_voted(NullifierKey { election: *key, nullifier_hash: *nullifier_hash }),
    {
        self.nullifiers.contains(key, nullifier_hash)
    }

    /// The request that is pending under `handle`, if there is one.
    pub fn pending(&self, handle: u64) -> (r: Option<PendingComputation>)
        ensures
            r.is_some() == self@.pending.contains_key(handle as nat),
            r matches Some(p) ==> p == self@.pending[handle as nat],
    {
        self.gateway.pending(handle)
    }

    /// Submits a computation for a stored election.
    fn submit(&mut self, computation: PendingComputation, args: Vec<Argument>) -> (request:
        ComputationRequest)
        requires
            old(self).wf(),
            old(self)@.elections.contains_key(computation.election),
        ensures
            final(self).wf(),
            final(self)@ == old(self)@.with_request(computation),
            request@ == (ComputationRequestView {
                handle: old(self)@.next_handle,
                operation: computation.operation,
                args: args@,
            }),
            final(self).elections == old(self).elections,
    {
        proof {
            self.gateway.lemma_wf();
        }
        self.gateway.submit(computation, args)
    }

    /// Creates an election in the draft state and submits the computation
    /// that produces its encrypted all-zero tally.
    ///
    /// The schedule must have `start_time < end_time`, and no election may be
    /// stored yet under the creator and `election_id`.
    pub fn init_election(
        &mut self,
        creator: Bytes32,
        election_id: u64,
        title: String,
        start_time: u64,
        end_time: u64,
        nonce: u128,
    ) -> (r: Result<ComputationRequest, VoteError>)
        requires
            old(self).wf(),
        ensures
            final(self).wf(),
            final(self)@ == init_election_next(
                old(self)@,
                ElectionKey { creator, election_id },
                title@,
                start_time,
                end_time,
                nonce,
            ),
            match r {
                Ok(request) => init_election_error(
                    old(self)@,
                    ElectionKey { creator, election_id },
                    start_time,
                    end_time,
                ) is None && request@ == init_election_request(old(self)@, nonce),
                Err(e) => init_election_error(
                    old(self)@,
                    ElectionKey { creator, election_id },
                    start_time,
                    end_time,
                ) == Some(e),
            },
    {
        let key = ElectionKey { creator, election_id };
        if end_time <= start_time {
            return Err(VoteError::InvalidElectionPeriod);
        }
        if self.find_election(&key).is_some() {
            return Err(VoteError::ElectionAlreadyExists);
        }
        let mut encrypted_tally: Vec<Bytes32> = Vec::new();
        let mut final_result: Vec<u64> = Vec::new();
        let mut i: usize = 0;
        while i < self.config.candidate_count
            invariant
                i <= self.config.candidate_count,
                encrypted_tally@.len() == i,
                final_result@.len() == i,
                forall|j: int| 0 <= j < i ==> encrypted_tally@[j] == zero_block(),
                forall|j: int| 0 <= j < i ==> final_result@[j] == 0u64,
            decreases self.config.candidate_count - i,
        {
            encrypted_tally.push([0u8;32]);
            final_result.push(0u64);
            i += 1;
        }
        let election = Election {
            creator,
            election_id,
            title,
            start_time,
            end_time,
            state: ElectionState::Draft,
            total_votes: 0,
            nonce,
            encrypted_tally,
            final_result,
        };
        proof {
            let d = draft_election(self.config, key, title@, start_time, end_time, nonce);
            assert(election@.encrypted_tally =~= d.encrypted_tally);
            assert(election@.final_result =~= d.final_result);
            let keys = election_keys(self.elections@);
            let vals = election_views(self.elections@);
            lemma_table_push(keys, vals, key, election@);
            assert(election_keys(self.elections@.push(election)) =~= keys.push(key));
            assert(election_views(self.elections@.push(election)) =~= vals.push(election@));
            assert forall|h: nat| #[trigger]
                self.gateway@.pending.contains_key(h) implies keys.push(key).contains(
                self.gateway@.pending[h].election,
            ) by {
                lemma_push_contains(keys, key, self.gateway@.pending[h].election);
            }
        }
        self.elections.push(election);
        Ok(
            self.submit(
                PendingComputation {
                    operation: Operation::InitVoteStats,
                    election: key,
                    consumed_nonce: nonce,
                },
                build_init_arguments(nonce),
            ),
        )
    }

    /// Creates an election whose first tally version is the time of creation.
    ///
    /// Behaves as [`Protocol::init_election`] with `now` as the nonce.
    pub fn initialize_election(
        &mut self,
        creator: Bytes32,
        election_id: u64,
        title: String,
        start_time: u64,
        end_time: u64,
        now: u64,
    ) -> (r: Result<ComputationRequest, VoteError>)
        requires
            old(self).wf(),
        ensures
            final(self).wf(),
            final(self)@ == init_election_next(
                old(self)@,
                ElectionKey { creator, election_id },
                title@,
                start_time,
                end_time,
                now as u128,
            ),
            match r {
                Ok(request) => init_election_error(
                    old(self)@,
                    ElectionKey { creator, election_id },
                    start_time,
                    end_time,
                ) is None && request@ == init_election_request(old(self)@, now as u128),
                Err(e) => init_election_error(
                    old(self)@,
                    ElectionKey { creator, election_id },
                    start_time,
                    end_time,
                ) == Some(e),
            },
    {
        self.init_election(creator, election_id, title, start_time, end_time, now as u128)
    }

    /// Appends `voter_hashes` to the addressed partition of the registry,
    /// behind what it holds, creating the partition where it is new.
    ///
    /// Only the election's creator may register, only while the election is a
    /// draft, and only as many fingerprints as the partition still has room
    /// for; otherwise nothing is written.
    pub fn register_voters(
        &mut self,
        authority: &Bytes32,
        key: &ElectionKey,
        chunk_index: u32,
        voter_hashes: Vec<Bytes32>,
    ) -> (r: Result<(), VoteError>)
        requires
            old(self).wf(),
        ensures
            final(self).wf(),
            final(self)@ == register_voters_next(
                old(self)@,
                *authority,
                *key,
                chunk_index,
                voter_hashes@,
            ),
            match r {
                Ok(()) => register_voters_error(
                    old(self)@,
                    *authority,
                    *key,
                    chunk_index,
                    voter_hashes@,
                ) is None,
                Err(e) => register_voters_error(
                    old(self)@,
                    *authority,
                    *key,
                    chunk_index,
                    voter_hashes@,
                ) == Some(e),
            },
    {
        let ghost p = PartitionKey { election: *key, chunk_index };
        let i = match self.find_election(key) {
            Some(i) => i,
            None => {
                return Err(VoteError::ElectionNotFound);
            },
        };
        if !bytes32_eq(authority, &self.elections[i].creator) {
            return Err(VoteError::NotAuthorized);
        }
        let found = self.find_registry(key, chunk_index);
        let held: usize = match found {
            Some(j) => self.registries[j].count(),
            None => 0,
        };
        if voter_hashes.len() > self.config.partition_capacity - held {
            return Err(VoteError::PartitionFull);
        }
        if self.elections[i].state != ElectionState::Draft {
            return Err(VoteError::ElectionNotDraft);
        }
        let ghost before = *self;
        let ghost added = voter_hashes@;
        let capacity = self.config.partition_capacity;
        match found {
            Some(j) => {
                let r = self.registries[j].register(voter_hashes, capacity);
                proof {
                    let keys = registry_keys(before.registries@);
                    let vals = registry_views(before.registries@);
                    assert(registry_keys(self.registries@) =~= keys);
                    assert(registry_views(self.registries@) =~= vals.update(
                        j as int,
                        vals[j as int] + added,
                    ));
                    lemma_table_update(keys, vals, j as int, vals[j as int] + added);
                }
                r
            },
            None => {
                let mut registry = VoterRegistry::new(*key, chunk_index);
                let r = registry.register(voter_hashes, capacity);
                proof {
                    let keys = registry_keys(self.registries@);
                    let vals = registry_views(self.registries@);
                    lemma_table_push(keys, vals, p, added);
                    assert(registry_keys(self.registries@.push(registry)) =~= keys.push(p));
                    assert(registry_views(self.registries@.push(registry)) =~= vals.push(added));
                }
                self.registries.push(registry);
                r
            },
        }
    }

    /// Accepts a ballot: checks that the election is open at `now`, that
    /// `voter_hash` is registered in the addressed partition and that the
    /// nullifier is unused, then consumes the nullifier and submits the
    /// computation that adds the ballot to the current tally.
    ///
    /// A rejected ballot leaves nothing behind. The public vote counter moves
    /// only when the outcome is applied.
    pub fn cast_vote(
        &mut self,
        key: &ElectionKey,
        voter_chunk_index: u32,
        vote: EncryptedVote,
        nullifier_hash: Bytes32,
        voter_hash: Bytes32,
        now: u64,
    ) -> (r: Result<ComputationRequest, VoteError>)
        requires
            old(self).wf(),
        ensures
            final(self).wf(),
            final(self)@ == cast_vote_next(
                old(self)@,
                *key,
                voter_chunk_index,
                nullifier_hash,
                voter_hash,
                now,
            ),
            match r {
                Ok(request) => cast_vote_error(
                    old(self)@,
                    *key,
                    voter_chunk_index,
                    nullifier_hash,
                    voter_hash,
                    now,
                ) is None && request@ == cast_vote_request(old(self)@, *key, vote),
                Err(e) => cast_vote_error(
                    old(self)@,
                    *key,
                    voter_chunk_index,
                    nullifier_hash,
                    voter_hash,
                    now,
                ) == Some(e),
            },
    {
        let i = match self.find_election(key) {
            Some(i) => i,
            None => {
                return Err(VoteError::ElectionNotFound);
            },
        };
        if !(self.elections[i].state == ElectionState::Active && self.elections[i].start_time <= now
            && now <= self.elections[i].end_time) {
            return Err(VoteError::ElectionNotOpen);
        }
        if !self.is_voter_registered(key, voter_chunk_index, &voter_hash) {
            return Err(VoteError::VoterNotRegistered);
        }
        self.nullifiers.consume(key, &nullifier_hash)?;
        let nonce = self.elections[i].nonce;
        let args = build_vote_arguments(&vote, &self.elections[i].encrypted_tally, nonce);
        Ok(
            self.submit(
                PendingComputation {
                    operation: Operation::Vote,
                    election: *key,
                    consumed_nonce: nonce,
                },
                args,
            ),
        )
    }

    /// The state in which an election's record was replaced by one with the
    /// same key.
    proof fn lemma_election_replaced(before: Protocol, after: Protocol, i: int)
        requires
            before.wf(),
            0 <= i < before.elections@.len(),
            after.elections@.len() == before.elections@.len(),
            forall|j: int|
                0 <= j < before.elections@.len() && j != i ==> after.elections@[j]
                    == before.elections@[j],
            after.elections@[i]@.key() == before.elections@[i]@.key(),
            after.elections@[i]@.wf(before.config),
            after.config == before.config,
            after.registries == before.registries,
            after.nullifiers == before.nullifiers,
            after.gateway == before.gateway,
        ensures
            after.wf(),
            after@ == before@.with_election(after.elections@[i]@),
    {
        let keys = election_keys(before.elections@);
        let vals = election_views(before.elections@);
        assert(election_keys(after.elections@) =~= keys);
        assert(election_views(after.elections@) =~= vals.update(i, after.elections@[i]@));
        lemma_table_update(keys, vals, i, after.elections@[i]@);
        assert forall|j: int| 0 <= j < after.elections@.len() implies (#[trigger] after.elections@[j])@.wf(
            after.config,
        ) by {
            assert(j != i ==> after.elections@[j] == before.elections@[j]);
        }
    }

    /// Moves an election to tallying and submits the computation that
    /// decrypts its tally.
    ///
    /// Only the creator may ask, and only once the voting window has elapsed
    /// (`now` is past the end), or again while the election is tallying.
    pub fn reveal_result(&mut self, authority: &Bytes32, key: &ElectionKey, now: u64) -> (r: Result<
        ComputationRequest,
        VoteError,
    >)
        requires
            old(self).wf(),
        ensures
            final(self).wf(),
            final(self)@ == reveal_result_next(old(self)@, *authority, *key, now),
            match r {
                Ok(request) => reveal_result_error(old(self)@, *authority, *key, now) is None
                    && request@ == reveal_result_request(old(self)@, *key),
                Err(e) => reveal_result_error(old(self)@, *authority, *key, now) == Some(e),
            },
    {
        let i = match self.find_election(key) {
            Some(i) => i,
            None => {
                return Err(VoteError::ElectionNotFound);
            },
        };
        if !bytes32_eq(authority, &self.elections[i].creator) {
            return Err(VoteError::NotAuthorized);
        }
        let state = self.elections[i].state;
        if state != ElectionState::Tallying && now <= self.elections[i].end_time {
            return Err(VoteError::PeriodNotElapsed);
        }
        if state == ElectionState::Completed {
            return Err(VoteError::AlreadyCompleted);
        }
        if state != ElectionState::Active && state != ElectionState::Tallying {
            return Err(VoteError::ElectionNotOpen);
        }
        let nonce = self.elections[i].nonce;
        let args = build_reveal_arguments(&self.elections[i].encrypted_tally, nonce);
        let ghost before = *self;
        self.elections[i].state = ElectionState::Tallying;
        proof {
            Self::lemma_election_replaced(before, *self, i as int);
        }
        Ok(
            self.submit(
                PendingComputation {
                    operation: Operation::RevealResult,
                    election: *key,
                    consumed_nonce: nonce,
                },
                args,
            ),
        )
    }

    /// Cancels an election that is not completed. Only the creator may.
    pub fn cancel_election(&mut self, authority: &Bytes32, key: &ElectionKey) -> (r: Result<
        (),
        VoteError,
    >)
        requires
            old(self).wf(),
        ensures
            final(self).wf(),
            final(self)@ == cancel_election_next(old(self)@, *authority, *key),
            match r {
                Ok(()) => cancel_election_error(old(self)@, *authority, *key) is None,
                Err(e) => cancel_election_error(old(self)@, *authority, *key) == Some(e),
            },
    {
        let i = match self.find_election(key) {
            Some(i) => i,
            None => {
                return Err(VoteError::ElectionNotFound);
            },
        };
        if !bytes32_eq(authority, &self.elections[i].creator) {
            return Err(VoteError::NotAuthorized);
        }
        if self.elections[i].state == ElectionState::Completed {
            return Err(VoteError::AlreadyCompleted);
        }
        let ghost before = *self;
        self.elections[i].state = ElectionState::Cancelled;
        proof {
            Self::lemma_election_replaced(before, *self, i as int);
        }
        Ok(())
    }

    /// Delivers an outcome as that of a request of kind `operation`.
    fn deliver(&mut self, operation: Operation, handle: u64, outcome: ComputationOutcome) -> (r:
        Result<Delivery, VoteError>)
        requires
            old(self).wf(),
        ensures
            final(self).wf(),
            final(self)@ == outcome_next(old(self)@, operation, handle as nat, outcome@),
            match r {
                Ok(d) => outcome_error(old(self)@, operation, handle as nat, outcome@) is None && d
                    == outcome_delivery(old(self)@, handle as nat),
                Err(e) => outcome_error(old(self)@, operation, handle as nat, outcome@) == Some(e),
            },
    {
        let p = match self.gateway.pending(handle) {
            Some(p) => p,
            None => {
                return Ok(Delivery::Ignored);
            },
        };
        if p.operation != operation {
            return Err(VoteError::MalformedOutcome);
        }
        self.gateway.settle(handle);
        let i = match self.find_election(&p.election) {
            Some(i) => i,
            None => {
                return Err(VoteError::ElectionNotFound);
            },
        };
        if outcome.is_aborted() {
            return Err(VoteError::ComputationAborted);
        }
        if operation == Operation::Vote && p.consumed_nonce != self.elections[i].nonce {
            return Err(VoteError::StaleNonce);
        }
        let well_shaped = check_shape(operation, &outcome, &self.config);
        let state = self.elections[i].state;
        let ghost before = *self;
        match outcome {
            ComputationOutcome::Aborted => Err(VoteError::ComputationAborted),
            ComputationOutcome::Ciphertexts { ciphertexts, nonce } => {
                if !well_shaped {
                    return Err(VoteError::MalformedOutcome);
                }
                if operation == Operation::InitVoteStats {
                    if state != ElectionState::Draft {
                        return Err(VoteError::ElectionNotDraft);
                    }
                    self.elections[i].encrypted_tally = ciphertexts;
                    self.elections[i].nonce = nonce;
                    self.elections[i].state = ElectionState::Active;
                } else {
                    if state != ElectionState::Active {
                        return Err(VoteError::ElectionNotOpen);
                    }
                    if self.elections[i].total_votes == u32::MAX {
                        return Err(VoteError::VoteCountOverflow);
                    }
                    self.elections[i].encrypted_tally = ciphertexts;
                    self.elections[i].nonce = nonce;
                    self.elections[i].total_votes = self.elections[i].total_votes + 1;
                }
                proof {
                    Self::lemma_election_replaced(before, *self, i as int);
                }
                Ok(Delivery::Applied)
            },
            ComputationOutcome::Plaintexts { values } => {
                if !well_shaped {
                    return Err(VoteError::MalformedOutcome);
                }
                if state == ElectionState::Completed {
                    return Err(VoteError::AlreadyCompleted);
                }
                if state != ElectionState::Tallying {
                    return Err(VoteError::ElectionNotOpen);
                }
                self.elections[i].final_result = values;
                self.elections[i].state = ElectionState::Completed;
                proof {
                    Self::lemma_election_replaced(before, *self, i as int);
                }
                Ok(Delivery::Applied)
            },
        }
    }

    /// Applies the outcome of the computation that initialises a tally: the
    /// draft election takes the returned ciphertexts and version and becomes
    /// active.
    ///
    /// An outcome under a handle that is not pending changes nothing and is
    /// reported as ignored. Otherwise the request stops being pending, and
    /// the election changes only if the outcome is not rejected.
    pub fn init_vote_stats_callback(&mut self, handle: u64, output: ComputationOutcome) -> (r: Result<
        Delivery,
        VoteError,
    >)
        requires
            old(self).wf(),
        ensures
            final(self).wf(),
            final(self)@ == outcome_next(
                old(self)@,
                Operation::InitVoteStats,
                handle as nat,
                output@,
            ),
            match r {
                Ok(d) => outcome_error(
                    old(self)@,
                    Operation::InitVoteStats,
                    handle as nat,
                    output@,
                ) is None
                    && d == outcome_delivery(old(self)@, handle as nat),
                Err(e) => outcome_error(
                    old(self)@,
                    Operation::InitVoteStats,
                    handle as nat,
                    output@,
                )
                    == Some(e),
            },
    {
        self.deliver(Operation::InitVoteStats, handle, output)
    }

    /// Applies the outcome of a cast vote: the active election takes the
    /// returned tally and version, and its public counter grows by one.
    ///
    /// An abort is reported as one and changes no election. Any other
    /// outcome that was computed from a tally version other than the current
    /// one is rejected as stale. An outcome under a handle that is not pending
    /// changes nothing and is reported as ignored.
    pub fn vote_callback(&mut self, handle: u64, output: ComputationOutcome) -> (r: Result<
        Delivery,
        VoteError,
    >)
        requires
            old(self).wf(),
        ensures
            final(self).wf(),
            final(self)@ == outcome_next(
                old(self)@,
                Operation::Vote,
                handle as nat,
                output@,
            ),
            match r {
                Ok(d) => outcome_error(
                    old(self)@,
                    Operation::Vote,
                    handle as nat,
                    output@,
                ) is None && d
                    == outcome_delivery(old(self)@, handle as nat),
                Err(e) => outcome_error(
                    old(self)@,
                    Operation::Vote,
                    handle as nat,
                    output@,
                ) == Some(e),
            },
    {
        self.deliver(Operation::Vote, handle, output)
    }

    /// Applies the outcome of the reveal: the tallying election takes the
    /// returned counters as its final result and is completed.
    ///
    /// An outcome under a handle that is not pending changes nothing and is
    /// reported as ignored.
    pub fn reveal_result_callback(&mut self, handle: u64, output: ComputationOutcome) -> (r: Result<
        Delivery,
        VoteError,
    >)
        requires
            old(self).wf(),
        ensures
            final(self).wf(),
            final(self)@ == outcome_next(
                old(self)@,
                Operation::RevealResult,
                handle as nat,
                output@,
            ),
            match r {
                Ok(d) => outcome_error(
                    old(self)@,
                    Operation::RevealResult,
                    handle as nat,
                    output@,
                ) is None
                    && d == outcome_delivery(old(self)@, handle as nat),
                Err(e) => outcome_error(
                    old(self)@,
                    Operation::RevealResult,
                    handle as nat,
                    output@,
                )
                    == Some(e),
            },
    {
        self.deliver(Operation::RevealResult, handle, output)
    }

    /// Delivers an outcome to whichever request is pending under `handle`.
    pub fn on_outcome(&mut self, handle: u64, outcome: ComputationOutcome) -> (r: Result<
        Delivery,
        VoteError,
    >)
        requires
            old(self).wf(),
        ensures
            final(self).wf(),
            !old(self)@.pending.contains_key(handle as nat) ==> r == Ok::<Delivery, VoteError>(
                Delivery::Ignored,
            ) && final(self)@ == old(self)@,
            old(self)@.pending.contains_key(handle as nat) ==> {
                let operation = old(self)@.pending[handle as nat].operation;
                &&& final(self)@ == outcome_next(old(self)@, operation, handle as nat, outcome@)
                &&& match r {
                    Ok(d) => outcome_error(old(self)@, operation, handle as nat, outcome@) is None
                        && d == Delivery::Applied,
                    Err(e) => outcome_error(old(self)@, operation, handle as nat, outcome@)
                        == Some(e),
                }
            },
    {
        match self.pending(handle) {
            Some(p) => self.deliver(p.operation, handle, outcome),
            None => Ok(Delivery::Ignored),
        }
    }
}

} // verus!
