//! Persistent records of the protocol: elections, registry partitions and
//! nullifier records, with the keys under which they are stored.

use vstd::prelude::*;

verus! {

/// Number of candidates of an election under the default configuration.
pub const MAX_CANDIDATES: usize = 5;

/// Capacity of one registry partition under the default configuration.
pub const MAX_ITEMS_PER_CHUNK: usize = 500;

/// A 32-byte value: an account key, a voter fingerprint, a nullifier hash or
/// one ciphertext block.
pub type Bytes32 = [u8; 32];

/// The 32-byte value that holds the bytes `s`.
pub open spec fn bytes32_of(s: Seq<u8>) -> Bytes32 {
    choose|a: Bytes32| a@ == s
}

/// A 32-byte value whose first `k` bytes are those of `s`.
spec fn filled(s: Seq<u8>, k: nat) -> Bytes32
    decreases k,
{
    if k == 0 {
        vstd::pervasive::arbitrary()
    } else {
        vstd::array::spec_array_update(filled(s, (k - 1) as nat), k - 1, s[k - 1])
    }
}

proof fn lemma_filled(s: Seq<u8>, k: nat)
    requires
        k <= 32,
    ensures
        forall|j: int| 0 <= j < k ==> filled(s, k)@[j] == s[j],
    decreases k,
{
    if k > 0 {
        lemma_filled(s, (k - 1) as nat);
    }
}

/// Every 32 bytes are the bytes of a 32-byte value.
pub proof fn lemma_bytes32_view(s: Seq<u8>)
    requires
        s.len() == 32,
    ensures
        bytes32_of(s)@ == s,
{
    lemma_filled(s, 32);
    assert(filled(s, 32)@ =~= s);
}

/// A 32-byte value is the one that holds its bytes.
pub proof fn lemma_bytes32_of(a: Bytes32)
    ensures
        bytes32_of(a@) == a,
{
    assert(bytes32_of(a@) =~= a);
}

/// Compares two 32-byte values.
pub fn bytes32_eq(a: &Bytes32, b: &Bytes32) -> (r: bool)
    ensures
        r == (*a == *b),
        r == (a@ == b@),
{
    let mut i: usize = 0;
    while i < 32
        invariant
            i <= 32,
            forall|j: int| 0 <= j < i ==> a[j] == b[j],
        decreases 32 - i,
    {
        if a[i] != b[i] {
            return false;
        }
        i += 1;
    }
    assert(*a =~= *b);
    true
}

/// The sizes that an instance of the protocol is built with.
#[derive(Clone, Copy, Debug, PartialEq, Eq, Structural)]
pub struct ProtocolConfig {
    /// Number of slots of every tally and of every final result.
    pub candidate_count: usize,
    /// Largest number of fingerprints in one registry partition.
    pub partition_capacity: usize,
}

impl ProtocolConfig {
    /// A configuration with the given sizes.
    pub fn new(candidate_count: usize, partition_capacity: usize) -> (r: Self)
        ensures
            r.candidate_count == candidate_count,
            r.partition_capacity == partition_capacity,
    {
        ProtocolConfig { candidate_count, partition_capacity }
    }
}

impl Default for ProtocolConfig {
    fn default() -> (r: Self)
        ensures
            r.candidate_count == MAX_CANDIDATES,
            r.partition_capacity == MAX_ITEMS_PER_CHUNK,
    {
        ProtocolConfig { candidate_count: MAX_CANDIDATES, partition_capacity: MAX_ITEMS_PER_CHUNK }
    }
}

/// Lifecycle of an election.
#[derive(Clone, Copy, Debug, PartialEq, Eq, Structural)]
pub enum ElectionState {
    Draft,
    Active,
    Tallying,
    Completed,
    Cancelled,
}

impl ElectionState {
    /// The number under which a state is persisted.
    pub open spec fn spec_code(self) -> u64 {
        match self {
            ElectionState::Draft => 0,
            ElectionState::Active => 1,
            ElectionState::Tallying => 2,
            ElectionState::Completed => 3,
            ElectionState::Cancelled => 4,
        }
    }

    /// The number under which a state is persisted.
    pub fn code(self) -> (r: u64)
        ensures
            r == self.spec_code(),
    {
        match self {
            ElectionState::Draft => 0,
            ElectionState::Active => 1,
            ElectionState::Tallying => 2,
            ElectionState::Completed => 3,
            ElectionState::Cancelled => 4,
        }
    }

    /// The state persisted under `code`, if there is one.
    pub fn from_code(code: u64) -> (r: Option<ElectionState>)
        ensures
            code <= 4 <==> r.is_some(),
            r matches Some(s) ==> s.spec_code() == code,
    {
        if code == 0 {
            Some(ElectionState::Draft)
        } else if code == 1 {
            Some(ElectionState::Active)
        } else if code == 2 {
            Some(ElectionState::Tallying)
        } else if code == 3 {
            Some(ElectionState::Completed)
        } else if code == 4 {
            Some(ElectionState::Cancelled)
        } else {
            None
        }
    }
}

/// The key of an election: its creator and the creator's own numbering.
#[derive(Clone, Copy, Debug)]
pub struct ElectionKey {
    pub creator: Bytes32,
    pub election_id: u64,
}

impl ElectionKey {
    /// The key of the election `election_id` of `creator`.
    pub fn new(creator: Bytes32, election_id: u64) -> (r: Self)
        ensures
            r == (ElectionKey { creator, election_id }),
    {
        ElectionKey { creator, election_id }
    }

    /// Whether two keys address the same election.
    pub fn same(&self, other: &ElectionKey) -> (r: bool)
        ensures
            r == (*self == *other),
    {
        self.election_id == other.election_id && bytes32_eq(&self.creator, &other.creator)
    }
}

/// The key of a registry partition: its election and its index.
#[derive(Clone, Copy, Debug)]
pub struct PartitionKey {
    pub election: ElectionKey,
    pub chunk_index: u32,
}

/// The key of a nullifier record: its election and the nullifier hash.
#[derive(Clone, Copy, Debug)]
pub struct NullifierKey {
    pub election: ElectionKey,
    pub nullifier_hash: Bytes32,
}

/// What an election record holds, as mathematical values.
pub struct ElectionView {
    pub creator: Bytes32,
    pub election_id: u64,
    pub title: Seq<char>,
    pub start_time: u64,
    pub end_time: u64,
    pub state: ElectionState,
    pub total_votes: u32,
    pub nonce: u128,
    pub encrypted_tally: Seq<Bytes32>,
    pub final_result: Seq<u64>,
}

impl ElectionView {
    /// The key under which the election is stored.
    pub open spec fn key(self) -> ElectionKey {
        ElectionKey { creator: self.creator, election_id: self.election_id }
    }

    /// The tally and the final result have one slot per candidate, and a
    /// draft has no counted vote.
    pub open spec fn wf(self, config: ProtocolConfig) -> bool {
        &&& self.encrypted_tally.len() == config.candidate_count
        &&& self.final_result.len() == config.candidate_count
        &&& self.state == ElectionState::Draft ==> self.total_votes == 0
    }
}

/// One election: identity, schedule, lifecycle state, encrypted tally and
/// public result.
#[derive(Debug)]
pub struct Election {
    pub creator: Bytes32,
    pub election_id: u64,
    pub title: String,
    pub start_time: u64,
    pub end_time: u64,
    pub state: ElectionState,
    pub total_votes: u32,
    /// Version of the encryption context that `encrypted_tally` belongs to.
    pub nonce: u128,
    /// One ciphertext block per candidate.
    pub encrypted_tally: Vec<Bytes32>,
    /// One plaintext counter per candidate, meaningful once completed.
    pub final_result: Vec<u64>,
}

impl View for Election {
    type V = ElectionView;

    open spec fn view(&self) -> ElectionView {
        ElectionView {
            creator: self.creator,
            election_id: self.election_id,
            title: self.title@,
            start_time: self.start_time,
            end_time: self.end_time,
            state: self.state,
            total_votes: self.total_votes,
            nonce: self.nonce,
            encrypted_tally: self.encrypted_tally@,
            final_result: self.final_result@,
        }
    }
}

impl Election {
    /// The key under which the election is stored.
    pub fn key(&self) -> (r: ElectionKey)
        ensures
            r == self@.key(),
    {
        ElectionKey { creator: self.creator, election_id: self.election_id }
    }
}

/// One stored ballot.
#[derive(Debug)]
pub struct EncryptedBallot {
    pub encrypted_data: Vec<u8>,
    pub receipt_id: Bytes32,
    /// The time at which the ballot was accepted.
    pub timestamp: u64,
    pub arcium_proof: Vec<u8>,
}

/// One chunk of an election's stored ballots.
#[derive(Debug)]
pub struct BallotChunk {
    pub ballots: Vec<EncryptedBallot>,
    /// The address of the chunk behind this one, if there is one.
    pub next_chunk: Option<Bytes32>,
}

/// The record whose existence shows that a ballot was cast.
#[derive(Clone, Copy, Debug)]
pub struct NullifierAccount {
    pub election: ElectionKey,
    pub nullifier_hash: Bytes32,
}

} // verus!
