//! The voter registry: append-only partitions of voter fingerprints.

use vstd::prelude::*;
use crate::error::VoteError;
use crate::state::{bytes32_eq, Bytes32, ElectionKey, PartitionKey};

verus! {

/// One partition of the voter registry: the fingerprints registered under
/// one index of one election, in the order of registration.
#[derive(Debug)]
pub struct VoterRegistry {
    pub election: ElectionKey,
    pub chunk_index: u32,
    pub voter_hashes: Vec<Bytes32>,
}

impl VoterRegistry {
    /// The key under which the partition is stored.
    pub open spec fn key(self) -> PartitionKey {
        PartitionKey { election: self.election, chunk_index: self.chunk_index }
    }

    /// An empty partition.
    pub fn new(election: ElectionKey, chunk_index: u32) -> (r: VoterRegistry)
        ensures
            r.election == election,
            r.chunk_index == chunk_index,
            r.voter_hashes@ == Seq::<Bytes32>::empty(),
    {
        VoterRegistry { election, chunk_index, voter_hashes: Vec::new() }
    }

    /// The number of fingerprints in the partition.
    pub fn count(&self) -> (r: usize)
        ensures
            r == self.voter_hashes@.len(),
    {
        self.voter_hashes.len()
    }

    /// Whether `voter_hash` is among the partition's fingerprints.
    pub fn contains(&self, voter_hash: &Bytes32) -> (r: bool)
        ensures
            r == self.voter_hashes@.contains(*voter_hash),
    {
        let mut i: usize = 0;
        while i < self.voter_hashes.len()
            invariant
                i <= self.voter_hashes.len(),
                forall|j: int| 0 <= j < i ==> self.voter_hashes@[j] != *voter_hash,
            decreases self.voter_hashes.len() - i,
        {
            if bytes32_eq(&self.voter_hashes[i], voter_hash) {
                return true;
            }
            i += 1;
        }
        false
    }

    /// Appends `voter_hashes` behind the fingerprints that the partition
    /// holds, each at the index of the running count, if the partition then
    /// holds no more than `capacity`; else fails with `PartitionFull` and
    /// keeps the partition as it is.
    pub fn register(&mut self, voter_hashes: Vec<Bytes32>, capacity: usize) -> (r: Result<
        (),
        VoteError,
    >)
        ensures
            final(self).election == old(self).election,
            final(self).chunk_index == old(self).chunk_index,
            old(self).voter_hashes@.len() + voter_hashes@.len() <= capacity ==> r == Ok::<
                (),
                VoteError,
            >(()) && final(self).voter_hashes@ == old(self).voter_hashes@ + voter_hashes@,
            old(self).voter_hashes@.len() + voter_hashes@.len() > capacity ==> r == Err::<
                (),
                VoteError,
            >(VoteError::PartitionFull) && final(self).voter_hashes@ == old(self).voter_hashes@,
    {
        let held = self.voter_hashes.len();
        if held > capacity || voter_hashes.len() > capacity - held {
            return Err(VoteError::PartitionFull);
        }
        let mut voter_hashes = voter_hashes;
        self.voter_hashes.append(&mut voter_hashes);
        Ok(())
    }
}

} // verus!
