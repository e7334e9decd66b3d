//! The nullifier ledger: the single-use tokens that make every ballot
//! exactly-once.

use vstd::prelude::*;
use crate::error::VoteError;
use crate::state::{bytes32_eq, Bytes32, ElectionKey, NullifierAccount, NullifierKey};
use crate::table::{key_set, lemma_key_set_push};

verus! {

/// The keys of a sequence of nullifier records.
pub open spec fn nullifier_keys(s: Seq<NullifierAccount>) -> Seq<NullifierKey> {
    s.map_values(
        |n: NullifierAccount| NullifierKey { election: n.election, nullifier_hash: n.nullifier_hash },
    )
}

/// The records of the nullifiers that were consumed. A record is created
/// once and never updated or deleted.
pub struct NullifierLedger {
    records: Vec<NullifierAccount>,
}

impl View for NullifierLedger {
    type V = Set<NullifierKey>;

    closed spec fn view(&self) -> Set<NullifierKey> {
        key_set(nullifier_keys(self.records@))
    }
}

impl NullifierLedger {
    /// A ledger without records.
    pub fn new() -> (r: NullifierLedger)
        ensures
            r@ == Set::<NullifierKey>::empty(),
    {
        NullifierLedger { records: Vec::new() }
    }

    /// Whether a record exists for the election and the hash.
    pub fn contains(&self, election: &ElectionKey, nullifier_hash: &Bytes32) -> (r: bool)
        ensures
            r == self@.contains(
                NullifierKey { election: *election, nullifier_hash: *nullifier_hash },
            ),
    {
        let ghost n = NullifierKey { election: *election, nullifier_hash: *nullifier_hash };
        let mut i: usize = 0;
        while i < self.records.len()
            invariant
                i <= self.records.len(),
                n == (NullifierKey { election: *election, nullifier_hash: *nullifier_hash }),
                forall|j: int| 0 <= j < i ==> nullifier_keys(self.records@)[j] != n,
            decreases self.records.len() - i,
        {
            if self.records[i].election.same(election) && bytes32_eq(
                &self.records[i].nullifier_hash,
                nullifier_hash,
            ) {
                assert(nullifier_keys(self.records@)[i as int] == n);
                return true;
            }
            i += 1;
        }
        false
    }

    /// Creates the record of a nullifier if none exists: of any number of
    /// calls with the same election and hash exactly the first succeeds, and
    /// every other fails with `AlreadyVoted` and changes nothing.
    pub fn consume(&mut self, election: &ElectionKey, nullifier_hash: &Bytes32) -> (r: Result<
        (),
        VoteError,
    >)
        ensures
            ({
                let n = NullifierKey { election: *election, nullifier_hash: *nullifier_hash };
                if old(self)@.contains(n) {
                    r == Err::<(), VoteError>(VoteError::AlreadyVoted) && final(self)@ == old(self)@
                } else {
                    r == Ok::<(), VoteError>(()) && final(self)@ == old(self)@.insert(n)
                }
            }),
    {
        if self.contains(election, nullifier_hash) {
            return Err(VoteError::AlreadyVoted);
        }
        let record = NullifierAccount { election: *election, nullifier_hash: *nullifier_hash };
        proof {
            let keys = nullifier_keys(self.records@);
            let n = NullifierKey { election: *election, nullifier_hash: *nullifier_hash };
            lemma_key_set_push(keys, n);
            assert(nullifier_keys(self.records@.push(record)) =~= keys.push(n));
        }
        self.records.push(record);
        Ok(())
    }
}

} // verus!
