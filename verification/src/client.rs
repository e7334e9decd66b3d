//! The off-chain side of a tally: where the cluster's service is reached, and
//! how the stored ballots of an election are collected chunk by chunk.

use vstd::prelude::*;
use vstd::string::StringExecFns;
use crate::address::{
    ballot_chunk_address, ballot_chunk_seeds, derived_view, program_derived_address,
};
use crate::state::{BallotChunk, Bytes32, EncryptedBallot};

verus! {

/// The address of the cluster's tally service and the cluster to ask.
pub struct ArciumTallyClient {
    arcium_endpoint: String,
    cluster_id: String,
}

impl ArciumTallyClient {
    /// The service's base address.
    pub closed spec fn endpoint_view(&self) -> Seq<char> {
        self.arcium_endpoint@
    }

    /// The cluster's identifier.
    pub closed spec fn cluster_view(&self) -> Seq<char> {
        self.cluster_id@
    }

    /// A client of the service at `endpoint` for the cluster `cluster_id`.
    pub fn new(endpoint: String, cluster_id: String) -> (r: Self)
        ensures
            r.endpoint_view() == endpoint@,
            r.cluster_view() == cluster_id@,
    {
        Self { arcium_endpoint: endpoint, cluster_id }
    }

    /// The service's base address.
    pub fn arcium_endpoint(&self) -> (r: &String)
        ensures
            r@ == self.endpoint_view(),
    {
        &self.arcium_endpoint
    }

    /// The cluster's identifier.
    pub fn cluster_id(&self) -> (r: &String)
        ensures
            r@ == self.cluster_view(),
    {
        &self.cluster_id
    }

    /// The address that tally requests are posted to.
    pub fn tally_url(&self) -> (r: String)
        ensures
            r@ == self.endpoint_view() + "/tally"@,
    {
        self.arcium_endpoint.clone().concat("/tally")
    }

    /// The address that validation requests are posted to.
    pub fn validate_url(&self) -> (r: String)
        ensures
            r@ == self.endpoint_view() + "/validate"@,
    {
        self.arcium_endpoint.clone().concat("/validate")
    }
}

/// What a scan does next.
#[derive(Clone, Copy, Debug, PartialEq, Eq, Structural)]
pub enum ScanStep {
    /// Fetch the chunk with this index and hand it to the scan.
    Fetch { chunk_index: u32 },
    /// Every chunk was read.
    Done,
}

/// The encrypted data of a sequence of ballots, in order.
pub open spec fn ballot_data(ballots: Seq<EncryptedBallot>) -> Seq<Seq<u8>> {
    ballots.map_values(|b: EncryptedBallot| b.encrypted_data@)
}

/// What a scan holds, as mathematical values.
pub struct BallotScanView {
    pub chunk_index: u32,
    pub ballots: Seq<Seq<u8>>,
    pub finished: bool,
}

/// The scan after the chunk it asked for was fetched: a chunk's ballots are
/// appended in order, and the scan goes on to the next index where the chunk
/// names a successor; a chunk that could not be fetched ends the scan.
pub open spec fn scan_next(s: BallotScanView, fetched: Option<BallotChunk>) -> BallotScanView {
    if s.finished {
        s
    } else {
        match fetched {
            None => BallotScanView { finished: true, ..s },
            Some(chunk) => BallotScanView {
                chunk_index: if chunk.next_chunk.is_some() && s.chunk_index < u32::MAX {
                    (s.chunk_index + 1) as u32
                } else {
                    s.chunk_index
                },
                ballots: s.ballots + ballot_data(chunk.ballots@),
                finished: !(chunk.next_chunk.is_some() && s.chunk_index < u32::MAX),
            },
        }
    }
}

/// The collection of an election's stored ballots, one chunk at a time.
pub struct BallotScan {
    chunk_index: u32,
    ballots: Vec<Vec<u8>>,
    finished: bool,
}

impl View for BallotScan {
    type V = BallotScanView;

    closed spec fn view(&self) -> BallotScanView {
        BallotScanView {
            chunk_index: self.chunk_index,
            ballots: self.ballots@.map_values(|b: Vec<u8>| b@),
            finished: self.finished,
        }
    }
}

fn copy_bytes(bytes: &Vec<u8>) -> (r: Vec<u8>)
    ensures
        r@ == bytes@,
{
    let mut out: Vec<u8> = Vec::new();
    let mut i: usize = 0;
    while i < bytes.len()
        invariant
            i <= bytes.len(),
            out@ == bytes@.subrange(0, i as int),
        decreases bytes.len() - i,
    {
        out.push(bytes[i]);
        i += 1;
    }
    out
}

impl BallotScan {
    /// A scan that starts at the first chunk with no ballot collected.
    pub fn new() -> (r: Self)
        ensures
            r@ == (BallotScanView { chunk_index: 0, ballots: Seq::empty(), finished: false }),
    {
        let r = BallotScan { chunk_index: 0, ballots: Vec::new(), finished: false };
        assert(r@.ballots =~= Seq::empty());
        r
    }

    /// What to do next: fetch the chunk at the current index, or stop.
    pub fn next_step(&self) -> (r: ScanStep)
        ensures
            r == (if self@.finished {
                ScanStep::Done
            } else {
                ScanStep::Fetch { chunk_index: self@.chunk_index }
            }),
    {
        if self.finished {
            ScanStep::Done
        } else {
            ScanStep::Fetch { chunk_index: self.chunk_index }
        }
    }

    /// The address of the chunk to fetch next, for an election at `election`
    /// under the program `program_id`.
    pub fn chunk_address(&self, program_id: &Bytes32, election: &Bytes32) -> (r: Option<
        (Bytes32, u8),
    >)
        ensures
            derived_view(r) == program_derived_address(
                ballot_chunk_seeds(election@, self@.chunk_index),
                program_id@,
            ),
    {
        ballot_chunk_address(program_id, election, self.chunk_index)
    }

    /// Takes the chunk that was fetched for the current index, or `None`
    /// where no such chunk could be fetched.
    pub fn on_chunk(&mut self, fetched: Option<BallotChunk>)
        ensures
            final(self)@ == scan_next(old(self)@, fetched),
    {
        if self.finished {
            return ;
        }
        match fetched {
            None => {
                self.finished = true;
            },
            Some(chunk) => {
                let ghost before = self.ballots@.map_values(|b: Vec<u8>| b@);
                let mut i: usize = 0;
                while i < chunk.ballots.len()
                    invariant
                        i <= chunk.ballots.len(),
                        self.ballots@.map_values(|b: Vec<u8>| b@) == before + ballot_data(
                            chunk.ballots@,
                        ).subrange(0, i as int),
                        self.chunk_index == old(self).chunk_index,
                        self.finished == old(self).finished,
                    decreases chunk.ballots.len() - i,
                {
                    let data = copy_bytes(&chunk.ballots[i].encrypted_data);
                    let ghost held = self.ballots@;
                    self.ballots.push(data);
                    assert(self.ballots@.map_values(|b: Vec<u8>| b@) =~= held.map_values(
                        |b: Vec<u8>| b@,
                    ).push(data@));
                    i += 1;
                }
                assert(ballot_data(chunk.ballots@).subrange(0, i as int) == ballot_data(
                    chunk.ballots@,
                ));
                if chunk.next_chunk.is_some() && self.chunk_index < u32::MAX {
                    self.chunk_index = self.chunk_index + 1;
                } else {
                    self.finished = true;
                }
            },
        }
    }

    /// The encrypted data of the ballots collected so far, in order.
    pub fn into_ballots(self) -> (r: Vec<Vec<u8>>)
        ensures
            r@.map_values(|b: Vec<u8>| b@) == self@.ballots,
    {
        self.ballots
    }
}

} // verus!
