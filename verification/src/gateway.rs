//! Requests to the computation cluster and the outcomes that it delivers.

use vstd::prelude::*;
use crate::state::{Bytes32, ElectionKey, ProtocolConfig};

verus! {

/// The computations that the cluster runs for an election.
#[derive(Clone, Copy, Debug, PartialEq, Eq, Structural)]
pub enum Operation {
    /// Produce the encrypted all-zero tally.
    InitVoteStats,
    /// Add one encrypted ballot to the encrypted tally.
    Vote,
    /// Decrypt the tally.
    RevealResult,
}

/// One argument of a computation, tagged with its kind.
#[derive(Clone, Copy, Debug)]
pub enum Argument {
    /// The public key under which a ballot was encrypted.
    ArcisPubkey(Bytes32),
    /// A plaintext scalar.
    PlaintextU128(u128),
    /// One ciphertext block.
    EncryptedU64(Bytes32),
}

/// The encrypted ballot of one voter.
#[derive(Clone, Copy, Debug)]
pub struct EncryptedVote {
    pub vote_ciphertext: Bytes32,
    pub vote_encryption_pubkey: Bytes32,
    pub vote_nonce: u128,
}

/// What a request holds, as mathematical values.
pub struct ComputationRequestView {
    pub handle: nat,
    pub operation: Operation,
    pub args: Seq<Argument>,
}

/// A computation to be queued with the cluster.
#[derive(Debug)]
pub struct ComputationRequest {
    /// The handle under which the outcome will come back.
    pub handle: u64,
    pub operation: Operation,
    pub args: Vec<Argument>,
}

impl View for ComputationRequest {
    type V = ComputationRequestView;

    open spec fn view(&self) -> ComputationRequestView {
        ComputationRequestView {
            handle: self.handle as nat,
            operation: self.operation,
            args: self.args@,
        }
    }
}

/// What an outcome holds, as mathematical values.
pub enum OutcomeView {
    Aborted,
    Ciphertexts { ciphertexts: Seq<Bytes32>, nonce: u128 },
    Plaintexts { values: Seq<u64> },
}

/// The cluster's reply to one request.
#[derive(Debug)]
pub enum ComputationOutcome {
    /// The computation was aborted.
    Aborted,
    /// A new encrypted tally with the version of its encryption context.
    Ciphertexts { ciphertexts: Vec<Bytes32>, nonce: u128 },
    /// Decrypted counters.
    Plaintexts { values: Vec<u64> },
}

impl View for ComputationOutcome {
    type V = OutcomeView;

    open spec fn view(&self) -> OutcomeView {
        match self {
            ComputationOutcome::Aborted => OutcomeView::Aborted,
            ComputationOutcome::Ciphertexts { ciphertexts, nonce } => OutcomeView::Ciphertexts {
                ciphertexts: ciphertexts@,
                nonce: *nonce,
            },
            ComputationOutcome::Plaintexts { values } => OutcomeView::Plaintexts { values: values@ },
        }
    }
}

impl ComputationOutcome {
    /// Whether the cluster aborted the computation.
    pub fn is_aborted(&self) -> (r: bool)
        ensures
            r == (self@ is Aborted),
    {
        match self {
            ComputationOutcome::Aborted => true,
            _ => false,
        }
    }
}

/// What is remembered of a request until its outcome arrives.
#[derive(Clone, Copy, Debug)]
pub struct PendingComputation {
    pub operation: Operation,
    /// The election that the outcome will be applied to.
    pub election: ElectionKey,
    /// The tally version that was handed to the cluster.
    pub consumed_nonce: u128,
}

/// What became of a delivered outcome that was not rejected.
#[derive(Clone, Copy, Debug, PartialEq, Eq, Structural)]
pub enum Delivery {
    /// The outcome was applied to its election.
    Applied,
    /// No request is pending under the handle: nothing was changed.
    Ignored,
}

/// The arguments of the computation that initialises a tally.
pub open spec fn init_arguments(nonce: u128) -> Seq<Argument> {
    seq![Argument::PlaintextU128(nonce)]
}

/// The tally's ciphertext blocks as arguments, in order.
pub open spec fn tally_arguments(tally: Seq<Bytes32>) -> Seq<Argument> {
    Seq::new(tally.len(), |i: int| Argument::EncryptedU64(tally[i]))
}

/// The arguments of the computation that adds a ballot: the ballot's
/// components, then the current tally, then the tally's version.
pub open spec fn vote_arguments(vote: EncryptedVote, tally: Seq<Bytes32>, nonce: u128) -> Seq<Argument> {
    seq![
        Argument::ArcisPubkey(vote.vote_encryption_pubkey),
        Argument::PlaintextU128(vote.vote_nonce),
        Argument::EncryptedU64(vote.vote_ciphertext),
    ] + tally_arguments(tally) + seq![Argument::PlaintextU128(nonce)]
}

/// The arguments of the computation that decrypts a tally: the current tally,
/// then its version.
pub open spec fn reveal_arguments(tally: Seq<Bytes32>, nonce: u128) -> Seq<Argument> {
    tally_arguments(tally) + seq![Argument::PlaintextU128(nonce)]
}

/// Whether a payload has the shape that `operation` declares for its output:
/// one ciphertext block per candidate for the tally operations, one counter
/// per candidate for the reveal.
pub open spec fn well_shaped(operation: Operation, outcome: OutcomeView, config: ProtocolConfig) -> bool {
    match operation {
        Operation::InitVoteStats | Operation::Vote => {
            outcome matches OutcomeView::Ciphertexts { ciphertexts, .. }
                && ciphertexts.len() == config.candidate_count
        },
        Operation::RevealResult => {
            outcome matches OutcomeView::Plaintexts { values }
                && values.len() == config.candidate_count
        },
    }
}

/// Builds the arguments of the computation that initialises a tally.
pub fn build_init_arguments(nonce: u128) -> (args: Vec<Argument>)
    ensures
        args@ == init_arguments(nonce),
{
    let mut args: Vec<Argument> = Vec::new();
    args.push(Argument::PlaintextU128(nonce));
    args
}

/// Appends the tally's ciphertext blocks to `args`.
fn push_tally(args: &mut Vec<Argument>, tally: &Vec<Bytes32>)
    ensures
        final(args)@ == old(args)@ + tally_arguments(tally@),
{
    let ghost before = args@;
    let mut i: usize = 0;
    while i < tally.len()
        invariant
            i <= tally.len(),
            args@ == before + tally_arguments(tally@).subrange(0, i as int),
        decreases tally.len() - i,
    {
        args.push(Argument::EncryptedU64(tally[i]));
        i += 1;
    }
}

/// Builds the arguments of the computation that adds `vote` to `tally`.
pub fn build_vote_arguments(vote: &EncryptedVote, tally: &Vec<Bytes32>, nonce: u128) -> (args: Vec<Argument>)
    ensures
        args@ == vote_arguments(*vote, tally@, nonce),
{
    let mut args: Vec<Argument> = Vec::new();
    args.push(Argument::ArcisPubkey(vote.vote_encryption_pubkey));
    args.push(Argument::PlaintextU128(vote.vote_nonce));
    args.push(Argument::EncryptedU64(vote.vote_ciphertext));
    push_tally(&mut args, tally);
    args.push(Argument::PlaintextU128(nonce));
    args
}

/// Builds the arguments of the computation that decrypts `tally`.
pub fn build_reveal_arguments(tally: &Vec<Bytes32>, nonce: u128) -> (args: Vec<Argument>)
    ensures
        args@ == reveal_arguments(tally@, nonce),
{
    let mut args: Vec<Argument> = Vec::new();
    push_tally(&mut args, tally);
    args.push(Argument::PlaintextU128(nonce));
    args
}

/// Checks a payload against the output shape of `operation`.
pub fn check_shape(operation: Operation, outcome: &ComputationOutcome, config: &ProtocolConfig) -> (ok: bool)
    ensures
        ok == well_shaped(operation, outcome@, *config),
{
    match operation {
        Operation::InitVoteStats | Operation::Vote => match outcome {
            ComputationOutcome::Ciphertexts { ciphertexts, .. } => ciphertexts.len()
                == config.candidate_count,
            _ => false,
        },
        Operation::RevealResult => match outcome {
            ComputationOutcome::Plaintexts { values } => values.len() == config.candidate_count,
            _ => false,
        },
    }
}

/// What the gateway holds, as mathematical values.
pub struct GatewayView {
    /// The requests whose outcome has not arrived, by handle.
    pub pending: Map<nat, PendingComputation>,
    /// The handle of the next request.
    pub next_handle: nat,
}

impl GatewayView {
    /// The gateway after `computation` was submitted under the next handle.
    pub open spec fn submitted(self, computation: PendingComputation) -> GatewayView {
        GatewayView {
            pending: self.pending.insert(self.next_handle, computation),
            next_handle: self.next_handle + 1,
        }
    }

    /// The gateway after the request under `handle` was settled.
    pub open spec fn settled(self, handle: nat) -> GatewayView {
        GatewayView { pending: self.pending.remove(handle), next_handle: self.next_handle }
    }

    /// Every pending handle was issued.
    pub open spec fn wf(self) -> bool {
        forall|h: nat| #[trigger] self.pending.contains_key(h) ==> h < self.next_handle
    }
}

/// The table that correlates outcomes with the requests they answer: handles
/// are issued in order, and each is pending from its submission until the
/// first outcome delivered under it.
pub struct Gateway {
    /// One slot per handle ever issued; a settled request leaves `None`.
    slots: Vec<Option<PendingComputation>>,
}

impl View for Gateway {
    type V = GatewayView;

    closed spec fn view(&self) -> GatewayView {
        GatewayView {
            pending: Map::new(
                |h: nat| h < self.slots@.len() && self.slots@[h as int] is Some,
                |h: nat| self.slots@[h as int]->0,
            ),
            next_handle: self.slots@.len(),
        }
    }
}

impl Gateway {
    /// A gateway that has issued no handle.
    pub fn new() -> (r: Gateway)
        ensures
            r@.pending == Map::<nat, PendingComputation>::empty(),
            r@.next_handle == 0,
            r@.wf(),
    {
        Gateway { slots: Vec::new() }
    }

    /// A gateway's pending handles were all issued.
    pub proof fn lemma_wf(&self)
        ensures
            self@.wf(),
    {
    }

    /// The handle that the next request will get.
    pub fn next_handle(&self) -> (r: u64)
        ensures
            r == self@.next_handle,
    {
        self.slots.len() as u64
    }

    /// Records a request under the next handle and returns it, ready to be
    /// queued with the cluster. The call returns at once; the outcome comes
    /// later, under the request's handle.
    pub fn submit(&mut self, computation: PendingComputation, args: Vec<Argument>) -> (request:
        ComputationRequest)
        ensures
            final(self)@ == old(self)@.submitted(computation),
            request@ == (ComputationRequestView {
                handle: old(self)@.next_handle,
                operation: computation.operation,
                args: args@,
            }),
    {
        let handle: u64 = self.slots.len() as u64;
        self.slots.push(Some(computation));
        assert(self@.pending =~= old(self)@.pending.insert(old(self)@.next_handle, computation));
        ComputationRequest { handle, operation: computation.operation, args }
    }

    /// The request that is pending under `handle`, if there is one.
    pub fn pending(&self, handle: u64) -> (r: Option<PendingComputation>)
        ensures
            r.is_some() == self@.pending.contains_key(handle as nat),
            r matches Some(p) ==> p == self@.pending[handle as nat],
    {
        if handle >= self.slots.len() as u64 {
            return None;
        }
        self.slots[handle as usize]
    }

    /// Forgets the request under `handle`: an outcome delivered under it
    /// from now on finds nothing pending.
    pub fn settle(&mut self, handle: u64)
        ensures
            final(self)@ == old(self)@.settled(handle as nat),
    {
        if handle < self.slots.len() as u64 {
            self.slots[handle as usize] = None;
        }
        assert(self@.pending =~= old(self)@.pending.remove(handle as nat));
    }
}

} // verus!
