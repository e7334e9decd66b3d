//! The instructions of the program and their serialised layout: a tag byte,
//! then the arguments, integers little-endian, strings and vectors behind a
//! 32-bit length.

use vstd::prelude::*;
use vstd::utf8::{decode_utf8, valid_utf8};
use crate::error::ProgramError;
use crate::gateway::EncryptedVote;
use crate::state::{bytes32_of, lemma_bytes32_of, Bytes32};

verus! {

/// What an instruction holds, as mathematical values.
pub enum InstructionView {
    InitializeElection {
        election_id: u64,
        title: Seq<char>,
        description: Seq<char>,
        start_time: i64,
        end_time: i64,
        arcium_cluster_id: Seq<char>,
        public_key: Bytes32,
    },
    RegisterVoters { voter_hashes: Seq<Bytes32>, chunk_index: u32 },
    CastVote {
        voter_hash: Bytes32,
        encrypted_vote: Seq<u8>,
        receipt_id: Bytes32,
        nullifier: Bytes32,
        arcium_proof: Seq<u8>,
    },
    StartTallying,
    CompleteElection,
}

/// An instruction of the program.
#[derive(Debug)]
pub enum VoteInstruction {
    InitializeElection {
        election_id: u64,
        title: String,
        description: String,
        start_time: i64,
        end_time: i64,
        arcium_cluster_id: String,
        public_key: Bytes32,
    },
    RegisterVoters { voter_hashes: Vec<Bytes32>, chunk_index: u32 },
    CastVote {
        voter_hash: Bytes32,
        encrypted_vote: Vec<u8>,
        receipt_id: Bytes32,
        nullifier: Bytes32,
        arcium_proof: Vec<u8>,
    },
    StartTallying,
    CompleteElection,
}

impl View for VoteInstruction {
    type V = InstructionView;

    open spec fn view(&self) -> InstructionView {
        match self {
            VoteInstruction::InitializeElection {
                election_id,
                title,
                description,
                start_time,
                end_time,
                arcium_cluster_id,
                public_key,
            } => InstructionView::InitializeElection {
                election_id: *election_id,
                title: title@,
                description: description@,
                start_time: *start_time,
                end_time: *end_time,
                arcium_cluster_id: arcium_cluster_id@,
                public_key: *public_key,
            },
            VoteInstruction::RegisterVoters { voter_hashes, chunk_index } => {
                InstructionView::RegisterVoters {
                    voter_hashes: voter_hashes@,
                    chunk_index: *chunk_index,
                }
            },
            VoteInstruction::CastVote {
                voter_hash,
                encrypted_vote,
                receipt_id,
                nullifier,
                arcium_proof,
            } => InstructionView::CastVote {
                voter_hash: *voter_hash,
                encrypted_vote: encrypted_vote@,
                receipt_id: *receipt_id,
                nullifier: *nullifier,
                arcium_proof: arcium_proof@,
            },
            VoteInstruction::StartTallying => InstructionView::StartTallying,
            VoteInstruction::CompleteElection => InstructionView::CompleteElection,
        }
    }
}

// ---------------------------------------------------------------------------
// The layout
// ---------------------------------------------------------------------------

/// The number that four bytes at `at` encode, least significant byte first.
pub open spec fn le_u32(b: Seq<u8>, at: int) -> int {
    b[at] + b[at + 1] * 0x100 + b[at + 2] * 0x1_0000 + b[at + 3] * 0x100_0000
}

/// The number that eight bytes at `at` encode, least significant byte first.
pub open spec fn le_u64(b: Seq<u8>, at: int) -> int {
    le_u32(b, at) + le_u32(b, at + 4) * 0x1_0000_0000
}

/// The signed number that eight bytes at `at` encode in two's complement.
pub open spec fn le_i64(b: Seq<u8>, at: int) -> int {
    if le_u64(b, at) < 0x8000_0000_0000_0000 {
        le_u64(b, at)
    } else {
        le_u64(b, at) - 0x1_0000_0000_0000_0000
    }
}

/// A 32-bit length at `at`, with the position behind it.
pub open spec fn spec_read_u32(b: Seq<u8>, at: int) -> Option<(u32, int)> {
    if at + 4 <= b.len() {
        Some((le_u32(b, at) as u32, at + 4))
    } else {
        None
    }
}

/// An unsigned 64-bit number at `at`, with the position behind it.
pub open spec fn spec_read_u64(b: Seq<u8>, at: int) -> Option<(u64, int)> {
    if at + 8 <= b.len() {
        Some((le_u64(b, at) as u64, at + 8))
    } else {
        None
    }
}

/// A signed 64-bit number at `at`, with the position behind it.
pub open spec fn spec_read_i64(b: Seq<u8>, at: int) -> Option<(i64, int)> {
    if at + 8 <= b.len() {
        Some((le_i64(b, at) as i64, at + 8))
    } else {
        None
    }
}

/// The `n` bytes at `at`, with the position behind them.
pub open spec fn spec_read_bytes(b: Seq<u8>, at: int, n: int) -> Option<(Seq<u8>, int)> {
    if at + n <= b.len() {
        Some((b.subrange(at, at + n), at + n))
    } else {
        None
    }
}

/// A byte vector at `at`: a 32-bit length, then that many bytes.
pub open spec fn spec_read_byte_vec(b: Seq<u8>, at: int) -> Option<(Seq<u8>, int)> {
    match spec_read_u32(b, at) {
        Some((len, p)) => spec_read_bytes(b, p, len as int),
        None => None,
    }
}

/// A string at `at`: a byte vector that is valid UTF-8.
pub open spec fn spec_read_string(b: Seq<u8>, at: int) -> Option<(Seq<char>, int)> {
    match spec_read_byte_vec(b, at) {
        Some((bytes, p)) => if valid_utf8(bytes) {
            Some((decode_utf8(bytes), p))
        } else {
            None
        },
        None => None,
    }
}

/// A 32-byte value at `at`, with the position behind it.
pub open spec fn spec_read_bytes32(b: Seq<u8>, at: int) -> Option<(Bytes32, int)> {
    if at + 32 <= b.len() {
        Some((bytes32_of(b.subrange(at, at + 32)), at + 32))
    } else {
        None
    }
}

/// A vector of 32-byte values at `at`: a 32-bit length, then the values.
pub open spec fn spec_read_hash_vec(b: Seq<u8>, at: int) -> Option<(Seq<Bytes32>, int)> {
    match spec_read_u32(b, at) {
        Some((len, p)) => if p + 32 * len <= b.len() {
            Some(
                (
                    Seq::new(
                        len as nat,
                        |i: int| bytes32_of(b.subrange(p + 32 * i, p + 32 * i + 32)),
                    ),
                    p + 32 * len,
                ),
            )
        } else {
            None
        },
        None => None,
    }
}

/// The arguments of `InitializeElection`, read from position 1 to the end.
pub open spec fn spec_initialize_election(b: Seq<u8>) -> Option<InstructionView> {
    match spec_read_u64(b, 1) {
        Some((election_id, pos1)) => match spec_read_string(b, pos1) {
            Some((title, pos2)) => match spec_read_string(b, pos2) {
                Some((description, pos3)) => match spec_read_i64(b, pos3) {
                    Some((start_time, pos4)) => match spec_read_i64(b, pos4) {
                        Some((end_time, pos5)) => match spec_read_string(b, pos5) {
                            Some((arcium_cluster_id, pos6)) => match spec_read_bytes32(b, pos6) {
                                Some((public_key, pos7)) => if pos7 == b.len() {
                                    Some(
                                        InstructionView::InitializeElection {
                                            election_id,
                                            title,
                                            description,
                                            start_time,
                                            end_time,
                                            arcium_cluster_id,
                                            public_key,
                                        },
                                    )
                                } else {
                                    None
                                },
                                None => None,
                            },
                            None => None,
                        },
                        None => None,
                    },
                    None => None,
                },
                None => None,
            },
            None => None,
        },
        None => None,
    }
}

/// The arguments of `RegisterVoters`, read from position 1 to the end.
pub open spec fn spec_register_voters(b: Seq<u8>) -> Option<InstructionView> {
    match spec_read_hash_vec(b, 1) {
        Some((voter_hashes, pos1)) => match spec_read_u32(b, pos1) {
            Some((chunk_index, pos2)) => if pos2 == b.len() {
                Some(InstructionView::RegisterVoters { voter_hashes, chunk_index })
            } else {
                None
            },
            None => None,
        },
        None => None,
    }
}

/// The arguments of `CastVote`, read from position 1 to the end.
pub open spec fn spec_cast_vote(b: Seq<u8>) -> Option<InstructionView> {
    match spec_read_bytes32(b, 1) {
        Some((voter_hash, pos1)) => match spec_read_byte_vec(b, pos1) {
            Some((encrypted_vote, pos2)) => match spec_read_bytes32(b, pos2) {
                Some((receipt_id, pos3)) => match spec_read_bytes32(b, pos3) {
                    Some((nullifier, pos4)) => match spec_read_byte_vec(b, pos4) {
                        Some((arcium_proof, pos5)) => if pos5 == b.len() {
                            Some(
                                InstructionView::CastVote {
                                    voter_hash,
                                    encrypted_vote,
                                    receipt_id,
                                    nullifier,
                                    arcium_proof,
                                },
                            )
                        } else {
                            None
                        },
                        None => None,
                    },
                    None => None,
                },
                None => None,
            },
            None => None,
        },
        None => None,
    }
}

/// The arguments that follow the tag byte, or the error of arguments that
/// are not in their layout or do not end where the input ends.
pub open spec fn spec_arguments(parsed: Option<InstructionView>) -> Result<
    InstructionView,
    ProgramError,
> {
    match parsed {
        Some(ix) => Ok(ix),
        None => Err(ProgramError::BorshIoError),
    }
}

/// The instruction that `input` encodes. The first byte is the tag; the
/// instructions without arguments accept whatever follows it.
pub open spec fn spec_unpack(input: Seq<u8>) -> Result<InstructionView, ProgramError> {
    if input.len() == 0 {
        Err(ProgramError::InvalidInstructionData)
    } else if input[0] == 0 {
        spec_arguments(spec_initialize_election(input))
    } else if input[0] == 1 {
        spec_arguments(spec_register_voters(input))
    } else if input[0] == 2 {
        spec_arguments(spec_cast_vote(input))
    } else if input[0] == 3 {
        Ok(InstructionView::StartTallying)
    } else if input[0] == 4 {
        Ok(InstructionView::CompleteElection)
    } else {
        Err(ProgramError::InvalidInstructionData)
    }
}

// ---------------------------------------------------------------------------
// Reading
// ---------------------------------------------------------------------------

/// Calls `String::from_utf8`.
///
/// Trusted: the bytes become a string exactly when they are valid UTF-8, and
/// the string then holds the characters that they encode.
#[verifier::external_body]
fn string_from_utf8(bytes: Vec<u8>) -> (r: Option<String>)
    ensures
        r.is_some() == valid_utf8(bytes@),
        r matches Some(s) ==> s@ == decode_utf8(bytes@),
{
    match String::from_utf8(bytes) {
        Ok(s) => Some(s),
        Err(_) => None,
    }
}

fn read_u32(input: &[u8], at: usize) -> (r: Option<(u32, usize)>)
    requires
        at <= input@.len(),
    ensures
        match r {
            Some((v, p)) => spec_read_u32(input@, at as int) == Some((v, p as int)) && p
                <= input@.len(),
            None => spec_read_u32(input@, at as int) is None,
        },
{
    if input.len() - at < 4 {
        return None;
    }
    let v: u32 = input[at] as u32 + (input[at + 1] as u32) * 0x100 + (input[at + 2] as u32)
        * 0x1_0000 + (input[at + 3] as u32) * 0x100_0000;
    Some((v, at + 4))
}

fn read_u64(input: &[u8], at: usize) -> (r: Option<(u64, usize)>)
    requires
        at <= input@.len(),
    ensures
        match r {
            Some((v, p)) => spec_read_u64(input@, at as int) == Some((v, p as int)) && p
                <= input@.len(),
            None => spec_read_u64(input@, at as int) is None,
        },
{
    if input.len() - at < 8 {
        return None;
    }
    let low = match read_u32(input, at) {
        Some((v, _)) => v,
        None => {
            return None;
        },
    };
    let high = match read_u32(input, at + 4) {
        Some((v, _)) => v,
        None => {
            return None;
        },
    };
    let v: u64 = low as u64 + (high as u64) * 0x1_0000_0000;
    Some((v, at + 8))
}

fn read_i64(input: &[u8], at: usize) -> (r: Option<(i64, usize)>)
    requires
        at <= input@.len(),
    ensures
        match r {
            Some((v, p)) => spec_read_i64(input@, at as int) == Some((v, p as int)) && p
                <= input@.len(),
            None => spec_read_i64(input@, at as int) is None,
        },
{
    match read_u64(input, at) {
        Some((u, p)) => {
            let v: i64 = if u < 0x8000_0000_0000_0000 {
                u as i64
            } else {
                ((u - 0x8000_0000_0000_0000) as i64) + i64::MIN
            };
            Some((v, p))
        },
        None => None,
    }
}

fn read_bytes32(input: &[u8], at: usize) -> (r: Option<(Bytes32, usize)>)
    requires
        at <= input@.len(),
    ensures
        match r {
            Some((v, p)) => spec_read_bytes32(input@, at as int) == Some((v, p as int)) && p
                <= input@.len(),
            None => spec_read_bytes32(input@, at as int) is None,
        },
{
    if input.len() - at < 32 {
        return None;
    }
    let mut out: Bytes32 = [0u8;32];
    let mut i: usize = 0;
    while i < 32
        invariant
            i <= 32,
            at + 32 <= input.len(),
            input.len() == input@.len(),
            forall|j: int| 0 <= j < i ==> out@[j] == input@[at + j],
        decreases 32 - i,
    {
        out[i] = input[at + i];
        i += 1;
    }
    proof {
        assert(out@ =~= input@.subrange(at as int, at + 32));
        lemma_bytes32_of(out);
    }
    Some((out, at + 32))
}

fn read_byte_vec(input: &[u8], at: usize) -> (r: Option<(Vec<u8>, usize)>)
    requires
        at <= input@.len(),
    ensures
        match r {
            Some((v, p)) => spec_read_byte_vec(input@, at as int) == Some((v@, p as int)) && p
                <= input@.len(),
            None => spec_read_byte_vec(input@, at as int) is None,
        },
{
    let (len, start) = match read_u32(input, at) {
        Some(found) => found,
        None => {
            return None;
        },
    };
    let len = len as usize;
    if input.len() - start < len {
        return None;
    }
    let mut out: Vec<u8> = Vec::new();
    let mut i: usize = 0;
    while i < len
        invariant
            i <= len,
            start + len <= input.len(),
            input.len() == input@.len(),
            out@ == input@.subrange(start as int, start + i),
        decreases len - i,
    {
        out.push(input[start + i]);
        i += 1;
    }
    Some((out, start + len))
}

fn read_string(input: &[u8], at: usize) -> (r: Option<(String, usize)>)
    requires
        at <= input@.len(),
    ensures
        match r {
            Some((v, p)) => spec_read_string(input@, at as int) == Some((v@, p as int)) && p
                <= input@.len(),
            None => spec_read_string(input@, at as int) is None,
        },
{
    match read_byte_vec(input, at) {
        Some((bytes, p)) => match string_from_utf8(bytes) {
            Some(s) => Some((s, p)),
            None => None,
        },
        None => None,
    }
}

fn read_hash_vec(input: &[u8], at: usize) -> (r: Option<(Vec<Bytes32>, usize)>)
    requires
        at <= input@.len(),
    ensures
        match r {
            Some((v, p)) => spec_read_hash_vec(input@, at as int) == Some((v@, p as int)) && p
                <= input@.len(),
            None => spec_read_hash_vec(input@, at as int) is None,
        },
{
    let (len, start) = match read_u32(input, at) {
        Some(found) => found,
        None => {
            return None;
        },
    };
    let len = len as usize;
    if (input.len() - start) / 32 < len {
        return None;
    }
    let mut out: Vec<Bytes32> = Vec::new();
    let mut i: usize = 0;
    let mut p: usize = start;
    while i < len
        invariant
            i <= len,
            p == start + 32 * i,
            start + 32 * len <= input@.len(),
            out@.len() == i,
            forall|j: int|
                0 <= j < i ==> #[trigger] out@[j] == bytes32_of(
                    input@.subrange(start + 32 * j, start + 32 * j + 32),
                ),
        decreases len - i,
    {
        match read_bytes32(input, p) {
            Some((h, next)) => {
                out.push(h);
                p = next;
            },
            None => {
                return None;
            },
        }
        i += 1;
    }
    Some((out, p))
}

fn unpack_initialize_election(input: &[u8]) -> (r: Option<VoteInstruction>)
    requires
        input@.len() >= 1,
    ensures
        match r {
            Some(ix) => spec_initialize_election(input@) == Some(ix@),
            None => spec_initialize_election(input@) is None,
        },
{
    let (election_id, p) = read_u64(input, 1)?;
    let (title, p) = read_string(input, p)?;
    let (description, p) = read_string(input, p)?;
    let (start_time, p) = read_i64(input, p)?;
    let (end_time, p) = read_i64(input, p)?;
    let (arcium_cluster_id, p) = read_string(input, p)?;
    let (public_key, p) = read_bytes32(input, p)?;
    if p != input.len() {
        return None;
    }
    Some(
        VoteInstruction::InitializeElection {
            election_id,
            title,
            description,
            start_time,
            end_time,
            arcium_cluster_id,
            public_key,
        },
    )
}

fn unpack_register_voters(input: &[u8]) -> (r: Option<VoteInstruction>)
    requires
        input@.len() >= 1,
    ensures
        match r {
            Some(ix) => spec_register_voters(input@) == Some(ix@),
            None => spec_register_voters(input@) is None,
        },
{
    let (voter_hashes, p) = read_hash_vec(input, 1)?;
    let (chunk_index, p) = read_u32(input, p)?;
    if p != input.len() {
        return None;
    }
    Some(VoteInstruction::RegisterVoters { voter_hashes, chunk_index })
}

fn unpack_cast_vote(input: &[u8]) -> (r: Option<VoteInstruction>)
    requires
        input@.len() >= 1,
    ensures
        match r {
            Some(ix) => spec_cast_vote(input@) == Some(ix@),
            None => spec_cast_vote(input@) is None,
        },
{
    let (voter_hash, p) = read_bytes32(input, 1)?;
    let (encrypted_vote, p) = read_byte_vec(input, p)?;
    let (receipt_id, p) = read_bytes32(input, p)?;
    let (nullifier, p) = read_bytes32(input, p)?;
    let (arcium_proof, p) = read_byte_vec(input, p)?;
    if p != input.len() {
        return None;
    }
    Some(
        VoteInstruction::CastVote { voter_hash, encrypted_vote, receipt_id, nullifier, arcium_proof },
    )
}

fn arguments(parsed: Option<VoteInstruction>) -> (r: Result<VoteInstruction, ProgramError>)
    ensures
        match r {
            Ok(ix) => parsed == Some(ix),
            Err(e) => parsed is None && e == ProgramError::BorshIoError,
        },
{
    match parsed {
        Some(ix) => Ok(ix),
        None => Err(ProgramError::BorshIoError),
    }
}

/// The ballot that 80 bytes encode: the ciphertext block, the encryption key
/// and the 128-bit nonce, least significant byte first.
pub open spec fn spec_encrypted_vote(b: Seq<u8>) -> Option<EncryptedVote> {
    if b.len() == 80 {
        Some(
            EncryptedVote {
                vote_ciphertext: bytes32_of(b.subrange(0, 32)),
                vote_encryption_pubkey: bytes32_of(b.subrange(32, 64)),
                vote_nonce: (le_u64(b, 64) + le_u64(b, 72) * 0x1_0000_0000_0000_0000) as u128,
            },
        )
    } else {
        None
    }
}

/// Decodes the encrypted ballot that a `CastVote` instruction carries.
pub fn unpack_encrypted_vote(bytes: &[u8]) -> (r: Option<EncryptedVote>)
    ensures
        r == spec_encrypted_vote(bytes@),
{
    if bytes.len() != 80 {
        return None;
    }
    let (vote_ciphertext, _) = read_bytes32(bytes, 0)?;
    let (vote_encryption_pubkey, _) = read_bytes32(bytes, 32)?;
    let (low, _) = read_u64(bytes, 64)?;
    let (high, _) = read_u64(bytes, 72)?;
    let vote_nonce: u128 = low as u128 + (high as u128) * 0x1_0000_0000_0000_0000;
    Some(EncryptedVote { vote_ciphertext, vote_encryption_pubkey, vote_nonce })
}

impl VoteInstruction {
    /// Decodes an instruction from its serialised form.
    ///
    /// Fails with `InvalidInstructionData` on an empty input or an unknown
    /// tag, and with `BorshIoError` where the arguments of a known tag are
    /// not in their layout or are followed by further bytes.
    pub fn unpack(input: &[u8]) -> (r: Result<VoteInstruction, ProgramError>)
        ensures
            match r {
                Ok(ix) => spec_unpack(input@) == Ok::<InstructionView, ProgramError>(ix@),
                Err(e) => spec_unpack(input@) == Err::<InstructionView, ProgramError>(e),
            },
    {
        if input.len() == 0 {
            return Err(ProgramError::InvalidInstructionData);
        }
        let tag = input[0];
        if tag == 0 {
            arguments(unpack_initialize_election(input))
        } else if tag == 1 {
            arguments(unpack_register_voters(input))
        } else if tag == 2 {
            arguments(unpack_cast_vote(input))
        } else if tag == 3 {
            Ok(VoteInstruction::StartTallying)
        } else if tag == 4 {
            Ok(VoteInstruction::CompleteElection)
        } else {
            Err(ProgramError::InvalidInstructionData)
        }
    }
}

} // verus!
