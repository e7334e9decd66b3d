//! The serialised form of an instruction, and the laws that decoding and
//! encoding undo each other.

use vstd::prelude::*;
use vstd::utf8::{
    decode_utf8_encode_utf8, encode_utf8, encode_utf8_decode_utf8, encode_utf8_valid_utf8,
};
use crate::address::{le_byte, le_bytes};
use crate::error::ProgramError;
use crate::instruction::{
    le_i64, le_u32, le_u64, spec_cast_vote, spec_initialize_election, spec_read_byte_vec,
    spec_read_bytes32, spec_read_hash_vec, spec_read_i64, spec_read_string,
    spec_read_u32, spec_read_u64, spec_register_voters, spec_unpack, InstructionView,
};
use crate::state::{bytes32_of, lemma_bytes32_of, lemma_bytes32_view, Bytes32};

verus! {

/// A signed 64-bit number as the unsigned number with the same bits.
pub open spec fn unsigned(x: i64) -> int {
    if x >= 0 {
        x as int
    } else {
        x + 0x1_0000_0000_0000_0000
    }
}

/// A byte vector: its length in four bytes, then the bytes.
pub open spec fn pack_bytes(v: Seq<u8>) -> Seq<u8> {
    le_bytes(v.len() as int, 4) + v
}

/// A string: the byte vector of its UTF-8 encoding.
pub open spec fn pack_string(s: Seq<char>) -> Seq<u8> {
    pack_bytes(encode_utf8(s))
}

/// The bytes of a sequence of 32-byte values, one value after the other.
pub open spec fn flatten(hashes: Seq<Bytes32>) -> Seq<u8> {
    Seq::new(32 * hashes.len(), |i: int| hashes[i / 32]@[i % 32])
}

/// A vector of 32-byte values: its length in four bytes, then the values.
pub open spec fn pack_hashes(hashes: Seq<Bytes32>) -> Seq<u8> {
    le_bytes(hashes.len() as int, 4) + flatten(hashes)
}

/// The serialised form of an instruction: the tag byte, then the arguments
/// in the order of their declaration.
pub open spec fn spec_pack(ix: InstructionView) -> Seq<u8> {
    match ix {
        InstructionView::InitializeElection {
            election_id,
            title,
            description,
            start_time,
            end_time,
            arcium_cluster_id,
            public_key,
        } => seq![0u8] + (le_bytes(election_id as int, 8) + (pack_string(title) + (pack_string(
            description,
        ) + (le_bytes(unsigned(start_time), 8) + (le_bytes(unsigned(end_time), 8) + (pack_string(
            arcium_cluster_id,
        ) + public_key@)))))),
        InstructionView::RegisterVoters { voter_hashes, chunk_index } => seq![1u8] + (pack_hashes(
            voter_hashes,
        ) + le_bytes(chunk_index as int, 4)),
        InstructionView::CastVote {
            voter_hash,
            encrypted_vote,
            receipt_id,
            nullifier,
            arcium_proof,
        } => seq![2u8] + (voter_hash@ + (pack_bytes(encrypted_vote) + (receipt_id@ + (nullifier@
            + pack_bytes(arcium_proof))))),
        InstructionView::StartTallying => seq![3u8],
        InstructionView::CompleteElection => seq![4u8],
    }
}

/// Whether every length of an instruction fits the four bytes it is written
/// in.
pub open spec fn packable(ix: InstructionView) -> bool {
    match ix {
        InstructionView::InitializeElection { title, description, arcium_cluster_id, .. } => {
            &&& encode_utf8(title).len() <= u32::MAX
            &&& encode_utf8(description).len() <= u32::MAX
            &&& encode_utf8(arcium_cluster_id).len() <= u32::MAX
        },
        InstructionView::RegisterVoters { voter_hashes, .. } => voter_hashes.len() <= u32::MAX,
        InstructionView::CastVote { encrypted_vote, arcium_proof, .. } => {
            &&& encrypted_vote.len() <= u32::MAX
            &&& arcium_proof.len() <= u32::MAX
        },
        InstructionView::StartTallying => true,
        InstructionView::CompleteElection => true,
    }
}

/// Whether `piece` stands in `b` from position `at` on.
pub open spec fn holds_at(b: Seq<u8>, at: int, piece: Seq<u8>) -> bool {
    &&& 0 <= at
    &&& at + piece.len() <= b.len()
    &&& b.subrange(at, at + piece.len()) == piece
}

proof fn lemma_split(b: Seq<u8>, at: int, first: Seq<u8>, rest: Seq<u8>)
    requires
        holds_at(b, at, first + rest),
    ensures
        holds_at(b, at, first),
        holds_at(b, at + first.len(), rest),
{
    let whole = first + rest;
    assert(b.subrange(at, at + first.len()) =~= whole.subrange(0, first.len() as int));
    assert(whole.subrange(0, first.len() as int) =~= first);
    assert(b.subrange(at + first.len(), at + first.len() + rest.len()) =~= whole.subrange(
        first.len() as int,
        whole.len() as int,
    ));
    assert(whole.subrange(first.len() as int, whole.len() as int) =~= rest);
}

proof fn lemma_le_bytes_4(x: int)
    requires
        0 <= x <= u32::MAX,
    ensures
        le_bytes(x, 4).len() == 4,
        le_u32(le_bytes(x, 4), 0) == x,
{
    reveal_with_fuel(le_byte, 5);
}

proof fn lemma_le_bytes_8(x: int)
    requires
        0 <= x <= u64::MAX,
    ensures
        le_bytes(x, 8).len() == 8,
        le_u64(le_bytes(x, 8), 0) == x,
{
    reveal_with_fuel(le_byte, 9);
}

proof fn lemma_read_u32(b: Seq<u8>, at: int, x: int)
    requires
        0 <= x <= u32::MAX,
        holds_at(b, at, le_bytes(x, 4)),
    ensures
        spec_read_u32(b, at) == Some((x as u32, at + 4)),
{
    lemma_le_bytes_4(x);
    let piece = le_bytes(x, 4);
    assert forall|i: int| 0 <= i < 4 implies b[at + i] == piece[i] by {
        assert(b.subrange(at, at + 4)[i] == b[at + i]);
    }
}

proof fn lemma_read_u64(b: Seq<u8>, at: int, x: int)
    requires
        0 <= x <= u64::MAX,
        holds_at(b, at, le_bytes(x, 8)),
    ensures
        spec_read_u64(b, at) == Some((x as u64, at + 8)),
        le_u64(b, at) == x,
{
    lemma_le_bytes_8(x);
    let piece = le_bytes(x, 8);
    assert forall|i: int| 0 <= i < 8 implies b[at + i] == piece[i] by {
        assert(b.subrange(at, at + 8)[i] == b[at + i]);
    }
    assert(le_u64(b, at) == le_u64(piece, 0));
}

proof fn lemma_read_i64(b: Seq<u8>, at: int, x: i64)
    requires
        holds_at(b, at, le_bytes(unsigned(x), 8)),
    ensures
        spec_read_i64(b, at) == Some((x, at + 8)),
{
    lemma_read_u64(b, at, unsigned(x));
    assert(le_i64(b, at) == x);
}

proof fn lemma_read_bytes32(b: Seq<u8>, at: int, a: Bytes32)
    requires
        holds_at(b, at, a@),
    ensures
        spec_read_bytes32(b, at) == Some((a, at + 32)),
{
    lemma_bytes32_of(a);
}

proof fn lemma_read_byte_vec(b: Seq<u8>, at: int, v: Seq<u8>)
    requires
        v.len() <= u32::MAX,
        holds_at(b, at, pack_bytes(v)),
    ensures
        spec_read_byte_vec(b, at) == Some((v, at + 4 + v.len())),
{
    lemma_le_bytes_4(v.len() as int);
    lemma_split(b, at, le_bytes(v.len() as int, 4), v);
    lemma_read_u32(b, at, v.len() as int);
}

proof fn lemma_read_string(b: Seq<u8>, at: int, s: Seq<char>)
    requires
        encode_utf8(s).len() <= u32::MAX,
        holds_at(b, at, pack_string(s)),
    ensures
        spec_read_string(b, at) == Some((s, at + 4 + encode_utf8(s).len())),
{
    lemma_read_byte_vec(b, at, encode_utf8(s));
    encode_utf8_valid_utf8(s);
    encode_utf8_decode_utf8(s);
}

proof fn lemma_read_hash_vec(b: Seq<u8>, at: int, hashes: Seq<Bytes32>)
    requires
        hashes.len() <= u32::MAX,
        holds_at(b, at, pack_hashes(hashes)),
    ensures
        spec_read_hash_vec(b, at) == Some((hashes, at + 4 + 32 * hashes.len())),
{
    let n: int = hashes.len() as int;
    lemma_le_bytes_4(n);
    lemma_split(b, at, le_bytes(n, 4), flatten(hashes));
    lemma_read_u32(b, at, n);
    let start: int = at + 4;
    let read = Seq::new(
        n as nat,
        |i: int| bytes32_of(b.subrange(start + 32 * i, start + 32 * i + 32)),
    );
    assert forall|i: int| 0 <= i < n implies read[i] == hashes[i] by {
        let piece = b.subrange(start + 32 * i, start + 32 * i + 32);
        assert forall|j: int| 0 <= j < 32 implies piece[j] == hashes[i]@[j] by {
            assert(b.subrange(start, start + 32 * n)[32 * i + j] == b[start + 32 * i + j]);
        }
        assert(piece =~= hashes[i]@);
        lemma_bytes32_of(hashes[i]);
    }
}

proof fn lemma_whole(b: Seq<u8>)
    ensures
        holds_at(b, 0, b),
{
    assert(b.subrange(0, b.len() as int) =~= b);
}

#[verifier::rlimit(50)]
proof fn lemma_unpack_initialize_election(
    election_id: u64,
    title: Seq<char>,
    description: Seq<char>,
    start_time: i64,
    end_time: i64,
    arcium_cluster_id: Seq<char>,
    public_key: Bytes32,
)
    requires
        encode_utf8(title).len() <= u32::MAX,
        encode_utf8(description).len() <= u32::MAX,
        encode_utf8(arcium_cluster_id).len() <= u32::MAX,
    ensures
        ({
            let ix = InstructionView::InitializeElection {
                election_id,
                title,
                description,
                start_time,
                end_time,
                arcium_cluster_id,
                public_key,
            };
            &&& spec_pack(ix).len() > 0
            &&& spec_pack(ix)[0] == 0
            &&& spec_initialize_election(spec_pack(ix)) == Some(ix)
        }),
{
    let ix = InstructionView::InitializeElection {
        election_id,
        title,
        description,
        start_time,
        end_time,
        arcium_cluster_id,
        public_key,
    };
    let b = spec_pack(ix);
    lemma_whole(b);
    let f7 = public_key@;
    let f6 = pack_string(arcium_cluster_id) + f7;
    let f5 = le_bytes(unsigned(end_time), 8) + f6;
    let f4 = le_bytes(unsigned(start_time), 8) + f5;
    let f3 = pack_string(description) + f4;
    let f2 = pack_string(title) + f3;
    let f1 = le_bytes(election_id as int, 8) + f2;
    lemma_le_bytes_8(election_id as int);
    lemma_le_bytes_8(unsigned(start_time));
    lemma_le_bytes_8(unsigned(end_time));
    lemma_le_bytes_4(encode_utf8(title).len() as int);
    lemma_le_bytes_4(encode_utf8(description).len() as int);
    lemma_le_bytes_4(encode_utf8(arcium_cluster_id).len() as int);
    lemma_split(b, 0, seq![0u8], f1);
    lemma_split(b, 1, le_bytes(election_id as int, 8), f2);
    lemma_read_u64(b, 1, election_id as int);
    let a2: int = 9;
    lemma_split(b, a2, pack_string(title), f3);
    lemma_read_string(b, a2, title);
    let a3: int = a2 + 4 + encode_utf8(title).len();
    lemma_split(b, a3, pack_string(description), f4);
    lemma_read_string(b, a3, description);
    let a4: int = a3 + 4 + encode_utf8(description).len();
    lemma_split(b, a4, le_bytes(unsigned(start_time), 8), f5);
    lemma_read_i64(b, a4, start_time);
    let a5: int = a4 + 8;
    lemma_split(b, a5, le_bytes(unsigned(end_time), 8), f6);
    lemma_read_i64(b, a5, end_time);
    let a6: int = a5 + 8;
    lemma_split(b, a6, pack_string(arcium_cluster_id), f7);
    lemma_read_string(b, a6, arcium_cluster_id);
    let a7: int = a6 + 4 + encode_utf8(arcium_cluster_id).len();
    lemma_read_bytes32(b, a7, public_key);
    assert(a7 + 32 == b.len());
}

proof fn lemma_unpack_register_voters(voter_hashes: Seq<Bytes32>, chunk_index: u32)
    requires
        voter_hashes.len() <= u32::MAX,
    ensures
        ({
            let ix = InstructionView::RegisterVoters { voter_hashes, chunk_index };
            &&& spec_pack(ix).len() > 0
            &&& spec_pack(ix)[0] == 1
            &&& spec_register_voters(spec_pack(ix)) == Some(ix)
        }),
{
    let ix = InstructionView::RegisterVoters { voter_hashes, chunk_index };
    let b = spec_pack(ix);
    lemma_whole(b);
    let f2 = le_bytes(chunk_index as int, 4);
    let f1 = pack_hashes(voter_hashes) + f2;
    lemma_le_bytes_4(voter_hashes.len() as int);
    lemma_le_bytes_4(chunk_index as int);
    lemma_split(b, 0, seq![1u8], f1);
    lemma_split(b, 1, pack_hashes(voter_hashes), f2);
    lemma_read_hash_vec(b, 1, voter_hashes);
    let a2: int = 5 + 32 * (voter_hashes.len() as int);
    lemma_read_u32(b, a2, chunk_index as int);
    assert(a2 + 4 == b.len());
}

proof fn lemma_unpack_cast_vote(
    voter_hash: Bytes32,
    encrypted_vote: Seq<u8>,
    receipt_id: Bytes32,
    nullifier: Bytes32,
    arcium_proof: Seq<u8>,
)
    requires
        encrypted_vote.len() <= u32::MAX,
        arcium_proof.len() <= u32::MAX,
    ensures
        ({
            let ix = InstructionView::CastVote {
                voter_hash,
                encrypted_vote,
                receipt_id,
                nullifier,
                arcium_proof,
            };
            &&& spec_pack(ix).len() > 0
            &&& spec_pack(ix)[0] == 2
            &&& spec_cast_vote(spec_pack(ix)) == Some(ix)
        }),
{
    let ix = InstructionView::CastVote {
        voter_hash,
        encrypted_vote,
        receipt_id,
        nullifier,
        arcium_proof,
    };
    let b = spec_pack(ix);
    lemma_whole(b);
    let f5 = pack_bytes(arcium_proof);
    let f4 = nullifier@ + f5;
    let f3 = receipt_id@ + f4;
    let f2 = pack_bytes(encrypted_vote) + f3;
    let f1 = voter_hash@ + f2;
    lemma_le_bytes_4(encrypted_vote.len() as int);
    lemma_le_bytes_4(arcium_proof.len() as int);
    lemma_split(b, 0, seq![2u8], f1);
    lemma_split(b, 1, voter_hash@, f2);
    lemma_read_bytes32(b, 1, voter_hash);
    lemma_split(b, 33, pack_bytes(encrypted_vote), f3);
    lemma_read_byte_vec(b, 33, encrypted_vote);
    let a3: int = 37 + (encrypted_vote.len() as int);
    lemma_split(b, a3, receipt_id@, f4);
    lemma_read_bytes32(b, a3, receipt_id);
    let a4: int = a3 + 32;
    lemma_split(b, a4, nullifier@, f5);
    lemma_read_bytes32(b, a4, nullifier);
    let a5: int = a4 + 32;
    lemma_read_byte_vec(b, a5, arcium_proof);
    assert(a5 + 4 + arcium_proof.len() == b.len());
}

/// Decoding undoes encoding: the serialised form of an instruction whose
/// lengths fit their four bytes decodes to that instruction.
pub proof fn law_unpack_pack(ix: InstructionView)
    requires
        packable(ix),
    ensures
        spec_unpack(spec_pack(ix)) == Ok::<InstructionView, ProgramError>(ix),
{
    match ix {
        InstructionView::InitializeElection {
            election_id,
            title,
            description,
            start_time,
            end_time,
            arcium_cluster_id,
            public_key,
        } => lemma_unpack_initialize_election(
            election_id,
            title,
            description,
            start_time,
            end_time,
            arcium_cluster_id,
            public_key,
        ),
        InstructionView::RegisterVoters { voter_hashes, chunk_index } => {
            lemma_unpack_register_voters(voter_hashes, chunk_index)
        },
        InstructionView::CastVote {
            voter_hash,
            encrypted_vote,
            receipt_id,
            nullifier,
            arcium_proof,
        } => lemma_unpack_cast_vote(
            voter_hash,
            encrypted_vote,
            receipt_id,
            nullifier,
            arcium_proof,
        ),
        InstructionView::StartTallying => {},
        InstructionView::CompleteElection => {},
    }
}

/// What a successful read found.
spec fn read_value<T>(r: Option<(T, int)>) -> T {
    r.unwrap().0
}

/// The position behind what a successful read found.
spec fn read_end<T>(r: Option<(T, int)>) -> int {
    r.unwrap().1
}

/// From `at` on, `b` is the piece that stands there and what follows it.
proof fn lemma_join(b: Seq<u8>, at: int, piece: Seq<u8>)
    requires
        holds_at(b, at, piece),
    ensures
        b.subrange(at, b.len() as int) == piece + b.subrange(at + piece.len(), b.len() as int),
{
    assert(b.subrange(at, b.len() as int) =~= b.subrange(at, at + piece.len()) + b.subrange(
        at + piece.len(),
        b.len() as int,
    ));
}

/// The number that the bytes of `b` from `at` up to `end` encode, least
/// significant byte first.
spec fn le_value(b: Seq<u8>, at: int, end: int) -> int
    decreases end - at,
{
    if at >= end {
        0
    } else {
        b[at] + 256 * le_value(b, at + 1, end)
    }
}

proof fn lemma_le_value_bytes(b: Seq<u8>, at: int, end: int, i: int)
    requires
        0 <= at <= end <= b.len(),
        0 <= i < end - at,
    ensures
        0 <= le_value(b, at, end),
        le_byte(le_value(b, at, end), i) == b[at + i],
    decreases end - at,
{
    let rest = le_value(b, at + 1, end);
    if at + 1 < end {
        lemma_le_value_bytes(b, at + 1, end, 0);
    }
    assert((b[at] + 256 * rest) % 256 == b[at] && (b[at] + 256 * rest) / 256 == rest);
    if i > 0 {
        lemma_le_value_bytes(b, at + 1, end, i - 1);
    }
}

proof fn lemma_le_inverse_4(b: Seq<u8>, at: int)
    requires
        0 <= at,
        at + 4 <= b.len(),
    ensures
        0 <= le_u32(b, at) <= u32::MAX,
        holds_at(b, at, le_bytes(le_u32(b, at), 4)),
{
    assert(le_value(b, at, at + 4) == le_u32(b, at)) by {
        reveal_with_fuel(le_value, 5);
    }
    assert forall|i: int| 0 <= i < 4 implies le_bytes(le_u32(b, at), 4)[i] == b[at + i] by {
        lemma_le_value_bytes(b, at, at + 4, i);
    }
    assert(b.subrange(at, at + 4) =~= le_bytes(le_u32(b, at), 4));
}

proof fn lemma_le_inverse_8(b: Seq<u8>, at: int)
    requires
        0 <= at,
        at + 8 <= b.len(),
    ensures
        0 <= le_u64(b, at) <= u64::MAX,
        holds_at(b, at, le_bytes(le_u64(b, at), 8)),
        holds_at(b, at, le_bytes(unsigned(le_i64(b, at) as i64), 8)),
{
    assert(le_value(b, at, at + 8) == le_u64(b, at)) by {
        reveal_with_fuel(le_value, 9);
    }
    assert forall|i: int| 0 <= i < 8 implies le_bytes(le_u64(b, at), 8)[i] == b[at + i] by {
        lemma_le_value_bytes(b, at, at + 8, i);
    }
    assert(b.subrange(at, at + 8) =~= le_bytes(le_u64(b, at), 8));
    assert(unsigned(le_i64(b, at) as i64) == le_u64(b, at));
}

proof fn lemma_byte_vec_inverse(b: Seq<u8>, at: int)
    requires
        0 <= at,
        spec_read_byte_vec(b, at) is Some,
    ensures
        holds_at(b, at, pack_bytes(read_value(spec_read_byte_vec(b, at)))),
        read_end(spec_read_byte_vec(b, at)) == at + pack_bytes(read_value(spec_read_byte_vec(b, at))).len(),
        read_value(spec_read_byte_vec(b, at)).len() <= u32::MAX,
{
    lemma_le_inverse_4(b, at);
    let v = read_value(spec_read_byte_vec(b, at));
    assert(b.subrange(at, at + 4 + v.len()) =~= b.subrange(at, at + 4) + v);
}

proof fn lemma_hash_vec_inverse(b: Seq<u8>, at: int)
    requires
        0 <= at,
        spec_read_hash_vec(b, at) is Some,
    ensures
        holds_at(b, at, pack_hashes(read_value(spec_read_hash_vec(b, at)))),
        read_end(spec_read_hash_vec(b, at)) == at + pack_hashes(read_value(spec_read_hash_vec(b, at))).len(),
        read_value(spec_read_hash_vec(b, at)).len() <= u32::MAX,
{
    lemma_le_inverse_4(b, at);
    let hashes = read_value(spec_read_hash_vec(b, at));
    let n: int = hashes.len() as int;
    let start: int = at + 4;
    assert forall|i: int| 0 <= i < 32 * n implies flatten(hashes)[i] == b[start + i] by {
        let k: int = i / 32;
        let piece = b.subrange(start + 32 * k, start + 32 * k + 32);
        lemma_bytes32_view(piece);
        assert(hashes[k]@[i % 32] == piece[i % 32]);
    }
    assert(b.subrange(start, start + 32 * n) =~= flatten(hashes));
    assert(b.subrange(at, start + 32 * n) =~= b.subrange(at, at + 4) + flatten(hashes));
}

/// Encoding undoes decoding: input that decodes to an instruction with
/// arguments is the serialised form of that instruction, and input that
/// decodes to one without arguments begins with it.
pub proof fn law_pack_unpack(b: Seq<u8>)
    requires
        spec_unpack(b) is Ok,
    ensures
        packable(spec_unpack(b)->Ok_0),
        spec_pack(spec_unpack(b)->Ok_0) == (if b[0] <= 2 {
            b
        } else {
            b.subrange(0, 1)
        }),
{
    let ix = spec_unpack(b)->Ok_0;
    let end: int = b.len() as int;
    assert(b.subrange(0, 1) =~= seq![b[0]]);
    assert(b =~= b.subrange(0, 1) + b.subrange(1, end));
    match ix {
        InstructionView::InitializeElection {
            election_id,
            title,
            description,
            start_time,
            end_time,
            arcium_cluster_id,
            public_key,
        } => {
            let a2: int = 9;
            let a3: int = read_end(spec_read_string(b, a2));
            let a4: int = read_end(spec_read_string(b, a3));
            let a5: int = a4 + 8;
            let a6: int = a5 + 8;
            let a7: int = read_end(spec_read_string(b, a6));
            lemma_le_inverse_8(b, 1);
            lemma_join(b, 1, le_bytes(election_id as int, 8));
            lemma_byte_vec_inverse(b, a2);
            decode_utf8_encode_utf8(read_value(spec_read_byte_vec(b, a2)));
            lemma_join(b, a2, pack_string(title));
            lemma_byte_vec_inverse(b, a3);
            decode_utf8_encode_utf8(read_value(spec_read_byte_vec(b, a3)));
            lemma_join(b, a3, pack_string(description));
            lemma_le_inverse_8(b, a4);
            lemma_join(b, a4, le_bytes(unsigned(start_time), 8));
            lemma_le_inverse_8(b, a5);
            lemma_join(b, a5, le_bytes(unsigned(end_time), 8));
            lemma_byte_vec_inverse(b, a6);
            decode_utf8_encode_utf8(read_value(spec_read_byte_vec(b, a6)));
            lemma_join(b, a6, pack_string(arcium_cluster_id));
            lemma_bytes32_view(b.subrange(a7, a7 + 32));
        },
        InstructionView::RegisterVoters { voter_hashes, chunk_index } => {
            let a2: int = read_end(spec_read_hash_vec(b, 1));
            lemma_hash_vec_inverse(b, 1);
            lemma_join(b, 1, pack_hashes(voter_hashes));
            lemma_le_inverse_4(b, a2);
        },
        InstructionView::CastVote {
            voter_hash,
            encrypted_vote,
            receipt_id,
            nullifier,
            arcium_proof,
        } => {
            let a3: int = read_end(spec_read_byte_vec(b, 33));
            let a4: int = a3 + 32;
            let a5: int = a4 + 32;
            lemma_bytes32_view(b.subrange(1, 33));
            lemma_join(b, 1, voter_hash@);
            lemma_byte_vec_inverse(b, 33);
            lemma_join(b, 33, pack_bytes(encrypted_vote));
            lemma_bytes32_view(b.subrange(a3, a3 + 32));
            lemma_join(b, a3, receipt_id@);
            lemma_bytes32_view(b.subrange(a4, a4 + 32));
            lemma_join(b, a4, nullifier@);
            lemma_byte_vec_inverse(b, a5);
        },
        InstructionView::StartTallying => {},
        InstructionView::CompleteElection => {},
    }
}

} // verus!
