//! Deterministic addresses of the ledger's records: each record lives at the
//! address that the runtime derives from its key under the program's id.

use vstd::prelude::*;
use crate::error::ProgramError;
use crate::state::{bytes32_eq, Bytes32};

verus! {

/// The program-derived address and bump seed that the ledger's runtime assigns
/// to a list of seeds under a program id, or `None` where it assigns none.
pub uninterp spec fn program_derived_address(seeds: Seq<Seq<u8>>, program_id: Seq<u8>) -> Option<(Seq<u8>, u8)>;

/// The byte strings of a list of seeds.
pub open spec fn seeds_view(seeds: Seq<Vec<u8>>) -> Seq<Seq<u8>> {
    seeds.map_values(|s: Vec<u8>| s@)
}

/// Calls `solana_program::pubkey::Pubkey::try_find_program_address`.
///
/// Trusted: the result is the address and bump seed that the runtime derives
/// from exactly these seeds and this program id; nothing else is claimed of it.
#[verifier::external_body]
fn try_find_program_address(seeds: &Vec<Vec<u8>>, program_id: &Bytes32) -> (r: Option<(Bytes32, u8)>)
    ensures
        derived_view(r) == program_derived_address(seeds_view(seeds@), program_id@),
{
    let parts: Vec<&[u8]> = seeds.iter().map(|s| s.as_slice()).collect();
    let id = solana_program::pubkey::Pubkey::new_from_array(*program_id);
    match solana_program::pubkey::Pubkey::try_find_program_address(&parts, &id) {
        Some((address, bump)) => Some((address.to_bytes(), bump)),
        None => None,
    }
}

/// The seed that marks an election's address: the ASCII text `election`.
pub open spec fn election_seed() -> Seq<u8> {
    seq![101u8, 108u8, 101u8, 99u8, 116u8, 105u8, 111u8, 110u8]
}

/// The seed that marks a registry partition's address: the ASCII text
/// `voters_registry`.
pub open spec fn voter_registry_seed() -> Seq<u8> {
    seq![
        118u8, 111u8, 116u8, 101u8, 114u8, 115u8, 95u8, 114u8, 101u8, 103u8, 105u8, 115u8, 116u8,
        114u8, 121u8,
    ]
}

/// The seed that marks a nullifier record's address: the ASCII text
/// `nullifier`.
pub open spec fn nullifier_seed() -> Seq<u8> {
    seq![110u8, 117u8, 108u8, 108u8, 105u8, 102u8, 105u8, 101u8, 114u8]
}

/// The seed that marks a ballot chunk's address: the ASCII text
/// `ballot_chunk`.
pub open spec fn ballot_chunk_seed() -> Seq<u8> {
    seq![98u8, 97u8, 108u8, 108u8, 111u8, 116u8, 95u8, 99u8, 104u8, 117u8, 110u8, 107u8]
}

/// The byte of `x` at position `i`, counting from the least significant.
pub open spec fn le_byte(x: int, i: int) -> u8
    decreases i,
{
    if i <= 0 {
        (x % 256) as u8
    } else {
        le_byte(x / 256, i - 1)
    }
}

/// The `n` bytes of `x`, least significant first.
pub open spec fn le_bytes(x: int, n: nat) -> Seq<u8> {
    Seq::new(n, |i: int| le_byte(x, i))
}

/// The seeds of an election's address: the marker, the election's number
/// and the creator.
pub open spec fn election_seeds(creator: Seq<u8>, election_id: u64) -> Seq<Seq<u8>> {
    seq![election_seed(), le_bytes(election_id as int, 8), creator]
}

/// The seeds of a registry partition's address: the marker, the election's
/// address and the partition's index.
pub open spec fn voter_registry_seeds(election: Seq<u8>, chunk_index: u32) -> Seq<Seq<u8>> {
    seq![voter_registry_seed(), election, le_bytes(chunk_index as int, 4)]
}

/// The seeds of a nullifier record's address: the marker, the election's
/// address and the nullifier hash.
pub open spec fn nullifier_seeds(election: Seq<u8>, nullifier_hash: Seq<u8>) -> Seq<Seq<u8>> {
    seq![nullifier_seed(), election, nullifier_hash]
}

/// The seeds of a ballot chunk's address: the marker, the election's address
/// and the chunk's index.
pub open spec fn ballot_chunk_seeds(election: Seq<u8>, chunk_index: u32) -> Seq<Seq<u8>> {
    seq![ballot_chunk_seed(), election, le_bytes(chunk_index as int, 4)]
}

/// What a derivation found, as mathematical values.
pub open spec fn derived_view(r: Option<(Bytes32, u8)>) -> Option<(Seq<u8>, u8)> {
    match r {
        Some((address, bump)) => Some((address@, bump)),
        None => None,
    }
}

fn election_seed_bytes() -> (r: Vec<u8>)
    ensures
        r@ == election_seed(),
{
    let r: Vec<u8> = vec![101u8, 108u8, 101u8, 99u8, 116u8, 105u8, 111u8, 110u8];
    r
}

fn voter_registry_seed_bytes() -> (r: Vec<u8>)
    ensures
        r@ == voter_registry_seed(),
{
    let r: Vec<u8> = vec![
        118u8,
        111u8,
        116u8,
        101u8,
        114u8,
        115u8,
        95u8,
        114u8,
        101u8,
        103u8,
        105u8,
        115u8,
        116u8,
        114u8,
        121u8,
    ];
    r
}

fn nullifier_seed_bytes() -> (r: Vec<u8>)
    ensures
        r@ == nullifier_seed(),
{
    let r: Vec<u8> = vec![110u8, 117u8, 108u8, 108u8, 105u8, 102u8, 105u8, 101u8, 114u8];
    r
}

fn ballot_chunk_seed_bytes() -> (r: Vec<u8>)
    ensures
        r@ == ballot_chunk_seed(),
{
    let r: Vec<u8> = vec![
        98u8,
        97u8,
        108u8,
        108u8,
        111u8,
        116u8,
        95u8,
        99u8,
        104u8,
        117u8,
        110u8,
        107u8,
    ];
    r
}

/// The `n` bytes of `x`, least significant first.
fn to_le_bytes(x: u64, n: usize) -> (r: Vec<u8>)
    ensures
        r@ == le_bytes(x as int, n as nat),
{
    let mut out: Vec<u8> = Vec::new();
    let mut rest: u64 = x;
    let mut i: usize = 0;
    while i < n
        invariant
            i <= n,
            out@.len() == i,
            forall|j: int| 0 <= j < i ==> out@[j] == le_byte(x as int, j),
            forall|j: int| j >= 0 ==> le_byte(rest as int, j) == #[trigger] le_byte(x as int, i + j),
        decreases n - i,
    {
        let ghost before = rest;
        out.push((rest % 256) as u8);
        rest = rest / 256;
        proof {
            assert(le_byte(before as int, 0) == le_byte(x as int, i + 0));
            assert forall|j: int| j >= 0 implies le_byte(rest as int, j) == #[trigger] le_byte(
                x as int,
                i + 1 + j,
            ) by {
                assert(le_byte(before as int, j + 1) == le_byte(x as int, i + (j + 1)));
            }
        }
        i += 1;
    }
    out
}

fn bytes32_to_vec(a: &Bytes32) -> (r: Vec<u8>)
    ensures
        r@ == a@,
{
    let mut out: Vec<u8> = Vec::new();
    let mut i: usize = 0;
    while i < 32
        invariant
            i <= 32,
            out@.len() == i,
            forall|j: int| 0 <= j < i ==> out@[j] == a@[j],
        decreases 32 - i,
    {
        out.push(a[i]);
        i += 1;
    }
    out
}

fn derive(marker: Vec<u8>, second: Vec<u8>, third: Vec<u8>, program_id: &Bytes32) -> (r: Option<
    (Bytes32, u8),
>)
    ensures
        derived_view(r) == program_derived_address(seq![marker@, second@, third@], program_id@),
{
    let mut seeds: Vec<Vec<u8>> = Vec::new();
    seeds.push(marker);
    seeds.push(second);
    seeds.push(third);
    assert(seeds_view(seeds@) =~= seq![marker@, second@, third@]);
    try_find_program_address(&seeds, program_id)
}

/// The address and bump seed of the election `election_id` of `creator`.
pub fn election_address(program_id: &Bytes32, creator: &Bytes32, election_id: u64) -> (r: Option<
    (Bytes32, u8),
>)
    ensures
        derived_view(r) == program_derived_address(
            election_seeds(creator@, election_id),
            program_id@,
        ),
{
    derive(election_seed_bytes(), to_le_bytes(election_id, 8), bytes32_to_vec(creator), program_id)
}

/// The address and bump seed of a partition of an election's voter registry.
pub fn voter_registry_address(program_id: &Bytes32, election: &Bytes32, chunk_index: u32) -> (r:
    Option<(Bytes32, u8)>)
    ensures
        derived_view(r) == program_derived_address(
            voter_registry_seeds(election@, chunk_index),
            program_id@,
        ),
{
    derive(
        voter_registry_seed_bytes(),
        bytes32_to_vec(election),
        to_le_bytes(chunk_index as u64, 4),
        program_id,
    )
}

/// The address and bump seed of the record of a nullifier of an election.
pub fn nullifier_address(program_id: &Bytes32, election: &Bytes32, nullifier_hash: &Bytes32) -> (r:
    Option<(Bytes32, u8)>)
    ensures
        derived_view(r) == program_derived_address(
            nullifier_seeds(election@, nullifier_hash@),
            program_id@,
        ),
{
    derive(
        nullifier_seed_bytes(),
        bytes32_to_vec(election),
        bytes32_to_vec(nullifier_hash),
        program_id,
    )
}

/// The address and bump seed of a chunk of an election's stored ballots.
pub fn ballot_chunk_address(program_id: &Bytes32, election: &Bytes32, chunk_index: u32) -> (r:
    Option<(Bytes32, u8)>)
    ensures
        derived_view(r) == program_derived_address(
            ballot_chunk_seeds(election@, chunk_index),
            program_id@,
        ),
{
    derive(
        ballot_chunk_seed_bytes(),
        bytes32_to_vec(election),
        to_le_bytes(chunk_index as u64, 4),
        program_id,
    )
}

/// Holds an account's key against the address derived for it: the bump seed
/// where they agree, `InvalidArgument` where they differ or nothing was
/// derived.
pub fn check_address(derived: Option<(Bytes32, u8)>, supplied: &Bytes32) -> (r: Result<
    u8,
    ProgramError,
>)
    ensures
        match r {
            Ok(bump) => derived == Some((*supplied, bump)),
            Err(e) => e == ProgramError::InvalidArgument && (derived matches Some(found)
                ==> found.0@ != supplied@),
        },
{
    match derived {
        Some((address, bump)) => {
            if bytes32_eq(&address, supplied) {
                Ok(bump)
            } else {
                Err(ProgramError::InvalidArgument)
            }
        },
        None => Err(ProgramError::InvalidArgument),
    }
}

} // verus!
