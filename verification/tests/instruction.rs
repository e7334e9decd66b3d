use csvp_protocol::error::ProgramError;
use csvp_protocol::instruction::VoteInstruction;

fn tagged(tag: u8, args: Vec<u8>) -> Vec<u8> {
    let mut out = vec![tag];
    out.extend(args);
    out
}

fn initialize_bytes() -> Vec<u8> {
    let args = borsh::to_vec(&(
        7u64,
        "Board 2030".to_string(),
        "día de elección".to_string(),
        -5i64,
        1_700_000_000i64,
        "cluster-123".to_string(),
        [9u8; 32],
    ))
    .unwrap();
    tagged(0, args)
}

#[test]
fn unpack_initialize_election() {
    match VoteInstruction::unpack(&initialize_bytes()).unwrap() {
        VoteInstruction::InitializeElection {
            election_id,
            title,
            description,
            start_time,
            end_time,
            arcium_cluster_id,
            public_key,
        } => {
            assert_eq!(election_id, 7);
            assert_eq!(title, "Board 2030");
            assert_eq!(description, "día de elección");
            assert_eq!(start_time, -5);
            assert_eq!(end_time, 1_700_000_000);
            assert_eq!(arcium_cluster_id, "cluster-123");
            assert_eq!(public_key, [9u8; 32]);
        }
        other => panic!("unexpected instruction {:?}", other),
    }
}

#[test]
fn unpack_reads_integers_little_endian() {
    let mut bytes = vec![0u8];
    bytes.extend([0x01, 0x02, 0x03, 0x04, 0x05, 0x06, 0x07, 0x88]); // election_id
    bytes.extend([0, 0, 0, 0]); // title
    bytes.extend([0, 0, 0, 0]); // description
    bytes.extend([0xff; 8]); // start_time = -1
    bytes.extend([0, 0, 0, 0, 0, 0, 0, 0x80]); // end_time = i64::MIN
    bytes.extend([1, 0, 0, 0, b'x']); // cluster id
    bytes.extend([3u8; 32]);
    match VoteInstruction::unpack(&bytes).unwrap() {
        VoteInstruction::InitializeElection { election_id, title, start_time, end_time, arcium_cluster_id, .. } => {
            assert_eq!(election_id, 0x8807_0605_0403_0201);
            assert_eq!(title, "");
            assert_eq!(start_time, -1);
            assert_eq!(end_time, i64::MIN);
            assert_eq!(arcium_cluster_id, "x");
        }
        other => panic!("unexpected instruction {:?}", other),
    }
}

#[test]
fn unpack_rejects_a_title_that_is_not_utf8() {
    let mut bytes = vec![0u8];
    bytes.extend(1u64.to_le_bytes());
    bytes.extend([2, 0, 0, 0, 0xc3, 0x28]);
    bytes.extend([0, 0, 0, 0]);
    bytes.extend(1i64.to_le_bytes());
    bytes.extend(2i64.to_le_bytes());
    bytes.extend([0, 0, 0, 0]);
    bytes.extend([3u8; 32]);
    assert_eq!(VoteInstruction::unpack(&bytes).unwrap_err(), ProgramError::BorshIoError);
}

#[test]
fn unpack_register_voters() {
    let hashes = vec![[1u8; 32], [2u8; 32], [3u8; 32]];
    let bytes = tagged(1, borsh::to_vec(&(hashes.clone(), 0x0102_0304u32)).unwrap());
    match VoteInstruction::unpack(&bytes).unwrap() {
        VoteInstruction::RegisterVoters { voter_hashes, chunk_index } => {
            assert_eq!(voter_hashes, hashes);
            assert_eq!(chunk_index, 0x0102_0304);
        }
        other => panic!("unexpected instruction {:?}", other),
    }
    let empty = tagged(1, borsh::to_vec(&(Vec::<[u8; 32]>::new(), 5u32)).unwrap());
    match VoteInstruction::unpack(&empty).unwrap() {
        VoteInstruction::RegisterVoters { voter_hashes, chunk_index } => {
            assert!(voter_hashes.is_empty());
            assert_eq!(chunk_index, 5);
        }
        other => panic!("unexpected instruction {:?}", other),
    }
}

#[test]
fn unpack_cast_vote() {
    let args = borsh::to_vec(&(
        [1u8; 32],
        vec![10u8, 20, 30],
        [2u8; 32],
        [3u8; 32],
        Vec::<u8>::new(),
    ))
    .unwrap();
    match VoteInstruction::unpack(&tagged(2, args)).unwrap() {
        VoteInstruction::CastVote { voter_hash, encrypted_vote, receipt_id, nullifier, arcium_proof } => {
            assert_eq!(voter_hash, [1u8; 32]);
            assert_eq!(encrypted_vote, vec![10, 20, 30]);
            assert_eq!(receipt_id, [2u8; 32]);
            assert_eq!(nullifier, [3u8; 32]);
            assert!(arcium_proof.is_empty());
        }
        other => panic!("unexpected instruction {:?}", other),
    }
}

#[test]
fn unpack_instructions_without_arguments() {
    assert!(matches!(VoteInstruction::unpack(&[3]).unwrap(), VoteInstruction::StartTallying));
    assert!(matches!(VoteInstruction::unpack(&[4]).unwrap(), VoteInstruction::CompleteElection));
    // What follows the tag is not read.
    assert!(matches!(VoteInstruction::unpack(&[3, 1, 2]).unwrap(), VoteInstruction::StartTallying));
    assert!(matches!(VoteInstruction::unpack(&[4, 0]).unwrap(), VoteInstruction::CompleteElection));
}

#[test]
fn unpack_rejects_empty_input_and_unknown_tags() {
    assert_eq!(VoteInstruction::unpack(&[]).unwrap_err(), ProgramError::InvalidInstructionData);
    assert_eq!(VoteInstruction::unpack(&[5]).unwrap_err(), ProgramError::InvalidInstructionData);
    assert_eq!(VoteInstruction::unpack(&[255, 0, 0]).unwrap_err(), ProgramError::InvalidInstructionData);
}

#[test]
fn unpack_rejects_truncated_and_overlong_arguments() {
    let good = initialize_bytes();
    assert!(VoteInstruction::unpack(&good).is_ok());
    for cut in 1..good.len() {
        assert_eq!(
            VoteInstruction::unpack(&good[..cut]).unwrap_err(),
            ProgramError::BorshIoError,
            "cut at {}",
            cut
        );
    }
    let mut long = good.clone();
    long.push(0);
    assert_eq!(VoteInstruction::unpack(&long).unwrap_err(), ProgramError::BorshIoError);

    let register = tagged(1, borsh::to_vec(&(vec![[1u8; 32]], 0u32)).unwrap());
    assert_eq!(
        VoteInstruction::unpack(&register[..register.len() - 1]).unwrap_err(),
        ProgramError::BorshIoError
    );
    // A length that promises more values than the input holds.
    let mut lying = vec![1u8];
    lying.extend(u32::MAX.to_le_bytes());
    lying.extend([0u8; 40]);
    assert_eq!(VoteInstruction::unpack(&lying).unwrap_err(), ProgramError::BorshIoError);
}

/// A small deterministic generator, so that the cases are the same in every run.
struct Lcg(u64);

impl Lcg {
    fn next(&mut self) -> u64 {
        self.0 = self.0.wrapping_mul(6364136223846793005).wrapping_add(1442695040888963407);
        self.0 >> 33
    }

    fn bytes(&mut self, n: usize) -> Vec<u8> {
        (0..n).map(|_| self.next() as u8).collect()
    }

    fn hash(&mut self) -> [u8; 32] {
        let mut h = [0u8; 32];
        h.copy_from_slice(&self.bytes(32));
        h
    }

    fn text(&mut self) -> String {
        let n = (self.next() % 6) as usize;
        (0..n)
            .map(|_| ['a', 'é', '∑', '🗳', 'z', ' '][(self.next() % 6) as usize])
            .collect()
    }
}

type InitializeArgs = (u64, String, String, i64, i64, String, [u8; 32]);
type RegisterArgs = (Vec<[u8; 32]>, u32);
type CastArgs = ([u8; 32], Vec<u8>, [u8; 32], [u8; 32], Vec<u8>);

/// Whether `unpack` and the serialisation library agree on `data`.
fn agrees(data: &[u8]) -> bool {
    let unpacked = VoteInstruction::unpack(data);
    let Some((tag, rest)) = data.split_first() else {
        return unpacked.unwrap_err() == ProgramError::InvalidInstructionData;
    };
    match tag {
        0 => match (borsh::from_slice::<InitializeArgs>(rest), unpacked) {
            (
                Ok(args),
                Ok(VoteInstruction::InitializeElection {
                    election_id,
                    title,
                    description,
                    start_time,
                    end_time,
                    arcium_cluster_id,
                    public_key,
                }),
            ) => {
                args == (
                    election_id,
                    title,
                    description,
                    start_time,
                    end_time,
                    arcium_cluster_id,
                    public_key,
                )
            }
            (Err(_), Err(e)) => e == ProgramError::BorshIoError,
            _ => false,
        },
        1 => match (borsh::from_slice::<RegisterArgs>(rest), unpacked) {
            (Ok(args), Ok(VoteInstruction::RegisterVoters { voter_hashes, chunk_index })) => {
                args == (voter_hashes, chunk_index)
            }
            (Err(_), Err(e)) => e == ProgramError::BorshIoError,
            _ => false,
        },
        2 => match (borsh::from_slice::<CastArgs>(rest), unpacked) {
            (
                Ok(args),
                Ok(VoteInstruction::CastVote {
                    voter_hash,
                    encrypted_vote,
                    receipt_id,
                    nullifier,
                    arcium_proof,
                }),
            ) => args == (voter_hash, encrypted_vote, receipt_id, nullifier, arcium_proof),
            (Err(_), Err(e)) => e == ProgramError::BorshIoError,
            _ => false,
        },
        3 => matches!(unpacked, Ok(VoteInstruction::StartTallying)),
        4 => matches!(unpacked, Ok(VoteInstruction::CompleteElection)),
        _ => matches!(unpacked, Err(ProgramError::InvalidInstructionData)),
    }
}

fn some_instruction(rng: &mut Lcg) -> Vec<u8> {
    match rng.next() % 3 {
        0 => {
            let args: InitializeArgs = (
                rng.next(),
                rng.text(),
                rng.text(),
                rng.next() as i64 - (1 << 30),
                (rng.next() as i64).wrapping_mul(-7),
                rng.text(),
                rng.hash(),
            );
            tagged(0, borsh::to_vec(&args).unwrap())
        }
        1 => {
            let n = (rng.next() % 4) as usize;
            let args: RegisterArgs = ((0..n).map(|_| rng.hash()).collect(), rng.next() as u32);
            tagged(1, borsh::to_vec(&args).unwrap())
        }
        _ => {
            let vote_len = (rng.next() % 90) as usize;
            let proof_len = (rng.next() % 5) as usize;
            let args: CastArgs =
                (rng.hash(), rng.bytes(vote_len), rng.hash(), rng.hash(), rng.bytes(proof_len));
            tagged(2, borsh::to_vec(&args).unwrap())
        }
    }
}

#[test]
fn unpack_decodes_what_the_serialisation_library_encodes() {
    let mut rng = Lcg(1);
    for _ in 0..300 {
        let data = some_instruction(&mut rng);
        assert!(VoteInstruction::unpack(&data).is_ok(), "{:?}", data);
        assert!(agrees(&data), "{:?}", data);
    }
}

#[test]
fn unpack_agrees_with_the_serialisation_library_on_damaged_input() {
    let mut rng = Lcg(2);
    for _ in 0..300 {
        let mut data = some_instruction(&mut rng);
        match rng.next() % 4 {
            0 => {
                let at = (rng.next() as usize) % data.len();
                data[at] ^= 1 << (rng.next() % 8);
            }
            1 => {
                let keep = (rng.next() as usize) % data.len();
                data.truncate(keep);
            }
            2 => {
                let extra = 1 + (rng.next() % 3) as usize;
                data.extend(rng.bytes(extra));
            }
            _ => {
                let at = (rng.next() as usize) % data.len();
                data[at] = rng.next() as u8;
            }
        }
        assert!(agrees(&data), "{:?}", data);
    }
}

#[test]
fn unpack_agrees_with_the_serialisation_library_on_arbitrary_bytes() {
    let mut rng = Lcg(3);
    for _ in 0..300 {
        let n = (rng.next() % 120) as usize;
        let mut data = rng.bytes(n);
        if let Some(first) = data.first_mut() {
            *first %= 6;
        }
        assert!(agrees(&data), "{:?}", data);
    }
}
