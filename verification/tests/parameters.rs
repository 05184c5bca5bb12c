use phase2::chunks::{clone_range, extend_points};
use phase2::codec::{read_point_vec, write_point_vec, CheckForCorrectness};
use phase2::curve::{G1Point, G2Point, Scalar};
use phase2::error::Phase2Error;
use phase2::hash::blake2b;
use phase2::key::ProvingKey;
use phase2::keypair::PublicKey;
use phase2::parameters::{hash_params, MPCParameters};
use phase2::polynomial::{dot_product, eval, Groth16Params, KeypairAssembly};
use phase2::qap::{circuit_to_qap, Constraints, Index};
use phase2::serialization::SubgroupCheckMode;
use phase2::UseCompression;

fn scalar(n: u64) -> Scalar {
    let mut bytes = vec![0u8; 32];
    bytes[..8].copy_from_slice(&n.to_le_bytes());
    Scalar::from_bytes(&bytes).unwrap()
}

fn g1(n: u64) -> G1Point {
    G1Point::generator().mul(&scalar(n))
}

fn g2(n: u64) -> G2Point {
    G2Point::generator().mul(&scalar(n))
}

/// A program with two public and five private variables and seven
/// constraints: `x * x = out`, one constraint for each of four further
/// private variables, and one for each public variable.
fn test_assembly() -> KeypairAssembly {
    let one = || scalar(1);
    let mut at: Vec<Vec<(Scalar, usize)>> = Vec::new();
    let mut bt: Vec<Vec<(Scalar, usize)>> = Vec::new();
    let mut ct: Vec<Vec<(Scalar, usize)>> = Vec::new();
    // the constant one
    at.push(vec![(one(), 5)]);
    bt.push(vec![(one(), 1), (one(), 2), (one(), 3), (one(), 4)]);
    ct.push(vec![]);
    // out
    at.push(vec![(one(), 6)]);
    bt.push(vec![]);
    ct.push(vec![(one(), 0)]);
    // x
    at.push(vec![(one(), 0)]);
    bt.push(vec![(one(), 0)]);
    ct.push(vec![]);
    // four more private variables
    for i in 1..5 {
        at.push(vec![(one(), i)]);
        bt.push(vec![]);
        ct.push(vec![(one(), i)]);
    }
    KeypairAssembly { num_public_variables: 2, num_private_variables: 5, at, bt, ct }
}

/// Stand-ins for the output of the first phase, for eight constraints.
fn test_params() -> Groth16Params {
    let size = 8u64;
    Groth16Params {
        alpha_g1: g1(3),
        beta_g1: g1(5),
        beta_g2: g2(5),
        coeffs_g1: (0..size).map(|k| g1(11 + k)).collect(),
        coeffs_g2: (0..size).map(|k| g2(11 + k)).collect(),
        alpha_coeffs_g1: (0..size).map(|k| g1(3 * (11 + k))).collect(),
        beta_coeffs_g1: (0..size).map(|k| g1(5 * (11 + k))).collect(),
        h_g1: (0..size - 1).map(|k| g1(101 + k)).collect(),
    }
}

fn generate_ceremony() -> MPCParameters {
    MPCParameters::new(test_assembly(), test_params()).unwrap()
}


fn contributed() -> MPCParameters {
    let mut after = generate_ceremony();
    after.contribute_with(scalar(424242), g1(77)).unwrap();
    after.contribute_with(scalar(31337), g1(78)).unwrap();
    after
}

#[test]
fn written_form_has_the_documented_layout() {
    let mpc = contributed();
    let mut bytes = vec![];
    mpc.write(&mut bytes).unwrap();
    // the key compressed: 48 bytes for G1, 96 for G2, lengths in 8 bytes
    let key = 48 + 3 * 96 + (8 + 2 * 48) + 48 + 48 + (8 + 7 * 48) + (8 + 7 * 48) + (8 + 7 * 96)
        + (8 + 7 * 48) + (8 + 5 * 48);
    assert_eq!(bytes.len(), key + 64 + 4 + 2 * 544);
    assert_eq!(bytes[..48].to_vec(), mpc.params.vk.alpha_g1.to_compressed());
    assert_eq!(bytes[48 + 3 * 96..48 + 3 * 96 + 8].to_vec(), 2u64.to_le_bytes().to_vec());
    assert_eq!(bytes[key..key + 64].to_vec(), mpc.cs_hash.to_vec());
    assert_eq!(bytes[key + 64..key + 68].to_vec(), 2u32.to_le_bytes().to_vec());
    let mut first_key = vec![];
    mpc.contributions[0].write(&mut first_key);
    assert_eq!(first_key.len(), PublicKey::size());
    assert_eq!(bytes[key + 68..key + 68 + 544].to_vec(), first_key);
    assert_eq!(first_key[..96].to_vec(), mpc.contributions[0].delta_after.to_bytes());
    assert_eq!(first_key[480..].to_vec(), mpc.contributions[0].transcript.to_vec());

    let mut long = vec![];
    mpc.write_with(&mut long, UseCompression::No).unwrap();
    let key = 96 + 3 * 192 + (8 + 2 * 96) + 96 + 96 + (8 + 7 * 96) + (8 + 7 * 96) + (8 + 7 * 192)
        + (8 + 7 * 96) + (8 + 5 * 96);
    assert_eq!(long.len(), key + 64 + 4 + 2 * 544);
    assert_eq!(long[..96].to_vec(), mpc.params.vk.alpha_g1.to_bytes());
}

#[test]
fn parameters_read_back_in_both_forms() {
    let mpc = contributed();
    for compressed in [UseCompression::Yes, UseCompression::No] {
        let mut bytes = vec![1, 2, 3];
        mpc.write_with(&mut bytes, compressed).unwrap();
        assert_eq!(bytes[..3].to_vec(), vec![1, 2, 3]);
        for check in [CheckForCorrectness::OnlyInGroup, CheckForCorrectness::No] {
            for subgroup in [false, true] {
                let read = MPCParameters::read_fast(&bytes[3..], compressed, check, subgroup, SubgroupCheckMode::Direct).unwrap();
                assert_eq!(read, mpc);
            }
        }
        let key = MPCParameters::read_groth16_fast(
            &bytes[3..],
            compressed,
            CheckForCorrectness::Full,
            true,
            SubgroupCheckMode::Auto,
        )
        .unwrap();
        assert_eq!(&key, mpc.get_params());
        let (key, end) = ProvingKey::read(&bytes, 3, compressed, CheckForCorrectness::No).unwrap();
        assert_eq!(&key, mpc.get_params());
        assert_eq!(end, bytes.len() - 64 - 4 - 2 * 544);
    }
    let mut bytes = vec![];
    mpc.write(&mut bytes).unwrap();
    bytes.extend_from_slice(&[7; 10]);
    assert_eq!(MPCParameters::read(&bytes).unwrap(), mpc);
}

#[test]
fn full_check_refuses_the_point_at_infinity_outside_the_a_and_b_queries() {
    let mpc = generate_ceremony();
    // the B query holds the point at infinity, and reads under every check
    assert!(mpc.params.b_g1_query[1].is_zero());
    let mut bytes = vec![];
    mpc.write(&mut bytes).unwrap();
    assert!(MPCParameters::read_fast(&bytes, UseCompression::Yes, CheckForCorrectness::Full, false, SubgroupCheckMode::No).is_ok());
    let mut changed = mpc.clone();
    changed.params.h_query[2] = G1Point::zero();
    let mut bytes = vec![];
    changed.write(&mut bytes).unwrap();
    assert_eq!(
        MPCParameters::read_fast(&bytes, UseCompression::Yes, CheckForCorrectness::Full, false, SubgroupCheckMode::No),
        Err(Phase2Error::Deserialization)
    );
    assert_eq!(MPCParameters::read(&bytes).unwrap(), changed);
}

#[test]
fn truncated_and_damaged_input_is_refused() {
    let mpc = contributed();
    let mut bytes = vec![];
    mpc.write(&mut bytes).unwrap();
    for cut in [0, 10, 48, 500, bytes.len() - 1, bytes.len() - 544, bytes.len() - 2 * 544 - 2] {
        assert_eq!(MPCParameters::read(&bytes[..cut]), Err(Phase2Error::Io));
    }
    // an element that does not decode
    let mut damaged = bytes.clone();
    damaged[0] ^= 1;
    assert_eq!(MPCParameters::read(&damaged), Err(Phase2Error::Deserialization));
    // a length that promises more elements than there are
    let mut damaged = bytes.clone();
    let length_at = 48 + 3 * 96;
    damaged[length_at..length_at + 8].copy_from_slice(&u64::MAX.to_le_bytes());
    assert!(MPCParameters::read(&damaged).is_err());
    // a public key that does not decode
    let mut damaged = bytes.clone();
    let last = damaged.len() - 544;
    damaged[last] ^= 1;
    assert_eq!(MPCParameters::read(&damaged), Err(Phase2Error::Deserialization));
    assert_eq!(PublicKey::read(&bytes, bytes.len() - 90), Err(Phase2Error::Io));
    assert_eq!(PublicKey::read(&bytes[..bytes.len() - 1], bytes.len() - 544), Err(Phase2Error::Io));
    let (key, end) = PublicKey::read(&bytes, bytes.len() - 544).unwrap();
    assert_eq!(key, mpc.contributions[1]);
    assert_eq!(end, bytes.len());
}

#[test]
fn public_key_batches_read_back() {
    let mpc = contributed();
    let mut bytes = vec![];
    PublicKey::write_batch(&mut bytes, &mpc.contributions).unwrap();
    assert_eq!(bytes.len(), 4 + 2 * 544);
    let (keys, end) = PublicKey::read_batch(&bytes, 0).unwrap();
    assert_eq!(keys, mpc.contributions);
    assert_eq!(end, bytes.len());
    let mut empty = vec![];
    PublicKey::write_batch(&mut empty, &vec![]).unwrap();
    assert_eq!(empty, vec![0, 0, 0, 0]);
    assert_eq!(PublicKey::read_batch(&empty, 0).unwrap().0, vec![]);
    assert_eq!(mpc.contributions[0].hash(), blake2b(&bytes[4..4 + 544]));
}

#[test]
fn sequences_of_elements_read_back() {
    let points = vec![g2(1), g2(2), G2Point::zero()];
    for compressed in [UseCompression::Yes, UseCompression::No] {
        let mut bytes = vec![];
        write_point_vec(&mut bytes, &points, compressed);
        let (read, end) = read_point_vec::<G2Point>(&bytes, 0, compressed, CheckForCorrectness::OnlyInGroup).unwrap();
        assert_eq!(read, points);
        assert_eq!(end, bytes.len());
        assert_eq!(
            read_point_vec::<G2Point>(&bytes, 0, compressed, CheckForCorrectness::Full),
            Err(Phase2Error::Deserialization)
        );
    }
}

#[test]
fn circuit_hash_is_the_digest_of_the_uncompressed_key() {
    let mpc = generate_ceremony();
    let mut bytes = vec![];
    mpc.params.write(&mut bytes, UseCompression::No);
    assert_eq!(mpc.cs_hash, blake2b(&bytes));
    assert_eq!(mpc.cs_hash, hash_params(&mpc.params));
    let after = contributed();
    assert_eq!(after.cs_hash, mpc.cs_hash);
    assert_ne!(hash_params(&after.params), mpc.cs_hash);
}

#[test]
fn unconstrained_private_variable_is_refused() {
    let mut assembly = test_assembly();
    // the last private variable occurs in no constraint
    assembly.at[6] = vec![];
    assembly.ct[6] = vec![];
    assert_eq!(MPCParameters::new(assembly, test_params()).err(), Some(Phase2Error::UnconstrainedVariable));
    // the same for a public variable is accepted
    let mut assembly = test_assembly();
    assembly.at[1] = vec![];
    assembly.ct[1] = vec![];
    assert!(MPCParameters::new(assembly, test_params()).is_ok());
}

#[test]
fn program_that_does_not_fit_the_coefficients_is_refused() {
    let mut assembly = test_assembly();
    assembly.at[3] = vec![(scalar(1), 8)];
    assert_eq!(MPCParameters::new(assembly, test_params()).err(), Some(Phase2Error::InvalidLength));
    let mut assembly = test_assembly();
    assembly.bt.pop();
    assert_eq!(MPCParameters::new(assembly, test_params()).err(), Some(Phase2Error::InvalidLength));
    let mut assembly = test_assembly();
    assembly.num_public_variables = 8;
    assert_eq!(MPCParameters::new(assembly, test_params()).err(), Some(Phase2Error::InvalidLength));
    let mut params = test_params();
    params.coeffs_g2.truncate(4);
    assert_eq!(MPCParameters::new(test_assembly(), params).err(), Some(Phase2Error::InvalidLength));
    assert!(eval(&test_assembly(), &test_params()).is_some());
}

#[test]
fn dot_product_is_the_linear_combination() {
    let coeffs = vec![g1(2), g1(3), g1(5)];
    let terms = vec![(scalar(7), 2), (scalar(11), 0), (scalar(13), 2)];
    assert_eq!(dot_product(&terms, &coeffs).unwrap(), g1(7 * 5 + 11 * 2 + 13 * 5));
    assert!(dot_product(&vec![], &coeffs).unwrap().is_zero());
    assert!(dot_product(&vec![(scalar(1), 3)], &coeffs).is_none());
}

#[test]
fn chunks_combine_to_the_parameters() {
    let mpc = contributed();
    for chunk_size in [1usize, 2, 3, 4, 5, 7, 8, 100] {
        let queries = mpc.query_parameters();
        let chunks = mpc.chunks(chunk_size);
        assert_eq!(chunks.len(), (7 + chunk_size - 1) / chunk_size);
        assert_eq!(MPCParameters::combine(&queries, &chunks).unwrap(), mpc);
    }
    let chunks = mpc.chunks(4);
    assert_eq!(chunks[0].params.h_query, mpc.params.h_query[..4].to_vec());
    assert_eq!(chunks[1].params.h_query, mpc.params.h_query[4..].to_vec());
    assert_eq!(chunks[0].params.l_query, mpc.params.l_query[..4].to_vec());
    assert_eq!(chunks[1].params.l_query, mpc.params.l_query[4..].to_vec());
    assert!(chunks[0].params.a_query.is_empty());
    assert_eq!(chunks[1].cs_hash, mpc.cs_hash);
    assert_eq!(chunks[1].contributions, mpc.contributions);
    assert_eq!(chunks[1].params.vk, mpc.params.vk);
    // a chunk may hold nothing of the shorter query
    let chunks = mpc.chunks(3);
    assert_eq!(chunks[2].params.h_query.len(), 1);
    assert!(chunks[2].params.l_query.is_empty());
    let queries = mpc.query_parameters();
    assert!(queries.h_query.is_empty());
    assert!(queries.l_query.is_empty());
    assert_eq!(queries.a_query, mpc.params.a_query);
}

#[test]
fn new_chunked_gives_the_parameters_and_their_chunks() {
    let (full, queries, chunks) = MPCParameters::new_chunked(test_assembly(), test_params(), 4).unwrap();
    assert_eq!(full, generate_ceremony());
    assert_eq!(queries, full.query_parameters());
    assert_eq!(chunks, full.chunks(4));
    assert_eq!(chunks.len(), 2);
    assert_eq!(MPCParameters::combine(&queries, &chunks).unwrap(), full);
    let mut assembly = test_assembly();
    assembly.at[6] = vec![];
    assembly.ct[6] = vec![];
    assert_eq!(
        MPCParameters::new_chunked(assembly, test_params(), 4).err(),
        Some(Phase2Error::UnconstrainedVariable)
    );
}

#[test]
fn contributing_chunk_by_chunk_is_contributing_to_the_whole() {
    let mpc = generate_ceremony();
    let secrets = [(424242u64, 77u64), (31337, 78), (271828, 79)];
    let mut whole = mpc.clone();
    let queries = mpc.query_parameters();
    let mut chunks = mpc.chunks(4);
    for (delta, s) in secrets {
        whole.contribute_with(scalar(delta), g1(s)).unwrap();
        for chunk in chunks.iter_mut() {
            chunk.contribute_with(scalar(delta), g1(s)).unwrap();
        }
    }
    let combined = MPCParameters::combine(&queries, &chunks).unwrap();
    assert_eq!(combined, whole);
    let mut combined_bytes = vec![];
    combined.write(&mut combined_bytes).unwrap();
    let mut whole_bytes = vec![];
    whole.write(&mut whole_bytes).unwrap();
    assert_eq!(combined_bytes, whole_bytes);
    assert_eq!(mpc.verify(&combined).unwrap().len(), 3);
}

#[test]
fn ranges_and_extensions_of_sequences() {
    let points = vec![g1(1), g1(2), g1(3), g1(4)];
    assert_eq!(clone_range(&points, 1, 3), vec![g1(2), g1(3)]);
    assert_eq!(clone_range(&points, 2, 2), vec![]);
    let mut out = vec![g1(9)];
    extend_points(&mut out, &points);
    assert_eq!(out, vec![g1(9), g1(1), g1(2), g1(3), g1(4)]);
}

#[test]
fn constraints_become_the_program() {
    let one = || scalar(1);
    let x = Index::Private(0);
    let out = Index::Public(1);
    let constant = Index::Public(0);
    let mut a = vec![vec![(one(), x)]];
    let mut b = vec![vec![(one(), x)]];
    let mut c = vec![vec![(one(), out)]];
    for i in 1..5 {
        a.push(vec![(one(), Index::Private(i))]);
        b.push(vec![(one(), constant)]);
        c.push(vec![(one(), Index::Private(i))]);
    }
    let circuit = Constraints { num_public_variables: 2, num_private_variables: 5, a, b, c };
    let assembly = circuit_to_qap(circuit).unwrap();
    let expected = test_assembly();
    let plain = |side: &Vec<Vec<(Scalar, usize)>>| -> Vec<Vec<(Vec<u8>, usize)>> {
        side.iter().map(|terms| terms.iter().map(|(s, k)| (s.to_bytes(), *k)).collect()).collect()
    };
    assert_eq!(assembly.num_public_variables, 2);
    assert_eq!(assembly.num_private_variables, 5);
    assert_eq!(plain(&assembly.at), plain(&expected.at));
    assert_eq!(plain(&assembly.bt), plain(&expected.bt));
    assert_eq!(plain(&assembly.ct), plain(&expected.ct));
    assert_eq!(MPCParameters::new(assembly, test_params()).unwrap(), generate_ceremony());
}

#[test]
fn constraints_that_name_no_variable_are_refused() {
    let one = || scalar(1);
    let circuit = Constraints {
        num_public_variables: 1,
        num_private_variables: 1,
        a: vec![vec![(one(), Index::Private(1))]],
        b: vec![vec![]],
        c: vec![vec![]],
    };
    assert_eq!(circuit_to_qap(circuit).err(), Some(Phase2Error::InvalidLength));
    let circuit = Constraints {
        num_public_variables: 1,
        num_private_variables: 1,
        a: vec![vec![(one(), Index::Public(1))]],
        b: vec![vec![]],
        c: vec![vec![]],
    };
    assert_eq!(circuit_to_qap(circuit).err(), Some(Phase2Error::InvalidLength));
    let circuit = Constraints {
        num_public_variables: 1,
        num_private_variables: 1,
        a: vec![vec![(one(), Index::Private(0))]],
        b: vec![],
        c: vec![vec![]],
    };
    assert_eq!(circuit_to_qap(circuit).err(), Some(Phase2Error::InvalidLength));
}
