use phase2::codec::{write_point, CheckForCorrectness};
use phase2::curve::{G1Point, G2Point, Scalar};
use phase2::error::Phase2Error;
use phase2::hash::blake2b;
use phase2::parameters::MPCParameters;
use phase2::polynomial::Groth16Params;
use phase2::qap::{Constraints, Index};
use phase2::transform::{
    calculate_hash, expected_challenge_length, expected_response_length, plan_new_challenge,
    response_follows_challenge, NewChallenge, Phase1Sizes,
};
use phase2::UseCompression;

fn scalar(n: u64) -> Scalar {
    let mut bytes = vec![0u8; 32];
    bytes[..8].copy_from_slice(&n.to_le_bytes());
    Scalar::from_bytes(&bytes).unwrap()
}

fn g1(n: u64) -> G1Point {
    G1Point::generator().mul(&scalar(n))
}

fn g2(n: u64) -> G2Point {
    G2Point::generator().mul(&scalar(n))
}

/// The output of a first phase of size `phase1_size`, written without
/// lengths.
fn phase1_output(phase1_size: u64, compressed: UseCompression) -> Vec<u8> {
    let mut out = vec![];
    write_point(&mut out, &g1(3), compressed);
    write_point(&mut out, &g1(5), compressed);
    write_point(&mut out, &g2(5), compressed);
    for k in 0..phase1_size {
        write_point(&mut out, &g1(11 + k), compressed);
    }
    for k in 0..phase1_size {
        write_point(&mut out, &g2(11 + k), compressed);
    }
    for k in 0..phase1_size {
        write_point(&mut out, &g1(3 * (11 + k)), compressed);
    }
    for k in 0..phase1_size {
        write_point(&mut out, &g1(5 * (11 + k)), compressed);
    }
    for k in 0..phase1_size - 1 {
        write_point(&mut out, &g1(101 + k), compressed);
    }
    out
}

fn test_circuit() -> Constraints {
    let one = || scalar(1);
    let x = Index::Private(0);
    let mut a = vec![vec![(one(), x)]];
    let mut b = vec![vec![(one(), x)]];
    let mut c = vec![vec![(one(), Index::Public(1))]];
    for i in 1..5 {
        a.push(vec![(one(), Index::Private(i))]);
        b.push(vec![(one(), Index::Public(0))]);
        c.push(vec![(one(), Index::Private(i))]);
    }
    Constraints { num_public_variables: 2, num_private_variables: 5, a, b, c }
}

#[test]
fn output_of_the_first_phase_is_read_as_far_as_needed() {
    for compressed in [UseCompression::Yes, UseCompression::No] {
        let bytes = phase1_output(32, compressed);
        let params = Groth16Params::read(&bytes, compressed, CheckForCorrectness::Full, 32, 8).unwrap();
        assert_eq!(params.alpha_g1, g1(3));
        assert_eq!(params.beta_g1, g1(5));
        assert_eq!(params.beta_g2, g2(5));
        assert_eq!(params.coeffs_g1, (0..8).map(|k| g1(11 + k)).collect::<Vec<_>>());
        assert_eq!(params.coeffs_g2, (0..8).map(|k| g2(11 + k)).collect::<Vec<_>>());
        assert_eq!(params.alpha_coeffs_g1, (0..8).map(|k| g1(3 * (11 + k))).collect::<Vec<_>>());
        assert_eq!(params.beta_coeffs_g1, (0..8).map(|k| g1(5 * (11 + k))).collect::<Vec<_>>());
        assert_eq!(params.h_g1, (0..7).map(|k| g1(101 + k)).collect::<Vec<_>>());
        let whole = Groth16Params::read(&bytes, compressed, CheckForCorrectness::No, 32, 32).unwrap();
        assert_eq!(whole.coeffs_g1.len(), 32);
        assert_eq!(whole.h_g1.len(), 31);
        assert_eq!(whole.h_g1[30], g1(101 + 30));
        assert_eq!(
            Groth16Params::read(&bytes, compressed, CheckForCorrectness::No, 32, 33).err(),
            Some(Phase2Error::InvalidLength)
        );
        assert_eq!(
            Groth16Params::read(&bytes[..bytes.len() - 1], compressed, CheckForCorrectness::No, 32, 8).err(),
            Some(Phase2Error::Io)
        );
        // read with the wrong size, the sections are not where they are looked for
        assert!(Groth16Params::read(&bytes, compressed, CheckForCorrectness::No, 33, 8).is_err());
    }
}

#[test]
fn parameters_from_a_circuit_and_a_buffer() {
    let bytes = phase1_output(32, UseCompression::No);
    let mpc = MPCParameters::new_from_buffer(
        test_circuit(),
        &bytes,
        UseCompression::No,
        CheckForCorrectness::Full,
        32,
        8,
    )
    .unwrap();
    assert_eq!(mpc.params.h_query.len(), 7);
    assert_eq!(mpc.params.l_query.len(), 5);
    assert_eq!(mpc.params.a_query[2], g1(11));
    assert_eq!(mpc.params.l_query[0], g1(5 * 11 + 3 * 11));
    let (full, queries, chunks) = MPCParameters::new_from_buffer_chunked(
        test_circuit(),
        &bytes,
        UseCompression::No,
        CheckForCorrectness::Full,
        32,
        8,
        4,
    )
    .unwrap();
    assert_eq!(full, mpc);
    assert_eq!(chunks.len(), 2);
    assert_eq!(MPCParameters::combine(&queries, &chunks).unwrap(), mpc);
    // a circuit that is larger than what was read of the first phase
    assert_eq!(
        MPCParameters::new_from_buffer(test_circuit(), &bytes, UseCompression::No, CheckForCorrectness::Full, 32, 6).err(),
        Some(Phase2Error::InvalidLength)
    );
    // a buffer that is no output of the first phase
    assert_eq!(
        MPCParameters::new_from_buffer(test_circuit(), &bytes[1..], UseCompression::No, CheckForCorrectness::Full, 32, 8).err(),
        Some(Phase2Error::Deserialization)
    );
}

#[test]
fn lengths_of_the_files_of_the_first_phase() {
    let sizes = Phase1Sizes { accumulator_size: 1000, contribution_size: 600, public_key_size: 100 };
    assert_eq!(expected_challenge_length(UseCompression::Yes, &sizes), Some(500));
    assert_eq!(expected_challenge_length(UseCompression::No, &sizes), Some(1000));
    assert_eq!(expected_response_length(UseCompression::Yes, &sizes), Some(600));
    assert_eq!(expected_response_length(UseCompression::No, &sizes), Some(1100));
    let odd = Phase1Sizes { accumulator_size: usize::MAX, contribution_size: 10, public_key_size: 100 };
    assert_eq!(expected_challenge_length(UseCompression::Yes, &odd), None);
    assert_eq!(expected_response_length(UseCompression::No, &odd), None);
    assert_eq!(
        plan_new_challenge(UseCompression::No, UseCompression::No, &sizes),
        Some(NewChallenge::Copy { length: 1100 })
    );
    assert_eq!(
        plan_new_challenge(UseCompression::Yes, UseCompression::Yes, &sizes),
        Some(NewChallenge::Copy { length: 1100 })
    );
    assert_eq!(
        plan_new_challenge(UseCompression::No, UseCompression::Yes, &sizes),
        Some(NewChallenge::Decompress { length: 1000 })
    );
    assert_eq!(plan_new_challenge(UseCompression::No, UseCompression::No, &odd), None);
}

#[test]
fn response_must_begin_with_the_digest_of_the_challenge() {
    let challenge = b"the challenge".to_vec();
    let digest = calculate_hash(&challenge);
    assert_eq!(digest, blake2b(&challenge));
    let mut response = digest.to_vec();
    response.extend_from_slice(b"the response");
    assert!(response_follows_challenge(&response, &digest));
    assert!(response_follows_challenge(&digest, &digest));
    assert!(!response_follows_challenge(&response[..63], &digest));
    response[5] ^= 1;
    assert!(!response_follows_challenge(&response, &digest));
}
