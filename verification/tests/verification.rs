use phase2::chunked_groth16;
use phase2::curve::{G1Point, G2Point, Scalar};
use phase2::error::{InvariantKind, Phase2Error, RatioCheck};
use phase2::keypair::{hash_cs_pubkeys, Keypair, PublicKey};
use phase2::parameters::MPCParameters;
use phase2::polynomial::{Groth16Params, KeypairAssembly};
use phase2::verification::{
    contains_contribution, ensure_same_length, ensure_unchanged, ensure_unchanged_vec, merge_pairs,
    verify_transcript,
};

fn scalar(n: u64) -> Scalar {
    let mut bytes = vec![0u8; 32];
    bytes[..8].copy_from_slice(&n.to_le_bytes());
    Scalar::from_bytes(&bytes).unwrap()
}

fn g1(n: u64) -> G1Point {
    G1Point::generator().mul(&scalar(n))
}

fn g2(n: u64) -> G2Point {
    G2Point::generator().mul(&scalar(n))
}

/// A program with two public and five private variables and seven
/// constraints: `x * x = out`, one constraint for each of four further
/// private variables, and one for each public variable.
fn test_assembly() -> KeypairAssembly {
    let one = || scalar(1);
    let mut at: Vec<Vec<(Scalar, usize)>> = Vec::new();
    let mut bt: Vec<Vec<(Scalar, usize)>> = Vec::new();
    let mut ct: Vec<Vec<(Scalar, usize)>> = Vec::new();
    // the constant one
    at.push(vec![(one(), 5)]);
    bt.push(vec![(one(), 1), (one(), 2), (one(), 3), (one(), 4)]);
    ct.push(vec![]);
    // out
    at.push(vec![(one(), 6)]);
    bt.push(vec![]);
    ct.push(vec![(one(), 0)]);
    // x
    at.push(vec![(one(), 0)]);
    bt.push(vec![(one(), 0)]);
    ct.push(vec![]);
    // four more private variables
    for i in 1..5 {
        at.push(vec![(one(), i)]);
        bt.push(vec![]);
        ct.push(vec![(one(), i)]);
    }
    KeypairAssembly { num_public_variables: 2, num_private_variables: 5, at, bt, ct }
}

/// Stand-ins for the output of the first phase, for eight constraints.
fn test_params() -> Groth16Params {
    let size = 8u64;
    Groth16Params {
        alpha_g1: g1(3),
        beta_g1: g1(5),
        beta_g2: g2(5),
        coeffs_g1: (0..size).map(|k| g1(11 + k)).collect(),
        coeffs_g2: (0..size).map(|k| g2(11 + k)).collect(),
        alpha_coeffs_g1: (0..size).map(|k| g1(3 * (11 + k))).collect(),
        beta_coeffs_g1: (0..size).map(|k| g1(5 * (11 + k))).collect(),
        h_g1: (0..size - 1).map(|k| g1(101 + k)).collect(),
    }
}

fn generate_ceremony() -> MPCParameters {
    MPCParameters::new(test_assembly(), test_params()).unwrap()
}


fn contributed() -> (MPCParameters, MPCParameters) {
    let mpc = generate_ceremony();
    let mut after = mpc.clone();
    after.contribute_with(scalar(424242), g1(77)).unwrap();
    (mpc, after)
}

fn broken(kind: InvariantKind) -> Result<Vec<[u8; 64]>, Phase2Error> {
    Err(Phase2Error::BrokenInvariant(kind))
}

fn failed(check: RatioCheck) -> Result<Vec<[u8; 64]>, Phase2Error> {
    Err(Phase2Error::PairingCheckFailed(check))
}

#[test]
fn contribution_scales_delta_and_the_queries() {
    let (mpc, after) = contributed();
    let delta = scalar(424242);
    let inverse = delta.inverse().unwrap();
    assert_eq!(after.params.delta_g1, G1Point::generator().mul(&delta));
    assert_eq!(after.params.vk.delta_g2, G2Point::generator().mul(&delta));
    for (before, scaled) in mpc.params.h_query.iter().zip(&after.params.h_query) {
        assert_eq!(*scaled, before.mul(&inverse));
    }
    for (before, scaled) in mpc.params.l_query.iter().zip(&after.params.l_query) {
        assert_eq!(*scaled, before.mul(&inverse));
    }
    assert_eq!(after.params.a_query, mpc.params.a_query);
    assert_eq!(after.params.b_g1_query, mpc.params.b_g1_query);
    assert_eq!(after.params.b_g2_query, mpc.params.b_g2_query);
    assert_eq!(after.params.vk.gamma_abc_g1, mpc.params.vk.gamma_abc_g1);
    assert_eq!(after.cs_hash, mpc.cs_hash);
    assert_eq!(after.contributions.len(), 1);
    let key = &after.contributions[0];
    assert_eq!(key.delta_after, after.params.delta_g1);
    assert_eq!(key.s, g1(77));
    assert_eq!(key.s_delta, g1(77).mul(&delta));
    assert_eq!(key.transcript, hash_cs_pubkeys(&mpc.cs_hash, &[], &key.s, &key.s_delta));
}

#[test]
fn contribution_with_the_same_secret_is_the_same() {
    let (mpc, after) = contributed();
    let mut again = mpc.clone();
    let hash = again.contribute_with(scalar(424242), g1(77)).unwrap();
    assert_eq!(again, after);
    assert_eq!(hash, after.contributions[0].hash());
    let mut other = mpc.clone();
    other.contribute_with(scalar(424243), g1(77)).unwrap();
    assert_ne!(other, after);
}

#[test]
fn zero_secret_is_refused_and_changes_nothing() {
    let mpc = generate_ceremony();
    let mut after = mpc.clone();
    assert_eq!(after.contribute_with(scalar(0), g1(77)), Err(Phase2Error::ZeroScalar));
    assert_eq!(after, mpc);
}

#[test]
fn verification_with_given_coefficients() {
    let (mpc, after) = contributed();
    let rho_h: Vec<Scalar> = (1..8).map(scalar).collect();
    let rho_l: Vec<Scalar> = (11..16).map(scalar).collect();
    let hashes = mpc.verify_with(&after, &rho_h, &rho_l).unwrap();
    assert_eq!(hashes, vec![after.contributions[0].hash()]);
    assert_eq!(mpc.check_unchanged(&after), Ok(()));
    assert_eq!(mpc.check_queries(&after, &rho_h, &rho_l), Ok(()));
}

#[test]
fn merged_pairs_are_the_linear_combinations() {
    let a = vec![g1(2), g1(3), g1(5)];
    let b = vec![g1(20), g1(30), g1(50)];
    let rho = vec![scalar(7), scalar(11), scalar(13)];
    let (left, right) = merge_pairs(&a, &b, &rho);
    assert_eq!(left, g1(2 * 7 + 3 * 11 + 5 * 13));
    assert_eq!(right, g1(20 * 7 + 30 * 11 + 50 * 13));
    let (left, right) = merge_pairs(&vec![], &vec![], &vec![]);
    assert!(left.is_zero());
    assert!(right.is_zero());
}

#[test]
fn empty_contributions_never_verify() {
    let (mpc, after) = contributed();
    assert_eq!(mpc.verify(&mpc), Err(Phase2Error::NoContributions));
    assert_eq!(after.verify(&mpc), Err(Phase2Error::NoContributions));
}

#[test]
fn changed_delta_in_g1_is_detected() {
    let (mpc, mut after) = contributed();
    after.params.delta_g1 = g1(9);
    assert_eq!(mpc.verify(&after), broken(InvariantKind::DeltaG1));
}

#[test]
fn changed_delta_in_g2_is_detected() {
    let (mpc, mut after) = contributed();
    after.params.vk.delta_g2 = g2(9);
    assert_eq!(mpc.verify(&after), failed(RatioCheck::G2Delta));
}

#[test]
fn changed_earlier_contribution_is_detected() {
    let (_, first) = contributed();
    let mut second = first.clone();
    second.contribute_with(scalar(31337), g1(78)).unwrap();
    assert_eq!(first.verify(&second).unwrap().len(), 2);
    let mut changed = second.clone();
    changed.contributions[0].s = g1(1);
    assert_eq!(first.verify(&changed), broken(InvariantKind::Contributions));
    // more contributions before than after
    let mut shortened = second.clone();
    shortened.contributions.remove(0);
    assert_eq!(second.verify(&shortened), broken(InvariantKind::Contributions));
}

#[test]
fn changed_circuit_hash_is_detected() {
    let (mpc, mut after) = contributed();
    after.cs_hash[63] ^= 1;
    assert_eq!(mpc.verify(&after), broken(InvariantKind::CsHash));
}

#[test]
fn changed_query_length_is_detected() {
    let (mpc, mut after) = contributed();
    after.params.h_query.pop();
    assert_eq!(mpc.verify(&after), Err(Phase2Error::InvalidLength));
    let (mpc, mut after) = contributed();
    after.params.l_query.push(g1(1));
    assert_eq!(mpc.verify(&after), Err(Phase2Error::InvalidLength));
    let (mpc, mut after) = contributed();
    after.params.a_query.pop();
    assert_eq!(mpc.verify(&after), Err(Phase2Error::InvalidLength));
}

#[test]
fn changed_fixed_parts_are_detected() {
    let (mpc, after) = contributed();
    let mut changed = after.clone();
    changed.params.vk.alpha_g1 = g1(9);
    assert_eq!(mpc.verify(&changed), broken(InvariantKind::AlphaG1));
    let mut changed = after.clone();
    changed.params.beta_g1 = g1(9);
    assert_eq!(mpc.verify(&changed), broken(InvariantKind::BetaG1));
    let mut changed = after.clone();
    changed.params.vk.beta_g2 = g2(9);
    assert_eq!(mpc.verify(&changed), broken(InvariantKind::BetaG2));
    let mut changed = after.clone();
    changed.params.vk.gamma_g2 = g2(9);
    assert_eq!(mpc.verify(&changed), broken(InvariantKind::GammaG2));
    let mut changed = after.clone();
    changed.params.vk.gamma_abc_g1[1] = g1(9);
    assert_eq!(mpc.verify(&changed), broken(InvariantKind::GammaAbcG1));
    let mut changed = after.clone();
    changed.params.a_query[6] = g1(9);
    assert_eq!(mpc.verify(&changed), broken(InvariantKind::AlphaG1Query));
    let mut changed = after.clone();
    changed.params.b_g1_query[0] = g1(9);
    assert_eq!(mpc.verify(&changed), broken(InvariantKind::BetaG1Query));
    let mut changed = after.clone();
    changed.params.b_g2_query[0] = g2(9);
    assert_eq!(mpc.verify(&changed), broken(InvariantKind::BetaG2Query));
}

#[test]
fn changed_query_elements_are_detected() {
    let (mpc, after) = contributed();
    let mut changed = after.clone();
    changed.params.h_query[3] = g1(9);
    assert_eq!(mpc.verify(&changed), failed(RatioCheck::HQuery));
    let mut changed = after.clone();
    changed.params.l_query[4] = g1(9);
    assert_eq!(mpc.verify(&changed), failed(RatioCheck::LQuery));
    // queries that were not scaled at all
    let mut changed = after.clone();
    changed.params.h_query = mpc.params.h_query.clone();
    assert_eq!(mpc.verify(&changed), failed(RatioCheck::HQuery));
}

#[test]
fn changed_public_key_is_detected() {
    let (mpc, after) = contributed();
    let mut changed = after.clone();
    changed.contributions[0].transcript[17] ^= 0x80;
    assert_eq!(mpc.verify(&changed), broken(InvariantKind::Transcript));
    let mut changed = after.clone();
    changed.contributions[0].s = g1(9);
    assert_eq!(mpc.verify(&changed), broken(InvariantKind::Transcript));
    let mut changed = after.clone();
    changed.contributions[0].s_delta = g1(9);
    assert_eq!(mpc.verify(&changed), broken(InvariantKind::Transcript));
    let mut changed = after.clone();
    changed.contributions[0].r_delta = g2(9);
    assert_eq!(mpc.verify(&changed), failed(RatioCheck::SignatureOfKnowledge));
    let mut changed = after.clone();
    changed.contributions[0].delta_after = g1(9);
    assert_eq!(mpc.verify(&changed), broken(InvariantKind::DeltaG1));
}

#[test]
fn transcript_replay_follows_the_chain_of_deltas() {
    let (mpc, after) = contributed();
    assert_eq!(
        verify_transcript(mpc.cs_hash, &after.contributions),
        Ok(vec![after.contributions[0].hash()])
    );
    assert_eq!(verify_transcript(mpc.cs_hash, &[]), Ok(vec![]));
    // a key pair made for another delta than the generator
    let pair = Keypair::from_secret(&g1(5), &mpc.cs_hash, &[], scalar(17), g1(3)).unwrap();
    assert_eq!(
        verify_transcript(mpc.cs_hash, &[pair.public_key]),
        failed(RatioCheck::G1Delta)
    );
    // the same for the generator
    let pair = Keypair::from_secret(&G1Point::generator(), &mpc.cs_hash, &[], scalar(17), g1(3)).unwrap();
    assert_eq!(pair.public_key.delta_after, g1(17));
    assert!(verify_transcript(mpc.cs_hash, &[pair.public_key]).is_ok());
}

#[test]
fn prefix_of_a_valid_transcript_is_valid() {
    let (mpc, first) = contributed();
    let mut second = first.clone();
    second.contribute_with(scalar(31337), g1(78)).unwrap();
    let mut third = second.clone();
    third.contribute_with(scalar(271828), g1(79)).unwrap();
    let all = verify_transcript(mpc.cs_hash, &third.contributions).unwrap();
    assert_eq!(all.len(), 3);
    for k in 0..=3 {
        let part = verify_transcript(mpc.cs_hash, &third.contributions[..k]).unwrap();
        assert_eq!(part, all[..k].to_vec());
    }
    assert_eq!(third.cs_hash, mpc.cs_hash);
    assert_eq!(third.contributions[..2].to_vec(), second.contributions);
}

#[test]
fn helpers_tell_what_changed() {
    assert_eq!(ensure_same_length(&[1u8, 2], &[3u32, 4]), Ok(()));
    assert_eq!(ensure_same_length(&[1u8, 2], &[3u32]), Err(Phase2Error::InvalidLength));
    assert_eq!(ensure_unchanged(g1(2), g1(2), InvariantKind::BetaG1), Ok(()));
    assert_eq!(
        ensure_unchanged(g1(2), g1(3), InvariantKind::BetaG1),
        Err(Phase2Error::BrokenInvariant(InvariantKind::BetaG1))
    );
    assert_eq!(ensure_unchanged_vec(&[g1(2), g1(3)], &[g1(2), g1(3)], &InvariantKind::CsHash), Ok(()));
    assert_eq!(
        ensure_unchanged_vec(&[g1(2), g1(3)], &[g1(2), g1(4)], &InvariantKind::CsHash),
        Err(Phase2Error::BrokenInvariant(InvariantKind::CsHash))
    );
    assert_eq!(
        ensure_unchanged_vec(&[g1(2), g1(3)], &[g1(2)], &InvariantKind::CsHash),
        Err(Phase2Error::InvalidLength)
    );
    let hashes = [[1u8; 64], [2u8; 64]];
    assert!(contains_contribution(&hashes, &[2u8; 64]));
    assert!(!contains_contribution(&hashes, &[3u8; 64]));
    assert!(!contains_contribution(&[], &[3u8; 64]));
}

#[test]
fn error_texts() {
    assert_eq!(
        Phase2Error::NoContributions.to_string(),
        "Phase 2 Error: There were no contributions found"
    );
    assert_eq!(
        Phase2Error::PairingCheckFailed(RatioCheck::G2Delta).to_string(),
        "Inconsistent G2 Delta"
    );
    assert_eq!(RatioCheck::HQuery.message(), "H_query ratio check failed");
    assert_eq!(RatioCheck::LQuery.message(), "L_query ratio check failed");
    assert_eq!(RatioCheck::SignatureOfKnowledge.message(), "Incorrect signature of knowledge");
    assert_eq!(RatioCheck::G1Delta.message(), "Inconsistent G1 Delta");
}

#[test]
fn written_parameters_are_contributed_to_and_verified_in_batches() {
    let (mpc, after) = contributed();
    let mut before_bytes = vec![];
    mpc.write(&mut before_bytes).unwrap();
    let mut expected = vec![];
    after.write(&mut expected).unwrap();

    // the same contribution on the written form, for several batch sizes
    for batch_size in [1usize, 2, 3, 4, 7, 100] {
        let mut buffer = before_bytes.clone();
        buffer.resize(buffer.len() + PublicKey::size(), 0);
        let hash = chunked_groth16::contribute_with(&mut buffer, scalar(424242), g1(77), batch_size).unwrap();
        assert_eq!(buffer, expected);
        assert_eq!(hash, after.contributions[0].hash());
        assert_eq!(chunked_groth16::verify(&before_bytes, &buffer, batch_size).unwrap(), vec![hash]);
    }

    // with given coefficients
    let rho_h: Vec<Scalar> = (1..8).map(scalar).collect();
    let rho_l: Vec<Scalar> = (11..16).map(scalar).collect();
    assert_eq!(
        chunked_groth16::verify_with(&before_bytes, &expected, &rho_h, &rho_l, 3).unwrap(),
        mpc.verify_with(&after, &rho_h, &rho_l).unwrap()
    );
    assert_eq!(
        chunked_groth16::verify_with(&before_bytes, &expected, &rho_h, &rho_h, 3),
        Err(Phase2Error::InvalidLength)
    );

    // no room for the public key
    let mut buffer = before_bytes.clone();
    buffer.resize(buffer.len() + PublicKey::size() - 1, 0);
    let unchanged = buffer.clone();
    assert_eq!(
        chunked_groth16::contribute_with(&mut buffer, scalar(424242), g1(77), 4),
        Err(Phase2Error::Io)
    );
    assert_eq!(buffer, unchanged);

    // more room than needed stays behind the parameters
    let mut buffer = before_bytes.clone();
    buffer.resize(buffer.len() + PublicKey::size(), 0);
    buffer.extend_from_slice(&[9, 9, 9]);
    chunked_groth16::contribute_with(&mut buffer, scalar(424242), g1(77), 4).unwrap();
    assert_eq!(buffer[..expected.len()].to_vec(), expected);
    assert_eq!(buffer[expected.len()..].to_vec(), vec![9, 9, 9]);

    // failures are those of the verification of what is written
    assert_eq!(
        chunked_groth16::verify(&before_bytes, &before_bytes, 4),
        Err(Phase2Error::NoContributions)
    );
    let mut changed = after.clone();
    changed.params.h_query[6] = g1(9);
    let mut changed_bytes = vec![];
    changed.write(&mut changed_bytes).unwrap();
    assert_eq!(
        chunked_groth16::verify(&before_bytes, &changed_bytes, 4),
        failed(RatioCheck::HQuery)
    );
    let mut changed = after.clone();
    changed.params.b_g2_query[5] = g2(9);
    let mut changed_bytes = vec![];
    changed.write(&mut changed_bytes).unwrap();
    assert_eq!(
        chunked_groth16::verify(&before_bytes, &changed_bytes, 2),
        broken(InvariantKind::BetaG2Query)
    );
    assert_eq!(
        chunked_groth16::verify(&before_bytes[..100], &expected, 4),
        Err(Phase2Error::Io)
    );
    let mut zero_secret = before_bytes.clone();
    zero_secret.resize(zero_secret.len() + PublicKey::size(), 0);
    assert_eq!(
        chunked_groth16::contribute_with(&mut zero_secret, scalar(0), g1(77), 4),
        Err(Phase2Error::ZeroScalar)
    );
}
