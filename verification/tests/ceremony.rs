use phase2::chunked_groth16::{contribute, verify};
use phase2::curve::{G1Point, G2Point, Scalar};
use phase2::keypair::PublicKey;
use phase2::error::{InvariantKind, Phase2Error};
use phase2::parameters::MPCParameters;
use phase2::polynomial::{Groth16Params, KeypairAssembly};
use phase2::verification::contains_contribution;
use rand::thread_rng;

fn scalar(n: u64) -> Scalar {
    let mut bytes = vec![0u8; 32];
    bytes[..8].copy_from_slice(&n.to_le_bytes());
    Scalar::from_bytes(&bytes).unwrap()
}

fn g1(n: u64) -> G1Point {
    G1Point::generator().mul(&scalar(n))
}

fn g2(n: u64) -> G2Point {
    G2Point::generator().mul(&scalar(n))
}

/// A program with two public and five private variables and seven
/// constraints: `x * x = out`, one constraint for each of four further
/// private variables, and one for each public variable.
fn test_assembly() -> KeypairAssembly {
    let one = || scalar(1);
    let mut at: Vec<Vec<(Scalar, usize)>> = Vec::new();
    let mut bt: Vec<Vec<(Scalar, usize)>> = Vec::new();
    let mut ct: Vec<Vec<(Scalar, usize)>> = Vec::new();
    // the constant one
    at.push(vec![(one(), 5)]);
    bt.push(vec![(one(), 1), (one(), 2), (one(), 3), (one(), 4)]);
    ct.push(vec![]);
    // out
    at.push(vec![(one(), 6)]);
    bt.push(vec![]);
    ct.push(vec![(one(), 0)]);
    // x
    at.push(vec![(one(), 0)]);
    bt.push(vec![(one(), 0)]);
    ct.push(vec![]);
    // four more private variables
    for i in 1..5 {
        at.push(vec![(one(), i)]);
        bt.push(vec![]);
        ct.push(vec![(one(), i)]);
    }
    KeypairAssembly { num_public_variables: 2, num_private_variables: 5, at, bt, ct }
}

/// Stand-ins for the output of the first phase, for eight constraints.
fn test_params() -> Groth16Params {
    let size = 8u64;
    Groth16Params {
        alpha_g1: g1(3),
        beta_g1: g1(5),
        beta_g2: g2(5),
        coeffs_g1: (0..size).map(|k| g1(11 + k)).collect(),
        coeffs_g2: (0..size).map(|k| g2(11 + k)).collect(),
        alpha_coeffs_g1: (0..size).map(|k| g1(3 * (11 + k))).collect(),
        beta_coeffs_g1: (0..size).map(|k| g1(5 * (11 + k))).collect(),
        h_g1: (0..size - 1).map(|k| g1(101 + k)).collect(),
    }
}

fn generate_ceremony() -> MPCParameters {
    MPCParameters::new(test_assembly(), test_params()).unwrap()
}

#[test]
fn serialize_ceremony() {
    let mpc = generate_ceremony();

    let mut writer = vec![];
    mpc.write(&mut writer).unwrap();
    let mut reader = vec![0; writer.len()];
    reader.copy_from_slice(&writer);
    let deserialized = MPCParameters::read(&reader[..]).unwrap();
    assert_eq!(deserialized, mpc)
}

#[test]
fn verify_with_self_fails() {
    let mpc = generate_ceremony();
    let err = mpc.verify(&mpc);
    if let Err(e) = err {
        assert_eq!(e.to_string(), "Phase 2 Error: There were no contributions found");
    } else {
        panic!("Verifying with self must fail")
    }
}

#[test]
fn initial_parameters_have_the_expected_shape() {
    let mpc = generate_ceremony();
    let key = mpc.get_params();
    assert_eq!(key.a_query.len(), 7);
    assert_eq!(key.b_g1_query.len(), 7);
    assert_eq!(key.b_g2_query.len(), 7);
    assert_eq!(key.vk.gamma_abc_g1.len(), 2);
    assert_eq!(key.l_query.len(), 5);
    assert_eq!(key.h_query.len(), 7);
    assert_eq!(key.delta_g1, G1Point::generator());
    assert_eq!(key.vk.delta_g2, G2Point::generator());
    assert_eq!(key.vk.gamma_g2, G2Point::generator());
    assert_eq!(key.vk.alpha_g1, g1(3));
    // a_query of x is the coefficient of constraint 0
    assert_eq!(key.a_query[2], g1(11));
    // b query of the constant one is the sum of the coefficients 1 to 4
    assert_eq!(key.b_g1_query[0], g1(12 + 13 + 14 + 15));
    assert_eq!(key.b_g2_query[0], g2(12 + 13 + 14 + 15));
    // a variable on no left side has the point at infinity
    assert!(key.b_g1_query[1].is_zero());
    // l of x: beta * c0 + alpha * c0
    assert_eq!(key.l_query[0], g1(5 * 11 + 3 * 11));
    assert!(mpc.contributions.is_empty());
}

#[test]
fn single_contribution_verifies() {
    let rng = &mut thread_rng();
    let mpc = generate_ceremony();
    let mut contribution1 = mpc.clone();
    let hash = contribution1.contribute(rng).unwrap();
    let hashes = mpc.verify(&contribution1).unwrap();
    assert_eq!(hashes.len(), 1);
    assert_eq!(hashes[0].len(), 64);
    assert!(contains_contribution(&hashes, &hash));
    assert_eq!(contribution1.cs_hash, mpc.cs_hash);
}

#[test]
fn chained_contributions_verify() {
    let mpc = generate_ceremony();
    let mut c1 = mpc.clone();
    let h1 = c1.contribute(&mut thread_rng()).unwrap();
    let mut c2 = c1.clone();
    let h2 = c2.contribute(&mut thread_rng()).unwrap();
    let mut c3 = c2.clone();
    let h3 = c3.contribute(&mut thread_rng()).unwrap();
    assert_eq!(mpc.verify(&c1).unwrap(), vec![h1]);
    assert_eq!(c1.verify(&c2).unwrap(), vec![h1, h2]);
    assert_eq!(c2.verify(&c3).unwrap(), vec![h1, h2, h3]);
    assert_eq!(mpc.verify(&c3).unwrap(), vec![h1, h2, h3]);
    assert_eq!(c1.verify(&c3).unwrap(), vec![h1, h2, h3]);
    assert_eq!(c3.cs_hash, mpc.cs_hash);
}

#[test]
fn prefix_tamper_is_detected() {
    let mpc = generate_ceremony();
    let mut c2 = mpc.clone();
    c2.contribute(&mut thread_rng()).unwrap();
    c2.contribute(&mut thread_rng()).unwrap();
    c2.contributions[0].transcript[0] = !c2.contributions[0].transcript[0];
    assert_eq!(
        mpc.verify(&c2),
        Err(Phase2Error::BrokenInvariant(InvariantKind::Transcript))
    );
}

#[test]
fn verify_contribution() {
    let rng = &mut thread_rng();
    // the parameters before any contribution
    let mpc = generate_ceremony();
    let mut mpc_serialized = vec![];
    mpc.write(&mut mpc_serialized).unwrap();
    let mut mpc_cursor = std::io::Cursor::new(mpc_serialized.clone());

    // first contribution
    let mut contribution1 = mpc.clone();
    contribution1.contribute(rng).unwrap();
    let mut c1_serialized = vec![];
    contribution1.write(&mut c1_serialized).unwrap();
    let mut c1_cursor = std::io::Cursor::new(c1_serialized.clone());

    // verify it against the previous step
    mpc.verify(&contribution1).unwrap();
    verify(&mpc_serialized, &c1_serialized, 4).unwrap();
    // after each call on the cursors the cursor's position is at the end,
    // so we have to reset it for further testing!
    mpc_cursor.set_position(0);
    c1_cursor.set_position(0);

    // second contribution via batched method
    let mut c2_buf = c1_serialized.clone();
    c2_buf.resize(c2_buf.len() + PublicKey::size(), 0); // make the buffer larger by 1 contribution
    contribute(&mut c2_buf, rng, 4).unwrap();
    let mut c2_cursor = std::io::Cursor::new(c2_buf.clone());
    c2_cursor.set_position(0);

    // verify it against the previous step
    verify(&c1_serialized, &c2_buf, 4).unwrap();
    c1_cursor.set_position(0);
    c2_cursor.set_position(0);

    // verify it against the parameters before any contribution
    verify(&mpc_serialized, &c2_buf, 4).unwrap();
    mpc_cursor.set_position(0);
    c2_cursor.set_position(0);

    // the de-serialized versions are also compatible
    let contribution2 = MPCParameters::read(c2_cursor.get_ref()).unwrap();
    c2_cursor.set_position(0);
    mpc.verify(&contribution2).unwrap();
    contribution1.verify(&contribution2).unwrap();

    // third contribution
    let mut contribution3 = contribution2.clone();
    contribution3.contribute(rng).unwrap();

    // it's a valid contribution against all previous steps
    mpc.verify(&contribution3).unwrap();
    contribution1.verify(&contribution3).unwrap();
    contribution2.verify(&contribution3).unwrap();
}
