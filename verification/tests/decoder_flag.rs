use phase2::codec::CheckForCorrectness;
use phase2::curve::{G1Point, G2Point};
use phase2::error::Phase2Error;
use phase2::parameters::MPCParameters;
use phase2::polynomial::{Groth16Params, KeypairAssembly};
use phase2::serialization::SubgroupCheckMode;
use phase2::UseCompression;
use snarkvm_curves::bls12_377::{Fq, Fq2, G1Affine, G2Affine};
use snarkvm_curves::AffineCurve;
use snarkvm_fields::{One, Zero};
use snarkvm_utilities::{CanonicalDeserialize, CanonicalSerialize, PROCESSING_SNARK_PARAMS};
use std::sync::atomic::Ordering;

/// Switches off the subgroup test of the compressed decoder of the curve
/// library, for the thread of the test.
fn switch_test_off() {
    PROCESSING_SNARK_PARAMS.with(|flag| flag.store(true, Ordering::Relaxed));
}

/// The compressed encoding of a point of the curve outside the subgroup.
fn g1_outside_subgroup() -> Vec<u8> {
    let mut x = Fq::one();
    loop {
        if let Some(point) = G1Affine::from_x_coordinate(x, false) {
            if !point.is_in_correct_subgroup_assuming_on_curve() {
                let mut bytes = vec![];
                point.serialize(&mut bytes).unwrap();
                return bytes;
            }
        }
        x += Fq::one();
    }
}

/// The same in G2.
fn g2_outside_subgroup() -> Vec<u8> {
    let mut x = Fq2::new(Fq::one(), Fq::zero());
    loop {
        if let Some(point) = G2Affine::from_x_coordinate(x, false) {
            if !point.is_in_correct_subgroup_assuming_on_curve() {
                let mut bytes = vec![];
                point.serialize(&mut bytes).unwrap();
                return bytes;
            }
        }
        x += Fq2::new(Fq::one(), Fq::zero());
    }
}

#[test]
fn points_outside_the_subgroup_are_refused_whatever_the_thread_switched_off() {
    let g1 = g1_outside_subgroup();
    let g2 = g2_outside_subgroup();
    // with the test on, the curve library refuses them itself
    assert!(G1Affine::deserialize(&mut &g1[..]).is_err());
    assert!(G2Affine::deserialize(&mut &g2[..]).is_err());
    assert!(G1Point::from_compressed(&g1).is_none());
    assert!(G2Point::from_compressed(&g2).is_none());
    // with the test off, it accepts them, and the library still does not
    switch_test_off();
    assert!(G1Affine::deserialize(&mut &g1[..]).is_ok());
    assert!(G2Affine::deserialize(&mut &g2[..]).is_ok());
    assert!(G1Point::from_compressed(&g1).is_none());
    assert!(G2Point::from_compressed(&g2).is_none());
    // elements of the subgroup read as before
    let p = G1Point::generator();
    assert_eq!(G1Point::from_compressed(&p.to_compressed()).unwrap(), p);
    let q = G2Point::generator();
    assert_eq!(G2Point::from_compressed(&q.to_compressed()).unwrap(), q);
    assert_eq!(G1Point::from_compressed(&G1Point::zero().to_compressed()).unwrap(), G1Point::zero());
}

#[test]
fn written_parameters_with_a_point_outside_the_subgroup_are_refused() {
    let g = G1Point::generator();
    let h = G2Point::generator();
    let assembly = KeypairAssembly {
        num_public_variables: 1,
        num_private_variables: 0,
        at: vec![vec![]],
        bt: vec![vec![]],
        ct: vec![vec![]],
    };
    let params = Groth16Params {
        alpha_g1: g.clone(),
        beta_g1: g.clone(),
        beta_g2: h.clone(),
        coeffs_g1: vec![g.clone()],
        coeffs_g2: vec![h.clone()],
        alpha_coeffs_g1: vec![g.clone()],
        beta_coeffs_g1: vec![g.clone()],
        h_g1: vec![],
    };
    let mpc = MPCParameters::new(assembly, params).unwrap();
    let mut bytes = vec![];
    mpc.write(&mut bytes).unwrap();
    assert_eq!(MPCParameters::read(&bytes).unwrap(), mpc);
    // alpha in G1 is the first element of the written form
    let outside = g1_outside_subgroup();
    bytes[..48].copy_from_slice(&outside);
    switch_test_off();
    assert_eq!(MPCParameters::read(&bytes), Err(Phase2Error::Deserialization));
    assert_eq!(
        MPCParameters::read_fast(
            &bytes,
            UseCompression::Yes,
            CheckForCorrectness::No,
            false,
            SubgroupCheckMode::No
        ),
        Err(Phase2Error::Deserialization)
    );
}
