use phase2::curve::{G1Point, G2Point, Scalar};
use phase2::key::ProvingKey;
use phase2::parameters::MPCParameters;
use phase2::polynomial::Groth16Params;
use phase2::qap::{circuit_to_qap, Constraints, Index};
use phase2::UseCompression;
use snarkvm_algorithms::fft::EvaluationDomain;
use snarkvm_algorithms::snark::groth16;
use snarkvm_curves::bls12_377::{Bls12_377, Fr, G1Affine, G2Affine};
use snarkvm_fields::{Field, One, PrimeField};
use snarkvm_r1cs::{ConstraintSynthesizer, ConstraintSystem, SynthesisError};
use snarkvm_utilities::{CanonicalDeserialize, CanonicalSerialize};

/// Knowledge of a square root, with four more private variables.
struct TestCircuit(Option<Fr>);

impl ConstraintSynthesizer<Fr> for TestCircuit {
    fn generate_constraints<CS: ConstraintSystem<Fr>>(&self, cs: &mut CS) -> Result<(), SynthesisError> {
        let x_value = self.0;
        let x = cs.alloc(|| "x", || x_value.ok_or(SynthesisError::AssignmentMissing))?;
        let out = cs.alloc_input(
            || "square",
            || x_value.map(|x| x * x).ok_or(SynthesisError::AssignmentMissing),
        )?;
        cs.enforce(|| "x * x = x^2", |lc| lc + x, |lc| lc + x, |lc| lc + out);
        for _ in 0..4 {
            let d = cs.alloc(|| "dummy", || x_value.ok_or(SynthesisError::AssignmentMissing))?;
            cs.enforce(|| "d * 1 = d", |lc| lc + d, |lc| lc + CS::one(), |lc| lc + d);
        }
        Ok(())
    }
}

fn fr(n: u64) -> Fr {
    Fr::from_repr(n.into()).unwrap()
}

fn scalar(value: &Fr) -> Scalar {
    let mut bytes = vec![];
    value.serialize(&mut bytes).unwrap();
    Scalar::from_bytes(&bytes).unwrap()
}

fn g1(value: Fr) -> G1Point {
    G1Point::generator().mul(&scalar(&value))
}

fn g2(value: Fr) -> G2Point {
    G2Point::generator().mul(&scalar(&value))
}

fn affine1(point: &G1Point) -> G1Affine {
    G1Affine::deserialize_uncompressed(&mut &point.to_bytes()[..]).unwrap()
}

fn affine2(point: &G2Point) -> G2Affine {
    G2Affine::deserialize_uncompressed(&mut &point.to_bytes()[..]).unwrap()
}

fn rows(side: &[Vec<(Fr, snarkvm_r1cs::Index)>]) -> Vec<Vec<(Scalar, Index)>> {
    side.iter()
        .map(|row| {
            row.iter()
                .map(|(coefficient, variable)| {
                    let variable = match variable {
                        snarkvm_r1cs::Index::Public(i) => Index::Public(*i),
                        snarkvm_r1cs::Index::Private(i) => Index::Private(*i),
                    };
                    (scalar(coefficient), variable)
                })
                .collect()
        })
        .collect()
}

fn synthesize(circuit: &TestCircuit) -> Constraints {
    let mut assembly = groth16::KeypairAssembly::<Bls12_377> {
        num_public_variables: 0,
        num_private_variables: 0,
        at: vec![],
        bt: vec![],
        ct: vec![],
    };
    assembly.alloc_input(|| "", || Ok(Fr::one())).unwrap();
    circuit.generate_constraints(&mut assembly).unwrap();
    Constraints {
        num_public_variables: assembly.num_public_variables,
        num_private_variables: assembly.num_private_variables,
        a: rows(&assembly.at),
        b: rows(&assembly.bt),
        c: rows(&assembly.ct),
    }
}

/// The output of a first phase with the secrets `tau`, `alpha` and `beta`,
/// for a circuit of `size` constraints.
fn first_phase(size: usize, tau: Fr, alpha: Fr, beta: Fr) -> Groth16Params {
    let domain = EvaluationDomain::<Fr>::new(size).unwrap();
    let lagrange = domain.evaluate_all_lagrange_coefficients(tau);
    let vanishing = domain.evaluate_vanishing_polynomial(tau);
    Groth16Params {
        alpha_g1: g1(alpha),
        beta_g1: g1(beta),
        beta_g2: g2(beta),
        coeffs_g1: lagrange.iter().map(|u| g1(*u)).collect(),
        coeffs_g2: lagrange.iter().map(|u| g2(*u)).collect(),
        alpha_coeffs_g1: lagrange.iter().map(|u| g1(alpha * u)).collect(),
        beta_coeffs_g1: lagrange.iter().map(|u| g1(beta * u)).collect(),
        h_g1: (0..domain.size() - 1).map(|i| g1(vanishing * tau.pow([i as u64]))).collect(),
    }
}

fn to_snarkvm(key: &ProvingKey) -> groth16::ProvingKey<Bls12_377> {
    groth16::ProvingKey {
        vk: groth16::VerifyingKey {
            alpha_g1: affine1(&key.vk.alpha_g1),
            beta_g2: affine2(&key.vk.beta_g2),
            gamma_g2: affine2(&key.vk.gamma_g2),
            delta_g2: affine2(&key.vk.delta_g2),
            gamma_abc_g1: key.vk.gamma_abc_g1.iter().map(affine1).collect(),
        },
        beta_g1: affine1(&key.beta_g1),
        delta_g1: affine1(&key.delta_g1),
        a_query: key.a_query.iter().map(affine1).collect(),
        b_g1_query: key.b_g1_query.iter().map(affine1).collect(),
        b_g2_query: key.b_g2_query.iter().map(affine2).collect(),
        h_query: key.h_query.iter().map(affine1).collect(),
        l_query: key.l_query.iter().map(affine1).collect(),
    }
}

fn ceremony() -> MPCParameters {
    let constraints = synthesize(&TestCircuit(None));
    assert_eq!(constraints.a.len(), 5);
    assert_eq!(constraints.num_public_variables, 2);
    assert_eq!(constraints.num_private_variables, 5);
    let assembly = circuit_to_qap(constraints).unwrap();
    // the circuit requires 7 constraints
    let params = first_phase(7, fr(0x1234567), fr(0x7654321), fr(0xabcdef));
    assert_eq!(params.coeffs_g1.len(), 8);
    assert_eq!(params.h_g1.len(), 7);
    MPCParameters::new(assembly, params).unwrap()
}

fn proves(mpc: &MPCParameters) -> bool {
    let key = to_snarkvm(mpc.get_params());
    let rng = &mut rand::thread_rng();
    let proof = groth16::create_random_proof(&TestCircuit(Some(fr(3))), &key, rng).unwrap();
    let pvk = groth16::prepare_verifying_key(key.vk.clone());
    let accepted = groth16::verify_proof(&pvk, &proof, &[fr(9)]).unwrap();
    let refused = !groth16::verify_proof(&pvk, &proof, &[fr(10)]).unwrap();
    accepted && refused
}

#[test]
fn parameters_of_the_ceremony_prove_and_verify() {
    let mpc = ceremony();
    // before any contribution the key is a key for delta = 1
    assert!(proves(&mpc));
    let mut first = mpc.clone();
    first.contribute(&mut rand::thread_rng()).unwrap();
    assert!(proves(&first));
    let mut second = first.clone();
    second.contribute_with(scalar(&fr(0xdeadbeef)), g1(fr(99))).unwrap();
    assert!(proves(&second));
    assert_eq!(mpc.verify(&second).unwrap().len(), 2);
    // a key whose queries were not scaled with delta proves nothing
    let mut broken = second.clone();
    broken.params.h_query = mpc.params.h_query.clone();
    broken.params.l_query = mpc.params.l_query.clone();
    assert!(!proves(&broken));
}

#[test]
fn written_key_is_read_by_the_circuit_library() {
    let mut mpc = ceremony();
    mpc.contribute_with(scalar(&fr(0xdeadbeef)), g1(fr(99))).unwrap();
    let expected = to_snarkvm(mpc.get_params());

    let mut short = vec![];
    mpc.params.write(&mut short, UseCompression::Yes);
    let read = groth16::ProvingKey::<Bls12_377>::deserialize(&mut &short[..]).unwrap();
    assert_eq!(read, expected);
    let mut written = vec![];
    expected.serialize(&mut written).unwrap();
    assert_eq!(written, short);

    let mut long = vec![];
    mpc.params.write(&mut long, UseCompression::No);
    let read = groth16::ProvingKey::<Bls12_377>::deserialize_uncompressed(&mut &long[..]).unwrap();
    assert_eq!(read, expected);
    let mut written = vec![];
    expected.serialize_uncompressed(&mut written).unwrap();
    assert_eq!(written, long);

    // the parameters begin with the key
    let mut all = vec![];
    mpc.write(&mut all).unwrap();
    assert_eq!(all[..short.len()].to_vec(), short);
}
