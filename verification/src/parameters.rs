//! The parameters of the ceremony: the proving key, the digest that binds
//! it to its circuit, and the contributions made so far.

use crate::bytes::bytes_equal;
use crate::codec::encodings;
use crate::curve::{has_infinity_flag, G1Point, G2Point, G1_GENERATOR, G2_GENERATOR};
use crate::error::Phase2Error;
use crate::hash::{blake2b, blake2b_512};
use crate::key::{ProvingKey, ProvingKeyView, VerifyingKey, VerifyingKeyView};
use crate::keypair::{clone_keys, key_views, PublicKey, PublicKeyView};
use crate::polynomial::{
    eval, eval_defined, spec_eval, AssemblyView, Groth16Params, Groth16ParamsView, KeypairAssembly,
};
use crate::UseCompression;
use vstd::prelude::*;
use vstd::std_specs::cmp::PartialEqSpecImpl;

pub use crate::qap::circuit_to_qap;
pub use crate::verification::{
    contains_contribution, ensure_same_length, ensure_unchanged, ensure_unchanged_vec,
    verify_transcript,
};

verus! {

/// A proving key together with the transcript of the contributions that
/// shaped it.
#[derive(Debug)]
pub struct MPCParameters {
    pub params: ProvingKey,
    /// The digest of the key as it was before any contribution.
    pub cs_hash: [u8; 64],
    /// The contributions, oldest first.
    pub contributions: Vec<PublicKey>,
}

/// Ceremony parameters as plain values.
pub struct MPCParametersView {
    pub params: ProvingKeyView,
    pub cs_hash: Seq<u8>,
    pub contributions: Seq<PublicKeyView>,
}

impl View for MPCParameters {
    type V = MPCParametersView;

    open spec fn view(&self) -> MPCParametersView {
        MPCParametersView {
            params: self.params@,
            cs_hash: self.cs_hash@,
            contributions: key_views(self.contributions@),
        }
    }
}

impl Clone for MPCParameters {
    fn clone(&self) -> (r: Self)
        ensures
            r@ == self@,
    {
        MPCParameters {
            params: self.params.clone(),
            cs_hash: self.cs_hash,
            contributions: clone_keys(&self.contributions),
        }
    }
}

/// Whether the two sequences hold the same keys.
pub fn keys_equal(left: &Vec<PublicKey>, right: &Vec<PublicKey>) -> (same: bool)
    ensures
        same == (key_views(left@) == key_views(right@)),
{
    if left.len() != right.len() {
        assert(key_views(left@).len() != key_views(right@).len());
        return false;
    }
    let mut i: usize = 0;
    while i < left.len()
        invariant
            i <= left@.len(),
            left@.len() == right@.len(),
            forall|j: int| 0 <= j < i ==> (#[trigger] left@[j])@ == right@[j]@,
        decreases left@.len() - i,
    {
        if left[i] != right[i] {
            assert(key_views(left@)[i as int] != key_views(right@)[i as int]);
            return false;
        }
        i += 1;
    }
    assert(key_views(left@) =~= key_views(right@));
    true
}

impl PartialEq for MPCParameters {
    fn eq(&self, other: &Self) -> (r: bool) {
        let same = self.params == other.params && bytes_equal(
            self.cs_hash.as_slice(),
            other.cs_hash.as_slice(),
        ) && keys_equal(&self.contributions, &other.contributions);
        same
    }
}

impl PartialEqSpecImpl for MPCParameters {
    open spec fn obeys_eq_spec() -> bool {
        true
    }

    open spec fn eq_spec(&self, other: &Self) -> bool {
        self@ == other@
    }
}

/// The digest that binds a key to its circuit: that of the uncompressed
/// written form of the key.
pub open spec fn spec_hash_params(key: ProvingKeyView) -> Seq<u8> {
    blake2b_512(key.encoding(UseCompression::No))
}

/// The digest that binds `key` to its circuit.
pub fn hash_params(key: &ProvingKey) -> (digest: [u8; 64])
    ensures
        digest@ == spec_hash_params(key@),
{
    let mut written: Vec<u8> = Vec::new();
    key.write(&mut written, UseCompression::No);
    assert(written@ =~= key@.encoding(UseCompression::No));
    blake2b(written.as_slice())
}

/// The key before any contribution: gamma and delta are the generators,
/// alpha and beta come from the first phase, the queries from the
/// evaluation, and the H query from the first phase as it is.
pub open spec fn spec_initial_key(assembly: AssemblyView, params: Groth16ParamsView) -> ProvingKeyView {
    let queries = spec_eval(assembly, params);
    ProvingKeyView {
        vk: VerifyingKeyView {
            alpha_g1: params.alpha_g1,
            beta_g2: params.beta_g2,
            gamma_g2: G2_GENERATOR@,
            delta_g2: G2_GENERATOR@,
            gamma_abc_g1: queries.gamma_abc_g1,
        },
        beta_g1: params.beta_g1,
        delta_g1: G1_GENERATOR@,
        a_query: queries.a_g1,
        b_g1_query: queries.b_g1,
        b_g2_query: queries.b_g2,
        h_query: params.h_g1,
        l_query: queries.l,
    }
}

/// Some element of `points` is the point at infinity.
pub open spec fn some_at_infinity(points: Seq<Seq<u8>>) -> bool {
    exists|i: int| 0 <= i < points.len() && has_infinity_flag(#[trigger] points[i])
}

/// The parameters that a program and the output of the first phase give,
/// or why they give none.
pub open spec fn spec_new(assembly: AssemblyView, params: Groth16ParamsView) -> Result<
    MPCParametersView,
    Phase2Error,
> {
    let key = spec_initial_key(assembly, params);
    if !eval_defined(assembly, params) {
        Err(Phase2Error::InvalidLength)
    } else if some_at_infinity(key.l_query) {
        Err(Phase2Error::UnconstrainedVariable)
    } else {
        Ok(
            MPCParametersView {
                params: key,
                cs_hash: spec_hash_params(key),
                contributions: Seq::empty(),
            },
        )
    }
}

/// Whether some element of `points` is the point at infinity.
pub fn any_at_infinity(points: &Vec<G1Point>) -> (found: bool)
    ensures
        found == some_at_infinity(encodings(points@)),
{
    let mut i: usize = 0;
    while i < points.len()
        invariant
            i <= points@.len(),
            forall|j: int| 0 <= j < i ==> !has_infinity_flag(#[trigger] encodings(points@)[j]),
        decreases points@.len() - i,
    {
        if points[i].is_zero() {
            assert(has_infinity_flag(encodings(points@)[i as int]));
            return true;
        }
        i += 1;
    }
    false
}

/// The initial key, if the evaluation is defined and leaves no private
/// variable unconstrained.
fn initial_key(assembly: KeypairAssembly, params: Groth16Params) -> (r: Result<ProvingKey, Phase2Error>)
    ensures
        match r {
            Ok(key) => spec_new(assembly@, params@) is Ok && key@ == spec_initial_key(
                assembly@,
                params@,
            ),
            Err(e) => spec_new(assembly@, params@) == Err::<MPCParametersView, Phase2Error>(e),
        },
{
    let queries = match eval(&assembly, &params) {
        Some(queries) => queries,
        None => {
            return Err(Phase2Error::InvalidLength);
        },
    };
    if any_at_infinity(&queries.l) {
        return Err(Phase2Error::UnconstrainedVariable);
    }
    let vk = VerifyingKey {
        alpha_g1: params.alpha_g1,
        beta_g2: params.beta_g2,
        gamma_g2: G2Point::generator(),
        delta_g2: G2Point::generator(),
        gamma_abc_g1: queries.gamma_abc_g1,
    };
    Ok(
        ProvingKey {
            vk,
            beta_g1: params.beta_g1,
            delta_g1: G1Point::generator(),
            a_query: queries.a_g1,
            b_g1_query: queries.b_g1,
            b_g2_query: queries.b_g2,
            h_query: params.h_g1,
            l_query: queries.l,
        },
    )
}

impl MPCParameters {
    /// The parameters for a program, before any contribution. They are of
    /// no use until there are contributions.
    ///
    /// Fails with `InvalidLength` if the evaluation of the program against
    /// the coefficients is not defined, and with `UnconstrainedVariable` if
    /// the L query would hold the point at infinity.
    pub fn new(assembly: KeypairAssembly, params: Groth16Params) -> (r: Result<
        MPCParameters,
        Phase2Error,
    >)
        ensures
            match r {
                Ok(mpc) => spec_new(assembly@, params@) == Ok::<MPCParametersView, Phase2Error>(
                    mpc@,
                ),
                Err(e) => spec_new(assembly@, params@) == Err::<MPCParametersView, Phase2Error>(e),
            },
    {
        let key = match initial_key(assembly, params) {
            Ok(key) => key,
            Err(e) => {
                return Err(e);
            },
        };
        let cs_hash = hash_params(&key);
        let mpc = MPCParameters { params: key, cs_hash, contributions: Vec::new() };
        assert(mpc@.contributions =~= Seq::<PublicKeyView>::empty());
        Ok(mpc)
    }

    /// The proving key.
    pub fn get_params(&self) -> (key: &ProvingKey)
        ensures
            key == &self.params,
    {
        &self.params
    }
}

} // verus!
