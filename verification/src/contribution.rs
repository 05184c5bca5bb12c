//! Contributing to the parameters: scaling delta by a secret, and the H and
//! L queries by its inverse.

use crate::chunks::{spec_chunk, spec_chunk_slice};
use crate::codec::encodings;
use crate::curve::{
    g1_is_canonical, g1_mul, g2_mul, scalar_inverse, scalar_is_canonical, scalar_zero, G1Point,
    Scalar,
};
use crate::error::Phase2Error;
use crate::key::{ProvingKeyView, VerifyingKeyView};
use crate::keypair::{key_views, spec_public_key, Keypair};
use crate::parameters::{MPCParameters, MPCParametersView};
use rand::rngs::ThreadRng;
use vstd::prelude::*;

verus! {

/// Every element of `points` multiplied by `scalar`.
pub open spec fn scale_all(points: Seq<Seq<u8>>, scalar: Seq<u8>) -> Seq<Seq<u8>> {
    Seq::new(points.len(), |i: int| g1_mul(points[i], scalar))
}

/// The parameters after a contribution with the secret `delta` and the
/// element `s`: delta in both groups is multiplied by the secret, the H and
/// L queries by its inverse, and the public key of the contribution is put
/// at the end of the contributions. Nothing else changes.
pub open spec fn spec_contribute(before: MPCParametersView, delta: Seq<u8>, s: Seq<u8>) -> Result<
    MPCParametersView,
    Phase2Error,
> {
    let key = before.params;
    if delta == scalar_zero() {
        Err(Phase2Error::ZeroScalar)
    } else {
        match spec_public_key(key.delta_g1, before.cs_hash, before.contributions, delta, s) {
            None => Err(Phase2Error::HashToCurve),
            Some(public_key) => {
                let inverse = scalar_inverse(delta)->Some_0;
                Ok(
                    MPCParametersView {
                        params: ProvingKeyView {
                            vk: VerifyingKeyView { delta_g2: g2_mul(key.vk.delta_g2, delta), ..key.vk },
                            delta_g1: g1_mul(key.delta_g1, delta),
                            h_query: scale_all(key.h_query, inverse),
                            l_query: scale_all(key.l_query, inverse),
                            ..key
                        },
                        cs_hash: before.cs_hash,
                        contributions: before.contributions.push(public_key),
                    },
                )
            },
        }
    }
}

/// The parameters after the contributions with the given secrets and
/// elements, one after the other.
pub open spec fn spec_contribute_all(
    before: MPCParametersView,
    secrets: Seq<(Seq<u8>, Seq<u8>)>,
) -> Result<MPCParametersView, Phase2Error>
    decreases secrets.len(),
{
    if secrets.len() == 0 {
        Ok(before)
    } else {
        match spec_contribute_all(before, secrets.drop_last()) {
            Err(e) => Err(e),
            Ok(middle) => spec_contribute(middle, secrets.last().0, secrets.last().1),
        }
    }
}

/// Contributions never change the circuit hash, and they only add to the
/// contributions: after any number of them the circuit hash is the one of
/// the start, and the contributions of the start are the first of those of
/// the end.
pub proof fn lemma_contributions_keep_cs_hash(
    before: MPCParametersView,
    secrets: Seq<(Seq<u8>, Seq<u8>)>,
)
    requires
        spec_contribute_all(before, secrets) is Ok,
    ensures
        spec_contribute_all(before, secrets)->Ok_0.cs_hash == before.cs_hash,
        spec_contribute_all(before, secrets)->Ok_0.contributions.len() == before.contributions.len()
            + secrets.len(),
        spec_contribute_all(before, secrets)->Ok_0.contributions.take(
            before.contributions.len() as int,
        ) == before.contributions,
    decreases secrets.len(),
{
    if secrets.len() == 0 {
        assert(before.contributions.take(before.contributions.len() as int)
            =~= before.contributions);
    } else {
        lemma_contributions_keep_cs_hash(before, secrets.drop_last());
        let middle = spec_contribute_all(before, secrets.drop_last())->Ok_0;
        let end = spec_contribute_all(before, secrets)->Ok_0;
        assert(end.contributions.take(before.contributions.len() as int)
            =~= middle.contributions.take(before.contributions.len() as int));
    }
}

/// Contributing to a chunk is taking the chunk of what was contributed to:
/// a contribution to chunk `i` of parameters, with the secret and the
/// element of a contribution to the parameters themselves, gives chunk `i`
/// of the parameters after that contribution. So chunks that were all
/// contributed to in this way combine to the parameters that the
/// contribution to the whole gives.
pub proof fn lemma_contribute_to_chunk(
    full: MPCParametersView,
    chunk_size: nat,
    i: nat,
    delta: Seq<u8>,
    s: Seq<u8>,
)
    requires
        chunk_size > 0,
        spec_contribute(full, delta, s) is Ok,
    ensures
        spec_contribute(spec_chunk(full, chunk_size, i), delta, s) == Ok::<
            MPCParametersView,
            Phase2Error,
        >(spec_chunk(spec_contribute(full, delta, s)->Ok_0, chunk_size, i)),
{
    let inverse = scalar_inverse(delta)->Some_0;
    lemma_scale_chunk_slice(full.params.h_query, chunk_size, i, inverse);
    lemma_scale_chunk_slice(full.params.l_query, chunk_size, i, inverse);
}

/// Scaling a part of a sequence is taking the part of the scaled sequence.
pub proof fn lemma_scale_chunk_slice(points: Seq<Seq<u8>>, chunk_size: nat, i: nat, scalar: Seq<u8>)
    ensures
        scale_all(spec_chunk_slice(points, chunk_size, i), scalar) == spec_chunk_slice(
            scale_all(points, scalar),
            chunk_size,
            i,
        ),
{
    let start = i * chunk_size;
    let next = (i + 1) * chunk_size;
    assert(next == start + chunk_size) by (nonlinear_arith)
        requires
            start == i * chunk_size,
            next == (i + 1) * chunk_size,
    ;
    let scaled = scale_all(points, scalar);
    assert(scaled.len() == points.len());
    if start < points.len() {
        let end = if next < points.len() {
            next
        } else {
            points.len()
        };
        assert(spec_chunk_slice(points, chunk_size, i) == points.subrange(start as int, end as int));
        assert(spec_chunk_slice(scaled, chunk_size, i) == scaled.subrange(start as int, end as int));
        assert(scale_all(points.subrange(start as int, end as int), scalar) =~= scaled.subrange(
            start as int,
            end as int,
        ));
    } else {
        assert(scale_all(Seq::<Seq<u8>>::empty(), scalar) =~= Seq::<Seq<u8>>::empty());
    }
}

/// Multiplies every element of `points` by `scalar`.
pub fn batch_mul(points: &mut Vec<G1Point>, scalar: &Scalar)
    ensures
        encodings(final(points)@) == scale_all(encodings(old(points)@), scalar@),
{
    let mut scaled: Vec<G1Point> = Vec::new();
    let mut i: usize = 0;
    while i < points.len()
        invariant
            i <= points@.len(),
            points@ == old(points)@,
            scaled@.len() == i,
            forall|j: int|
                0 <= j < i ==> (#[trigger] scaled@[j])@ == g1_mul(points@[j]@, scalar@),
        decreases points@.len() - i,
    {
        scaled.push(points[i].mul(scalar));
        i += 1;
    }
    assert(encodings(scaled@) =~= scale_all(encodings(points@), scalar@));
    *points = scaled;
}

impl MPCParameters {
    /// Contributes the secret `delta`, with `s` as the element of the
    /// signature of knowledge. Gives the digest of the new public key, by
    /// which the contribution is found again in what `verify` returns.
    ///
    /// Fails with `ZeroScalar` if the secret is zero and with `HashToCurve`
    /// if the transcript hashes to no point; the parameters are then as
    /// they were.
    pub fn contribute_with(&mut self, delta: Scalar, s: G1Point) -> (r: Result<[u8; 64], Phase2Error>)
        ensures
            match r {
                Ok(hash) => spec_contribute(old(self)@, delta@, s@) == Ok::<
                    MPCParametersView,
                    Phase2Error,
                >(final(self)@) && hash@ == final(self)@.contributions.last().hash(),
                Err(e) => spec_contribute(old(self)@, delta@, s@) == Err::<
                    MPCParametersView,
                    Phase2Error,
                >(e) && final(self)@ == old(self)@,
            },
            final(self)@.cs_hash == old(self)@.cs_hash,
    {
        let delta_inv = match delta.inverse() {
            Some(inverse) => inverse,
            None => {
                return Err(Phase2Error::ZeroScalar);
            },
        };
        let delta_g2 = self.params.vk.delta_g2.mul(&delta);
        let delta_g1 = self.params.delta_g1.mul(&delta);
        let pair = match Keypair::from_secret(
            &self.params.delta_g1,
            &self.cs_hash,
            self.contributions.as_slice(),
            delta,
            s,
        ) {
            Ok(pair) => pair,
            Err(e) => {
                return Err(e);
            },
        };
        let public_key = pair.public_key;
        let hash = public_key.hash();
        batch_mul(&mut self.params.l_query, &delta_inv);
        batch_mul(&mut self.params.h_query, &delta_inv);
        self.params.vk.delta_g2 = delta_g2;
        self.params.delta_g1 = delta_g1;
        let ghost pushed = public_key@;
        self.contributions.push(public_key);
        proof {
            assert(key_views(self.contributions@) =~= old(self)@.contributions.push(pushed));
        }
        Ok(hash)
    }

    /// Contributes a secret drawn from `rng`. Only one contributor needs to
    /// draw and forget theirs honestly for the parameters to be secure.
    /// Gives the digest of the new public key.
    ///
    /// What happens is what `contribute_with` does for the secret and the
    /// element that were drawn.
    pub fn contribute(&mut self, rng: &mut ThreadRng) -> (r: Result<[u8; 64], Phase2Error>)
        ensures
            exists|delta: Seq<u8>, s: Seq<u8>|
                scalar_is_canonical(delta) && g1_is_canonical(s) && match r {
                    Ok(hash) => #[trigger] spec_contribute(old(self)@, delta, s) == Ok::<
                        MPCParametersView,
                        Phase2Error,
                    >(final(self)@) && hash@ == final(self)@.contributions.last().hash(),
                    Err(e) => spec_contribute(old(self)@, delta, s) == Err::<
                        MPCParametersView,
                        Phase2Error,
                    >(e) && final(self)@ == old(self)@,
                },
            final(self)@.cs_hash == old(self)@.cs_hash,
    {
        let delta = Scalar::random(rng);
        let factor = Scalar::random(rng);
        let s = G1Point::generator().mul(&factor);
        let ghost delta_bytes = delta@;
        let ghost s_bytes = s@;
        proof {
            use_type_invariant(&delta);
            use_type_invariant(&s);
        }
        let r = self.contribute_with(delta, s);
        proof {
            assert(match r {
                Ok(hash) => spec_contribute(old(self)@, delta_bytes, s_bytes) == Ok::<
                    MPCParametersView,
                    Phase2Error,
                >(self@) && hash@ == self@.contributions.last().hash(),
                Err(e) => spec_contribute(old(self)@, delta_bytes, s_bytes) == Err::<
                    MPCParametersView,
                    Phase2Error,
                >(e) && self@ == old(self)@,
            });
        }
        r
    }
}

} // verus!
