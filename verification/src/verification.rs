//! Verifying contributions: what a contribution must leave unchanged, the
//! pairing equations that tie the scaled queries to the new delta, and the
//! replay of the transcript.

use crate::bytes::bytes_equal;
use crate::codec::encodings;
use crate::contribution::{spec_contribute, spec_contribute_all};
use crate::curve::{
    check_same_ratio, g1_add, g1_mul, g1_zero, same_ratio, scalar_is_canonical, scalar_zero,
    G1Point, G2Point, Scalar, G1_GENERATOR, G2_GENERATOR,
};
use crate::error::{InvariantKind, Phase2Error, RatioCheck};
use crate::hash::{hash_to_g2, hex_encode};
use crate::keypair::{
    hash_cs_pubkeys, key_views, spec_hash_cs_pubkeys, transcript_point, PublicKey, PublicKeyView,
};
use crate::key::ProvingKeyView;
use crate::parameters::{MPCParameters, MPCParametersView};
use rand::rngs::ThreadRng;
use vstd::prelude::*;
use vstd::std_specs::cmp::PartialEqSpec;

verus! {

/// Whether `my_contribution` occurs among `contributions`.
pub fn contains_contribution(contributions: &[[u8; 64]], my_contribution: &[u8; 64]) -> (found: bool)
    ensures
        found <==> exists|i: int|
            0 <= i < contributions@.len() && (#[trigger] contributions@[i])@ == my_contribution@,
{
    let mut i: usize = 0;
    while i < contributions.len()
        invariant
            i <= contributions@.len(),
            forall|j: int| 0 <= j < i ==> (#[trigger] contributions@[j])@ != my_contribution@,
        decreases contributions@.len() - i,
    {
        if bytes_equal(contributions[i].as_slice(), my_contribution.as_slice()) {
            return true;
        }
        i += 1;
    }
    false
}

/// Fails with `InvalidLength` unless the two sequences have the same
/// length.
pub fn ensure_same_length<T, U>(a: &[T], b: &[U]) -> (r: Result<(), Phase2Error>)
    ensures
        r == spec_same_length(a@.len(), b@.len()),
{
    if a.len() != b.len() {
        return Err(Phase2Error::InvalidLength);
    }
    Ok(())
}

/// `Ok` for equal lengths, `InvalidLength` otherwise.
pub open spec fn spec_same_length(a: nat, b: nat) -> Result<(), Phase2Error> {
    if a == b {
        Ok(())
    } else {
        Err(Phase2Error::InvalidLength)
    }
}

/// `Ok` if nothing changed, the broken invariant otherwise.
pub open spec fn spec_unchanged(same: bool, kind: InvariantKind) -> Result<(), Phase2Error> {
    if same {
        Ok(())
    } else {
        Err(Phase2Error::BrokenInvariant(kind))
    }
}

/// Fails with the broken invariant `kind` unless `before` equals `after`.
pub fn ensure_unchanged<T: PartialEq>(before: T, after: T, kind: InvariantKind) -> (r: Result<
    (),
    Phase2Error,
>)
    ensures
        T::obeys_eq_spec() ==> r == spec_unchanged(before.eq_spec(&after), kind),
        r is Err ==> r == Err::<(), Phase2Error>(Phase2Error::BrokenInvariant(kind)),
{
    if before != after {
        return Err(Phase2Error::BrokenInvariant(kind));
    }
    Ok(())
}

/// The two sequences are equal element by element.
pub open spec fn all_equal<T: PartialEq>(before: Seq<T>, after: Seq<T>) -> bool {
    forall|i: int| 0 <= i < before.len() ==> (#[trigger] before[i]).eq_spec(&after[i])
}

/// `InvalidLength` for sequences of different length, the broken invariant
/// for sequences that differ in an element, `Ok` otherwise.
pub open spec fn spec_unchanged_vec(
    before_len: nat,
    after_len: nat,
    same: bool,
    kind: InvariantKind,
) -> Result<(), Phase2Error> {
    if before_len != after_len {
        Err(Phase2Error::InvalidLength)
    } else {
        spec_unchanged(same, kind)
    }
}

/// Fails with `InvalidLength` if the sequences differ in length, and with
/// the broken invariant `kind` if they differ in an element.
pub fn ensure_unchanged_vec<T: PartialEq>(before: &[T], after: &[T], kind: &InvariantKind) -> (r: Result<
    (),
    Phase2Error,
>)
    ensures
        T::obeys_eq_spec() ==> r == spec_unchanged_vec(
            before@.len(),
            after@.len(),
            all_equal(before@, after@),
            *kind,
        ),
        before@.len() != after@.len() ==> r == Err::<(), Phase2Error>(Phase2Error::InvalidLength),
        r is Ok ==> before@.len() == after@.len(),
        before@.len() == after@.len() && r is Err ==> r == Err::<(), Phase2Error>(
            Phase2Error::BrokenInvariant(*kind),
        ),
{
    if before.len() != after.len() {
        return Err(Phase2Error::InvalidLength);
    }
    let mut i: usize = 0;
    while i < before.len()
        invariant
            i <= before@.len(),
            before@.len() == after@.len(),
            T::obeys_eq_spec() ==> forall|j: int|
                0 <= j < i ==> (#[trigger] before@[j]).eq_spec(&after@[j]),
        decreases before@.len() - i,
    {
        match ensure_unchanged(&before[i], &after[i], *kind) {
            Ok(()) => {},
            Err(e) => {
                return Err(e);
            },
        }
        i += 1;
    }
    Ok(())
}

/// The views of a sequence of scalars.
pub open spec fn scalar_views(scalars: Seq<Scalar>) -> Seq<Seq<u8>> {
    Seq::new(scalars.len(), |i: int| scalars[i]@)
}

/// The views of a sequence of digests.
pub open spec fn hash_views(hashes: Seq<[u8; 64]>) -> Seq<Seq<u8>> {
    Seq::new(hashes.len(), |i: int| hashes[i]@)
}

/// The sum of the elements of `points`, each multiplied by the coefficient
/// with its number.
pub open spec fn spec_merge(points: Seq<Seq<u8>>, rho: Seq<Seq<u8>>) -> Seq<u8>
    decreases points.len(),
{
    if points.len() == 0 {
        g1_zero()
    } else {
        g1_add(
            spec_merge(points.drop_last(), rho),
            g1_mul(points.last(), rho[points.len() - 1]),
        )
    }
}

/// Collapses two sequences into one pair: the same linear combination, with
/// the coefficients `rho`, of the one and of the other. If every element of
/// `b` is the element of `a` with its number multiplied by one and the same
/// factor, then so is the second of the pair with respect to the first.
pub fn merge_pairs(a: &Vec<G1Point>, b: &Vec<G1Point>, rho: &Vec<Scalar>) -> (pair: (G1Point, G1Point))
    requires
        a@.len() == b@.len(),
        a@.len() == rho@.len(),
    ensures
        pair.0@ == spec_merge(encodings(a@), scalar_views(rho@)),
        pair.1@ == spec_merge(encodings(b@), scalar_views(rho@)),
{
    let ghost left = encodings(a@);
    let ghost right = encodings(b@);
    let ghost coefficients = scalar_views(rho@);
    let mut sum_a = G1Point::zero();
    let mut sum_b = G1Point::zero();
    let mut i: usize = 0;
    proof {
        assert(left.take(0) =~= Seq::<Seq<u8>>::empty());
        assert(right.take(0) =~= Seq::<Seq<u8>>::empty());
    }
    while i < a.len()
        invariant
            i <= a@.len(),
            a@.len() == b@.len(),
            a@.len() == rho@.len(),
            left == encodings(a@),
            right == encodings(b@),
            coefficients == scalar_views(rho@),
            sum_a@ == spec_merge(left.take(i as int), coefficients),
            sum_b@ == spec_merge(right.take(i as int), coefficients),
        decreases a@.len() - i,
    {
        sum_a = sum_a.add(&a[i].mul(&rho[i]));
        sum_b = sum_b.add(&b[i].mul(&rho[i]));
        proof {
            assert(left.take(i + 1).drop_last() =~= left.take(i as int));
            assert(right.take(i + 1).drop_last() =~= right.take(i as int));
        }
        i += 1;
    }
    proof {
        assert(left.take(a@.len() as int) =~= left);
        assert(right.take(a@.len() as int) =~= right);
    }
    (sum_a, sum_b)
}

/// The delta in G1 before contribution `i`: the generator before the first,
/// the delta after the one before it otherwise.
pub open spec fn previous_delta(contributions: Seq<PublicKeyView>, i: int) -> Seq<u8> {
    if i == 0 {
        G1_GENERATOR@
    } else {
        contributions[i - 1].delta_after
    }
}

/// What holds of contribution `i` in a valid transcript: its transcript is
/// the digest of the circuit hash, the contributions before it and its
/// `s` and `s_delta`; the same secret scales `s` and the point that the
/// transcript hashes to; and that secret moved the delta before it to its
/// own.
pub open spec fn spec_check_contribution(
    cs_hash: Seq<u8>,
    contributions: Seq<PublicKeyView>,
    i: int,
) -> Result<(), Phase2Error> {
    let key = contributions[i];
    let expected = spec_hash_cs_pubkeys(cs_hash, contributions.take(i), key.s, key.s_delta);
    if key.transcript != expected {
        Err(Phase2Error::BrokenInvariant(InvariantKind::Transcript))
    } else {
        match transcript_point(expected) {
            None => Err(Phase2Error::HashToCurve),
            Some(r) => if !same_ratio((key.s, key.s_delta), (r, key.r_delta)) {
                Err(Phase2Error::PairingCheckFailed(RatioCheck::SignatureOfKnowledge))
            } else if !same_ratio(
                (previous_delta(contributions, i), key.delta_after),
                (r, key.r_delta),
            ) {
                Err(Phase2Error::PairingCheckFailed(RatioCheck::G1Delta))
            } else {
                Ok(())
            },
        }
    }
}

/// The replay of the first `count` contributions: the digests of their
/// public keys, or the failure of the first contribution that is not valid.
pub open spec fn spec_verify_transcript_upto(
    cs_hash: Seq<u8>,
    contributions: Seq<PublicKeyView>,
    count: nat,
) -> Result<Seq<Seq<u8>>, Phase2Error>
    decreases count,
{
    if count == 0 {
        Ok(Seq::empty())
    } else {
        match spec_verify_transcript_upto(cs_hash, contributions, (count - 1) as nat) {
            Err(e) => Err(e),
            Ok(hashes) => match spec_check_contribution(cs_hash, contributions, count - 1) {
                Err(e) => Err(e),
                Ok(()) => Ok(hashes.push(contributions[count - 1].hash())),
            },
        }
    }
}

/// The replay of a transcript.
pub open spec fn spec_verify_transcript(cs_hash: Seq<u8>, contributions: Seq<PublicKeyView>) -> Result<
    Seq<Seq<u8>>,
    Phase2Error,
> {
    spec_verify_transcript_upto(cs_hash, contributions, contributions.len())
}

/// Replays the transcript: checks every contribution against the circuit
/// hash and the contributions before it, and gives the digests of the
/// public keys, oldest first.
pub fn verify_transcript(cs_hash: [u8; 64], contributions: &[PublicKey]) -> (r: Result<
    Vec<[u8; 64]>,
    Phase2Error,
>)
    ensures
        match r {
            Ok(hashes) => spec_verify_transcript(cs_hash@, key_views(contributions@)) == Ok::<
                Seq<Seq<u8>>,
                Phase2Error,
            >(hash_views(hashes@)),
            Err(e) => spec_verify_transcript(cs_hash@, key_views(contributions@)) == Err::<
                Seq<Seq<u8>>,
                Phase2Error,
            >(e),
        },
{
    let ghost all = key_views(contributions@);
    let mut result: Vec<[u8; 64]> = Vec::new();
    let mut old_delta = G1Point::generator();
    let mut i: usize = 0;
    assert(hash_views(result@) =~= Seq::<Seq<u8>>::empty());
    while i < contributions.len()
        invariant
            i <= contributions@.len(),
            all == key_views(contributions@),
            old_delta@ == previous_delta(all, i as int),
            spec_verify_transcript_upto(cs_hash@, all, i as nat) == Ok::<Seq<Seq<u8>>, Phase2Error>(
                hash_views(result@),
            ),
        decreases contributions@.len() - i,
    {
        let pubkey = &contributions[i];
        assert(all[i as int] == pubkey@);
        assert(key_views(contributions@.subrange(0, i as int)) =~= all.take(i as int));
        let hash = hash_cs_pubkeys(&cs_hash, &contributions[0..i], &pubkey.s, &pubkey.s_delta);
        if !bytes_equal(pubkey.transcript.as_slice(), hash.as_slice()) {
            proof {
                lemma_transcript_failure(cs_hash@, all, i as nat, all.len());
            }
            return Err(Phase2Error::BrokenInvariant(InvariantKind::Transcript));
        }
        let text = hex_encode(hash.as_slice());
        let r = match hash_to_g2(text.as_slice()) {
            Some(point) => point,
            None => {
                proof {
                    lemma_transcript_failure(cs_hash@, all, i as nat, all.len());
                }
                return Err(Phase2Error::HashToCurve);
            },
        };
        if !check_same_ratio((&pubkey.s, &pubkey.s_delta), (&r, &pubkey.r_delta)) {
            proof {
                lemma_transcript_failure(cs_hash@, all, i as nat, all.len());
            }
            return Err(Phase2Error::PairingCheckFailed(RatioCheck::SignatureOfKnowledge));
        }
        if !check_same_ratio((&old_delta, &pubkey.delta_after), (&r, &pubkey.r_delta)) {
            proof {
                lemma_transcript_failure(cs_hash@, all, i as nat, all.len());
            }
            return Err(Phase2Error::PairingCheckFailed(RatioCheck::G1Delta));
        }
        old_delta = pubkey.delta_after.clone();
        let digest = pubkey.hash();
        proof {
            assert(hash_views(result@.push(digest)) =~= hash_views(result@).push(digest@));
        }
        result.push(digest);
        i += 1;
    }
    Ok(result)
}

/// A contribution that is not valid fails the replay of every transcript
/// that reaches it.
pub proof fn lemma_transcript_failure(
    cs_hash: Seq<u8>,
    contributions: Seq<PublicKeyView>,
    i: nat,
    count: nat,
)
    requires
        i < count,
        spec_verify_transcript_upto(cs_hash, contributions, i) is Ok,
        spec_check_contribution(cs_hash, contributions, i as int) is Err,
    ensures
        spec_verify_transcript_upto(cs_hash, contributions, count) == Err::<
            Seq<Seq<u8>>,
            Phase2Error,
        >(spec_check_contribution(cs_hash, contributions, i as int)->Err_0),
    decreases count,
{
    if count > i + 1 {
        lemma_transcript_failure(cs_hash, contributions, i, (count - 1) as nat);
    }
}

/// `before` is the beginning of `after`.
pub open spec fn is_prefix(before: Seq<PublicKeyView>, after: Seq<PublicKeyView>) -> bool {
    before.len() <= after.len() && after.take(before.len() as int) == before
}

/// What a contribution must leave as it was, in the order in which it is
/// checked; the first requirement that is not met is the failure.
///
/// The parameters after hold a contribution, and their delta in G1 is the
/// one that the last contribution announces and belongs to the same secret
/// as their delta in G2. The contributions before are the first of those
/// after, and the circuit hash is the same. The H and L queries kept their
/// lengths. Alpha, beta, gamma, the query of the public variables and the A
/// and B queries are the same.
pub open spec fn spec_check_unchanged(before: MPCParametersView, after: MPCParametersView) -> Result<
    (),
    Phase2Error,
> {
    let b = before.params;
    let a = after.params;
    if after.contributions.len() == 0 {
        Err(Phase2Error::NoContributions)
    } else if after.contributions.last().delta_after != a.delta_g1 {
        Err(Phase2Error::BrokenInvariant(InvariantKind::DeltaG1))
    } else if !same_ratio(
        (G1_GENERATOR@, after.contributions.last().delta_after),
        (G2_GENERATOR@, a.vk.delta_g2),
    ) {
        Err(Phase2Error::PairingCheckFailed(RatioCheck::G2Delta))
    } else if !is_prefix(before.contributions, after.contributions) {
        Err(Phase2Error::BrokenInvariant(InvariantKind::Contributions))
    } else if before.cs_hash != after.cs_hash {
        Err(Phase2Error::BrokenInvariant(InvariantKind::CsHash))
    } else if b.h_query.len() != a.h_query.len() || b.l_query.len() != a.l_query.len() {
        Err(Phase2Error::InvalidLength)
    } else if b.vk.alpha_g1 != a.vk.alpha_g1 {
        Err(Phase2Error::BrokenInvariant(InvariantKind::AlphaG1))
    } else if b.beta_g1 != a.beta_g1 {
        Err(Phase2Error::BrokenInvariant(InvariantKind::BetaG1))
    } else if b.vk.beta_g2 != a.vk.beta_g2 {
        Err(Phase2Error::BrokenInvariant(InvariantKind::BetaG2))
    } else if b.vk.gamma_g2 != a.vk.gamma_g2 {
        Err(Phase2Error::BrokenInvariant(InvariantKind::GammaG2))
    } else if spec_same_points(b.vk.gamma_abc_g1, a.vk.gamma_abc_g1, InvariantKind::GammaAbcG1)
        is Err {
        spec_same_points(b.vk.gamma_abc_g1, a.vk.gamma_abc_g1, InvariantKind::GammaAbcG1)
    } else if spec_same_points(b.a_query, a.a_query, InvariantKind::AlphaG1Query) is Err {
        spec_same_points(b.a_query, a.a_query, InvariantKind::AlphaG1Query)
    } else if spec_same_points(b.b_g1_query, a.b_g1_query, InvariantKind::BetaG1Query) is Err {
        spec_same_points(b.b_g1_query, a.b_g1_query, InvariantKind::BetaG1Query)
    } else {
        spec_same_points(b.b_g2_query, a.b_g2_query, InvariantKind::BetaG2Query)
    }
}

/// `InvalidLength` for sequences of different length, the broken invariant
/// for sequences of the same length that differ, `Ok` for equal sequences.
pub open spec fn spec_same_points(before: Seq<Seq<u8>>, after: Seq<Seq<u8>>, kind: InvariantKind) -> Result<
    (),
    Phase2Error,
> {
    spec_unchanged_vec(before.len(), after.len(), before == after, kind)
}

/// The pairing equations for the H and the L query, in this order: the
/// combination of the elements after, paired with the delta after, equals
/// the combination of the elements before, paired with the delta before.
/// So the queries were scaled by the inverse of what delta was scaled by.
pub open spec fn spec_check_queries(
    before: MPCParametersView,
    after: MPCParametersView,
    rho_h: Seq<Seq<u8>>,
    rho_l: Seq<Seq<u8>>,
) -> Result<(), Phase2Error> {
    let deltas = (after.params.vk.delta_g2, before.params.vk.delta_g2);
    if !same_ratio(
        (spec_merge(before.params.h_query, rho_h), spec_merge(after.params.h_query, rho_h)),
        deltas,
    ) {
        Err(Phase2Error::PairingCheckFailed(RatioCheck::HQuery))
    } else if !same_ratio(
        (spec_merge(before.params.l_query, rho_l), spec_merge(after.params.l_query, rho_l)),
        deltas,
    ) {
        Err(Phase2Error::PairingCheckFailed(RatioCheck::LQuery))
    } else {
        Ok(())
    }
}

/// What the verification of `after` against `before` gives when the H and L
/// queries are merged with the coefficients `rho_h` and `rho_l`: the
/// digests of all contributions of `after`, or the first failure.
pub open spec fn spec_verify(
    before: MPCParametersView,
    after: MPCParametersView,
    rho_h: Seq<Seq<u8>>,
    rho_l: Seq<Seq<u8>>,
) -> Result<Seq<Seq<u8>>, Phase2Error> {
    match spec_check_unchanged(before, after) {
        Err(e) => Err(e),
        Ok(()) => match spec_check_queries(before, after, rho_h, rho_l) {
            Err(e) => Err(e),
            Ok(()) => spec_verify_transcript(before.cs_hash, after.contributions),
        },
    }
}

/// The digests of a successful result as plain values.
pub open spec fn result_view(r: Result<Vec<[u8; 64]>, Phase2Error>) -> Result<
    Seq<Seq<u8>>,
    Phase2Error,
> {
    match r {
        Ok(hashes) => Ok(hash_views(hashes@)),
        Err(e) => Err(e),
    }
}

/// The replay of a transcript never fails for a zero scalar.
pub proof fn lemma_replay_gives_no_zero_scalar(
    cs_hash: Seq<u8>,
    contributions: Seq<PublicKeyView>,
    count: nat,
)
    ensures
        spec_verify_transcript_upto(cs_hash, contributions, count) != Err::<
            Seq<Seq<u8>>,
            Phase2Error,
        >(Phase2Error::ZeroScalar),
    decreases count,
{
    if count > 0 {
        lemma_replay_gives_no_zero_scalar(cs_hash, contributions, (count - 1) as nat);
    }
}

/// Verification with given coefficients never fails for a zero scalar: that
/// failure belongs to the drawing of coefficients alone.
pub proof fn lemma_verify_gives_no_zero_scalar(
    before: MPCParametersView,
    after: MPCParametersView,
    rho_h: Seq<Seq<u8>>,
    rho_l: Seq<Seq<u8>>,
)
    ensures
        spec_check_unchanged(before, after) != Err::<(), Phase2Error>(Phase2Error::ZeroScalar),
        spec_verify(before, after, rho_h, rho_l) != Err::<Seq<Seq<u8>>, Phase2Error>(
            Phase2Error::ZeroScalar,
        ),
{
    lemma_replay_gives_no_zero_scalar(before.cs_hash, after.contributions, after.contributions.len());
}


/// `rho` holds `count` scalars, none of them zero.
pub open spec fn coefficients_valid(rho: Seq<Seq<u8>>, count: nat) -> bool {
    &&& rho.len() == count
    &&& forall|i: int|
        0 <= i < rho.len() ==> scalar_is_canonical(#[trigger] rho[i]) && rho[i] != scalar_zero()
}

/// Whether `before` holds the first contributions of `after`.
pub(crate) fn check_prefix(before: &Vec<PublicKey>, after: &Vec<PublicKey>) -> (ok: bool)
    ensures
        ok == is_prefix(key_views(before@), key_views(after@)),
{
    let count = before.len();
    if count > after.len() {
        return false;
    }
    let ghost b = key_views(before@);
    let ghost a = key_views(after@);
    let r = ensure_unchanged_vec(before.as_slice(), &after[0..count], &InvariantKind::Contributions);
    proof {
        let first = after@.subrange(0, count as int);
        if all_equal(before@, first) {
            assert(a.take(count as int) =~= b);
        } else {
            let i = choose|i: int| 0 <= i < before@.len() && !(#[trigger] before@[i]).eq_spec(&first[i]);
            assert(a.take(count as int)[i] == first[i]@);
            assert(b[i] == before@[i]@);
        }
    }
    r.is_ok()
}

/// `count` scalars drawn from `rng`, or `ZeroScalar` if one of them is
/// zero.
pub(crate) fn sample_coefficients(rng: &mut ThreadRng, count: usize) -> (r: Result<Vec<Scalar>, Phase2Error>)
    ensures
        match r {
            Ok(rho) => coefficients_valid(scalar_views(rho@), count as nat),
            Err(e) => e == Phase2Error::ZeroScalar,
        },
        count == 0 ==> r is Ok,
{
    let mut rho: Vec<Scalar> = Vec::new();
    let mut i: usize = 0;
    while i < count
        invariant
            i <= count,
            coefficients_valid(scalar_views(rho@), i as nat),
        decreases count - i,
    {
        let scalar = Scalar::random(rng);
        if scalar.is_zero() {
            return Err(Phase2Error::ZeroScalar);
        }
        proof {
            use_type_invariant(&scalar);
        }
        let ghost before = scalar_views(rho@);
        let ghost added = scalar@;
        rho.push(scalar);
        assert(scalar_views(rho@) =~= before.push(added));
        i += 1;
    }
    Ok(rho)
}

impl MPCParameters {
    /// Checks what a contribution must leave as it was, and that the delta
    /// of `after` is the one that its last contribution announces.
    pub fn check_unchanged(&self, after: &MPCParameters) -> (r: Result<(), Phase2Error>)
        ensures
            r == spec_check_unchanged(self@, after@),
    {
        let before = self;
        let count = after.contributions.len();
        if count == 0 {
            return Err(Phase2Error::NoContributions);
        }
        let pubkey = &after.contributions[count - 1];
        assert(after@.contributions.last() == pubkey@);
        match ensure_unchanged(&pubkey.delta_after, &after.params.delta_g1, InvariantKind::DeltaG1) {
            Ok(()) => {},
            Err(e) => {
                return Err(e);
            },
        }
        let g1 = G1Point::generator();
        let g2 = G2Point::generator();
        if !check_same_ratio((&g1, &pubkey.delta_after), (&g2, &after.params.vk.delta_g2)) {
            return Err(Phase2Error::PairingCheckFailed(RatioCheck::G2Delta));
        }
        if !check_prefix(&before.contributions, &after.contributions) {
            return Err(Phase2Error::BrokenInvariant(InvariantKind::Contributions));
        }
        if !bytes_equal(before.cs_hash.as_slice(), after.cs_hash.as_slice()) {
            return Err(Phase2Error::BrokenInvariant(InvariantKind::CsHash));
        }
        match ensure_same_length(before.params.h_query.as_slice(), after.params.h_query.as_slice()) {
            Ok(()) => {},
            Err(e) => {
                return Err(e);
            },
        }
        match ensure_same_length(before.params.l_query.as_slice(), after.params.l_query.as_slice()) {
            Ok(()) => {},
            Err(e) => {
                return Err(e);
            },
        }
        match ensure_unchanged(
            &before.params.vk.alpha_g1,
            &after.params.vk.alpha_g1,
            InvariantKind::AlphaG1,
        ) {
            Ok(()) => {},
            Err(e) => {
                return Err(e);
            },
        }
        match ensure_unchanged(&before.params.beta_g1, &after.params.beta_g1, InvariantKind::BetaG1) {
            Ok(()) => {},
            Err(e) => {
                return Err(e);
            },
        }
        match ensure_unchanged(
            &before.params.vk.beta_g2,
            &after.params.vk.beta_g2,
            InvariantKind::BetaG2,
        ) {
            Ok(()) => {},
            Err(e) => {
                return Err(e);
            },
        }
        match ensure_unchanged(
            &before.params.vk.gamma_g2,
            &after.params.vk.gamma_g2,
            InvariantKind::GammaG2,
        ) {
            Ok(()) => {},
            Err(e) => {
                return Err(e);
            },
        }
        match same_points(
            &before.params.vk.gamma_abc_g1,
            &after.params.vk.gamma_abc_g1,
            &InvariantKind::GammaAbcG1,
        ) {
            Ok(()) => {},
            Err(e) => {
                return Err(e);
            },
        }
        match same_points(&before.params.a_query, &after.params.a_query, &InvariantKind::AlphaG1Query) {
            Ok(()) => {},
            Err(e) => {
                return Err(e);
            },
        }
        match same_points(
            &before.params.b_g1_query,
            &after.params.b_g1_query,
            &InvariantKind::BetaG1Query,
        ) {
            Ok(()) => {},
            Err(e) => {
                return Err(e);
            },
        }
        same_g2_points(&before.params.b_g2_query, &after.params.b_g2_query, &InvariantKind::BetaG2Query)
    }

    /// Checks the pairing equations for the H and the L query, merged with
    /// the coefficients `rho_h` and `rho_l`.
    pub fn check_queries(&self, after: &MPCParameters, rho_h: &Vec<Scalar>, rho_l: &Vec<Scalar>) -> (r:
        Result<(), Phase2Error>)
        requires
            self@.params.h_query.len() == after@.params.h_query.len(),
            self@.params.l_query.len() == after@.params.l_query.len(),
            rho_h@.len() == self@.params.h_query.len(),
            rho_l@.len() == self@.params.l_query.len(),
        ensures
            r == spec_check_queries(self@, after@, scalar_views(rho_h@), scalar_views(rho_l@)),
    {
        let before = self;
        let h = merge_pairs(&before.params.h_query, &after.params.h_query, rho_h);
        if !check_same_ratio((&h.0, &h.1), (&after.params.vk.delta_g2, &before.params.vk.delta_g2)) {
            return Err(Phase2Error::PairingCheckFailed(RatioCheck::HQuery));
        }
        let l = merge_pairs(&before.params.l_query, &after.params.l_query, rho_l);
        if !check_same_ratio((&l.0, &l.1), (&after.params.vk.delta_g2, &before.params.vk.delta_g2)) {
            return Err(Phase2Error::PairingCheckFailed(RatioCheck::LQuery));
        }
        Ok(())
    }

    /// Verifies `after` against these parameters, merging the H and L
    /// queries with the coefficients `rho_h` and `rho_l`, one for each
    /// element. Gives the digests of all contributions of `after`, oldest
    /// first.
    pub fn verify_with(&self, after: &MPCParameters, rho_h: &Vec<Scalar>, rho_l: &Vec<Scalar>) -> (r:
        Result<Vec<[u8; 64]>, Phase2Error>)
        requires
            rho_h@.len() == self@.params.h_query.len(),
            rho_l@.len() == self@.params.l_query.len(),
        ensures
            result_view(r) == spec_verify(self@, after@, scalar_views(rho_h@), scalar_views(rho_l@)),
    {
        match self.check_unchanged(after) {
            Ok(()) => {},
            Err(e) => {
                return Err(e);
            },
        }
        match self.check_queries(after, rho_h, rho_l) {
            Ok(()) => {},
            Err(e) => {
                return Err(e);
            },
        }
        verify_transcript(self.cs_hash, after.contributions.as_slice())
    }

    /// Verifies that `after` came from these parameters by contributions
    /// alone. Gives the digests that the contributors obtained from
    /// `contribute`, oldest first, so that each of them can see that their
    /// contribution is in.
    ///
    /// Whatever a contribution must leave as it was is checked first, and
    /// its failure is the result. After that one coefficient is drawn for
    /// each element of the H and L queries, and the result is that of
    /// `verify_with` for them; if a coefficient drawn is zero, the result is
    /// `ZeroScalar`.
    pub fn verify(&self, after: &MPCParameters) -> (r: Result<Vec<[u8; 64]>, Phase2Error>)
        ensures
            match spec_check_unchanged(self@, after@) {
                Err(e) => result_view(r) == Err::<Seq<Seq<u8>>, Phase2Error>(e),
                Ok(()) => {
                    ||| {
                        &&& result_view(r) == Err::<Seq<Seq<u8>>, Phase2Error>(
                            Phase2Error::ZeroScalar,
                        )
                        &&& self@.params.h_query.len() + self@.params.l_query.len() > 0
                    }
                    ||| exists|rho_h: Seq<Seq<u8>>, rho_l: Seq<Seq<u8>>|
                        {
                            &&& coefficients_valid(rho_h, self@.params.h_query.len())
                            &&& coefficients_valid(rho_l, self@.params.l_query.len())
                            &&& result_view(r) == #[trigger] spec_verify(self@, after@, rho_h, rho_l)
                        }
                },
            },
            result_view(r) == Err::<Seq<Seq<u8>>, Phase2Error>(Phase2Error::ZeroScalar)
                ==> self@.params.h_query.len() + self@.params.l_query.len() > 0,
    {
        proof {
            lemma_verify_gives_no_zero_scalar(self@, after@, Seq::empty(), Seq::empty());
        }
        match self.check_unchanged(after) {
            Ok(()) => {},
            Err(e) => {
                return Err(e);
            },
        }
        let mut rng = rand::thread_rng();
        let rho_h = match sample_coefficients(&mut rng, self.params.h_query.len()) {
            Ok(rho) => rho,
            Err(e) => {
                return Err(e);
            },
        };
        let rho_l = match sample_coefficients(&mut rng, self.params.l_query.len()) {
            Ok(rho) => rho,
            Err(e) => {
                return Err(e);
            },
        };
        match self.check_queries(after, &rho_h, &rho_l) {
            Ok(()) => {},
            Err(e) => {
                assert(result_view(Err::<Vec<[u8; 64]>, Phase2Error>(e)) == spec_verify(
                    self@,
                    after@,
                    scalar_views(rho_h@),
                    scalar_views(rho_l@),
                ));
                return Err(e);
            },
        }
        let r = verify_transcript(self.cs_hash, after.contributions.as_slice());
        proof {
            lemma_verify_gives_no_zero_scalar(
                self@,
                after@,
                scalar_views(rho_h@),
                scalar_views(rho_l@),
            );
            assert(result_view(r) == spec_verify(
                self@,
                after@,
                scalar_views(rho_h@),
                scalar_views(rho_l@),
            ));
        }
        r
    }
}

/// Fails with `InvalidLength` if the sequences differ in length, and with
/// the broken invariant `kind` if they differ in an element.
pub(crate) fn same_points(before: &Vec<G1Point>, after: &Vec<G1Point>, kind: &InvariantKind) -> (r: Result<
    (),
    Phase2Error,
>)
    ensures
        r == spec_same_points(encodings(before@), encodings(after@), *kind),
{
    let r = ensure_unchanged_vec(before.as_slice(), after.as_slice(), kind);
    proof {
        if before@.len() == after@.len() {
            if all_equal(before@, after@) {
                assert(encodings(before@) =~= encodings(after@));
            } else {
                let i = choose|i: int|
                    0 <= i < before@.len() && !(#[trigger] before@[i]).eq_spec(&after@[i]);
                assert(encodings(before@)[i] != encodings(after@)[i]);
            }
        } else {
            assert(encodings(before@).len() != encodings(after@).len());
        }
    }
    r
}

/// Fails with `InvalidLength` if the sequences differ in length, and with
/// the broken invariant `kind` if they differ in an element.
fn same_g2_points(before: &Vec<G2Point>, after: &Vec<G2Point>, kind: &InvariantKind) -> (r: Result<
    (),
    Phase2Error,
>)
    ensures
        r == spec_same_points(encodings(before@), encodings(after@), *kind),
{
    let r = ensure_unchanged_vec(before.as_slice(), after.as_slice(), kind);
    proof {
        if before@.len() == after@.len() {
            if all_equal(before@, after@) {
                assert(encodings(before@) =~= encodings(after@));
            } else {
                let i = choose|i: int|
                    0 <= i < before@.len() && !(#[trigger] before@[i]).eq_spec(&after@[i]);
                assert(encodings(before@)[i] != encodings(after@)[i]);
            }
        } else {
            assert(encodings(before@).len() != encodings(after@).len());
        }
    }
    r
}

/// Parameters without contributions never verify, not even against
/// themselves: the verification of parameters that hold no contribution
/// fails with `NoContributions`, whatever they are verified against.
pub proof fn lemma_no_contributions_never_verify(
    before: MPCParametersView,
    after: MPCParametersView,
    rho_h: Seq<Seq<u8>>,
    rho_l: Seq<Seq<u8>>,
)
    requires
        after.contributions.len() == 0,
    ensures
        spec_check_unchanged(before, after) == Err::<(), Phase2Error>(Phase2Error::NoContributions),
        spec_verify(before, after, rho_h, rho_l) == Err::<Seq<Seq<u8>>, Phase2Error>(
            Phase2Error::NoContributions,
        ),
{
}

/// The check of contribution `i` looks at the contributions up to `i`
/// only.
pub proof fn lemma_check_contribution_of_prefix(
    cs_hash: Seq<u8>,
    contributions: Seq<PublicKeyView>,
    k: nat,
    i: int,
)
    requires
        0 <= i < k <= contributions.len(),
    ensures
        spec_check_contribution(cs_hash, contributions.take(k as int), i) == spec_check_contribution(
            cs_hash,
            contributions,
            i,
        ),
{
    assert(contributions.take(k as int).take(i) =~= contributions.take(i));
}

/// The replay of the first contributions of a prefix is the replay of the
/// first contributions of the whole.
pub proof fn lemma_replay_of_prefix(
    cs_hash: Seq<u8>,
    contributions: Seq<PublicKeyView>,
    k: nat,
    count: nat,
)
    requires
        count <= k <= contributions.len(),
    ensures
        spec_verify_transcript_upto(cs_hash, contributions.take(k as int), count)
            == spec_verify_transcript_upto(cs_hash, contributions, count),
    decreases count,
{
    if count > 0 {
        lemma_replay_of_prefix(cs_hash, contributions, k, (count - 1) as nat);
        lemma_check_contribution_of_prefix(cs_hash, contributions, k, count - 1);
    }
}

/// A replay that succeeds has succeeded for every number of contributions
/// on its way, with the digests found up to there.
pub proof fn lemma_replay_steps(
    cs_hash: Seq<u8>,
    contributions: Seq<PublicKeyView>,
    k: nat,
    count: nat,
)
    requires
        k <= count,
        spec_verify_transcript_upto(cs_hash, contributions, count) is Ok,
    ensures
        spec_verify_transcript_upto(cs_hash, contributions, k) == Ok::<Seq<Seq<u8>>, Phase2Error>(
            spec_verify_transcript_upto(cs_hash, contributions, count)->Ok_0.take(k as int),
        ),
        spec_verify_transcript_upto(cs_hash, contributions, count)->Ok_0.len() == count,
    decreases count,
{
    let whole = spec_verify_transcript_upto(cs_hash, contributions, count)->Ok_0;
    if count == 0 {
        assert(whole.take(0) =~= whole);
    } else {
        lemma_replay_steps(cs_hash, contributions, if k < count {
            k
        } else {
            (count - 1) as nat
        }, (count - 1) as nat);
        let shorter = spec_verify_transcript_upto(cs_hash, contributions, (count - 1) as nat)->Ok_0;
        if k < count {
            assert(whole.take(k as int) =~= shorter.take(k as int));
        } else {
            assert(whole.take(k as int) =~= whole);
        }
    }
}

/// The beginning of a valid transcript is a valid transcript: where the
/// replay of contributions succeeds, the replay of the first `k` of them
/// succeeds too, and gives the first `k` of the digests.
pub proof fn lemma_prefix_of_valid_transcript(
    cs_hash: Seq<u8>,
    contributions: Seq<PublicKeyView>,
    k: nat,
)
    requires
        k <= contributions.len(),
        spec_verify_transcript(cs_hash, contributions) is Ok,
    ensures
        spec_verify_transcript(cs_hash, contributions.take(k as int)) == Ok::<
            Seq<Seq<u8>>,
            Phase2Error,
        >(spec_verify_transcript(cs_hash, contributions)->Ok_0.take(k as int)),
{
    lemma_replay_steps(cs_hash, contributions, k, contributions.len());
    lemma_replay_of_prefix(cs_hash, contributions, k, k);
}

/// A replay that has failed stays failed however many contributions
/// follow.
pub proof fn lemma_replay_stays_failed(
    cs_hash: Seq<u8>,
    contributions: Seq<PublicKeyView>,
    k: nat,
    count: nat,
)
    requires
        k <= count,
        spec_verify_transcript_upto(cs_hash, contributions, k) is Err,
    ensures
        spec_verify_transcript_upto(cs_hash, contributions, count) is Err,
    decreases count,
{
    if k < count {
        lemma_replay_stays_failed(cs_hash, contributions, k, (count - 1) as nat);
    }
}

/// What verification compares outright: the circuit hash and the parts of
/// the key that no contribution touches.
pub open spec fn compared_parts(mpc: MPCParametersView) -> (
    Seq<u8>,
    Seq<u8>,
    Seq<u8>,
    Seq<u8>,
    Seq<u8>,
    Seq<Seq<u8>>,
    Seq<Seq<u8>>,
    Seq<Seq<u8>>,
    Seq<Seq<u8>>,
) {
    (
        mpc.cs_hash,
        mpc.params.vk.alpha_g1,
        mpc.params.beta_g1,
        mpc.params.vk.beta_g2,
        mpc.params.vk.gamma_g2,
        mpc.params.vk.gamma_abc_g1,
        mpc.params.a_query,
        mpc.params.b_g1_query,
        mpc.params.b_g2_query,
    )
}

/// A change of the circuit hash, or of a part of the key that no
/// contribution touches, is detected: parameters that verify against
/// `before` agree with it in all of these, so parameters that differ from
/// them in one do not verify.
pub proof fn lemma_change_of_compared_part_is_detected(
    before: MPCParametersView,
    after: MPCParametersView,
    tampered: MPCParametersView,
    rho_h: Seq<Seq<u8>>,
    rho_l: Seq<Seq<u8>>,
)
    requires
        spec_verify(before, after, rho_h, rho_l) is Ok,
        compared_parts(tampered) != compared_parts(after),
    ensures
        compared_parts(after) == compared_parts(before),
        spec_verify(before, tampered, rho_h, rho_l) is Err,
{
}

/// A change of the delta in G1 alone is detected: the last contribution
/// announces the delta, so parameters that differ from valid ones in
/// nothing but the delta in G1 do not verify.
pub proof fn lemma_change_of_delta_is_detected(
    before: MPCParametersView,
    after: MPCParametersView,
    delta_g1: Seq<u8>,
    rho_h: Seq<Seq<u8>>,
    rho_l: Seq<Seq<u8>>,
)
    requires
        spec_verify(before, after, rho_h, rho_l) is Ok,
        delta_g1 != after.params.delta_g1,
    ensures
        spec_verify(
            before,
            MPCParametersView { params: ProvingKeyView { delta_g1, ..after.params }, ..after },
            rho_h,
            rho_l,
        ) is Err,
{
}

/// A change of a transcript is detected: parameters that differ from valid
/// ones in the transcript of one contribution do not verify.
pub proof fn lemma_change_of_transcript_is_detected(
    before: MPCParametersView,
    after: MPCParametersView,
    i: int,
    transcript: Seq<u8>,
    rho_h: Seq<Seq<u8>>,
    rho_l: Seq<Seq<u8>>,
)
    requires
        spec_verify(before, after, rho_h, rho_l) is Ok,
        0 <= i < after.contributions.len(),
        transcript != after.contributions[i].transcript,
    ensures
        spec_verify(
            before,
            MPCParametersView {
                contributions: after.contributions.update(
                    i,
                    PublicKeyView { transcript, ..after.contributions[i] },
                ),
                ..after
            },
            rho_h,
            rho_l,
        ) is Err,
{
    let changed = after.contributions.update(i, PublicKeyView { transcript, ..after.contributions[i] });
    let count = after.contributions.len();
    let cs_hash = before.cs_hash;
    lemma_replay_steps(cs_hash, after.contributions, (i + 1) as nat, count);
    assert(spec_check_contribution(cs_hash, after.contributions, i) is Ok);
    assert(changed.take(i) =~= after.contributions.take(i));
    assert(spec_check_contribution(cs_hash, changed, i) is Err);
    if spec_verify_transcript_upto(cs_hash, changed, i as nat) is Ok {
        lemma_transcript_failure(cs_hash, changed, i as nat, count);
    } else {
        lemma_replay_stays_failed(cs_hash, changed, i as nat, count);
    }
}

/// A change of a contribution that the earlier parameters hold is detected:
/// parameters that differ from valid ones in such a contribution do not
/// verify.
pub proof fn lemma_change_of_earlier_contribution_is_detected(
    before: MPCParametersView,
    after: MPCParametersView,
    i: int,
    changed: PublicKeyView,
    rho_h: Seq<Seq<u8>>,
    rho_l: Seq<Seq<u8>>,
)
    requires
        spec_verify(before, after, rho_h, rho_l) is Ok,
        0 <= i < before.contributions.len(),
        changed != after.contributions[i],
    ensures
        spec_verify(
            before,
            MPCParametersView { contributions: after.contributions.update(i, changed), ..after },
            rho_h,
            rho_l,
        ) is Err,
{
    let contributions = after.contributions.update(i, changed);
    let count = before.contributions.len() as int;
    assert(after.contributions.take(count)[i] == before.contributions[i]);
    assert(contributions.take(count)[i] == changed);
}

/// A change of the delta that the last contribution announces is detected:
/// parameters that differ from valid ones in it do not verify.
pub proof fn lemma_change_of_announced_delta_is_detected(
    before: MPCParametersView,
    after: MPCParametersView,
    delta_after: Seq<u8>,
    rho_h: Seq<Seq<u8>>,
    rho_l: Seq<Seq<u8>>,
)
    requires
        spec_verify(before, after, rho_h, rho_l) is Ok,
        delta_after != after.contributions.last().delta_after,
    ensures
        spec_verify(
            before,
            MPCParametersView {
                contributions: after.contributions.update(
                    after.contributions.len() - 1,
                    PublicKeyView { delta_after, ..after.contributions.last() },
                ),
                ..after
            },
            rho_h,
            rho_l,
        ) is Err,
{
}


/// `later` can have come from `earlier` by contributions, as far as that is
/// told without a pairing: the circuit hash and the parts of the key that
/// no contribution touches are the same, the H and L queries have kept
/// their lengths, and the contributions of `earlier` are the first of
/// those of `later`.
pub open spec fn follows(earlier: MPCParametersView, later: MPCParametersView) -> bool {
    &&& compared_parts(later) == compared_parts(earlier)
    &&& later.params.h_query.len() == earlier.params.h_query.len()
    &&& later.params.l_query.len() == earlier.params.l_query.len()
    &&& is_prefix(earlier.contributions, later.contributions)
}

/// Every contribution carries the transcript that belongs to its place, and
/// the transcript hashes to a point.
pub open spec fn well_made(cs_hash: Seq<u8>, contributions: Seq<PublicKeyView>) -> bool {
    forall|i: int|
        0 <= i < contributions.len() ==> {
            &&& (#[trigger] contributions[i]).transcript == spec_hash_cs_pubkeys(
                cs_hash,
                contributions.take(i),
                contributions[i].s,
                contributions[i].s_delta,
            )
            &&& transcript_point(contributions[i].transcript) is Some
        }
}

/// The last contribution announces the delta in G1 of the parameters, if
/// there is a contribution.
pub open spec fn announces_delta(mpc: MPCParametersView) -> bool {
    mpc.contributions.len() > 0 ==> mpc.contributions.last().delta_after == mpc.params.delta_g1
}

/// What one contribution keeps and brings about.
pub proof fn lemma_contribution_follows(before: MPCParametersView, delta: Seq<u8>, s: Seq<u8>)
    requires
        spec_contribute(before, delta, s) is Ok,
    ensures
        follows(before, spec_contribute(before, delta, s)->Ok_0),
        announces_delta(spec_contribute(before, delta, s)->Ok_0),
        spec_contribute(before, delta, s)->Ok_0.contributions.len() == before.contributions.len() + 1,
        well_made(before.cs_hash, before.contributions) ==> well_made(
            before.cs_hash,
            spec_contribute(before, delta, s)->Ok_0.contributions,
        ),
{
    let after = spec_contribute(before, delta, s)->Ok_0;
    let count = before.contributions.len() as int;
    assert(after.contributions.take(count) =~= before.contributions);
    if well_made(before.cs_hash, before.contributions) {
        assert forall|i: int| 0 <= i < after.contributions.len() implies {
            &&& (#[trigger] after.contributions[i]).transcript == spec_hash_cs_pubkeys(
                before.cs_hash,
                after.contributions.take(i),
                after.contributions[i].s,
                after.contributions[i].s_delta,
            )
            &&& transcript_point(after.contributions[i].transcript) is Some
        } by {
            if i < count {
                assert(after.contributions[i] == before.contributions[i]);
                assert(after.contributions.take(i) =~= before.contributions.take(i));
            } else {
                assert(after.contributions.take(i) =~= before.contributions);
            }
        }
    }
}

/// What a contribution follows, what it leads to follows too.
pub proof fn lemma_follows_is_transitive(
    first: MPCParametersView,
    second: MPCParametersView,
    third: MPCParametersView,
)
    requires
        follows(first, second),
        follows(second, third),
    ensures
        follows(first, third),
{
    assert(third.contributions.take(first.contributions.len() as int)
        =~= third.contributions.take(second.contributions.len() as int).take(
        first.contributions.len() as int,
    ));
}

/// Where a sequence of contributions succeeds, so does its beginning, and
/// what the whole leads to follows what the beginning leads to.
pub proof fn lemma_contributions_follow(
    start: MPCParametersView,
    secrets: Seq<(Seq<u8>, Seq<u8>)>,
    k: nat,
)
    requires
        k <= secrets.len(),
        spec_contribute_all(start, secrets) is Ok,
    ensures
        spec_contribute_all(start, secrets.take(k as int)) is Ok,
        follows(
            spec_contribute_all(start, secrets.take(k as int))->Ok_0,
            spec_contribute_all(start, secrets)->Ok_0,
        ),
        spec_contribute_all(start, secrets)->Ok_0.contributions.len() == start.contributions.len()
            + secrets.len(),
        secrets.len() > 0 ==> announces_delta(spec_contribute_all(start, secrets)->Ok_0),
        well_made(start.cs_hash, start.contributions) ==> well_made(
            start.cs_hash,
            spec_contribute_all(start, secrets)->Ok_0.contributions,
        ),
        spec_contribute_all(start, secrets)->Ok_0.cs_hash == start.cs_hash,
    decreases secrets.len(),
{
    let end = spec_contribute_all(start, secrets)->Ok_0;
    if secrets.len() == 0 {
        assert(secrets.take(0) =~= secrets);
        assert(end.contributions.take(end.contributions.len() as int) =~= end.contributions);
    } else {
        let shorter = secrets.drop_last();
        let middle = spec_contribute_all(start, shorter)->Ok_0;
        lemma_contribution_follows(middle, secrets.last().0, secrets.last().1);
        if k == secrets.len() {
            lemma_contributions_follow(start, shorter, 0);
            assert(secrets.take(k as int) =~= secrets);
            assert(end.contributions.take(end.contributions.len() as int) =~= end.contributions);
        } else {
            lemma_contributions_follow(start, shorter, k);
            assert(shorter.take(k as int) =~= secrets.take(k as int));
            lemma_follows_is_transitive(
                spec_contribute_all(start, secrets.take(k as int))->Ok_0,
                middle,
                end,
            );
        }
    }
}

/// The replay of well-made contributions fails at a pairing equation or not
/// at all.
pub proof fn lemma_replay_of_well_made(
    cs_hash: Seq<u8>,
    contributions: Seq<PublicKeyView>,
    count: nat,
)
    requires
        count <= contributions.len(),
        well_made(cs_hash, contributions),
    ensures
        match spec_verify_transcript_upto(cs_hash, contributions, count) {
            Ok(hashes) => hashes.len() == count,
            Err(e) => e is PairingCheckFailed,
        },
    decreases count,
{
    if count > 0 {
        lemma_replay_of_well_made(cs_hash, contributions, (count - 1) as nat);
        assert(transcript_point(contributions[count - 1].transcript) is Some);
    }
}

/// Contributions verify, as far as that is told without a pairing: for
/// parameters without contributions, and the parameters that a sequence of
/// contributions and a beginning of it lead to, the verification of the
/// later against the earlier gives the digests of all contributions, or
/// fails at a pairing equation, and at nothing else.
pub proof fn lemma_contributions_verify_up_to_pairings(
    start: MPCParametersView,
    secrets: Seq<(Seq<u8>, Seq<u8>)>,
    k: nat,
    rho_h: Seq<Seq<u8>>,
    rho_l: Seq<Seq<u8>>,
)
    requires
        start.contributions.len() == 0,
        k <= secrets.len(),
        secrets.len() > 0,
        spec_contribute_all(start, secrets) is Ok,
    ensures
        spec_contribute_all(start, secrets.take(k as int)) is Ok,
        match spec_verify(
            spec_contribute_all(start, secrets.take(k as int))->Ok_0,
            spec_contribute_all(start, secrets)->Ok_0,
            rho_h,
            rho_l,
        ) {
            Ok(hashes) => hashes.len() == secrets.len(),
            Err(e) => e is PairingCheckFailed,
        },
{
    lemma_contributions_follow(start, secrets, k);
    lemma_contributions_follow(start, secrets.take(k as int), 0);
    let earlier = spec_contribute_all(start, secrets.take(k as int))->Ok_0;
    let later = spec_contribute_all(start, secrets)->Ok_0;
    lemma_replay_of_well_made(earlier.cs_hash, later.contributions, later.contributions.len());
}

} // verus!
