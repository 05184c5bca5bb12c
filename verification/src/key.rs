//! The proving key under construction and its written form.

use crate::codec::{
    all_accepted, all_canonical, all_round_trip, check_accepts, encode_point_vec, encodings,
    is_read_error, lemma_parse_point_round_trip, lemma_parse_point_vec_error,
    lemma_parse_point_vec_round_trip, parse_point, parse_point_vec, read_point, read_point_vec,
    write_point, write_point_vec, CheckForCorrectness,
};
use crate::curve::{G1Point, G2Point, Group};
use crate::error::Phase2Error;
use crate::point::{
    point_encode, point_in_subgroup, point_is_canonical, point_round_trips, CurvePoint,
};
use crate::UseCompression;
use vstd::prelude::*;
use vstd::std_specs::cmp::PartialEqSpecImpl;

verus! {

/// The part of the key that a verifier of proofs needs.
#[derive(Debug)]
pub struct VerifyingKey {
    pub alpha_g1: G1Point,
    pub beta_g2: G2Point,
    pub gamma_g2: G2Point,
    pub delta_g2: G2Point,
    /// One element for each public variable.
    pub gamma_abc_g1: Vec<G1Point>,
}

/// The key that the ceremony builds.
#[derive(Debug)]
pub struct ProvingKey {
    pub vk: VerifyingKey,
    pub beta_g1: G1Point,
    pub delta_g1: G1Point,
    /// One element for each variable; the point at infinity for a variable
    /// that occurs on no left side.
    pub a_query: Vec<G1Point>,
    /// One element for each variable; the point at infinity for a variable
    /// that occurs on no right side.
    pub b_g1_query: Vec<G1Point>,
    /// The same as `b_g1_query`, in G2.
    pub b_g2_query: Vec<G2Point>,
    /// One element less than the degree of the program.
    pub h_query: Vec<G1Point>,
    /// One element for each private variable, none at infinity.
    pub l_query: Vec<G1Point>,
}

/// A verifying key as plain values.
pub struct VerifyingKeyView {
    pub alpha_g1: Seq<u8>,
    pub beta_g2: Seq<u8>,
    pub gamma_g2: Seq<u8>,
    pub delta_g2: Seq<u8>,
    pub gamma_abc_g1: Seq<Seq<u8>>,
}

/// A proving key as plain values.
pub struct ProvingKeyView {
    pub vk: VerifyingKeyView,
    pub beta_g1: Seq<u8>,
    pub delta_g1: Seq<u8>,
    pub a_query: Seq<Seq<u8>>,
    pub b_g1_query: Seq<Seq<u8>>,
    pub b_g2_query: Seq<Seq<u8>>,
    pub h_query: Seq<Seq<u8>>,
    pub l_query: Seq<Seq<u8>>,
}

impl View for VerifyingKey {
    type V = VerifyingKeyView;

    open spec fn view(&self) -> VerifyingKeyView {
        VerifyingKeyView {
            alpha_g1: self.alpha_g1@,
            beta_g2: self.beta_g2@,
            gamma_g2: self.gamma_g2@,
            delta_g2: self.delta_g2@,
            gamma_abc_g1: encodings(self.gamma_abc_g1@),
        }
    }
}

impl View for ProvingKey {
    type V = ProvingKeyView;

    open spec fn view(&self) -> ProvingKeyView {
        ProvingKeyView {
            vk: self.vk@,
            beta_g1: self.beta_g1@,
            delta_g1: self.delta_g1@,
            a_query: encodings(self.a_query@),
            b_g1_query: encodings(self.b_g1_query@),
            b_g2_query: encodings(self.b_g2_query@),
            h_query: encodings(self.h_query@),
            l_query: encodings(self.l_query@),
        }
    }
}

/// What the elements of the A and B queries are held to when the rest of
/// the key is held to `check`: they may be at infinity.
pub open spec fn spec_query_check(check: CheckForCorrectness) -> CheckForCorrectness {
    match check {
        CheckForCorrectness::Full => CheckForCorrectness::OnlyInGroup,
        _ => check,
    }
}

impl ProvingKeyView {
    /// Every element is a canonical encoding.
    pub open spec fn wf(self) -> bool {
        &&& point_is_canonical(Group::G1, self.vk.alpha_g1)
        &&& point_is_canonical(Group::G2, self.vk.beta_g2)
        &&& point_is_canonical(Group::G2, self.vk.gamma_g2)
        &&& point_is_canonical(Group::G2, self.vk.delta_g2)
        &&& all_canonical(Group::G1, self.vk.gamma_abc_g1)
        &&& point_is_canonical(Group::G1, self.beta_g1)
        &&& point_is_canonical(Group::G1, self.delta_g1)
        &&& all_canonical(Group::G1, self.a_query)
        &&& all_canonical(Group::G1, self.b_g1_query)
        &&& all_canonical(Group::G2, self.b_g2_query)
        &&& all_canonical(Group::G1, self.h_query)
        &&& all_canonical(Group::G1, self.l_query)
    }

    /// Every element reads back from what is written for it.
    pub open spec fn round_trips(self, compressed: UseCompression) -> bool {
        &&& point_round_trips(Group::G1, compressed, self.vk.alpha_g1)
        &&& point_round_trips(Group::G2, compressed, self.vk.beta_g2)
        &&& point_round_trips(Group::G2, compressed, self.vk.gamma_g2)
        &&& point_round_trips(Group::G2, compressed, self.vk.delta_g2)
        &&& all_round_trip(Group::G1, compressed, self.vk.gamma_abc_g1)
        &&& point_round_trips(Group::G1, compressed, self.beta_g1)
        &&& point_round_trips(Group::G1, compressed, self.delta_g1)
        &&& all_round_trip(Group::G1, compressed, self.a_query)
        &&& all_round_trip(Group::G1, compressed, self.b_g1_query)
        &&& all_round_trip(Group::G2, compressed, self.b_g2_query)
        &&& all_round_trip(Group::G1, compressed, self.h_query)
        &&& all_round_trip(Group::G1, compressed, self.l_query)
    }

    /// No sequence is longer than the 64 bits of its written length hold.
    pub open spec fn lengths_fit(self) -> bool {
        &&& self.vk.gamma_abc_g1.len() <= u64::MAX
        &&& self.a_query.len() <= u64::MAX
        &&& self.b_g1_query.len() <= u64::MAX
        &&& self.b_g2_query.len() <= u64::MAX
        &&& self.h_query.len() <= u64::MAX
        &&& self.l_query.len() <= u64::MAX
    }

    /// Every element is acceptable to a reader that holds the key to
    /// `check`.
    pub open spec fn accepted(self, check: CheckForCorrectness) -> bool {
        &&& check_accepts(check, self.vk.alpha_g1)
        &&& check_accepts(check, self.vk.beta_g2)
        &&& check_accepts(check, self.vk.gamma_g2)
        &&& check_accepts(check, self.vk.delta_g2)
        &&& all_accepted(check, self.vk.gamma_abc_g1)
        &&& check_accepts(check, self.beta_g1)
        &&& check_accepts(check, self.delta_g1)
        &&& all_accepted(check, self.h_query)
        &&& all_accepted(check, self.l_query)
    }

    /// Every element passes the explicit subgroup test.
    pub open spec fn in_subgroup(self) -> bool {
        &&& point_in_subgroup(Group::G1, self.vk.alpha_g1)
        &&& point_in_subgroup(Group::G2, self.vk.beta_g2)
        &&& point_in_subgroup(Group::G2, self.vk.gamma_g2)
        &&& point_in_subgroup(Group::G2, self.vk.delta_g2)
        &&& all_in_subgroup(Group::G1, self.vk.gamma_abc_g1)
        &&& point_in_subgroup(Group::G1, self.beta_g1)
        &&& point_in_subgroup(Group::G1, self.delta_g1)
        &&& all_in_subgroup(Group::G1, self.a_query)
        &&& all_in_subgroup(Group::G1, self.b_g1_query)
        &&& all_in_subgroup(Group::G2, self.b_g2_query)
        &&& all_in_subgroup(Group::G1, self.h_query)
        &&& all_in_subgroup(Group::G1, self.l_query)
    }

    /// The written form of the verifying key.
    pub open spec fn vk_encoding(self, compressed: UseCompression) -> Seq<u8> {
        point_encode(Group::G1, compressed, self.vk.alpha_g1) + point_encode(
            Group::G2,
            compressed,
            self.vk.beta_g2,
        ) + point_encode(Group::G2, compressed, self.vk.gamma_g2) + point_encode(
            Group::G2,
            compressed,
            self.vk.delta_g2,
        ) + encode_point_vec(Group::G1, compressed, self.vk.gamma_abc_g1)
    }

    /// The written form of what surrounds delta in G1: the verifying key
    /// and beta in G1 before it.
    pub open spec fn head_encoding(self, compressed: UseCompression) -> Seq<u8> {
        self.vk_encoding(compressed) + point_encode(Group::G1, compressed, self.beta_g1)
    }

    /// The written form of the five queries.
    pub open spec fn query_encoding(self, compressed: UseCompression) -> Seq<u8> {
        encode_point_vec(Group::G1, compressed, self.a_query) + encode_point_vec(
            Group::G1,
            compressed,
            self.b_g1_query,
        ) + encode_point_vec(Group::G2, compressed, self.b_g2_query) + encode_point_vec(
            Group::G1,
            compressed,
            self.h_query,
        ) + encode_point_vec(Group::G1, compressed, self.l_query)
    }

    /// The written form of the key: the verifying key, beta and delta in
    /// G1, and the queries A, B in G1, B in G2, H and L.
    pub open spec fn encoding(self, compressed: UseCompression) -> Seq<u8> {
        self.head_encoding(compressed) + point_encode(Group::G1, compressed, self.delta_g1)
            + self.query_encoding(compressed)
    }
}

/// Every element of `points` passes the explicit subgroup test.
pub open spec fn all_in_subgroup(group: Group, points: Seq<Seq<u8>>) -> bool {
    forall|i: int| 0 <= i < points.len() ==> point_in_subgroup(group, #[trigger] points[i])
}

/// The element of a successful result.
pub open spec fn found<T>(result: Result<(T, Seq<u8>), Phase2Error>) -> T {
    result->Ok_0.0
}

/// What follows the part that a successful result was read from.
pub open spec fn after<T>(result: Result<(T, Seq<u8>), Phase2Error>) -> Seq<u8> {
    result->Ok_0.1
}

/// Reads a verifying key from the front of `input`: each part from what the
/// part before it left, and the first failure is the failure of the whole.
pub open spec fn parse_verifying_key(
    compressed: UseCompression,
    check: CheckForCorrectness,
    input: Seq<u8>,
) -> Result<(VerifyingKeyView, Seq<u8>), Phase2Error> {
    let alpha_g1 = parse_point(Group::G1, compressed, check, input);
    let beta_g2 = parse_point(Group::G2, compressed, check, after(alpha_g1));
    let gamma_g2 = parse_point(Group::G2, compressed, check, after(beta_g2));
    let delta_g2 = parse_point(Group::G2, compressed, check, after(gamma_g2));
    let gamma_abc_g1 = parse_point_vec(Group::G1, compressed, check, after(delta_g2));
    if alpha_g1 is Err {
        Err(alpha_g1->Err_0)
    } else if beta_g2 is Err {
        Err(beta_g2->Err_0)
    } else if gamma_g2 is Err {
        Err(gamma_g2->Err_0)
    } else if delta_g2 is Err {
        Err(delta_g2->Err_0)
    } else if gamma_abc_g1 is Err {
        Err(gamma_abc_g1->Err_0)
    } else {
        Ok(
            (
                VerifyingKeyView {
                    alpha_g1: found(alpha_g1),
                    beta_g2: found(beta_g2),
                    gamma_g2: found(gamma_g2),
                    delta_g2: found(delta_g2),
                    gamma_abc_g1: found(gamma_abc_g1),
                },
                after(gamma_abc_g1),
            ),
        )
    }
}

/// Reads a key from the front of `input`: each part from what the part
/// before it left, and the first failure is the failure of the whole. The
/// A and B queries are held to `spec_query_check(check)`, the rest to
/// `check`.
pub open spec fn parse_proving_key(
    compressed: UseCompression,
    check: CheckForCorrectness,
    input: Seq<u8>,
) -> Result<(ProvingKeyView, Seq<u8>), Phase2Error> {
    let query_check = spec_query_check(check);
    let vk = parse_verifying_key(compressed, check, input);
    let beta_g1 = parse_point(Group::G1, compressed, check, after(vk));
    let delta_g1 = parse_point(Group::G1, compressed, check, after(beta_g1));
    let a_query = parse_point_vec(Group::G1, compressed, query_check, after(delta_g1));
    let b_g1_query = parse_point_vec(Group::G1, compressed, query_check, after(a_query));
    let b_g2_query = parse_point_vec(Group::G2, compressed, query_check, after(b_g1_query));
    let h_query = parse_point_vec(Group::G1, compressed, check, after(b_g2_query));
    let l_query = parse_point_vec(Group::G1, compressed, check, after(h_query));
    if vk is Err {
        Err(vk->Err_0)
    } else if beta_g1 is Err {
        Err(beta_g1->Err_0)
    } else if delta_g1 is Err {
        Err(delta_g1->Err_0)
    } else if a_query is Err {
        Err(a_query->Err_0)
    } else if b_g1_query is Err {
        Err(b_g1_query->Err_0)
    } else if b_g2_query is Err {
        Err(b_g2_query->Err_0)
    } else if h_query is Err {
        Err(h_query->Err_0)
    } else if l_query is Err {
        Err(l_query->Err_0)
    } else {
        Ok(
            (
                ProvingKeyView {
                    vk: found(vk),
                    beta_g1: found(beta_g1),
                    delta_g1: found(delta_g1),
                    a_query: found(a_query),
                    b_g1_query: found(b_g1_query),
                    b_g2_query: found(b_g2_query),
                    h_query: found(h_query),
                    l_query: found(l_query),
                },
                after(l_query),
            ),
        )
    }
}

/// A written verifying key reads back, whatever follows it.
pub proof fn lemma_verifying_key_round_trip(
    key: ProvingKeyView,
    compressed: UseCompression,
    check: CheckForCorrectness,
    rest: Seq<u8>,
)
    requires
        key.round_trips(compressed),
        key.lengths_fit(),
        key.accepted(check),
    ensures
        parse_verifying_key(compressed, check, key.vk_encoding(compressed) + rest) == Ok::<
            (VerifyingKeyView, Seq<u8>),
            Phase2Error,
        >((key.vk, rest)),
{
    let g1 = Group::G1;
    let g2 = Group::G2;
    let r4 = encode_point_vec(g1, compressed, key.vk.gamma_abc_g1) + rest;
    let r3 = point_encode(g2, compressed, key.vk.delta_g2) + r4;
    let r2 = point_encode(g2, compressed, key.vk.gamma_g2) + r3;
    let r1 = point_encode(g2, compressed, key.vk.beta_g2) + r2;
    let r0 = point_encode(g1, compressed, key.vk.alpha_g1) + r1;
    assert(key.vk_encoding(compressed) + rest =~= r0);
    lemma_parse_point_round_trip(g1, compressed, check, key.vk.alpha_g1, r1);
    lemma_parse_point_round_trip(g2, compressed, check, key.vk.beta_g2, r2);
    lemma_parse_point_round_trip(g2, compressed, check, key.vk.gamma_g2, r3);
    lemma_parse_point_round_trip(g2, compressed, check, key.vk.delta_g2, r4);
    lemma_parse_point_vec_round_trip(g1, compressed, check, key.vk.gamma_abc_g1, rest);
    let alpha_g1 = parse_point(g1, compressed, check, r0);
    assert(alpha_g1 == Ok::<(Seq<u8>, Seq<u8>), Phase2Error>((key.vk.alpha_g1, r1)));
    let beta_g2 = parse_point(g2, compressed, check, after(alpha_g1));
    assert(beta_g2 == Ok::<(Seq<u8>, Seq<u8>), Phase2Error>((key.vk.beta_g2, r2)));
    let gamma_g2 = parse_point(g2, compressed, check, after(beta_g2));
    assert(gamma_g2 == Ok::<(Seq<u8>, Seq<u8>), Phase2Error>((key.vk.gamma_g2, r3)));
    let delta_g2 = parse_point(g2, compressed, check, after(gamma_g2));
    assert(delta_g2 == Ok::<(Seq<u8>, Seq<u8>), Phase2Error>((key.vk.delta_g2, r4)));
}

/// A written key reads back, whatever follows it.
pub proof fn lemma_proving_key_round_trip(
    key: ProvingKeyView,
    compressed: UseCompression,
    check: CheckForCorrectness,
    rest: Seq<u8>,
)
    requires
        key.round_trips(compressed),
        key.lengths_fit(),
        key.accepted(check),
    ensures
        parse_proving_key(compressed, check, key.encoding(compressed) + rest) == Ok::<
            (ProvingKeyView, Seq<u8>),
            Phase2Error,
        >((key, rest)),
{
    let query_check = spec_query_check(check);
    let g1 = Group::G1;
    let g2 = Group::G2;
    let r7 = encode_point_vec(g1, compressed, key.l_query) + rest;
    let r6 = encode_point_vec(g1, compressed, key.h_query) + r7;
    let r5 = encode_point_vec(g2, compressed, key.b_g2_query) + r6;
    let r4 = encode_point_vec(g1, compressed, key.b_g1_query) + r5;
    let r3 = encode_point_vec(g1, compressed, key.a_query) + r4;
    let r2 = point_encode(g1, compressed, key.delta_g1) + r3;
    let r1 = point_encode(g1, compressed, key.beta_g1) + r2;
    let r0 = key.vk_encoding(compressed) + r1;
    assert(key.encoding(compressed) + rest =~= r0);
    assert(all_accepted(query_check, key.a_query));
    assert(all_accepted(query_check, key.b_g1_query));
    assert(all_accepted(query_check, key.b_g2_query));
    lemma_verifying_key_round_trip(key, compressed, check, r1);
    lemma_parse_point_round_trip(g1, compressed, check, key.beta_g1, r2);
    lemma_parse_point_round_trip(g1, compressed, check, key.delta_g1, r3);
    lemma_parse_point_vec_round_trip(g1, compressed, query_check, key.a_query, r4);
    lemma_parse_point_vec_round_trip(g1, compressed, query_check, key.b_g1_query, r5);
    lemma_parse_point_vec_round_trip(g2, compressed, query_check, key.b_g2_query, r6);
    lemma_parse_point_vec_round_trip(g1, compressed, check, key.h_query, r7);
    lemma_parse_point_vec_round_trip(g1, compressed, check, key.l_query, rest);
    let vk = parse_verifying_key(compressed, check, r0);
    assert(vk == Ok::<(VerifyingKeyView, Seq<u8>), Phase2Error>((key.vk, r1)));
    let beta_g1 = parse_point(g1, compressed, check, after(vk));
    assert(beta_g1 == Ok::<(Seq<u8>, Seq<u8>), Phase2Error>((key.beta_g1, r2)));
    let delta_g1 = parse_point(g1, compressed, check, after(beta_g1));
    assert(delta_g1 == Ok::<(Seq<u8>, Seq<u8>), Phase2Error>((key.delta_g1, r3)));
    let a_query = parse_point_vec(g1, compressed, query_check, after(delta_g1));
    assert(a_query == Ok::<(Seq<Seq<u8>>, Seq<u8>), Phase2Error>((key.a_query, r4)));
    let b_g1_query = parse_point_vec(g1, compressed, query_check, after(a_query));
    assert(b_g1_query == Ok::<(Seq<Seq<u8>>, Seq<u8>), Phase2Error>((key.b_g1_query, r5)));
    let b_g2_query = parse_point_vec(g2, compressed, query_check, after(b_g1_query));
    assert(b_g2_query == Ok::<(Seq<Seq<u8>>, Seq<u8>), Phase2Error>((key.b_g2_query, r6)));
    let h_query = parse_point_vec(g1, compressed, check, after(b_g2_query));
    assert(h_query == Ok::<(Seq<Seq<u8>>, Seq<u8>), Phase2Error>((key.h_query, r7)));
}

/// A copy of `points`.
pub fn clone_points<G: CurvePoint>(points: &Vec<G>) -> (copy: Vec<G>)
    ensures
        encodings(copy@) == encodings(points@),
{
    let mut copy: Vec<G> = Vec::new();
    let mut i: usize = 0;
    while i < points.len()
        invariant
            i <= points@.len(),
            copy@.len() == i,
            forall|j: int| 0 <= j < i ==> (#[trigger] copy@[j]).encoding() == points@[j].encoding(),
        decreases points@.len() - i,
    {
        copy.push(points[i].duplicate());
        i += 1;
    }
    assert(encodings(copy@) =~= encodings(points@));
    copy
}

/// Whether the two sequences hold the same elements.
pub fn points_equal<G: CurvePoint>(left: &Vec<G>, right: &Vec<G>) -> (same: bool)
    ensures
        same == (encodings(left@) == encodings(right@)),
{
    if left.len() != right.len() {
        assert(encodings(left@).len() != encodings(right@).len());
        return false;
    }
    let mut i: usize = 0;
    while i < left.len()
        invariant
            i <= left@.len(),
            left@.len() == right@.len(),
            forall|j: int| 0 <= j < i ==> (#[trigger] left@[j]).encoding() == right@[j].encoding(),
        decreases left@.len() - i,
    {
        if !left[i].same(&right[i]) {
            assert(encodings(left@)[i as int] != encodings(right@)[i as int]);
            return false;
        }
        i += 1;
    }
    assert(encodings(left@) =~= encodings(right@));
    true
}

/// Whether every element of `points` passes the explicit subgroup test.
pub fn check_points_in_subgroup<G: CurvePoint>(points: &Vec<G>) -> (ok: bool)
    ensures
        ok == all_in_subgroup(G::group(), encodings(points@)),
{
    let mut i: usize = 0;
    while i < points.len()
        invariant
            i <= points@.len(),
            forall|j: int|
                0 <= j < i ==> point_in_subgroup(G::group(), #[trigger] encodings(points@)[j]),
        decreases points@.len() - i,
    {
        if !points[i].subgroup_member() {
            assert(!point_in_subgroup(G::group(), encodings(points@)[i as int]));
            return false;
        }
        i += 1;
    }
    true
}

impl Clone for VerifyingKey {
    fn clone(&self) -> (r: Self)
        ensures
            r@ == self@,
    {
        VerifyingKey {
            alpha_g1: self.alpha_g1.clone(),
            beta_g2: self.beta_g2.clone(),
            gamma_g2: self.gamma_g2.clone(),
            delta_g2: self.delta_g2.clone(),
            gamma_abc_g1: clone_points(&self.gamma_abc_g1),
        }
    }
}

impl Clone for ProvingKey {
    fn clone(&self) -> (r: Self)
        ensures
            r@ == self@,
    {
        ProvingKey {
            vk: self.vk.clone(),
            beta_g1: self.beta_g1.clone(),
            delta_g1: self.delta_g1.clone(),
            a_query: clone_points(&self.a_query),
            b_g1_query: clone_points(&self.b_g1_query),
            b_g2_query: clone_points(&self.b_g2_query),
            h_query: clone_points(&self.h_query),
            l_query: clone_points(&self.l_query),
        }
    }
}

impl PartialEq for VerifyingKey {
    fn eq(&self, other: &Self) -> (r: bool) {
        let same = self.alpha_g1 == other.alpha_g1 && self.beta_g2 == other.beta_g2
            && self.gamma_g2 == other.gamma_g2 && self.delta_g2 == other.delta_g2 && points_equal(
            &self.gamma_abc_g1,
            &other.gamma_abc_g1,
        );
        same
    }
}

impl PartialEqSpecImpl for VerifyingKey {
    open spec fn obeys_eq_spec() -> bool {
        true
    }

    open spec fn eq_spec(&self, other: &Self) -> bool {
        self@ == other@
    }
}

impl PartialEq for ProvingKey {
    fn eq(&self, other: &Self) -> (r: bool) {
        let same = self.vk == other.vk && self.beta_g1 == other.beta_g1 && self.delta_g1
            == other.delta_g1 && points_equal(&self.a_query, &other.a_query) && points_equal(
            &self.b_g1_query,
            &other.b_g1_query,
        ) && points_equal(&self.b_g2_query, &other.b_g2_query) && points_equal(
            &self.h_query,
            &other.h_query,
        ) && points_equal(&self.l_query, &other.l_query);
        same
    }
}

impl PartialEqSpecImpl for ProvingKey {
    open spec fn obeys_eq_spec() -> bool {
        true
    }

    open spec fn eq_spec(&self, other: &Self) -> bool {
        self@ == other@
    }
}

/// What the elements of the A and B queries are held to when the rest of
/// the key is held to `check`.
pub fn query_check(check: CheckForCorrectness) -> (r: CheckForCorrectness)
    ensures
        r == spec_query_check(check),
{
    match check {
        CheckForCorrectness::Full => CheckForCorrectness::OnlyInGroup,
        _ => check,
    }
}

impl VerifyingKey {
    /// Appends the written form of the verifying key to `out`.
    pub fn write(&self, out: &mut Vec<u8>, compressed: UseCompression)
        ensures
            final(out)@ == old(out)@ + point_encode(Group::G1, compressed, self@.alpha_g1)
                + point_encode(Group::G2, compressed, self@.beta_g2) + point_encode(
                Group::G2,
                compressed,
                self@.gamma_g2,
            ) + point_encode(Group::G2, compressed, self@.delta_g2) + encode_point_vec(
                Group::G1,
                compressed,
                self@.gamma_abc_g1,
            ),
            point_round_trips(Group::G1, compressed, self@.alpha_g1),
            point_round_trips(Group::G2, compressed, self@.beta_g2),
            point_round_trips(Group::G2, compressed, self@.gamma_g2),
            point_round_trips(Group::G2, compressed, self@.delta_g2),
            all_round_trip(Group::G1, compressed, self@.gamma_abc_g1),
            self@.gamma_abc_g1.len() <= u64::MAX,
            point_is_canonical(Group::G1, self@.alpha_g1),
            point_is_canonical(Group::G2, self@.beta_g2),
            point_is_canonical(Group::G2, self@.gamma_g2),
            point_is_canonical(Group::G2, self@.delta_g2),
            all_canonical(Group::G1, self@.gamma_abc_g1),
    {
        write_point(out, &self.alpha_g1, compressed);
        write_point(out, &self.beta_g2, compressed);
        write_point(out, &self.gamma_g2, compressed);
        write_point(out, &self.delta_g2, compressed);
        write_point_vec(out, &self.gamma_abc_g1, compressed);
    }

    /// Reads a verifying key at `start`. Gives the key and the position
    /// behind it.
    pub fn read(
        input: &[u8],
        start: usize,
        compressed: UseCompression,
        check: CheckForCorrectness,
    ) -> (r: Result<(VerifyingKey, usize), Phase2Error>)
        requires
            start <= input@.len(),
        ensures
            match r {
                Ok((key, end)) => start <= end <= input@.len() && parse_verifying_key(
                    compressed,
                    check,
                    input@.skip(start as int),
                ) == Ok::<(VerifyingKeyView, Seq<u8>), Phase2Error>((key@, input@.skip(end as int))),
                Err(e) => parse_verifying_key(compressed, check, input@.skip(start as int)) == Err::<
                    (VerifyingKeyView, Seq<u8>),
                    Phase2Error,
                >(e),
            },
    {
        let (alpha_g1, pos1) = match read_point::<G1Point>(input, start, compressed, check) {
            Ok(found) => found,
            Err(e) => {
                return Err(e);
            },
        };
        let (beta_g2, pos2) = match read_point::<G2Point>(input, pos1, compressed, check) {
            Ok(found) => found,
            Err(e) => {
                return Err(e);
            },
        };
        let (gamma_g2, pos3) = match read_point::<G2Point>(input, pos2, compressed, check) {
            Ok(found) => found,
            Err(e) => {
                return Err(e);
            },
        };
        let (delta_g2, pos4) = match read_point::<G2Point>(input, pos3, compressed, check) {
            Ok(found) => found,
            Err(e) => {
                return Err(e);
            },
        };
        let (gamma_abc_g1, end) = match read_point_vec::<G1Point>(input, pos4, compressed, check) {
            Ok(found) => found,
            Err(e) => {
                return Err(e);
            },
        };
        Ok((VerifyingKey { alpha_g1, beta_g2, gamma_g2, delta_g2, gamma_abc_g1 }, end))
    }
}

impl ProvingKey {
    /// Appends the written form of the key to `out`. What was appended reads
    /// back as the key under every check that accepts its elements.
    pub fn write(&self, out: &mut Vec<u8>, compressed: UseCompression)
        ensures
            final(out)@ == old(out)@ + self@.encoding(compressed),
            self@.round_trips(compressed),
            self@.lengths_fit(),
            self@.wf(),
    {
        let ghost start = out@;
        self.vk.write(out, compressed);
        write_point(out, &self.beta_g1, compressed);
        write_point(out, &self.delta_g1, compressed);
        write_point_vec(out, &self.a_query, compressed);
        write_point_vec(out, &self.b_g1_query, compressed);
        write_point_vec(out, &self.b_g2_query, compressed);
        write_point_vec(out, &self.h_query, compressed);
        write_point_vec(out, &self.l_query, compressed);
        assert(out@ =~= start + self@.encoding(compressed));
    }

    /// Reads a key at `start`, holding the A and B queries to
    /// `query_check(check)` and the rest to `check`. Gives the key and the
    /// position behind it.
    pub fn read(
        input: &[u8],
        start: usize,
        compressed: UseCompression,
        check: CheckForCorrectness,
    ) -> (r: Result<(ProvingKey, usize), Phase2Error>)
        requires
            start <= input@.len(),
        ensures
            match r {
                Ok((key, end)) => start <= end <= input@.len() && parse_proving_key(
                    compressed,
                    check,
                    input@.skip(start as int),
                ) == Ok::<(ProvingKeyView, Seq<u8>), Phase2Error>((key@, input@.skip(end as int))),
                Err(e) => parse_proving_key(compressed, check, input@.skip(start as int)) == Err::<
                    (ProvingKeyView, Seq<u8>),
                    Phase2Error,
                >(e),
            },
    {
        let ab_check = query_check(check);
        let (vk, pos1) = match VerifyingKey::read(input, start, compressed, check) {
            Ok(found) => found,
            Err(e) => {
                return Err(e);
            },
        };
        let (beta_g1, pos2) = match read_point::<G1Point>(input, pos1, compressed, check) {
            Ok(found) => found,
            Err(e) => {
                return Err(e);
            },
        };
        let (delta_g1, pos3) = match read_point::<G1Point>(input, pos2, compressed, check) {
            Ok(found) => found,
            Err(e) => {
                return Err(e);
            },
        };
        let (a_query, pos4) = match read_point_vec::<G1Point>(input, pos3, compressed, ab_check) {
            Ok(found) => found,
            Err(e) => {
                return Err(e);
            },
        };
        let (b_g1_query, pos5) = match read_point_vec::<G1Point>(input, pos4, compressed, ab_check) {
            Ok(found) => found,
            Err(e) => {
                return Err(e);
            },
        };
        let (b_g2_query, pos6) = match read_point_vec::<G2Point>(input, pos5, compressed, ab_check) {
            Ok(found) => found,
            Err(e) => {
                return Err(e);
            },
        };
        let (h_query, pos7) = match read_point_vec::<G1Point>(input, pos6, compressed, check) {
            Ok(found) => found,
            Err(e) => {
                return Err(e);
            },
        };
        let (l_query, end) = match read_point_vec::<G1Point>(input, pos7, compressed, check) {
            Ok(found) => found,
            Err(e) => {
                return Err(e);
            },
        };
        Ok(
            (
                ProvingKey { vk, beta_g1, delta_g1, a_query, b_g1_query, b_g2_query, h_query, l_query },
                end,
            ),
        )
    }

    /// Whether every element of the key passes the explicit subgroup test.
    pub fn check_subgroup(&self) -> (ok: bool)
        ensures
            ok == self@.in_subgroup(),
    {
        check_points_in_subgroup(&self.a_query) && check_points_in_subgroup(&self.b_g1_query)
            && check_points_in_subgroup(&self.b_g2_query) && check_points_in_subgroup(&self.h_query)
            && check_points_in_subgroup(&self.l_query) && check_points_in_subgroup(
            &self.vk.gamma_abc_g1,
        ) && self.beta_g1.in_subgroup() && self.delta_g1.in_subgroup()
            && self.vk.alpha_g1.in_subgroup() && self.vk.beta_g2.in_subgroup()
            && self.vk.delta_g2.in_subgroup() && self.vk.gamma_g2.in_subgroup()
    }
}

/// The failure of reading a key is a failure of reading.
pub proof fn lemma_parse_proving_key_error(
    compressed: UseCompression,
    check: CheckForCorrectness,
    input: Seq<u8>,
)
    ensures
        parse_proving_key(compressed, check, input) is Err ==> is_read_error(
            parse_proving_key(compressed, check, input)->Err_0,
        ),
{
    let query_check = spec_query_check(check);
    let g1 = Group::G1;
    let g2 = Group::G2;
    let alpha_g1 = parse_point(g1, compressed, check, input);
    let beta_g2 = parse_point(g2, compressed, check, after(alpha_g1));
    let gamma_g2 = parse_point(g2, compressed, check, after(beta_g2));
    let delta_g2 = parse_point(g2, compressed, check, after(gamma_g2));
    lemma_parse_point_vec_error(g1, compressed, check, after(delta_g2));
    let vk = parse_verifying_key(compressed, check, input);
    let beta_g1 = parse_point(g1, compressed, check, after(vk));
    let delta_g1 = parse_point(g1, compressed, check, after(beta_g1));
    lemma_parse_point_vec_error(g1, compressed, query_check, after(delta_g1));
    let a_query = parse_point_vec(g1, compressed, query_check, after(delta_g1));
    lemma_parse_point_vec_error(g1, compressed, query_check, after(a_query));
    let b_g1_query = parse_point_vec(g1, compressed, query_check, after(a_query));
    lemma_parse_point_vec_error(g2, compressed, query_check, after(b_g1_query));
    let b_g2_query = parse_point_vec(g2, compressed, query_check, after(b_g1_query));
    lemma_parse_point_vec_error(g1, compressed, check, after(b_g2_query));
    let h_query = parse_point_vec(g1, compressed, check, after(b_g2_query));
    lemma_parse_point_vec_error(g1, compressed, check, after(h_query));
}

} // verus!
