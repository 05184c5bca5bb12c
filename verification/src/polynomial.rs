//! The quadratic arithmetic program of a circuit, the output of the first
//! phase, and the evaluation of the one against the other.

use crate::codec::encodings;
use crate::curve::{G1Point, G2Point, Group, Scalar};
use crate::point::{point_add, point_mul, point_zero, CurvePoint};
use vstd::prelude::*;

verus! {

/// The polynomials of a circuit, one linear combination for each variable
/// and side: a term is a coefficient and the number of a constraint.
pub struct KeypairAssembly {
    pub num_public_variables: usize,
    pub num_private_variables: usize,
    pub at: Vec<Vec<(Scalar, usize)>>,
    pub bt: Vec<Vec<(Scalar, usize)>>,
    pub ct: Vec<Vec<(Scalar, usize)>>,
}

/// What the first phase hands over: alpha and beta, and the Lagrange
/// coefficients of the powers of tau.
pub struct Groth16Params {
    pub alpha_g1: G1Point,
    pub beta_g1: G1Point,
    pub beta_g2: G2Point,
    pub coeffs_g1: Vec<G1Point>,
    pub coeffs_g2: Vec<G2Point>,
    pub alpha_coeffs_g1: Vec<G1Point>,
    pub beta_coeffs_g1: Vec<G1Point>,
    pub h_g1: Vec<G1Point>,
}

/// A linear combination as plain values.
pub type Terms = Seq<(Seq<u8>, nat)>;

/// The polynomials of a circuit as plain values.
pub struct AssemblyView {
    pub num_public_variables: nat,
    pub num_private_variables: nat,
    pub at: Seq<Terms>,
    pub bt: Seq<Terms>,
    pub ct: Seq<Terms>,
}

/// The output of the first phase as plain values.
pub struct Groth16ParamsView {
    pub alpha_g1: Seq<u8>,
    pub beta_g1: Seq<u8>,
    pub beta_g2: Seq<u8>,
    pub coeffs_g1: Seq<Seq<u8>>,
    pub coeffs_g2: Seq<Seq<u8>>,
    pub alpha_coeffs_g1: Seq<Seq<u8>>,
    pub beta_coeffs_g1: Seq<Seq<u8>>,
    pub h_g1: Seq<Seq<u8>>,
}

/// The terms of a linear combination as plain values.
pub open spec fn term_views(terms: Seq<(Scalar, usize)>) -> Terms {
    Seq::new(terms.len(), |i: int| (terms[i].0@, terms[i].1 as nat))
}

/// The linear combinations of one side as plain values.
pub open spec fn side_views(side: Seq<Vec<(Scalar, usize)>>) -> Seq<Terms> {
    Seq::new(side.len(), |i: int| term_views(side[i]@))
}

impl View for KeypairAssembly {
    type V = AssemblyView;

    open spec fn view(&self) -> AssemblyView {
        AssemblyView {
            num_public_variables: self.num_public_variables as nat,
            num_private_variables: self.num_private_variables as nat,
            at: side_views(self.at@),
            bt: side_views(self.bt@),
            ct: side_views(self.ct@),
        }
    }
}

impl View for Groth16Params {
    type V = Groth16ParamsView;

    open spec fn view(&self) -> Groth16ParamsView {
        Groth16ParamsView {
            alpha_g1: self.alpha_g1@,
            beta_g1: self.beta_g1@,
            beta_g2: self.beta_g2@,
            coeffs_g1: encodings(self.coeffs_g1@),
            coeffs_g2: encodings(self.coeffs_g2@),
            alpha_coeffs_g1: encodings(self.alpha_coeffs_g1@),
            beta_coeffs_g1: encodings(self.beta_coeffs_g1@),
            h_g1: encodings(self.h_g1@),
        }
    }
}

/// Every term refers to one of the first `count` coefficients.
pub open spec fn terms_in_range(terms: Terms, count: nat) -> bool {
    forall|i: int| 0 <= i < terms.len() ==> (#[trigger] terms[i]).1 < count
}

/// The sum, over the terms in their order, of the coefficient that a term
/// refers to multiplied by the term's scalar; the point at infinity for no
/// terms.
pub open spec fn spec_dot_product(group: Group, terms: Terms, coeffs: Seq<Seq<u8>>) -> Seq<u8>
    decreases terms.len(),
{
    if terms.len() == 0 {
        point_zero(group)
    } else {
        point_add(
            group,
            spec_dot_product(group, terms.drop_last(), coeffs),
            point_mul(group, coeffs[terms.last().1 as int], terms.last().0),
        )
    }
}

/// The linear combination of `coeffs` that `terms` describes, or `None` if a
/// term refers to a coefficient that is not there.
pub fn dot_product<G: CurvePoint>(terms: &Vec<(Scalar, usize)>, coeffs: &Vec<G>) -> (r: Option<G>)
    ensures
        match r {
            Some(sum) => terms_in_range(term_views(terms@), coeffs@.len()) && sum.encoding()
                == spec_dot_product(G::group(), term_views(terms@), encodings(coeffs@)),
            None => !terms_in_range(term_views(terms@), coeffs@.len()),
        },
{
    let ghost all = term_views(terms@);
    let ghost points = encodings(coeffs@);
    let mut sum = G::identity();
    let mut i: usize = 0;
    assert(all.take(0) =~= Seq::<(Seq<u8>, nat)>::empty());
    while i < terms.len()
        invariant
            i <= terms@.len(),
            all == term_views(terms@),
            points == encodings(coeffs@),
            terms_in_range(all.take(i as int), coeffs@.len()),
            sum.encoding() == spec_dot_product(G::group(), all.take(i as int), points),
        decreases terms@.len() - i,
    {
        let index = terms[i].1;
        if index >= coeffs.len() {
            assert(all[i as int].1 >= coeffs@.len());
            return None;
        }
        let product = coeffs[index].scale(&terms[i].0);
        sum = sum.plus(&product);
        proof {
            let next = all.take(i + 1);
            assert(next.drop_last() =~= all.take(i as int));
            assert(next.last() == all[i as int]);
            assert forall|j: int| 0 <= j < next.len() implies (#[trigger] next[j]).1
                < coeffs@.len() by {
                if j < i {
                    assert(next[j] == all.take(i as int)[j]);
                }
            }
        }
        i += 1;
    }
    assert(all.take(terms@.len() as int) =~= all);
    Some(sum)
}

/// The queries that the evaluation yields, as plain values.
pub struct EvaluationView {
    pub a_g1: Seq<Seq<u8>>,
    pub b_g1: Seq<Seq<u8>>,
    pub b_g2: Seq<Seq<u8>>,
    pub gamma_abc_g1: Seq<Seq<u8>>,
    pub l: Seq<Seq<u8>>,
}

/// The element of the combined query for the variable `i`: its left side
/// against the beta coefficients, plus its right side against the alpha
/// coefficients, plus its output side against the plain coefficients.
pub open spec fn spec_ext(assembly: AssemblyView, params: Groth16ParamsView, i: int) -> Seq<u8> {
    point_add(
        Group::G1,
        point_add(
            Group::G1,
            spec_dot_product(Group::G1, assembly.at[i], params.beta_coeffs_g1),
            spec_dot_product(Group::G1, assembly.bt[i], params.alpha_coeffs_g1),
        ),
        spec_dot_product(Group::G1, assembly.ct[i], params.coeffs_g1),
    )
}

/// The three sides have one combination for each variable, the public
/// variables are among them, and every term refers to a coefficient that
/// the first phase provided.
pub open spec fn eval_defined(assembly: AssemblyView, params: Groth16ParamsView) -> bool {
    &&& assembly.at.len() == assembly.bt.len()
    &&& assembly.at.len() == assembly.ct.len()
    &&& assembly.num_public_variables <= assembly.at.len()
    &&& forall|i: int|
        0 <= i < assembly.at.len() ==> variable_defined(assembly, params, i)
}

/// Every term of the variable `i` refers to a coefficient that is there.
pub open spec fn variable_defined(assembly: AssemblyView, params: Groth16ParamsView, i: int) -> bool {
    &&& terms_in_range(assembly.at[i], params.coeffs_g1.len())
    &&& terms_in_range(assembly.at[i], params.beta_coeffs_g1.len())
    &&& terms_in_range(assembly.bt[i], params.coeffs_g1.len())
    &&& terms_in_range(assembly.bt[i], params.coeffs_g2.len())
    &&& terms_in_range(assembly.bt[i], params.alpha_coeffs_g1.len())
    &&& terms_in_range(assembly.ct[i], params.coeffs_g1.len())
}

/// The evaluation of the program against the Lagrange coefficients: for
/// each variable the A query, the B query in both groups and the combined
/// query, which is split into the part of the public variables and the part
/// of the private ones.
pub open spec fn spec_eval(assembly: AssemblyView, params: Groth16ParamsView) -> EvaluationView {
    let variables = assembly.at.len();
    let public = assembly.num_public_variables;
    EvaluationView {
        a_g1: Seq::new(
            variables,
            |i: int| spec_dot_product(Group::G1, assembly.at[i], params.coeffs_g1),
        ),
        b_g1: Seq::new(
            variables,
            |i: int| spec_dot_product(Group::G1, assembly.bt[i], params.coeffs_g1),
        ),
        b_g2: Seq::new(
            variables,
            |i: int| spec_dot_product(Group::G2, assembly.bt[i], params.coeffs_g2),
        ),
        gamma_abc_g1: Seq::new(public, |i: int| spec_ext(assembly, params, i)),
        l: Seq::new((variables - public) as nat, |i: int| spec_ext(assembly, params, public + i)),
    }
}

/// The queries that `eval` computes.
pub struct Evaluation {
    pub a_g1: Vec<G1Point>,
    pub b_g1: Vec<G1Point>,
    pub b_g2: Vec<G2Point>,
    pub gamma_abc_g1: Vec<G1Point>,
    pub l: Vec<G1Point>,
}

impl View for Evaluation {
    type V = EvaluationView;

    open spec fn view(&self) -> EvaluationView {
        EvaluationView {
            a_g1: encodings(self.a_g1@),
            b_g1: encodings(self.b_g1@),
            b_g2: encodings(self.b_g2@),
            gamma_abc_g1: encodings(self.gamma_abc_g1@),
            l: encodings(self.l@),
        }
    }
}

/// Evaluates the program against the Lagrange coefficients. `None` means
/// that the evaluation is not defined.
pub fn eval(assembly: &KeypairAssembly, params: &Groth16Params) -> (r: Option<Evaluation>)
    ensures
        match r {
            Some(queries) => eval_defined(assembly@, params@) && queries@ == spec_eval(
                assembly@,
                params@,
            ),
            None => !eval_defined(assembly@, params@),
        },
{
    let variables = assembly.at.len();
    let public = assembly.num_public_variables;
    if assembly.bt.len() != variables || assembly.ct.len() != variables || public > variables {
        return None;
    }
    let ghost a = assembly@;
    let ghost p = params@;
    let ghost expected = spec_eval(a, p);
    let mut a_g1: Vec<G1Point> = Vec::new();
    let mut b_g1: Vec<G1Point> = Vec::new();
    let mut b_g2: Vec<G2Point> = Vec::new();
    let mut gamma_abc_g1: Vec<G1Point> = Vec::new();
    let mut l: Vec<G1Point> = Vec::new();
    let mut i: usize = 0;
    while i < variables
        invariant
            i <= variables,
            variables == assembly.at@.len(),
            variables == assembly.bt@.len(),
            variables == assembly.ct@.len(),
            public == assembly.num_public_variables,
            public <= variables,
            a == assembly@,
            p == params@,
            expected == spec_eval(a, p),
            forall|j: int| 0 <= j < i ==> variable_defined(a, p, j),
            a_g1@.len() == i,
            b_g1@.len() == i,
            b_g2@.len() == i,
            gamma_abc_g1@.len() == (if i <= public { i } else { public }),
            l@.len() == (if i <= public { 0 } else { i - public }),
            forall|j: int| 0 <= j < i ==> (#[trigger] a_g1@[j]).encoding() == expected.a_g1[j],
            forall|j: int| 0 <= j < i ==> (#[trigger] b_g1@[j]).encoding() == expected.b_g1[j],
            forall|j: int| 0 <= j < i ==> (#[trigger] b_g2@[j]).encoding() == expected.b_g2[j],
            forall|j: int|
                0 <= j < gamma_abc_g1@.len() ==> (#[trigger] gamma_abc_g1@[j]).encoding()
                    == expected.gamma_abc_g1[j],
            forall|j: int| 0 <= j < l@.len() ==> (#[trigger] l@[j]).encoding() == expected.l[j],
        decreases variables - i,
    {
        assert(a.at[i as int] == term_views(assembly.at@[i as int]@));
        assert(a.bt[i as int] == term_views(assembly.bt@[i as int]@));
        assert(a.ct[i as int] == term_views(assembly.ct@[i as int]@));
        let a_point = match dot_product::<G1Point>(&assembly.at[i], &params.coeffs_g1) {
            Some(point) => point,
            None => {
                assert(!variable_defined(a, p, i as int));
                return None;
            },
        };
        let b_point = match dot_product::<G1Point>(&assembly.bt[i], &params.coeffs_g1) {
            Some(point) => point,
            None => {
                assert(!variable_defined(a, p, i as int));
                return None;
            },
        };
        let b2_point = match dot_product::<G2Point>(&assembly.bt[i], &params.coeffs_g2) {
            Some(point) => point,
            None => {
                assert(!variable_defined(a, p, i as int));
                return None;
            },
        };
        let a_beta = match dot_product::<G1Point>(&assembly.at[i], &params.beta_coeffs_g1) {
            Some(point) => point,
            None => {
                assert(!variable_defined(a, p, i as int));
                return None;
            },
        };
        let b_alpha = match dot_product::<G1Point>(&assembly.bt[i], &params.alpha_coeffs_g1) {
            Some(point) => point,
            None => {
                assert(!variable_defined(a, p, i as int));
                return None;
            },
        };
        let c_point = match dot_product::<G1Point>(&assembly.ct[i], &params.coeffs_g1) {
            Some(point) => point,
            None => {
                assert(!variable_defined(a, p, i as int));
                return None;
            },
        };
        let ext = a_beta.add(&b_alpha).add(&c_point);
        assert(ext@ == spec_ext(a, p, i as int));
        assert(variable_defined(a, p, i as int));
        a_g1.push(a_point);
        b_g1.push(b_point);
        b_g2.push(b2_point);
        if i < public {
            gamma_abc_g1.push(ext);
        } else {
            l.push(ext);
        }
        i += 1;
    }
    let queries = Evaluation { a_g1, b_g1, b_g2, gamma_abc_g1, l };
    proof {
        assert(queries@.a_g1 =~= expected.a_g1);
        assert(queries@.b_g1 =~= expected.b_g1);
        assert(queries@.b_g2 =~= expected.b_g2);
        assert(queries@.gamma_abc_g1 =~= expected.gamma_abc_g1);
        assert(queries@.l =~= expected.l);
    }
    Some(queries)
}

} // verus!
