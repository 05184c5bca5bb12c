//! Reading what the first phase hands over.
//!
//! The output of the first phase, prepared for the second, holds alpha and
//! beta in G1 and beta in G2, then four sections of Lagrange coefficients
//! (in G1, in G2, with alpha in G1, with beta in G1) of `phase1_size`
//! elements each, then the bases of the H query, one element less. The
//! sections carry no lengths. A circuit needs the first `phase2_size`
//! elements of each section only, and one less of the last.

use crate::codec::{
    encodings, parse_point, parse_points, read_point, read_points, CheckForCorrectness,
};
use crate::curve::{G1Point, G2Point, Group};
use crate::error::Phase2Error;
use crate::key::{after, found};
use crate::point::{point_size, CurvePoint};
use crate::polynomial::{Groth16Params, Groth16ParamsView};
use crate::UseCompression;
use vstd::prelude::*;

verus! {

/// Reads the first `take` elements of a section of `total` elements from
/// the front of `input`, and passes over the others.
#[verifier::opaque]
pub open spec fn parse_section(
    group: Group,
    compressed: UseCompression,
    check: CheckForCorrectness,
    input: Seq<u8>,
    total: nat,
    take: nat,
) -> Result<(Seq<Seq<u8>>, Seq<u8>), Phase2Error> {
    let passed_over = (total - take) * point_size(group, compressed);
    if take > total {
        Err(Phase2Error::InvalidLength)
    } else {
        match parse_points(group, compressed, check, input, take) {
            Err(e) => Err(e),
            Ok((points, rest)) => if rest.len() < passed_over {
                Err(Phase2Error::Io)
            } else {
                Ok((points, rest.skip(passed_over)))
            },
        }
    }
}

/// One less, but not less than nothing.
pub open spec fn one_less(n: nat) -> nat {
    if n == 0 {
        0
    } else {
        (n - 1) as nat
    }
}

/// Reads the output of the first phase, of size `phase1_size`, as far as a
/// circuit of size `phase2_size` needs it: each part from what the part
/// before it left, and the first failure is the failure of the whole.
pub open spec fn parse_groth16_params(
    compressed: UseCompression,
    check: CheckForCorrectness,
    phase1_size: nat,
    phase2_size: nat,
    input: Seq<u8>,
) -> Result<Groth16ParamsView, Phase2Error> {
    let alpha_g1 = parse_point(Group::G1, compressed, check, input);
    let beta_g1 = parse_point(Group::G1, compressed, check, after(alpha_g1));
    let beta_g2 = parse_point(Group::G2, compressed, check, after(beta_g1));
    let coeffs_g1 = parse_section(
        Group::G1,
        compressed,
        check,
        after(beta_g2),
        phase1_size,
        phase2_size,
    );
    let coeffs_g2 = parse_section(
        Group::G2,
        compressed,
        check,
        after(coeffs_g1),
        phase1_size,
        phase2_size,
    );
    let alpha_coeffs_g1 = parse_section(
        Group::G1,
        compressed,
        check,
        after(coeffs_g2),
        phase1_size,
        phase2_size,
    );
    let beta_coeffs_g1 = parse_section(
        Group::G1,
        compressed,
        check,
        after(alpha_coeffs_g1),
        phase1_size,
        phase2_size,
    );
    let h_g1 = parse_section(
        Group::G1,
        compressed,
        check,
        after(beta_coeffs_g1),
        one_less(phase1_size),
        one_less(phase2_size),
    );
    if alpha_g1 is Err {
        Err(alpha_g1->Err_0)
    } else if beta_g1 is Err {
        Err(beta_g1->Err_0)
    } else if beta_g2 is Err {
        Err(beta_g2->Err_0)
    } else if coeffs_g1 is Err {
        Err(coeffs_g1->Err_0)
    } else if coeffs_g2 is Err {
        Err(coeffs_g2->Err_0)
    } else if alpha_coeffs_g1 is Err {
        Err(alpha_coeffs_g1->Err_0)
    } else if beta_coeffs_g1 is Err {
        Err(beta_coeffs_g1->Err_0)
    } else if h_g1 is Err {
        Err(h_g1->Err_0)
    } else {
        Ok(
            Groth16ParamsView {
                alpha_g1: found(alpha_g1),
                beta_g1: found(beta_g1),
                beta_g2: found(beta_g2),
                coeffs_g1: found(coeffs_g1),
                coeffs_g2: found(coeffs_g2),
                alpha_coeffs_g1: found(alpha_coeffs_g1),
                beta_coeffs_g1: found(beta_coeffs_g1),
                h_g1: found(h_g1),
            },
        )
    }
}

/// Reads the first `take` elements of a section of `total` elements at
/// `start`. Gives the elements and the position behind the section.
fn read_section<G: CurvePoint>(
    input: &[u8],
    start: usize,
    compressed: UseCompression,
    check: CheckForCorrectness,
    total: usize,
    take: usize,
) -> (r: Result<(Vec<G>, usize), Phase2Error>)
    requires
        start <= input@.len(),
    ensures
        match r {
            Ok((points, end)) => start <= end <= input@.len() && parse_section(
                G::group(),
                compressed,
                check,
                input@.skip(start as int),
                total as nat,
                take as nat,
            ) == Ok::<(Seq<Seq<u8>>, Seq<u8>), Phase2Error>(
                (encodings(points@), input@.skip(end as int)),
            ),
            Err(e) => parse_section(
                G::group(),
                compressed,
                check,
                input@.skip(start as int),
                total as nat,
                take as nat,
            ) == Err::<(Seq<Seq<u8>>, Seq<u8>), Phase2Error>(e),
        },
{
    reveal(parse_section);
    if take > total {
        return Err(Phase2Error::InvalidLength);
    }
    let (points, pos) = match read_points::<G>(input, start, take as u64, compressed, check) {
        Ok(found) => found,
        Err(e) => {
            return Err(e);
        },
    };
    let size = G::encoded_size(compressed);
    let left = input.len() - pos;
    let others = total - take;
    // Whether `others * size` bytes are left, without multiplying.
    if others > left / size {
        proof {
            assert(others * size > left) by (nonlinear_arith)
                requires
                    others > left / size,
                    size > 0,
                    left >= 0,
            ;
        }
        return Err(Phase2Error::Io);
    }
    proof {
        assert(others * size <= left) by (nonlinear_arith)
            requires
                others <= left / size,
                size > 0,
                left >= 0,
                others >= 0,
        ;
    }
    let end = pos + others * size;
    proof {
        assert(input@.skip(pos as int).skip(others * size) =~= input@.skip(end as int));
    }
    Ok((points, end))
}

impl Groth16Params {
    /// Reads the output of the first phase, of size `phase1_size`, from the
    /// front of `transcript`, as far as a circuit of size `phase2_size`
    /// needs it. Fails with `InvalidLength` if the circuit is larger than
    /// the first phase.
    pub fn read(
        transcript: &[u8],
        compressed: UseCompression,
        check_input_for_correctness: CheckForCorrectness,
        phase1_size: usize,
        phase2_size: usize,
    ) -> (r: Result<Groth16Params, Phase2Error>)
        ensures
            match r {
                Ok(params) => parse_groth16_params(
                    compressed,
                    check_input_for_correctness,
                    phase1_size as nat,
                    phase2_size as nat,
                    transcript@,
                ) == Ok::<Groth16ParamsView, Phase2Error>(params@),
                Err(e) => parse_groth16_params(
                    compressed,
                    check_input_for_correctness,
                    phase1_size as nat,
                    phase2_size as nat,
                    transcript@,
                ) == Err::<Groth16ParamsView, Phase2Error>(e),
            },
    {
        let check = check_input_for_correctness;
        assert(transcript@.skip(0) =~= transcript@);
        let (alpha_g1, pos1) = match read_point::<G1Point>(transcript, 0, compressed, check) {
            Ok(found) => found,
            Err(e) => {
                return Err(e);
            },
        };
        let (beta_g1, pos2) = match read_point::<G1Point>(transcript, pos1, compressed, check) {
            Ok(found) => found,
            Err(e) => {
                return Err(e);
            },
        };
        let (beta_g2, pos3) = match read_point::<G2Point>(transcript, pos2, compressed, check) {
            Ok(found) => found,
            Err(e) => {
                return Err(e);
            },
        };
        let (coeffs_g1, pos4) = match read_section::<G1Point>(
            transcript,
            pos3,
            compressed,
            check,
            phase1_size,
            phase2_size,
        ) {
            Ok(found) => found,
            Err(e) => {
                return Err(e);
            },
        };
        let (coeffs_g2, pos5) = match read_section::<G2Point>(
            transcript,
            pos4,
            compressed,
            check,
            phase1_size,
            phase2_size,
        ) {
            Ok(found) => found,
            Err(e) => {
                return Err(e);
            },
        };
        let (alpha_coeffs_g1, pos6) = match read_section::<G1Point>(
            transcript,
            pos5,
            compressed,
            check,
            phase1_size,
            phase2_size,
        ) {
            Ok(found) => found,
            Err(e) => {
                return Err(e);
            },
        };
        let (beta_coeffs_g1, pos7) = match read_section::<G1Point>(
            transcript,
            pos6,
            compressed,
            check,
            phase1_size,
            phase2_size,
        ) {
            Ok(found) => found,
            Err(e) => {
                return Err(e);
            },
        };
        let h_total = if phase1_size == 0 {
            0
        } else {
            phase1_size - 1
        };
        let h_take = if phase2_size == 0 {
            0
        } else {
            phase2_size - 1
        };
        let (h_g1, _) = match read_section::<G1Point>(
            transcript,
            pos7,
            compressed,
            check,
            h_total,
            h_take,
        ) {
            Ok(found) => found,
            Err(e) => {
                return Err(e);
            },
        };
        Ok(
            Groth16Params {
                alpha_g1,
                beta_g1,
                beta_g2,
                coeffs_g1,
                coeffs_g2,
                alpha_coeffs_g1,
                beta_coeffs_g1,
                h_g1,
            },
        )
    }
}

} // verus!
