//! Group elements and scalars of BLS12-377, held as their canonical
//! encodings, and the operations on them that the curve library performs.
//!
//! A point is its uncompressed canonical encoding: the two coordinates in
//! little-endian order, with the infinity flag in the last byte. A scalar is
//! its 32-byte little-endian encoding. The arithmetic itself is done by
//! `snarkvm_curves`; the functions marked `external_body` in this file state
//! what is taken on trust about it.

use crate::bytes::{bytes_equal, copy_bytes};
use rand::rngs::ThreadRng;
use snarkvm_curves::bls12_377::{Bls12_377, Fr, G1Affine, G2Affine};
use snarkvm_curves::{AffineCurve, PairingEngine};
use snarkvm_fields::{Field, Zero};
use snarkvm_utilities::{CanonicalDeserialize, CanonicalSerialize, UniformRand};
use vstd::prelude::*;
use vstd::std_specs::cmp::PartialEqSpecImpl;

verus! {

/// Length of an uncompressed G1 element.
pub const G1_SIZE: usize = 96;

/// Length of a compressed G1 element.
pub const G1_COMPRESSED_SIZE: usize = 48;

/// Length of an uncompressed G2 element.
pub const G2_SIZE: usize = 192;

/// Length of a compressed G2 element.
pub const G2_COMPRESSED_SIZE: usize = 96;

/// Length of a scalar.
pub const SCALAR_SIZE: usize = 32;

/// Length of the encoding of a pairing value.
pub const PAIRING_SIZE: usize = 576;

/// Encoding of the generator of G1.
pub const G1_GENERATOR: [u8; 96] = [
    102, 219, 111, 16, 48, 249, 31, 15, 24, 36, 56, 29, 170, 214, 50, 28, 67, 115, 156, 130, 139,
    61, 141, 105, 247, 87, 17, 169, 122, 45, 82, 76, 61, 84, 32, 28, 97, 168, 92, 161, 179, 131,
    89, 1, 182, 162, 148, 0, 85, 68, 23, 74, 87, 127, 41, 124, 79, 16, 24, 244, 75, 12, 105, 159,
    204, 63, 80, 126, 182, 29, 47, 246, 200, 148, 133, 62, 155, 199, 185, 78, 232, 144, 155, 81,
    195, 244, 21, 13, 105, 94, 121, 73, 95, 40, 6, 0,
];

/// Encoding of the generator of G2.
pub const G2_GENERATOR: [u8; 192] = [
    127, 200, 180, 135, 43, 42, 58, 87, 19, 189, 185, 239, 34, 19, 143, 218, 139, 206, 20, 213,
    108, 125, 4, 168, 163, 220, 91, 35, 22, 66, 205, 212, 101, 178, 156, 3, 235, 48, 6, 76, 112,
    165, 159, 192, 203, 188, 27, 1, 46, 178, 54, 208, 205, 158, 65, 223, 241, 15, 47, 102, 14,
    171, 59, 8, 145, 181, 57, 94, 113, 134, 240, 26, 170, 105, 165, 28, 20, 9, 146, 150, 219, 90,
    182, 216, 233, 156, 139, 36, 179, 87, 45, 2, 94, 186, 138, 0, 69, 224, 182, 19, 30, 127, 228,
    106, 160, 148, 205, 210, 166, 73, 27, 222, 96, 45, 133, 12, 110, 198, 122, 1, 105, 157, 215,
    113, 146, 147, 152, 10, 24, 114, 27, 173, 180, 212, 104, 229, 218, 109, 248, 215, 24, 17, 3,
    0, 89, 40, 58, 222, 231, 202, 51, 203, 163, 111, 46, 243, 169, 116, 206, 5, 170, 253, 83, 187,
    18, 222, 131, 185, 2, 28, 236, 199, 149, 188, 4, 167, 235, 52, 168, 109, 185, 86, 20, 25, 142,
    160, 225, 2, 60, 33, 55, 0,
];

/// The two groups in which the key's elements live.
#[derive(Clone, Copy, Debug, PartialEq, Eq, Structural)]
pub enum Group {
    G1,
    G2,
}

// ---------------------------------------------------------------------------
// Names for what the curve library computes
// ---------------------------------------------------------------------------

/// What the decoder of the curve library makes of uncompressed bytes, written
/// out again: the encoding of the element that it accepts them as, if it
/// accepts them.
pub uninterp spec fn g1_decode(bytes: Seq<u8>) -> Option<Seq<u8>>;

/// Whether the coordinates of an encoded G1 element satisfy the curve
/// equation.
pub uninterp spec fn g1_on_curve(point: Seq<u8>) -> bool;

/// What the decoder of the curve library makes of compressed bytes when it
/// tests membership in the subgroup, written out uncompressed: the encoding
/// of the element that it accepts them as, if it accepts them.
pub uninterp spec fn g1_decompress(bytes: Seq<u8>) -> Option<Seq<u8>>;

/// The compressed encoding of a G1 element.
pub uninterp spec fn g1_compress(point: Seq<u8>) -> Seq<u8>;

/// The product of a G1 element and a scalar.
pub uninterp spec fn g1_mul(point: Seq<u8>, scalar: Seq<u8>) -> Seq<u8>;

/// The sum of two G1 elements.
pub uninterp spec fn g1_add(left: Seq<u8>, right: Seq<u8>) -> Seq<u8>;

/// Whether a G1 element passes the explicit subgroup test.
pub uninterp spec fn g1_in_subgroup(point: Seq<u8>) -> bool;

/// What the decoder of the curve library makes of uncompressed bytes, written
/// out again: the encoding of the element that it accepts them as, if it
/// accepts them.
pub uninterp spec fn g2_decode(bytes: Seq<u8>) -> Option<Seq<u8>>;

/// Whether the coordinates of an encoded G2 element satisfy the curve
/// equation.
pub uninterp spec fn g2_on_curve(point: Seq<u8>) -> bool;

/// What the decoder of the curve library makes of compressed bytes when it
/// tests membership in the subgroup, written out uncompressed: the encoding
/// of the element that it accepts them as, if it accepts them.
pub uninterp spec fn g2_decompress(bytes: Seq<u8>) -> Option<Seq<u8>>;

/// The compressed encoding of a G2 element.
pub uninterp spec fn g2_compress(point: Seq<u8>) -> Seq<u8>;

/// The product of a G2 element and a scalar.
pub uninterp spec fn g2_mul(point: Seq<u8>, scalar: Seq<u8>) -> Seq<u8>;

/// The sum of two G2 elements.
pub uninterp spec fn g2_add(left: Seq<u8>, right: Seq<u8>) -> Seq<u8>;

/// Whether a G2 element passes the explicit subgroup test.
pub uninterp spec fn g2_in_subgroup(point: Seq<u8>) -> bool;

/// The encoding of the pairing of a G1 element with a G2 element.
pub uninterp spec fn pairing(p: Seq<u8>, q: Seq<u8>) -> Seq<u8>;

/// The multiplicative inverse of a scalar, if it has one.
pub uninterp spec fn scalar_inverse(scalar: Seq<u8>) -> Option<Seq<u8>>;

// ---------------------------------------------------------------------------
// Canonical encodings
// ---------------------------------------------------------------------------

/// The decoder accepts `point` as it is.
pub open spec fn g1_decodes_to_itself(point: Seq<u8>) -> bool {
    point.len() == G1_SIZE && g1_decode(point) == Some(point)
}

/// The decoder accepts `point` as it is.
pub open spec fn g2_decodes_to_itself(point: Seq<u8>) -> bool {
    point.len() == G2_SIZE && g2_decode(point) == Some(point)
}

/// `point` is the encoding of a G1 element: the decoder, which tests
/// membership in the subgroup, accepts it as it is; it lies on the curve;
/// and if it is the point at infinity, its coordinates are those of
/// `g1_zero`.
pub open spec fn g1_is_canonical(point: Seq<u8>) -> bool {
    &&& g1_decodes_to_itself(point)
    &&& g1_on_curve(point)
    &&& has_infinity_flag(point) ==> point == g1_zero()
}

/// `point` is the encoding of a G2 element: the decoder, which tests
/// membership in the subgroup, accepts it as it is; it lies on the curve;
/// and if it is the point at infinity, its coordinates are those of
/// `g2_zero`.
pub open spec fn g2_is_canonical(point: Seq<u8>) -> bool {
    &&& g2_decodes_to_itself(point)
    &&& g2_on_curve(point)
    &&& has_infinity_flag(point) ==> point == g2_zero()
}

/// The G1 element that compressed bytes encode: what the decoder accepts
/// them as, provided that this is the encoding of an element.
pub open spec fn g1_read_compressed(bytes: Seq<u8>) -> Option<Seq<u8>> {
    if bytes.len() != G1_COMPRESSED_SIZE {
        None
    } else {
        match g1_decompress(bytes) {
            Some(point) => if g1_is_canonical(point) {
                Some(point)
            } else {
                None
            },
            None => None,
        }
    }
}

/// The G1 element that uncompressed bytes encode: what the decoder accepts
/// them as, provided that this is the encoding of an element.
pub open spec fn g1_read(bytes: Seq<u8>) -> Option<Seq<u8>> {
    if bytes.len() != G1_SIZE {
        None
    } else {
        match g1_decode(bytes) {
            Some(point) => if g1_is_canonical(point) {
                Some(point)
            } else {
                None
            },
            None => None,
        }
    }
}

/// The G2 element that compressed bytes encode: what the decoder accepts
/// them as, provided that this is the encoding of an element.
pub open spec fn g2_read_compressed(bytes: Seq<u8>) -> Option<Seq<u8>> {
    if bytes.len() != G2_COMPRESSED_SIZE {
        None
    } else {
        match g2_decompress(bytes) {
            Some(point) => if g2_is_canonical(point) {
                Some(point)
            } else {
                None
            },
            None => None,
        }
    }
}

/// The G2 element that uncompressed bytes encode: what the decoder accepts
/// them as, provided that this is the encoding of an element.
pub open spec fn g2_read(bytes: Seq<u8>) -> Option<Seq<u8>> {
    if bytes.len() != G2_SIZE {
        None
    } else {
        match g2_decode(bytes) {
            Some(point) => if g2_is_canonical(point) {
                Some(point)
            } else {
                None
            },
            None => None,
        }
    }
}

/// The order of the two groups, which is the modulus of the scalar field.
pub open spec fn scalar_modulus() -> nat {
    8444461749428370424248824938781546531375899335154063827935233455917409239041nat
}

/// The number that bytes hold in little-endian order.
pub open spec fn le_value(bytes: Seq<u8>) -> nat
    decreases bytes.len(),
{
    if bytes.len() == 0 {
        0
    } else {
        bytes[0] as nat + 256 * le_value(bytes.skip(1))
    }
}

/// `scalar` is the encoding of a scalar: `SCALAR_SIZE` bytes that hold, in
/// little-endian order, a number below the modulus.
pub open spec fn scalar_is_canonical(scalar: Seq<u8>) -> bool {
    scalar.len() == SCALAR_SIZE && le_value(scalar) < scalar_modulus()
}

/// Bytes that are all zero hold the number zero.
pub proof fn lemma_le_value_of_zeros(bytes: Seq<u8>)
    requires
        forall|i: int| 0 <= i < bytes.len() ==> bytes[i] == 0,
    ensures
        le_value(bytes) == 0,
    decreases bytes.len(),
{
    if bytes.len() > 0 {
        lemma_le_value_of_zeros(bytes.skip(1));
    }
}

/// The encoding of the scalar zero.
pub open spec fn scalar_zero() -> Seq<u8> {
    Seq::new(SCALAR_SIZE as nat, |i: int| 0u8)
}

/// The encoding of the scalar one.
pub open spec fn scalar_one() -> Seq<u8> {
    Seq::new(SCALAR_SIZE as nat, |i: int| if i == 0 { 1u8 } else { 0u8 })
}

/// The encoding of the point at infinity of G1: the coordinates (0, 1) with
/// the infinity flag.
pub open spec fn g1_zero() -> Seq<u8> {
    Seq::new(G1_SIZE as nat, |i: int| if i == 48 { 1u8 } else if i == 95 { 64u8 } else { 0u8 })
}

/// The encoding of the point at infinity of G2: the coordinates (0, 1) with
/// the infinity flag.
pub open spec fn g2_zero() -> Seq<u8> {
    Seq::new(G2_SIZE as nat, |i: int| if i == 96 { 1u8 } else if i == 191 { 64u8 } else { 0u8 })
}

/// Whether the encoding carries the infinity flag, the second highest bit of
/// its last byte.
pub open spec fn has_infinity_flag(point: Seq<u8>) -> bool {
    point.len() > 0 && point[point.len() - 1] & 0x40 == 0x40
}

// ---------------------------------------------------------------------------
// Calls into the curve library
// ---------------------------------------------------------------------------

/// `G1Affine::deserialize_uncompressed`, which tests membership in the
/// prime-order subgroup but not the curve equation, followed by
/// `serialize_uncompressed`. What is written out has `G1_SIZE` bytes and is
/// accepted as it is.
#[verifier::external_body]
fn g1_decode_raw(bytes: &[u8]) -> (r: Option<Vec<u8>>)
    ensures
        match r {
            Some(p) => g1_decode(bytes@) == Some(p@) && g1_decodes_to_itself(p@),
            None => g1_decode(bytes@) is None,
        },
{
    let point = G1Affine::deserialize_uncompressed(&mut &bytes[..]).ok()?;
    let mut out = Vec::new();
    point.serialize_uncompressed(&mut out).ok()?;
    Some(out)
}

/// `AffineCurve::is_on_curve` of `G1Affine`, for an encoding that the
/// decoder accepts.
#[verifier::external_body]
fn g1_on_curve_raw(point: &[u8]) -> (r: bool)
    requires
        g1_decodes_to_itself(point@),
    ensures
        r == g1_on_curve(point@),
{
    G1Affine::deserialize_uncompressed(&mut &point[..]).unwrap().is_on_curve()
}

/// `G1Affine::deserialize`, which reads the compressed form and finds the
/// second coordinate from the curve equation, followed by
/// `serialize_uncompressed`. The decoder tests membership in the subgroup
/// unless the thread has switched the test off (`PROCESSING_SNARK_PARAMS`).
/// The contract holds either way: where nothing comes back, the testing
/// decoder accepts nothing; where an element comes back, the testing decoder
/// accepts it if and only if the uncompressed decoder, which always tests,
/// accepts what was written out as it is.
#[verifier::external_body]
fn g1_decompress_raw(bytes: &[u8]) -> (r: Option<Vec<u8>>)
    ensures
        match r {
            Some(p) => g1_decompress(bytes@) == (if g1_decode(p@) == Some(p@) {
                Some(p@)
            } else {
                None
            }),
            None => g1_decompress(bytes@) is None,
        },
{
    let point = G1Affine::deserialize(&mut &bytes[..]).ok()?;
    let mut out = Vec::new();
    point.serialize_uncompressed(&mut out).ok()?;
    Some(out)
}

/// `G1Affine::serialize`, the compressed form: `G1_COMPRESSED_SIZE` bytes
/// from which `G1Affine::deserialize` recovers the same element, whether it
/// tests membership in the subgroup or not.
#[verifier::external_body]
fn g1_compress_raw(point: &[u8]) -> (r: Vec<u8>)
    requires
        g1_is_canonical(point@),
    ensures
        r@ == g1_compress(point@),
        r@.len() == G1_COMPRESSED_SIZE,
        g1_decompress(r@) == Some(point@),
{
    let p = G1Affine::deserialize_uncompressed(&mut &point[..]).unwrap();
    let mut out = Vec::new();
    p.serialize(&mut out).unwrap();
    out
}

/// `G1Affine::prime_subgroup_generator`: the fixed generator, whose encoding
/// is `G1_GENERATOR`.
#[verifier::external_body]
fn g1_generator_raw() -> (r: Vec<u8>)
    ensures
        r@ == G1_GENERATOR@,
        g1_is_canonical(r@),
{
    let mut out = Vec::new();
    G1Affine::prime_subgroup_generator().serialize_uncompressed(&mut out).unwrap();
    out
}

/// `G1Affine::zero`: the point at infinity, with coordinates (0, 1).
#[verifier::external_body]
fn g1_zero_raw() -> (r: Vec<u8>)
    ensures
        r@ == g1_zero(),
        g1_is_canonical(r@),
{
    let mut out = Vec::new();
    G1Affine::zero().serialize_uncompressed(&mut out).unwrap();
    out
}

/// Multiplication of a G1 element by a scalar (`Mul<Fr>` of `G1Affine`). The
/// product is again an element of the group.
#[verifier::external_body]
fn g1_mul_raw(point: &[u8], scalar: &[u8]) -> (r: Vec<u8>)
    requires
        g1_is_canonical(point@),
        scalar_is_canonical(scalar@),
    ensures
        r@ == g1_mul(point@, scalar@),
        g1_is_canonical(r@),
{
    let p = G1Affine::deserialize_uncompressed(&mut &point[..]).unwrap();
    let s = Fr::deserialize(&mut &scalar[..]).unwrap();
    let mut out = Vec::new();
    (p * s).serialize_uncompressed(&mut out).unwrap();
    out
}

/// Addition of two G1 elements (`Add` of `G1Affine`). The sum is again an
/// element of the group.
#[verifier::external_body]
fn g1_add_raw(left: &[u8], right: &[u8]) -> (r: Vec<u8>)
    requires
        g1_is_canonical(left@),
        g1_is_canonical(right@),
    ensures
        r@ == g1_add(left@, right@),
        g1_is_canonical(r@),
{
    let p = G1Affine::deserialize_uncompressed(&mut &left[..]).unwrap();
    let q = G1Affine::deserialize_uncompressed(&mut &right[..]).unwrap();
    let mut out = Vec::new();
    (p + &q).serialize_uncompressed(&mut out).unwrap();
    out
}

/// `AffineCurve::is_in_correct_subgroup_assuming_on_curve` of `G1Affine`.
#[verifier::external_body]
fn g1_in_subgroup_raw(point: &[u8]) -> (r: bool)
    requires
        g1_is_canonical(point@),
    ensures
        r == g1_in_subgroup(point@),
{
    let p = G1Affine::deserialize_uncompressed(&mut &point[..]).unwrap();
    p.is_in_correct_subgroup_assuming_on_curve()
}

// ---------------------------------------------------------------------------
// G1 elements
// ---------------------------------------------------------------------------

/// An element of G1.
#[derive(Debug)]
pub struct G1Point {
    bytes: Vec<u8>,
}

impl View for G1Point {
    type V = Seq<u8>;

    closed spec fn view(&self) -> Seq<u8> {
        self.bytes@
    }
}

impl G1Point {
    /// Every value of this type is the encoding of a group element.
    #[verifier::type_invariant]
    pub open spec fn is_valid(&self) -> bool {
        g1_is_canonical(self@)
    }

    /// The element with the encoding `point`, which the decoder accepts as
    /// it is, unless it names a point off the curve, or the point at
    /// infinity with other coordinates than those of `g1_zero`.
    fn checked(point: Vec<u8>) -> (r: Option<G1Point>)
        requires
            g1_decodes_to_itself(point@),
        ensures
            match r {
                Some(p) => p@ == point@ && g1_is_canonical(point@),
                None => !g1_is_canonical(point@),
            },
    {
        if !g1_on_curve_raw(point.as_slice()) {
            return None;
        }
        if point[G1_SIZE - 1] & 0x40 == 0x40 {
            let zero = g1_zero_raw();
            if !bytes_equal(point.as_slice(), zero.as_slice()) {
                return None;
            }
        }
        Some(G1Point { bytes: point })
    }

    /// The element that `G1_SIZE` uncompressed bytes encode, if any. Bytes
    /// that the decoder accepts are refused all the same if they name a
    /// point off the curve, or the point at infinity with other coordinates
    /// than those of `g1_zero`.
    pub fn from_bytes(bytes: &[u8]) -> (r: Option<G1Point>)
        ensures
            match r {
                Some(p) => g1_read(bytes@) == Some(p@) && g1_is_canonical(p@),
                None => g1_read(bytes@) is None,
            },
    {
        if bytes.len() != G1_SIZE {
            return None;
        }
        match g1_decode_raw(bytes) {
            Some(point) => G1Point::checked(point),
            None => None,
        }
    }

    /// The element that `G1_COMPRESSED_SIZE` compressed bytes encode, if
    /// any. What the compressed decoder gives is held to everything that
    /// `from_bytes` holds an element to: the uncompressed decoder must
    /// accept it as it is, which tests membership in the subgroup whatever
    /// the thread has switched off.
    pub fn from_compressed(bytes: &[u8]) -> (r: Option<G1Point>)
        ensures
            match r {
                Some(p) => g1_read_compressed(bytes@) == Some(p@) && g1_is_canonical(p@),
                None => g1_read_compressed(bytes@) is None,
            },
    {
        if bytes.len() != G1_COMPRESSED_SIZE {
            return None;
        }
        let point = match g1_decompress_raw(bytes) {
            Some(p) => p,
            None => {
                return None;
            },
        };
        let again = match g1_decode_raw(point.as_slice()) {
            Some(q) => q,
            None => {
                return None;
            },
        };
        if !bytes_equal(again.as_slice(), point.as_slice()) {
            return None;
        }
        G1Point::checked(point)
    }

    /// The uncompressed encoding.
    pub fn to_bytes(&self) -> (r: Vec<u8>)
        ensures
            r@ == self@,
            g1_is_canonical(r@),
    {
        proof {
            use_type_invariant(self);
        }
        copy_bytes(self.bytes.as_slice())
    }

    /// The compressed encoding, from which `from_compressed` recovers the
    /// element.
    pub fn to_compressed(&self) -> (r: Vec<u8>)
        ensures
            r@ == g1_compress(self@),
            r@.len() == G1_COMPRESSED_SIZE,
            g1_read_compressed(r@) == Some(self@),
    {
        proof {
            use_type_invariant(self);
        }
        g1_compress_raw(self.bytes.as_slice())
    }

    /// The fixed generator of the group.
    pub fn generator() -> (r: G1Point)
        ensures
            r@ == G1_GENERATOR@,
    {
        G1Point { bytes: g1_generator_raw() }
    }

    /// The point at infinity.
    pub fn zero() -> (r: G1Point)
        ensures
            r@ == g1_zero(),
    {
        G1Point { bytes: g1_zero_raw() }
    }

    /// The product of the element and `scalar`.
    pub fn mul(&self, scalar: &Scalar) -> (r: G1Point)
        ensures
            r@ == g1_mul(self@, scalar@),
    {
        proof {
            use_type_invariant(self);
            use_type_invariant(scalar);
        }
        G1Point { bytes: g1_mul_raw(self.bytes.as_slice(), scalar.bytes.as_slice()) }
    }

    /// The sum of the element and `other`.
    pub fn add(&self, other: &G1Point) -> (r: G1Point)
        ensures
            r@ == g1_add(self@, other@),
    {
        proof {
            use_type_invariant(self);
            use_type_invariant(other);
        }
        G1Point { bytes: g1_add_raw(self.bytes.as_slice(), other.bytes.as_slice()) }
    }

    /// Whether the element is the point at infinity, which its encoding
    /// marks with the infinity flag.
    pub fn is_zero(&self) -> (r: bool)
        ensures
            r == has_infinity_flag(self@),
    {
        proof {
            use_type_invariant(self);
        }
        self.bytes[G1_SIZE - 1] & 0x40 == 0x40
    }

    /// Whether the element passes the explicit subgroup test.
    pub fn in_subgroup(&self) -> (r: bool)
        ensures
            r == g1_in_subgroup(self@),
    {
        proof {
            use_type_invariant(self);
        }
        g1_in_subgroup_raw(self.bytes.as_slice())
    }
}

impl Clone for G1Point {
    fn clone(&self) -> (r: Self)
        ensures
            r@ == self@,
    {
        proof {
            use_type_invariant(self);
        }
        G1Point { bytes: copy_bytes(self.bytes.as_slice()) }
    }
}

impl PartialEq for G1Point {
    fn eq(&self, other: &Self) -> (r: bool) {
        bytes_equal(self.bytes.as_slice(), other.bytes.as_slice())
    }
}

impl PartialEqSpecImpl for G1Point {
    open spec fn obeys_eq_spec() -> bool {
        true
    }

    open spec fn eq_spec(&self, other: &Self) -> bool {
        self@ == other@
    }
}

/// `G2Affine::deserialize_uncompressed`, which tests membership in the
/// prime-order subgroup but not the curve equation, followed by
/// `serialize_uncompressed`. What is written out has `G2_SIZE` bytes and is
/// accepted as it is.
#[verifier::external_body]
fn g2_decode_raw(bytes: &[u8]) -> (r: Option<Vec<u8>>)
    ensures
        match r {
            Some(p) => g2_decode(bytes@) == Some(p@) && g2_decodes_to_itself(p@),
            None => g2_decode(bytes@) is None,
        },
{
    let point = G2Affine::deserialize_uncompressed(&mut &bytes[..]).ok()?;
    let mut out = Vec::new();
    point.serialize_uncompressed(&mut out).ok()?;
    Some(out)
}

/// `AffineCurve::is_on_curve` of `G2Affine`, for an encoding that the
/// decoder accepts.
#[verifier::external_body]
fn g2_on_curve_raw(point: &[u8]) -> (r: bool)
    requires
        g2_decodes_to_itself(point@),
    ensures
        r == g2_on_curve(point@),
{
    G2Affine::deserialize_uncompressed(&mut &point[..]).unwrap().is_on_curve()
}

/// `G2Affine::deserialize`, which reads the compressed form and finds the
/// second coordinate from the curve equation, followed by
/// `serialize_uncompressed`. The decoder tests membership in the subgroup
/// unless the thread has switched the test off (`PROCESSING_SNARK_PARAMS`).
/// The contract holds either way: where nothing comes back, the testing
/// decoder accepts nothing; where an element comes back, the testing decoder
/// accepts it if and only if the uncompressed decoder, which always tests,
/// accepts what was written out as it is.
#[verifier::external_body]
fn g2_decompress_raw(bytes: &[u8]) -> (r: Option<Vec<u8>>)
    ensures
        match r {
            Some(p) => g2_decompress(bytes@) == (if g2_decode(p@) == Some(p@) {
                Some(p@)
            } else {
                None
            }),
            None => g2_decompress(bytes@) is None,
        },
{
    let point = G2Affine::deserialize(&mut &bytes[..]).ok()?;
    let mut out = Vec::new();
    point.serialize_uncompressed(&mut out).ok()?;
    Some(out)
}

/// `G2Affine::serialize`, the compressed form: `G2_COMPRESSED_SIZE` bytes
/// from which `G2Affine::deserialize` recovers the same element, whether it
/// tests membership in the subgroup or not.
#[verifier::external_body]
fn g2_compress_raw(point: &[u8]) -> (r: Vec<u8>)
    requires
        g2_is_canonical(point@),
    ensures
        r@ == g2_compress(point@),
        r@.len() == G2_COMPRESSED_SIZE,
        g2_decompress(r@) == Some(point@),
{
    let p = G2Affine::deserialize_uncompressed(&mut &point[..]).unwrap();
    let mut out = Vec::new();
    p.serialize(&mut out).unwrap();
    out
}

/// `G2Affine::prime_subgroup_generator`: the fixed generator, whose encoding
/// is `G2_GENERATOR`.
#[verifier::external_body]
fn g2_generator_raw() -> (r: Vec<u8>)
    ensures
        r@ == G2_GENERATOR@,
        g2_is_canonical(r@),
{
    let mut out = Vec::new();
    G2Affine::prime_subgroup_generator().serialize_uncompressed(&mut out).unwrap();
    out
}

/// `G2Affine::zero`: the point at infinity, with coordinates (0, 1).
#[verifier::external_body]
fn g2_zero_raw() -> (r: Vec<u8>)
    ensures
        r@ == g2_zero(),
        g2_is_canonical(r@),
{
    let mut out = Vec::new();
    G2Affine::zero().serialize_uncompressed(&mut out).unwrap();
    out
}

/// Multiplication of a G2 element by a scalar (`Mul<Fr>` of `G2Affine`). The
/// product is again an element of the group.
#[verifier::external_body]
fn g2_mul_raw(point: &[u8], scalar: &[u8]) -> (r: Vec<u8>)
    requires
        g2_is_canonical(point@),
        scalar_is_canonical(scalar@),
    ensures
        r@ == g2_mul(point@, scalar@),
        g2_is_canonical(r@),
{
    let p = G2Affine::deserialize_uncompressed(&mut &point[..]).unwrap();
    let s = Fr::deserialize(&mut &scalar[..]).unwrap();
    let mut out = Vec::new();
    (p * s).serialize_uncompressed(&mut out).unwrap();
    out
}

/// Addition of two G2 elements (`Add` of `G2Affine`). The sum is again an
/// element of the group.
#[verifier::external_body]
fn g2_add_raw(left: &[u8], right: &[u8]) -> (r: Vec<u8>)
    requires
        g2_is_canonical(left@),
        g2_is_canonical(right@),
    ensures
        r@ == g2_add(left@, right@),
        g2_is_canonical(r@),
{
    let p = G2Affine::deserialize_uncompressed(&mut &left[..]).unwrap();
    let q = G2Affine::deserialize_uncompressed(&mut &right[..]).unwrap();
    let mut out = Vec::new();
    (p + &q).serialize_uncompressed(&mut out).unwrap();
    out
}

/// `AffineCurve::is_in_correct_subgroup_assuming_on_curve` of `G2Affine`.
#[verifier::external_body]
fn g2_in_subgroup_raw(point: &[u8]) -> (r: bool)
    requires
        g2_is_canonical(point@),
    ensures
        r == g2_in_subgroup(point@),
{
    let p = G2Affine::deserialize_uncompressed(&mut &point[..]).unwrap();
    p.is_in_correct_subgroup_assuming_on_curve()
}

// ---------------------------------------------------------------------------
// G2 elements
// ---------------------------------------------------------------------------

/// An element of G2.
#[derive(Debug)]
pub struct G2Point {
    bytes: Vec<u8>,
}

impl View for G2Point {
    type V = Seq<u8>;

    closed spec fn view(&self) -> Seq<u8> {
        self.bytes@
    }
}

impl G2Point {
    /// Every value of this type is the encoding of a group element.
    #[verifier::type_invariant]
    pub open spec fn is_valid(&self) -> bool {
        g2_is_canonical(self@)
    }

    /// The element with the given canonical encoding.
    pub(crate) fn from_canonical(bytes: Vec<u8>) -> (r: G2Point)
        requires
            g2_is_canonical(bytes@),
        ensures
            r@ == bytes@,
    {
        G2Point { bytes }
    }

    /// The element with the encoding `point`, which the decoder accepts as
    /// it is, unless it names a point off the curve, or the point at
    /// infinity with other coordinates than those of `g2_zero`.
    fn checked(point: Vec<u8>) -> (r: Option<G2Point>)
        requires
            g2_decodes_to_itself(point@),
        ensures
            match r {
                Some(p) => p@ == point@ && g2_is_canonical(point@),
                None => !g2_is_canonical(point@),
            },
    {
        if !g2_on_curve_raw(point.as_slice()) {
            return None;
        }
        if point[G2_SIZE - 1] & 0x40 == 0x40 {
            let zero = g2_zero_raw();
            if !bytes_equal(point.as_slice(), zero.as_slice()) {
                return None;
            }
        }
        Some(G2Point { bytes: point })
    }

    /// The element that `G2_SIZE` uncompressed bytes encode, if any. Bytes
    /// that the decoder accepts are refused all the same if they name a
    /// point off the curve, or the point at infinity with other coordinates
    /// than those of `g2_zero`.
    pub fn from_bytes(bytes: &[u8]) -> (r: Option<G2Point>)
        ensures
            match r {
                Some(p) => g2_read(bytes@) == Some(p@) && g2_is_canonical(p@),
                None => g2_read(bytes@) is None,
            },
    {
        if bytes.len() != G2_SIZE {
            return None;
        }
        match g2_decode_raw(bytes) {
            Some(point) => G2Point::checked(point),
            None => None,
        }
    }

    /// The element that `G2_COMPRESSED_SIZE` compressed bytes encode, if
    /// any. What the compressed decoder gives is held to everything that
    /// `from_bytes` holds an element to: the uncompressed decoder must
    /// accept it as it is, which tests membership in the subgroup whatever
    /// the thread has switched off.
    pub fn from_compressed(bytes: &[u8]) -> (r: Option<G2Point>)
        ensures
            match r {
                Some(p) => g2_read_compressed(bytes@) == Some(p@) && g2_is_canonical(p@),
                None => g2_read_compressed(bytes@) is None,
            },
    {
        if bytes.len() != G2_COMPRESSED_SIZE {
            return None;
        }
        let point = match g2_decompress_raw(bytes) {
            Some(p) => p,
            None => {
                return None;
            },
        };
        let again = match g2_decode_raw(point.as_slice()) {
            Some(q) => q,
            None => {
                return None;
            },
        };
        if !bytes_equal(again.as_slice(), point.as_slice()) {
            return None;
        }
        G2Point::checked(point)
    }

    /// The uncompressed encoding.
    pub fn to_bytes(&self) -> (r: Vec<u8>)
        ensures
            r@ == self@,
            g2_is_canonical(r@),
    {
        proof {
            use_type_invariant(self);
        }
        copy_bytes(self.bytes.as_slice())
    }

    /// The compressed encoding, from which `from_compressed` recovers the
    /// element.
    pub fn to_compressed(&self) -> (r: Vec<u8>)
        ensures
            r@ == g2_compress(self@),
            r@.len() == G2_COMPRESSED_SIZE,
            g2_read_compressed(r@) == Some(self@),
    {
        proof {
            use_type_invariant(self);
        }
        g2_compress_raw(self.bytes.as_slice())
    }

    /// The fixed generator of the group.
    pub fn generator() -> (r: G2Point)
        ensures
            r@ == G2_GENERATOR@,
    {
        G2Point { bytes: g2_generator_raw() }
    }

    /// The point at infinity.
    pub fn zero() -> (r: G2Point)
        ensures
            r@ == g2_zero(),
    {
        G2Point { bytes: g2_zero_raw() }
    }

    /// The product of the element and `scalar`.
    pub fn mul(&self, scalar: &Scalar) -> (r: G2Point)
        ensures
            r@ == g2_mul(self@, scalar@),
    {
        proof {
            use_type_invariant(self);
            use_type_invariant(scalar);
        }
        G2Point { bytes: g2_mul_raw(self.bytes.as_slice(), scalar.bytes.as_slice()) }
    }

    /// The sum of the element and `other`.
    pub fn add(&self, other: &G2Point) -> (r: G2Point)
        ensures
            r@ == g2_add(self@, other@),
    {
        proof {
            use_type_invariant(self);
            use_type_invariant(other);
        }
        G2Point { bytes: g2_add_raw(self.bytes.as_slice(), other.bytes.as_slice()) }
    }

    /// Whether the element is the point at infinity, which its encoding
    /// marks with the infinity flag.
    pub fn is_zero(&self) -> (r: bool)
        ensures
            r == has_infinity_flag(self@),
    {
        proof {
            use_type_invariant(self);
        }
        self.bytes[G2_SIZE - 1] & 0x40 == 0x40
    }

    /// Whether the element passes the explicit subgroup test.
    pub fn in_subgroup(&self) -> (r: bool)
        ensures
            r == g2_in_subgroup(self@),
    {
        proof {
            use_type_invariant(self);
        }
        g2_in_subgroup_raw(self.bytes.as_slice())
    }
}

impl Clone for G2Point {
    fn clone(&self) -> (r: Self)
        ensures
            r@ == self@,
    {
        proof {
            use_type_invariant(self);
        }
        G2Point { bytes: copy_bytes(self.bytes.as_slice()) }
    }
}

impl PartialEq for G2Point {
    fn eq(&self, other: &Self) -> (r: bool) {
        bytes_equal(self.bytes.as_slice(), other.bytes.as_slice())
    }
}

impl PartialEqSpecImpl for G2Point {
    open spec fn obeys_eq_spec() -> bool {
        true
    }

    open spec fn eq_spec(&self, other: &Self) -> bool {
        self@ == other@
    }
}

// ---------------------------------------------------------------------------
// The pairing
// ---------------------------------------------------------------------------

/// `PairingEngine::pairing` of `Bls12_377`, followed by the canonical
/// serialization of its value, which has `PAIRING_SIZE` bytes. Two pairings
/// are equal exactly when these encodings are.
#[verifier::external_body]
fn pairing_raw(p: &[u8], q: &[u8]) -> (r: Vec<u8>)
    requires
        g1_is_canonical(p@),
        g2_is_canonical(q@),
    ensures
        r@ == pairing(p@, q@),
        r@.len() == PAIRING_SIZE,
{
    let p = G1Affine::deserialize_uncompressed(&mut &p[..]).unwrap();
    let q = G2Affine::deserialize_uncompressed(&mut &q[..]).unwrap();
    let mut out = Vec::new();
    Bls12_377::pairing(p, q).serialize(&mut out).unwrap();
    out
}

/// Whether `e(a.0, b.1) == e(a.1, b.0)`: the two pairs hide the same ratio.
pub open spec fn same_ratio(a: (Seq<u8>, Seq<u8>), b: (Seq<u8>, Seq<u8>)) -> bool {
    pairing(a.0, b.1) == pairing(a.1, b.0)
}

/// Checks that the exponent between the two G1 elements is the one between
/// the two G2 elements, by comparing two pairings.
pub fn check_same_ratio(g1: (&G1Point, &G1Point), g2: (&G2Point, &G2Point)) -> (r: bool)
    ensures
        r == same_ratio((g1.0@, g1.1@), (g2.0@, g2.1@)),
{
    proof {
        use_type_invariant(g1.0);
        use_type_invariant(g1.1);
        use_type_invariant(g2.0);
        use_type_invariant(g2.1);
    }
    let left = pairing_raw(g1.0.bytes.as_slice(), g2.1.bytes.as_slice());
    let right = pairing_raw(g1.1.bytes.as_slice(), g2.0.bytes.as_slice());
    bytes_equal(left.as_slice(), right.as_slice())
}

// ---------------------------------------------------------------------------
// Scalars
// ---------------------------------------------------------------------------

/// `Fr::deserialize`, which accepts `SCALAR_SIZE` bytes exactly if the number
/// that they hold in little-endian order is below the modulus of the field.
#[verifier::external_body]
fn scalar_accepts_raw(bytes: &[u8]) -> (r: bool)
    requires
        bytes@.len() == SCALAR_SIZE,
    ensures
        r == (le_value(bytes@) < scalar_modulus()),
{
    Fr::deserialize(&mut &bytes[..]).is_ok()
}

/// `Field::inverse` of `Fr`, which is `None` exactly for zero.
#[verifier::external_body]
fn scalar_inverse_raw(scalar: &[u8]) -> (r: Option<Vec<u8>>)
    requires
        scalar_is_canonical(scalar@),
    ensures
        match r {
            Some(s) => scalar_inverse(scalar@) == Some(s@) && scalar_is_canonical(s@),
            None => scalar_inverse(scalar@) is None,
        },
        r is None <==> scalar@ == scalar_zero(),
{
    let inverse = Fr::deserialize(&mut &scalar[..]).unwrap().inverse()?;
    let mut out = Vec::new();
    inverse.serialize(&mut out).ok()?;
    Some(out)
}

/// `UniformRand::rand` of `Fr`: a scalar drawn from `rng`. Nothing is
/// promised of it but that it is a scalar.
#[verifier::external_body]
fn scalar_random_raw(rng: &mut ThreadRng) -> (r: Vec<u8>)
    ensures
        scalar_is_canonical(r@),
{
    let mut out = Vec::new();
    Fr::rand(rng).serialize(&mut out).unwrap();
    out
}

/// The thread-local random number generator of `rand`.
#[verifier::external_type_specification]
#[verifier::external_body]
pub struct ExThreadRng(ThreadRng);

/// `rand::thread_rng`: a handle to the generator of the current thread.
/// Nothing is stated of it.
pub assume_specification[ rand::thread_rng ]() -> (rng: ThreadRng);

/// An element of the scalar field.
#[derive(Debug)]
pub struct Scalar {
    bytes: Vec<u8>,
}

impl View for Scalar {
    type V = Seq<u8>;

    closed spec fn view(&self) -> Seq<u8> {
        self.bytes@
    }
}

impl Scalar {
    /// Every value of this type is the encoding of a scalar.
    #[verifier::type_invariant]
    pub open spec fn is_valid(&self) -> bool {
        scalar_is_canonical(self@)
    }

    /// The scalar that `SCALAR_SIZE` little-endian bytes encode: there is
    /// one exactly if the number that they hold is below the modulus.
    pub fn from_bytes(bytes: &[u8]) -> (r: Option<Scalar>)
        ensures
            r is Some <==> scalar_is_canonical(bytes@),
            r is Some ==> r->Some_0@ == bytes@,
    {
        if bytes.len() != SCALAR_SIZE {
            return None;
        }
        if !scalar_accepts_raw(bytes) {
            return None;
        }
        Some(Scalar { bytes: copy_bytes(bytes) })
    }

    /// The little-endian encoding.
    pub fn to_bytes(&self) -> (r: Vec<u8>)
        ensures
            r@ == self@,
            scalar_is_canonical(r@),
    {
        proof {
            use_type_invariant(self);
        }
        copy_bytes(self.bytes.as_slice())
    }

    /// The scalar one.
    pub fn one() -> (r: Scalar)
        ensures
            r@ == scalar_one(),
    {
        let mut bytes: Vec<u8> = Vec::new();
        bytes.push(1u8);
        while bytes.len() < SCALAR_SIZE
            invariant
                1 <= bytes@.len() <= SCALAR_SIZE,
                bytes@[0] == 1,
                forall|j: int| 1 <= j < bytes@.len() ==> bytes@[j] == 0,
            decreases SCALAR_SIZE - bytes@.len(),
        {
            bytes.push(0u8);
        }
        proof {
            assert(bytes@ =~= scalar_one());
            lemma_le_value_of_zeros(bytes@.skip(1));
        }
        Scalar { bytes }
    }

    /// A scalar drawn from `rng`. Nothing is known of it but that it is a
    /// scalar.
    pub fn random(rng: &mut ThreadRng) -> (r: Scalar)
        ensures
            scalar_is_canonical(r@),
    {
        Scalar { bytes: scalar_random_raw(rng) }
    }

    /// The multiplicative inverse, which every scalar but zero has.
    pub fn inverse(&self) -> (r: Option<Scalar>)
        ensures
            match r {
                Some(s) => scalar_inverse(self@) == Some(s@),
                None => scalar_inverse(self@) is None,
            },
            r is None <==> self@ == scalar_zero(),
    {
        proof {
            use_type_invariant(self);
        }
        match scalar_inverse_raw(self.bytes.as_slice()) {
            Some(s) => Some(Scalar { bytes: s }),
            None => None,
        }
    }

    /// Whether the scalar is zero.
    pub fn is_zero(&self) -> (r: bool)
        ensures
            r <==> self@ == scalar_zero(),
    {
        proof {
            use_type_invariant(self);
        }
        let mut i: usize = 0;
        while i < SCALAR_SIZE
            invariant
                i <= SCALAR_SIZE,
                self.bytes@.len() == SCALAR_SIZE,
                forall|j: int| 0 <= j < i ==> self.bytes@[j] == 0,
            decreases SCALAR_SIZE - i,
        {
            if self.bytes[i] != 0 {
                assert(scalar_zero()[i as int] == 0);
                return false;
            }
            i += 1;
        }
        assert(self.bytes@ =~= scalar_zero());
        true
    }
}

impl Clone for Scalar {
    fn clone(&self) -> (r: Self)
        ensures
            r@ == self@,
    {
        proof {
            use_type_invariant(self);
        }
        Scalar { bytes: copy_bytes(self.bytes.as_slice()) }
    }
}

} // verus!
