//! What G1 and G2 elements have in common, so that code that reads, writes
//! and combines them is written once.

use crate::curve::{
    g1_add, g1_compress, g1_in_subgroup, g1_is_canonical, g1_mul, g1_read, g1_read_compressed,
    g1_zero, g2_add, g2_compress, g2_in_subgroup, g2_is_canonical, g2_mul, g2_read,
    g2_read_compressed, g2_zero, has_infinity_flag, G1Point, G2Point, Group, Scalar,
    G1_COMPRESSED_SIZE, G1_SIZE, G2_COMPRESSED_SIZE, G2_SIZE,
};
use crate::UseCompression;
use vstd::prelude::*;

verus! {

/// Length of the encoding of an element of `group`.
pub open spec fn point_size(group: Group, compressed: UseCompression) -> nat {
    match (group, compressed) {
        (Group::G1, UseCompression::No) => G1_SIZE as nat,
        (Group::G1, UseCompression::Yes) => G1_COMPRESSED_SIZE as nat,
        (Group::G2, UseCompression::No) => G2_SIZE as nat,
        (Group::G2, UseCompression::Yes) => G2_COMPRESSED_SIZE as nat,
    }
}

/// `point` is the canonical encoding of an element of `group`.
pub open spec fn point_is_canonical(group: Group, point: Seq<u8>) -> bool {
    match group {
        Group::G1 => g1_is_canonical(point),
        Group::G2 => g2_is_canonical(point),
    }
}

/// The element of `group` that `bytes` encode, if any.
pub open spec fn point_decode(group: Group, compressed: UseCompression, bytes: Seq<u8>) -> Option<
    Seq<u8>,
> {
    if bytes.len() != point_size(group, compressed) {
        None
    } else {
        match (group, compressed) {
            (Group::G1, UseCompression::No) => g1_read(bytes),
            (Group::G1, UseCompression::Yes) => g1_read_compressed(bytes),
            (Group::G2, UseCompression::No) => g2_read(bytes),
            (Group::G2, UseCompression::Yes) => g2_read_compressed(bytes),
        }
    }
}

/// The bytes written for an element of `group`.
pub open spec fn point_encode(group: Group, compressed: UseCompression, point: Seq<u8>) -> Seq<u8> {
    match (group, compressed) {
        (_, UseCompression::No) => point,
        (Group::G1, UseCompression::Yes) => g1_compress(point),
        (Group::G2, UseCompression::Yes) => g2_compress(point),
    }
}

/// What is written for `point` has the right length and reads back as
/// `point`.
pub open spec fn point_round_trips(group: Group, compressed: UseCompression, point: Seq<u8>) -> bool {
    &&& point_encode(group, compressed, point).len() == point_size(group, compressed)
    &&& point_decode(group, compressed, point_encode(group, compressed, point)) == Some(point)
}

/// The product of an element of `group` and a scalar.
pub open spec fn point_mul(group: Group, point: Seq<u8>, scalar: Seq<u8>) -> Seq<u8> {
    match group {
        Group::G1 => g1_mul(point, scalar),
        Group::G2 => g2_mul(point, scalar),
    }
}

/// The sum of two elements of `group`.
pub open spec fn point_add(group: Group, left: Seq<u8>, right: Seq<u8>) -> Seq<u8> {
    match group {
        Group::G1 => g1_add(left, right),
        Group::G2 => g2_add(left, right),
    }
}

/// The point at infinity of `group`.
pub open spec fn point_zero(group: Group) -> Seq<u8> {
    match group {
        Group::G1 => g1_zero(),
        Group::G2 => g2_zero(),
    }
}

/// Whether an element of `group` passes the explicit subgroup test.
pub open spec fn point_in_subgroup(group: Group, point: Seq<u8>) -> bool {
    match group {
        Group::G1 => g1_in_subgroup(point),
        Group::G2 => g2_in_subgroup(point),
    }
}

/// An uncompressed canonical encoding is written as it is, so it reads back.
pub proof fn lemma_uncompressed_round_trips(group: Group, point: Seq<u8>)
    requires
        point_is_canonical(group, point),
    ensures
        point_round_trips(group, UseCompression::No, point),
{
}

/// An element of one of the two groups.
pub trait CurvePoint: Sized {
    /// The group of the element.
    spec fn group() -> Group;

    /// The canonical encoding of the element.
    spec fn encoding(&self) -> Seq<u8>;

    /// Length of what is written for an element.
    fn encoded_size(compressed: UseCompression) -> (size: usize)
        ensures
            size == point_size(Self::group(), compressed),
    ;

    /// The element that `bytes` encode, if any.
    fn decode(bytes: &[u8], compressed: UseCompression) -> (r: Option<Self>)
        ensures
            match r {
                Some(p) => point_decode(Self::group(), compressed, bytes@) == Some(p.encoding())
                    && point_is_canonical(Self::group(), p.encoding()),
                None => point_decode(Self::group(), compressed, bytes@) is None,
            },
    ;

    /// The bytes written for the element, which read back as the element.
    fn encode(&self, compressed: UseCompression) -> (r: Vec<u8>)
        ensures
            r@ == point_encode(Self::group(), compressed, self.encoding()),
            point_round_trips(Self::group(), compressed, self.encoding()),
            point_is_canonical(Self::group(), self.encoding()),
    ;

    /// A copy of the element.
    fn duplicate(&self) -> (r: Self)
        ensures
            r.encoding() == self.encoding(),
    ;

    /// Whether the two elements are the same.
    fn same(&self, other: &Self) -> (r: bool)
        ensures
            r == (self.encoding() == other.encoding()),
    ;

    /// Whether the element is the point at infinity.
    fn is_infinity(&self) -> (r: bool)
        ensures
            r == has_infinity_flag(self.encoding()),
    ;

    /// Whether the element passes the explicit subgroup test.
    fn subgroup_member(&self) -> (r: bool)
        ensures
            r == point_in_subgroup(Self::group(), self.encoding()),
    ;

    /// The point at infinity.
    fn identity() -> (r: Self)
        ensures
            r.encoding() == point_zero(Self::group()),
    ;

    /// The product of the element and `scalar`.
    fn scale(&self, scalar: &Scalar) -> (r: Self)
        ensures
            r.encoding() == point_mul(Self::group(), self.encoding(), scalar@),
    ;

    /// The sum of the element and `other`.
    fn plus(&self, other: &Self) -> (r: Self)
        ensures
            r.encoding() == point_add(Self::group(), self.encoding(), other.encoding()),
    ;
}

impl CurvePoint for G1Point {
    open spec fn group() -> Group {
        Group::G1
    }

    open spec fn encoding(&self) -> Seq<u8> {
        self@
    }

    fn encoded_size(compressed: UseCompression) -> (size: usize) {
        match compressed {
            UseCompression::No => G1_SIZE,
            UseCompression::Yes => G1_COMPRESSED_SIZE,
        }
    }

    fn decode(bytes: &[u8], compressed: UseCompression) -> (r: Option<Self>) {
        match compressed {
            UseCompression::No => G1Point::from_bytes(bytes),
            UseCompression::Yes => G1Point::from_compressed(bytes),
        }
    }

    fn encode(&self, compressed: UseCompression) -> (r: Vec<u8>) {
        match compressed {
            UseCompression::No => self.to_bytes(),
            UseCompression::Yes => {
                proof {
                    use_type_invariant(self);
                }
                self.to_compressed()
            },
        }
    }

    fn duplicate(&self) -> (r: Self) {
        self.clone()
    }

    fn same(&self, other: &Self) -> (r: bool) {
        self == other
    }

    fn is_infinity(&self) -> (r: bool) {
        self.is_zero()
    }

    fn subgroup_member(&self) -> (r: bool) {
        self.in_subgroup()
    }

    fn identity() -> (r: Self) {
        G1Point::zero()
    }

    fn scale(&self, scalar: &Scalar) -> (r: Self) {
        self.mul(scalar)
    }

    fn plus(&self, other: &Self) -> (r: Self) {
        self.add(other)
    }
}

impl CurvePoint for G2Point {
    open spec fn group() -> Group {
        Group::G2
    }

    open spec fn encoding(&self) -> Seq<u8> {
        self@
    }

    fn encoded_size(compressed: UseCompression) -> (size: usize) {
        match compressed {
            UseCompression::No => G2_SIZE,
            UseCompression::Yes => G2_COMPRESSED_SIZE,
        }
    }

    fn decode(bytes: &[u8], compressed: UseCompression) -> (r: Option<Self>) {
        match compressed {
            UseCompression::No => G2Point::from_bytes(bytes),
            UseCompression::Yes => G2Point::from_compressed(bytes),
        }
    }

    fn encode(&self, compressed: UseCompression) -> (r: Vec<u8>) {
        match compressed {
            UseCompression::No => self.to_bytes(),
            UseCompression::Yes => {
                proof {
                    use_type_invariant(self);
                }
                self.to_compressed()
            },
        }
    }

    fn duplicate(&self) -> (r: Self) {
        self.clone()
    }

    fn same(&self, other: &Self) -> (r: bool) {
        self == other
    }

    fn is_infinity(&self) -> (r: bool) {
        self.is_zero()
    }

    fn subgroup_member(&self) -> (r: bool) {
        self.in_subgroup()
    }

    fn identity() -> (r: Self) {
        G2Point::zero()
    }

    fn scale(&self, scalar: &Scalar) -> (r: Self) {
        self.mul(scalar)
    }

    fn plus(&self, other: &Self) -> (r: Self) {
        self.add(other)
    }
}

} // verus!
