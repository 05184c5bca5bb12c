use phase2::curve::{check_same_ratio, G1Point, G2Point, Scalar, G1_GENERATOR, G2_GENERATOR};
use phase2::hash::{blake2b, hash_to_g2, hex_encode};
use snarkvm_algorithms::hash_to_curve::hash_to_curve;
use snarkvm_curves::bls12_377::{Fr, G1Affine, G2Affine};
use snarkvm_curves::AffineCurve;
use snarkvm_fields::{PrimeField, Zero};
use snarkvm_utilities::{CanonicalDeserialize, CanonicalSerialize};

fn scalar(n: u64) -> Scalar {
    let mut bytes = vec![0u8; 32];
    bytes[..8].copy_from_slice(&n.to_le_bytes());
    Scalar::from_bytes(&bytes).unwrap()
}

fn uncompressed<T: CanonicalSerialize>(value: &T) -> Vec<u8> {
    let mut out = Vec::new();
    value.serialize_uncompressed(&mut out).unwrap();
    out
}

fn compressed<T: CanonicalSerialize>(value: &T) -> Vec<u8> {
    let mut out = Vec::new();
    value.serialize(&mut out).unwrap();
    out
}

#[test]
fn generators_are_those_of_the_curve_library() {
    assert_eq!(G1Point::generator().to_bytes(), uncompressed(&G1Affine::prime_subgroup_generator()));
    assert_eq!(G2Point::generator().to_bytes(), uncompressed(&G2Affine::prime_subgroup_generator()));
    assert_eq!(G1Point::generator().to_bytes(), G1_GENERATOR.to_vec());
    assert_eq!(G2Point::generator().to_bytes(), G2_GENERATOR.to_vec());
}

#[test]
fn zero_has_the_coordinates_zero_and_one() {
    let mut g1_zero = vec![0u8; 96];
    g1_zero[48] = 1;
    g1_zero[95] = 64;
    assert_eq!(G1Point::zero().to_bytes(), g1_zero);
    assert_eq!(uncompressed(&G1Affine::zero()), g1_zero);
    let mut g2_zero = vec![0u8; 192];
    g2_zero[96] = 1;
    g2_zero[191] = 64;
    assert_eq!(G2Point::zero().to_bytes(), g2_zero);
    assert_eq!(uncompressed(&G2Affine::zero()), g2_zero);
    assert!(G1Point::zero().is_zero());
    assert!(G2Point::zero().is_zero());
    assert!(!G1Point::generator().is_zero());
    assert!(!G2Point::generator().is_zero());
}

#[test]
fn multiplication_and_addition_are_those_of_the_curve_library() {
    let g = G1Affine::prime_subgroup_generator();
    let h = G2Affine::prime_subgroup_generator();
    let seven = Fr::from_repr(7u64.into()).unwrap();
    assert_eq!(G1Point::generator().mul(&scalar(7)).to_bytes(), uncompressed(&(g * seven)));
    assert_eq!(G2Point::generator().mul(&scalar(7)).to_bytes(), uncompressed(&(h * seven)));
    let two = G1Point::generator().add(&G1Point::generator());
    assert_eq!(two, G1Point::generator().mul(&scalar(2)));
    assert_ne!(two, G1Point::generator());
    let two = G2Point::generator().add(&G2Point::generator());
    assert_eq!(two, G2Point::generator().mul(&scalar(2)));
    assert_eq!(G1Point::generator().add(&G1Point::zero()), G1Point::generator());
    assert!(G1Point::generator().mul(&scalar(0)).is_zero());
}

#[test]
fn compressed_form_reads_back() {
    let p = G1Point::generator().mul(&scalar(12345));
    let short = p.to_compressed();
    assert_eq!(short.len(), 48);
    assert_eq!(short, compressed(&G1Affine::deserialize_uncompressed(&mut &p.to_bytes()[..]).unwrap()));
    assert_eq!(G1Point::from_compressed(&short).unwrap(), p);
    let q = G2Point::generator().mul(&scalar(12345));
    let short = q.to_compressed();
    assert_eq!(short.len(), 96);
    assert_eq!(G2Point::from_compressed(&short).unwrap(), q);
    assert_eq!(G1Point::from_compressed(&G1Point::zero().to_compressed()).unwrap(), G1Point::zero());
    assert_eq!(G2Point::from_compressed(&G2Point::zero().to_compressed()).unwrap(), G2Point::zero());
}

#[test]
fn bytes_that_are_no_element_are_refused() {
    // wrong length
    assert!(G1Point::from_bytes(&G1_GENERATOR[..95]).is_none());
    assert!(G2Point::from_bytes(&G1_GENERATOR).is_none());
    assert!(G1Point::from_compressed(&G1_GENERATOR).is_none());
    // a point off the curve
    let mut off = G1_GENERATOR.to_vec();
    off[0] ^= 1;
    assert!(G1Point::from_bytes(&off).is_none());
    let mut off = G2_GENERATOR.to_vec();
    off[0] ^= 1;
    assert!(G2Point::from_bytes(&off).is_none());
    // a coordinate that is no field element
    let mut large = G1_GENERATOR.to_vec();
    large[47] = 0xff;
    assert!(G1Point::from_bytes(&large).is_none());
    // the point at infinity with coordinates of its own
    let mut infinity = G1_GENERATOR.to_vec();
    infinity[95] |= 64;
    assert!(G1Point::from_bytes(&infinity).is_none());
    let mut infinity = G2_GENERATOR.to_vec();
    infinity[191] |= 64;
    assert!(G2Point::from_bytes(&infinity).is_none());
    // the point at infinity as the library writes it
    assert!(G1Point::from_bytes(&G1Point::zero().to_bytes()).unwrap().is_zero());
    assert!(G2Point::from_bytes(&G2Point::zero().to_bytes()).unwrap().is_zero());
}

#[test]
fn elements_pass_the_subgroup_test() {
    assert!(G1Point::generator().in_subgroup());
    assert!(G2Point::generator().in_subgroup());
    assert!(G1Point::zero().in_subgroup());
    assert!(G1Point::generator().mul(&scalar(99)).in_subgroup());
}

#[test]
fn scalars_read_back_and_invert() {
    let s = scalar(0x0102030405060708);
    assert_eq!(Scalar::from_bytes(&s.to_bytes()).unwrap().to_bytes(), s.to_bytes());
    assert!(Scalar::from_bytes(&[0xffu8; 32]).is_none());
    assert!(Scalar::from_bytes(&[0u8; 31]).is_none());
    assert!(scalar(0).is_zero());
    assert!(!scalar(1).is_zero());
    assert!(scalar(0).inverse().is_none());
    assert_eq!(Scalar::one().to_bytes(), scalar(1).to_bytes());
    let inverse = scalar(5).inverse().unwrap();
    assert_ne!(inverse.to_bytes(), scalar(5).to_bytes());
    let g = G1Point::generator();
    assert_eq!(g.mul(&scalar(5)).mul(&inverse), g);
    let fr = Fr::deserialize(&mut &inverse.to_bytes()[..]).unwrap();
    assert_eq!(fr * Fr::from_repr(5u64.into()).unwrap(), Fr::from_repr(1u64.into()).unwrap());
    assert!(Fr::zero().is_zero());
}

#[test]
fn random_scalars_differ() {
    let rng = &mut rand::thread_rng();
    let a = Scalar::random(rng);
    let b = Scalar::random(rng);
    assert_ne!(a.to_bytes(), b.to_bytes());
    assert_eq!(a.to_bytes().len(), 32);
}

#[test]
fn same_ratio_holds_exactly_for_the_same_factor() {
    let g = G1Point::generator();
    let h = G2Point::generator();
    let a = scalar(1234567);
    let b = scalar(7654321);
    assert!(check_same_ratio((&g, &g.mul(&a)), (&h, &h.mul(&a))));
    assert!(!check_same_ratio((&g, &g.mul(&a)), (&h, &h.mul(&b))));
    assert!(check_same_ratio((&g.mul(&b), &g.mul(&b).mul(&a)), (&h.mul(&a), &h.mul(&a).mul(&a))));
}

#[test]
fn blake2b_digest_of_known_input() {
    let digest = blake2b(b"");
    assert_eq!(
        hex_encode(&digest),
        b"786a02f742015903c6c6fd852552d272912f4740e15847618a86e217f71f5419d25e1031afee585313896444934eb04b903a685b1448b755d56f701afe9be2ce".to_vec()
    );
    let digest = blake2b(b"abc");
    assert_eq!(
        hex_encode(&digest),
        b"ba80a53f981c4d0d6a2797b69f12f6e94c212f14685ac4b74b12bb6fdbffa2d17d87c5392aab792dc252d5de4533cc9518d38aa8dbf1925ab92386edd4009923".to_vec()
    );
}

#[test]
fn hex_encoding_is_lower_case_high_half_first() {
    assert_eq!(hex_encode(&[0x00, 0x0f, 0xa0, 0xff, 0x1b]), b"000fa0ff1b".to_vec());
    assert_eq!(hex_encode(&[]), Vec::<u8>::new());
}

#[test]
fn hashing_to_the_curve_is_that_of_the_curve_library() {
    for input in ["", "abc", "00ff", "786a02f742015903c6c6fd852552d272"] {
        let expected = hash_to_curve::<G2Affine>(input).0;
        let point = hash_to_g2(input.as_bytes()).unwrap();
        assert_eq!(point.to_bytes(), uncompressed(&expected));
        assert!(!point.is_zero());
    }
    assert_ne!(hash_to_g2(b"a").unwrap(), hash_to_g2(b"b").unwrap());
}

#[test]
fn scalars_are_the_numbers_below_the_modulus() {
    // the modulus of the scalar field, little-endian
    let modulus: [u8; 32] = [
        0x01, 0x00, 0x00, 0x00, 0x00, 0x80, 0x11, 0x0a, 0x01, 0x00, 0x00, 0xd0, 0xfe, 0x76, 0xaa,
        0x59, 0x01, 0xb0, 0x37, 0x5c, 0x1e, 0x4d, 0xb4, 0x60, 0x56, 0xa5, 0x2c, 0x9a, 0x5e, 0x65,
        0xab, 0x12,
    ];
    assert!(Scalar::from_bytes(&modulus).is_none());
    let mut largest = modulus;
    largest[0] = 0x00;
    let minus_one = Scalar::from_bytes(&largest).unwrap();
    assert_eq!(minus_one.to_bytes(), largest.to_vec());
    // minus one times minus one is one
    let g = G1Point::generator();
    assert_eq!(g.mul(&minus_one).mul(&minus_one), g);
    assert_eq!(g.mul(&minus_one).add(&g), G1Point::zero());
    let mut above = modulus;
    above[0] = 0x02;
    assert!(Scalar::from_bytes(&above).is_none());
    let mut top = largest;
    top[31] = 0x13;
    assert!(Scalar::from_bytes(&top).is_none());
    assert_eq!(Scalar::from_bytes(&[0u8; 32]).unwrap().to_bytes(), vec![0u8; 32]);
    let mut one = [0u8; 32];
    one[0] = 1;
    assert_eq!(Scalar::one().to_bytes(), one.to_vec());
    assert_eq!(g.mul(&Scalar::one()), g);
}
