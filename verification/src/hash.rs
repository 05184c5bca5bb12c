//! BLAKE2b digests, hex encoding, and hashing a transcript to a point of G2.

use crate::bytes::{copy_bytes, to_array_64};
use crate::curve::{g2_is_canonical, G2Point};
use blake2::{Blake2b, Digest};
use snarkvm_algorithms::hash_to_curve::try_hash_to_curve;
use snarkvm_curves::bls12_377::G2Affine;
use snarkvm_utilities::CanonicalSerialize;
use vstd::prelude::*;

verus! {

/// Length of a digest.
pub const HASH_SIZE: usize = 64;

/// How many counters hashing to the curve tries before it gives up.
pub const HASH_TO_CURVE_TRIES: u8 = 128;

/// The BLAKE2b-512 digest of `data`.
pub uninterp spec fn blake2b_512(data: Seq<u8>) -> Seq<u8>;

/// The point of G2 that one round of hashing to the curve derives from
/// `message`, if the round finds one.
pub uninterp spec fn try_hash_to_g2(message: Seq<u8>) -> Option<Seq<u8>>;

/// `Blake2b::digest` of the `blake2` crate: the 64-byte digest of `data`.
#[verifier::external_body]
fn blake2b_raw(data: &[u8]) -> (r: Vec<u8>)
    ensures
        r@ == blake2b_512(data@),
        r@.len() == HASH_SIZE,
{
    Blake2b::digest(data).to_vec()
}

/// `hex::encode`: two lower-case hex digits for each byte, the high half
/// first.
#[verifier::external_body]
fn hex_encode_raw(data: &[u8]) -> (r: Vec<u8>)
    ensures
        r@ == hex_encoding(data@),
{
    hex::encode(data).into_bytes()
}

/// `try_hash_to_curve` of `snarkvm_algorithms` for G2, on `message` read as
/// text: one round of hashing to the curve, which either finds an element of
/// the group or does not.
#[verifier::external_body]
fn try_hash_to_g2_raw(message: &[u8]) -> (r: Option<Vec<u8>>)
    ensures
        match r {
            Some(p) => try_hash_to_g2(message@) == Some(p@) && g2_is_canonical(p@),
            None => try_hash_to_g2(message@) is None,
        },
{
    let text = String::from_utf8_lossy(message);
    let point = try_hash_to_curve::<G2Affine>(&text)?;
    let mut out = Vec::new();
    point.serialize_uncompressed(&mut out).ok()?;
    Some(out)
}

/// The BLAKE2b-512 digest of `data`.
pub fn blake2b(data: &[u8]) -> (digest: [u8; 64])
    ensures
        digest@ == blake2b_512(data@),
{
    let out = blake2b_raw(data);
    to_array_64(out.as_slice())
}

/// The ASCII code of the lower-case hex digit for `nibble`.
pub open spec fn hex_digit(nibble: int) -> u8 {
    if nibble < 10 {
        (48 + nibble) as u8
    } else {
        (87 + nibble) as u8
    }
}

/// The lower-case hex encoding of `data`, as ASCII.
pub open spec fn hex_encoding(data: Seq<u8>) -> Seq<u8> {
    Seq::new(
        2 * data.len(),
        |i: int|
            if i % 2 == 0 {
                hex_digit(data[i / 2] as int / 16)
            } else {
                hex_digit(data[i / 2] as int % 16)
            },
    )
}

/// The lower-case hex encoding of `data`, as ASCII.
pub fn hex_encode(data: &[u8]) -> (text: Vec<u8>)
    ensures
        text@ == hex_encoding(data@),
{
    hex_encode_raw(data)
}

/// The decimal digits of `k`, as ASCII.
pub open spec fn decimal_digits(k: nat) -> Seq<u8>
    recommends
        k < 1000,
{
    if k < 10 {
        seq![(48 + k) as u8]
    } else if k < 100 {
        seq![(48 + k / 10) as u8, (48 + k % 10) as u8]
    } else {
        seq![(48 + k / 100) as u8, (48 + (k / 10) % 10) as u8, (48 + k % 10) as u8]
    }
}

/// The message of round `k`: the input, the word " in " and the counter.
pub open spec fn counter_message(input: Seq<u8>, k: nat) -> Seq<u8> {
    input + seq![32u8, 105u8, 110u8, 32u8] + decimal_digits(k)
}

/// The point found by the first successful round from `k` on, if one of the
/// rounds below `HASH_TO_CURVE_TRIES` succeeds.
pub open spec fn hash_to_g2_from(input: Seq<u8>, k: nat) -> Option<Seq<u8>>
    decreases HASH_TO_CURVE_TRIES - k,
{
    if k >= HASH_TO_CURVE_TRIES {
        None
    } else {
        match try_hash_to_g2(counter_message(input, k)) {
            Some(p) => Some(p),
            None => hash_to_g2_from(input, k + 1),
        }
    }
}

/// The point of G2 that `input` hashes to.
pub open spec fn spec_hash_to_g2(input: Seq<u8>) -> Option<Seq<u8>> {
    hash_to_g2_from(input, 0)
}

/// The message of round `k`.
fn build_counter_message(input: &[u8], k: u8) -> (message: Vec<u8>)
    ensures
        message@ == counter_message(input@, k as nat),
{
    let mut message = copy_bytes(input);
    message.push(32u8);
    message.push(105u8);
    message.push(110u8);
    message.push(32u8);
    assert(message@ =~= input@ + seq![32u8, 105u8, 110u8, 32u8]);
    if k < 10 {
        message.push(48 + k);
    } else if k < 100 {
        message.push(48 + k / 10);
        message.push(48 + k % 10);
    } else {
        message.push(48 + k / 100);
        message.push(48 + (k / 10) % 10);
        message.push(48 + k % 10);
    }
    assert(message@ =~= counter_message(input@, k as nat));
    message
}

/// Hashes `input` to a point of G2: the rounds are tried with the counters
/// 0, 1, 2, ... and the first point found is returned. `None` means that no
/// round below `HASH_TO_CURVE_TRIES` found one.
pub fn hash_to_g2(input: &[u8]) -> (r: Option<G2Point>)
    ensures
        match r {
            Some(p) => spec_hash_to_g2(input@) == Some(p@),
            None => spec_hash_to_g2(input@) is None,
        },
{
    let mut k: u8 = 0;
    while k < HASH_TO_CURVE_TRIES
        invariant
            k <= HASH_TO_CURVE_TRIES,
            spec_hash_to_g2(input@) == hash_to_g2_from(input@, k as nat),
        decreases HASH_TO_CURVE_TRIES - k,
    {
        let message = build_counter_message(input, k);
        match try_hash_to_g2_raw(message.as_slice()) {
            Some(p) => {
                return Some(G2Point::from_canonical(p));
            },
            None => {},
        }
        k += 1;
    }
    None
}

} // verus!
