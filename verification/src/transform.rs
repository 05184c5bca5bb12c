//! What is decided when a response of the first phase is turned into the
//! next challenge: how long the files must be, whether the response builds
//! on the challenge, and how the new challenge is made.

use crate::bytes::bytes_equal;
use crate::hash::{blake2b, blake2b_512, HASH_SIZE};
use crate::UseCompression;
use vstd::prelude::*;

verus! {

/// The sizes of the files of the first phase.
#[derive(Clone, Copy, Debug, PartialEq, Eq, Structural)]
pub struct Phase1Sizes {
    /// Length of an uncompressed accumulator, with the hash in front.
    pub accumulator_size: usize,
    /// Length of a compressed contribution, with its public key.
    pub contribution_size: usize,
    /// Length of a public key.
    pub public_key_size: usize,
}

/// How the new challenge is made.
#[derive(Clone, Copy, Debug, PartialEq, Eq, Structural)]
pub enum NewChallenge {
    /// The file is copied and cut to `length` bytes.
    Copy { length: usize },
    /// A file of `length` bytes is made, the hash of the response is put at
    /// its front, and the response is decompressed into it.
    Decompress { length: usize },
}

/// The length that a challenge file must have: a compressed one is a
/// contribution without its public key, an uncompressed one an accumulator.
pub open spec fn spec_challenge_length(compressed: UseCompression, sizes: Phase1Sizes) -> int {
    match compressed {
        UseCompression::Yes => sizes.contribution_size - sizes.public_key_size,
        UseCompression::No => sizes.accumulator_size as int,
    }
}

/// The length that a response file must have: a compressed one is a
/// contribution, an uncompressed one an accumulator with a public key.
pub open spec fn spec_response_length(compressed: UseCompression, sizes: Phase1Sizes) -> int {
    match compressed {
        UseCompression::Yes => sizes.contribution_size as int,
        UseCompression::No => sizes.accumulator_size + sizes.public_key_size,
    }
}

/// The length that a challenge file must have, or `None` if no file can
/// have it.
pub fn expected_challenge_length(compressed: UseCompression, sizes: &Phase1Sizes) -> (length: Option<
    usize,
>)
    ensures
        match length {
            Some(n) => n == spec_challenge_length(compressed, *sizes),
            None => spec_challenge_length(compressed, *sizes) < 0,
        },
{
    match compressed {
        UseCompression::Yes => sizes.contribution_size.checked_sub(sizes.public_key_size),
        UseCompression::No => Some(sizes.accumulator_size),
    }
}

/// The length that a response file must have, or `None` if no file can have
/// it.
pub fn expected_response_length(compressed: UseCompression, sizes: &Phase1Sizes) -> (length: Option<
    usize,
>)
    ensures
        match length {
            Some(n) => n == spec_response_length(compressed, *sizes),
            None => spec_response_length(compressed, *sizes) > usize::MAX,
        },
{
    match compressed {
        UseCompression::Yes => Some(sizes.contribution_size),
        UseCompression::No => sizes.accumulator_size.checked_add(sizes.public_key_size),
    }
}

/// The digest of a file.
pub fn calculate_hash(data: &[u8]) -> (digest: [u8; 64])
    ensures
        digest@ == blake2b_512(data@),
{
    blake2b(data)
}

/// Whether a response builds on the challenge with the digest
/// `challenge_hash`: it must begin with that digest.
pub fn response_follows_challenge(response: &[u8], challenge_hash: &[u8; 64]) -> (follows: bool)
    ensures
        follows == (response@.len() >= HASH_SIZE && response@.subrange(0, HASH_SIZE as int)
            == challenge_hash@),
{
    if response.len() < HASH_SIZE {
        return false;
    }
    bytes_equal(&response[0..HASH_SIZE], challenge_hash.as_slice())
}

/// How the new challenge is made: with the compression that the
/// contribution has, a file is copied and cut to the length of an
/// accumulator with a public key; otherwise the response is decompressed
/// into a file of the length of an accumulator. `None` if no file can have
/// the length.
pub fn plan_new_challenge(
    compress_new_challenge: UseCompression,
    contribution_is_compressed: UseCompression,
    sizes: &Phase1Sizes,
) -> (plan: Option<NewChallenge>)
    ensures
        plan == if compress_new_challenge == contribution_is_compressed {
            if sizes.accumulator_size + sizes.public_key_size <= usize::MAX {
                Some(
                    NewChallenge::Copy {
                        length: (sizes.accumulator_size + sizes.public_key_size) as usize,
                    },
                )
            } else {
                None
            }
        } else {
            Some(NewChallenge::Decompress { length: sizes.accumulator_size })
        },
{
    if compress_new_challenge == contribution_is_compressed {
        match sizes.accumulator_size.checked_add(sizes.public_key_size) {
            Some(length) => Some(NewChallenge::Copy { length }),
            None => None,
        }
    } else {
        Some(NewChallenge::Decompress { length: sizes.accumulator_size })
    }
}

} // verus!
