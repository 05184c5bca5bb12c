//! The written form of the parameters: the proving key, the circuit hash,
//! and the contributions with their number in front.

use crate::bytes::{append_bytes, to_array_64};
use crate::codec::{is_read_error, CheckForCorrectness};
use crate::error::Phase2Error;
use crate::hash::HASH_SIZE;
use crate::key::{
    found, lemma_parse_proving_key_error, lemma_proving_key_round_trip, parse_proving_key,
    ProvingKey, ProvingKeyView,
};
use crate::keypair::{
    all_keys_wf, encode_public_key_batch, lemma_parse_public_keys_error,
    lemma_public_key_batch_round_trip, parse_public_key_batch, PublicKey,
};
use crate::parameters::{MPCParameters, MPCParametersView};
use crate::UseCompression;
use vstd::bytes::spec_u32_from_le_bytes;
use vstd::prelude::*;

verus! {

/// How the subgroup test of a key that was read is carried out, where it is
/// asked for.
#[derive(Clone, Copy, Debug, PartialEq, Eq, Structural)]
pub enum SubgroupCheckMode {
    /// The way is left to the library, which tests element by element.
    Auto,
    /// Every element is tested by itself.
    Direct,
    /// The elements of a query are tested together; here this is done
    /// element by element too.
    Batched,
    /// The test is left out.
    No,
}

impl MPCParametersView {
    /// The elements are canonical encodings, the circuit hash has its
    /// length, and the contributions are few enough for their number to be
    /// written.
    pub open spec fn wf(self) -> bool {
        &&& self.params.wf()
        &&& self.params.lengths_fit()
        &&& self.cs_hash.len() == HASH_SIZE
        &&& all_keys_wf(self.contributions)
        &&& self.contributions.len() <= u32::MAX
    }

    /// The written form: the key, the circuit hash, the number of
    /// contributions as a little-endian `u32`, and the contributions.
    pub open spec fn encoding(self, compressed: UseCompression) -> Seq<u8> {
        self.params.encoding(compressed) + self.cs_hash + encode_public_key_batch(
            self.contributions,
        )
    }
}

/// Reads the circuit hash and the contributions from the front of `input`,
/// and puts them together with `key`.
pub open spec fn parse_transcript(key: ProvingKeyView, input: Seq<u8>) -> Result<
    (MPCParametersView, Seq<u8>),
    Phase2Error,
> {
    if input.len() < HASH_SIZE {
        Err(Phase2Error::Io)
    } else {
        match parse_public_key_batch(input.skip(HASH_SIZE as int)) {
            Err(e) => Err(e),
            Ok((contributions, rest)) => Ok(
                (
                    MPCParametersView {
                        params: key,
                        cs_hash: input.subrange(0, HASH_SIZE as int),
                        contributions,
                    },
                    rest,
                ),
            ),
        }
    }
}

/// Reads parameters from the front of `input`.
pub open spec fn parse_mpc(compressed: UseCompression, check: CheckForCorrectness, input: Seq<u8>) -> Result<
    (MPCParametersView, Seq<u8>),
    Phase2Error,
> {
    match parse_proving_key(compressed, check, input) {
        Err(e) => Err(e),
        Ok((key, rest)) => parse_transcript(key, rest),
    }
}

/// Whether a key that was read in the given way is put to the explicit
/// subgroup test: where the test is asked for, is not left out by its mode,
/// and the key was not read under `Full`.
pub open spec fn subgroup_test_applies(
    check: CheckForCorrectness,
    check_subgroup_membership: bool,
    mode: SubgroupCheckMode,
) -> bool {
    check_subgroup_membership && !(check is Full) && !(mode is No)
}

/// Reads a key from the front of `input` and, where it applies, puts it to
/// the explicit subgroup test.
pub open spec fn spec_read_groth16_fast(
    compressed: UseCompression,
    check: CheckForCorrectness,
    check_subgroup_membership: bool,
    mode: SubgroupCheckMode,
    input: Seq<u8>,
) -> Result<(ProvingKeyView, Seq<u8>), Phase2Error> {
    match parse_proving_key(compressed, check, input) {
        Err(e) => Err(e),
        Ok((key, rest)) => if subgroup_test_applies(check, check_subgroup_membership, mode)
            && !key.in_subgroup() {
            Err(Phase2Error::SubgroupCheckFailed)
        } else {
            Ok((key, rest))
        },
    }
}

/// Reads parameters from the front of `input`, the key as
/// `spec_read_groth16_fast` does.
pub open spec fn spec_read_fast(
    compressed: UseCompression,
    check: CheckForCorrectness,
    check_subgroup_membership: bool,
    mode: SubgroupCheckMode,
    input: Seq<u8>,
) -> Result<MPCParametersView, Phase2Error> {
    match spec_read_groth16_fast(compressed, check, check_subgroup_membership, mode, input) {
        Err(e) => Err(e),
        Ok((key, rest)) => match parse_transcript(key, rest) {
            Err(e) => Err(e),
            Ok((mpc, _)) => Ok(mpc),
        },
    }
}

/// Reads parameters in the form in which `write` writes them: the key
/// compressed, every element held to be in the group.
pub open spec fn spec_read(input: Seq<u8>) -> Result<MPCParametersView, Phase2Error> {
    match parse_mpc(UseCompression::Yes, CheckForCorrectness::OnlyInGroup, input) {
        Err(e) => Err(e),
        Ok((mpc, _)) => Ok(mpc),
    }
}

/// Written parameters read back, whatever follows them: for every key whose
/// elements read back from what is written for them and are acceptable
/// under `check`.
pub proof fn lemma_mpc_round_trip(
    mpc: MPCParametersView,
    compressed: UseCompression,
    check: CheckForCorrectness,
    rest: Seq<u8>,
)
    requires
        mpc.wf(),
        mpc.params.round_trips(compressed),
        mpc.params.accepted(check),
    ensures
        parse_mpc(compressed, check, mpc.encoding(compressed) + rest) == Ok::<
            (MPCParametersView, Seq<u8>),
            Phase2Error,
        >((mpc, rest)),
{
    let batch = encode_public_key_batch(mpc.contributions) + rest;
    let tail = mpc.cs_hash + batch;
    assert(mpc.encoding(compressed) + rest =~= mpc.params.encoding(compressed) + tail);
    lemma_proving_key_round_trip(mpc.params, compressed, check, tail);
    assert(tail.subrange(0, HASH_SIZE as int) =~= mpc.cs_hash);
    assert(tail.skip(HASH_SIZE as int) =~= batch);
    lemma_public_key_batch_round_trip(mpc.contributions, rest);
}

/// Round trip: well-formed parameters, written uncompressed, read back as
/// they were under every check that accepts their elements.
pub proof fn lemma_uncompressed_round_trip(mpc: MPCParametersView, check: CheckForCorrectness)
    requires
        mpc.wf(),
        mpc.params.accepted(check),
    ensures
        parse_mpc(UseCompression::No, check, mpc.encoding(UseCompression::No)) == Ok::<
            (MPCParametersView, Seq<u8>),
            Phase2Error,
        >((mpc, Seq::empty())),
{
    assert(mpc.params.round_trips(UseCompression::No));
    lemma_mpc_round_trip(mpc, UseCompression::No, check, Seq::empty());
    assert(mpc.encoding(UseCompression::No) + Seq::<u8>::empty() =~= mpc.encoding(
        UseCompression::No,
    ));
}

/// Reads the circuit hash and the contributions at `start`, and puts them
/// together with `key`.
fn read_transcript(key: ProvingKey, input: &[u8], start: usize) -> (r: Result<
    (MPCParameters, usize),
    Phase2Error,
>)
    requires
        start <= input@.len(),
    ensures
        match r {
            Ok((mpc, end)) => start <= end <= input@.len() && parse_transcript(
                key@,
                input@.skip(start as int),
            ) == Ok::<(MPCParametersView, Seq<u8>), Phase2Error>((mpc@, input@.skip(end as int))),
            Err(e) => parse_transcript(key@, input@.skip(start as int)) == Err::<
                (MPCParametersView, Seq<u8>),
                Phase2Error,
            >(e),
        },
{
    if input.len() - start < HASH_SIZE {
        return Err(Phase2Error::Io);
    }
    let first = start + HASH_SIZE;
    let cs_hash = to_array_64(&input[start..first]);
    proof {
        assert(input@.skip(start as int).subrange(0, HASH_SIZE as int) =~= input@.subrange(
            start as int,
            first as int,
        ));
        assert(input@.skip(start as int).skip(HASH_SIZE as int) =~= input@.skip(first as int));
    }
    match PublicKey::read_batch(input, first) {
        Err(e) => Err(e),
        Ok((contributions, end)) => Ok((MPCParameters { params: key, cs_hash, contributions }, end)),
    }
}

/// Reads a key at `start` and, where it applies, puts it to the explicit
/// subgroup test.
fn read_key_at(
    input: &[u8],
    start: usize,
    compressed: UseCompression,
    check_correctness: CheckForCorrectness,
    check_subgroup_membership: bool,
    subgroup_check_mode: SubgroupCheckMode,
) -> (r: Result<(ProvingKey, usize), Phase2Error>)
    requires
        start <= input@.len(),
    ensures
        match r {
            Ok((key, end)) => start <= end <= input@.len() && spec_read_groth16_fast(
                compressed,
                check_correctness,
                check_subgroup_membership,
                subgroup_check_mode,
                input@.skip(start as int),
            ) == Ok::<(ProvingKeyView, Seq<u8>), Phase2Error>((key@, input@.skip(end as int))),
            Err(e) => spec_read_groth16_fast(
                compressed,
                check_correctness,
                check_subgroup_membership,
                subgroup_check_mode,
                input@.skip(start as int),
            ) == Err::<(ProvingKeyView, Seq<u8>), Phase2Error>(e),
        },
{
    let (key, end) = match ProvingKey::read(input, start, compressed, check_correctness) {
        Ok(found) => found,
        Err(e) => {
            return Err(e);
        },
    };
    let full = match check_correctness {
        CheckForCorrectness::Full => true,
        _ => false,
    };
    let left_out = match subgroup_check_mode {
        SubgroupCheckMode::No => true,
        _ => false,
    };
    // Under `Full` every element was already held to be in the group.
    if check_subgroup_membership && !full && !left_out {
        if !key.check_subgroup() {
            return Err(Phase2Error::SubgroupCheckFailed);
        }
    }
    Ok((key, end))
}

impl MPCParameters {
    /// Reads a proving key from the front of `reader`: the A and B queries,
    /// which may hold the point at infinity, are held to no more than
    /// `OnlyInGroup`; where `check_subgroup_membership` is set and the key
    /// was not read under `Full`, the key is then put to the explicit
    /// subgroup test as `subgroup_check_mode` says.
    pub fn read_groth16_fast(
        reader: &[u8],
        compressed: UseCompression,
        check_correctness: CheckForCorrectness,
        check_subgroup_membership: bool,
        subgroup_check_mode: SubgroupCheckMode,
    ) -> (r: Result<ProvingKey, Phase2Error>)
        ensures
            match r {
                Ok(key) => spec_read_groth16_fast(
                    compressed,
                    check_correctness,
                    check_subgroup_membership,
                    subgroup_check_mode,
                    reader@,
                ) is Ok && key@ == found(
                    spec_read_groth16_fast(
                        compressed,
                        check_correctness,
                        check_subgroup_membership,
                        subgroup_check_mode,
                        reader@,
                    ),
                ),
                Err(e) => spec_read_groth16_fast(
                    compressed,
                    check_correctness,
                    check_subgroup_membership,
                    subgroup_check_mode,
                    reader@,
                ) == Err::<(ProvingKeyView, Seq<u8>), Phase2Error>(e),
            },
    {
        assert(reader@.skip(0) =~= reader@);
        match read_key_at(
            reader,
            0,
            compressed,
            check_correctness,
            check_subgroup_membership,
            subgroup_check_mode,
        ) {
            Ok((key, _)) => Ok(key),
            Err(e) => Err(e),
        }
    }

    /// Reads parameters from the front of `reader`, the key as
    /// `read_groth16_fast` does.
    pub fn read_fast(
        reader: &[u8],
        compressed: UseCompression,
        check_correctness: CheckForCorrectness,
        check_subgroup_membership: bool,
        subgroup_check_mode: SubgroupCheckMode,
    ) -> (r: Result<MPCParameters, Phase2Error>)
        ensures
            match r {
                Ok(mpc) => spec_read_fast(
                    compressed,
                    check_correctness,
                    check_subgroup_membership,
                    subgroup_check_mode,
                    reader@,
                ) == Ok::<MPCParametersView, Phase2Error>(mpc@),
                Err(e) => spec_read_fast(
                    compressed,
                    check_correctness,
                    check_subgroup_membership,
                    subgroup_check_mode,
                    reader@,
                ) == Err::<MPCParametersView, Phase2Error>(e),
            },
    {
        assert(reader@.skip(0) =~= reader@);
        let (key, pos) = match read_key_at(
            reader,
            0,
            compressed,
            check_correctness,
            check_subgroup_membership,
            subgroup_check_mode,
        ) {
            Ok(found) => found,
            Err(e) => {
                return Err(e);
            },
        };
        match read_transcript(key, reader, pos) {
            Ok((mpc, _)) => Ok(mpc),
            Err(e) => Err(e),
        }
    }

    /// Appends the written form of the parameters to `writer`, the key
    /// compressed or not. Fails with `InvalidLength`, and writes nothing, if
    /// there are more contributions than the 32 bits of their number hold.
    ///
    /// What was written reads back as these parameters, under every check
    /// that accepts the elements of the key.
    pub fn write_with(&self, writer: &mut Vec<u8>, compressed: UseCompression) -> (r: Result<
        (),
        Phase2Error,
    >)
        ensures
            r is Ok <==> self@.contributions.len() <= u32::MAX,
            r is Err ==> r == Err::<(), Phase2Error>(Phase2Error::InvalidLength) && final(writer)@
                == old(writer)@,
            r is Ok ==> final(writer)@ == old(writer)@ + self@.encoding(compressed),
            r is Ok ==> self@.wf() && self@.params.round_trips(compressed),
            r is Ok ==> forall|check: CheckForCorrectness|
                self@.params.accepted(check) ==> #[trigger] parse_mpc(
                    compressed,
                    check,
                    self@.encoding(compressed),
                ) == Ok::<(MPCParametersView, Seq<u8>), Phase2Error>((self@, Seq::empty())),
    {
        if self.contributions.len() > u32::MAX as usize {
            return Err(Phase2Error::InvalidLength);
        }
        let ghost start = writer@;
        self.params.write(writer, compressed);
        append_bytes(writer, self.cs_hash.as_slice());
        let written = PublicKey::write_batch(writer, &self.contributions);
        proof {
            assert(writer@ =~= start + self@.encoding(compressed));
            assert forall|check: CheckForCorrectness|
                self@.params.accepted(check) implies #[trigger] parse_mpc(
                compressed,
                check,
                self@.encoding(compressed),
            ) == Ok::<(MPCParametersView, Seq<u8>), Phase2Error>((self@, Seq::empty())) by {
                lemma_mpc_round_trip(self@, compressed, check, Seq::empty());
                assert(self@.encoding(compressed) + Seq::<u8>::empty() =~= self@.encoding(
                    compressed,
                ));
            }
        }
        Ok(())
    }

    /// Appends the written form of the parameters to `writer`, with the key
    /// compressed. Fails with `InvalidLength`, and writes nothing, if there
    /// are more contributions than the 32 bits of their number hold.
    ///
    /// What was written is what `read` reads back as these parameters.
    pub fn write(&self, writer: &mut Vec<u8>) -> (r: Result<(), Phase2Error>)
        ensures
            r is Ok <==> self@.contributions.len() <= u32::MAX,
            r is Err ==> r == Err::<(), Phase2Error>(Phase2Error::InvalidLength) && final(writer)@
                == old(writer)@,
            r is Ok ==> final(writer)@ == old(writer)@ + self@.encoding(UseCompression::Yes),
            r is Ok ==> spec_read(self@.encoding(UseCompression::Yes)) == Ok::<
                MPCParametersView,
                Phase2Error,
            >(self@),
    {
        let r = self.write_with(writer, UseCompression::Yes);
        proof {
            if r is Ok {
                assert(self@.params.accepted(CheckForCorrectness::OnlyInGroup));
            }
        }
        r
    }

    /// Reads parameters from the front of `reader`, in the form in which
    /// `write` writes them.
    pub fn read(reader: &[u8]) -> (r: Result<MPCParameters, Phase2Error>)
        ensures
            match r {
                Ok(mpc) => spec_read(reader@) == Ok::<MPCParametersView, Phase2Error>(mpc@),
                Err(e) => spec_read(reader@) == Err::<MPCParametersView, Phase2Error>(e),
            },
    {
        assert(reader@.skip(0) =~= reader@);
        let (key, pos) = match ProvingKey::read(
            reader,
            0,
            UseCompression::Yes,
            CheckForCorrectness::OnlyInGroup,
        ) {
            Ok(found) => found,
            Err(e) => {
                return Err(e);
            },
        };
        match read_transcript(key, reader, pos) {
            Ok((mpc, _)) => Ok(mpc),
            Err(e) => Err(e),
        }
    }
}

/// Reading parameters fails only because the input ends too early or
/// because some bytes are no element.
pub proof fn lemma_read_error(input: Seq<u8>)
    ensures
        spec_read(input) is Err ==> is_read_error(spec_read(input)->Err_0),
{
    let compressed = UseCompression::Yes;
    let check = CheckForCorrectness::OnlyInGroup;
    lemma_parse_proving_key_error(compressed, check, input);
    match parse_proving_key(compressed, check, input) {
        Ok((_, rest)) => {
            if rest.len() >= HASH_SIZE {
                let batch = rest.skip(HASH_SIZE as int);
                if batch.len() >= 4 {
                    lemma_parse_public_keys_error(
                        batch.skip(4),
                        spec_u32_from_le_bytes(batch.subrange(0, 4)) as nat,
                    );
                }
            }
        },
        Err(_) => {},
    }
}

} // verus!
