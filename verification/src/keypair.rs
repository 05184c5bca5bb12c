//! The public record of a contribution and the key pair that produces it.

use crate::bytes::{append_bytes, bytes_equal, to_array_64};
use crate::codec::{
    is_read_error, lemma_parse_point_round_trip, parse_point, read_point, write_point,
    CheckForCorrectness,
};
use crate::curve::{
    g1_is_canonical, g1_mul, g2_is_canonical, g2_mul, G1Point, G2Point, Group, Scalar,
};
use crate::error::Phase2Error;
use crate::hash::{blake2b, blake2b_512, hash_to_g2, hex_encode, hex_encoding, spec_hash_to_g2, HASH_SIZE};
use crate::point::lemma_uncompressed_round_trips;
use crate::UseCompression;
use vstd::bytes::{
    lemma_auto_spec_u32_to_from_le_bytes, spec_u32_from_le_bytes, spec_u32_to_le_bytes,
    u32_from_le_bytes, u32_to_le_bytes,
};
use vstd::prelude::*;
use vstd::std_specs::cmp::PartialEqSpecImpl;

verus! {

/// Length of a written public key: three G1 elements, one G2 element and a
/// digest.
pub const PUBLIC_KEY_SIZE: usize = 544;

/// What a contributor publishes: the delta in G1 after the contribution, a
/// signature of knowledge of the secret, and the digest that binds the
/// contribution to what came before it.
#[derive(Debug)]
pub struct PublicKey {
    /// The delta in G1 after the contribution.
    pub delta_after: G1Point,
    /// A random element of G1.
    pub s: G1Point,
    /// `s` multiplied by the secret.
    pub s_delta: G1Point,
    /// The point of G2 derived from `transcript`, multiplied by the secret.
    pub r_delta: G2Point,
    /// The digest of the circuit hash, the earlier contributions, `s` and
    /// `s_delta`.
    pub transcript: [u8; 64],
}

/// A public key as plain values.
pub struct PublicKeyView {
    pub delta_after: Seq<u8>,
    pub s: Seq<u8>,
    pub s_delta: Seq<u8>,
    pub r_delta: Seq<u8>,
    pub transcript: Seq<u8>,
}

impl PublicKeyView {
    /// The elements are canonical encodings and the digest has its length.
    pub open spec fn wf(self) -> bool {
        &&& g1_is_canonical(self.delta_after)
        &&& g1_is_canonical(self.s)
        &&& g1_is_canonical(self.s_delta)
        &&& g2_is_canonical(self.r_delta)
        &&& self.transcript.len() == HASH_SIZE
    }

    /// The written form: the four elements uncompressed, then the digest.
    pub open spec fn encoding(self) -> Seq<u8> {
        self.delta_after + self.s + self.s_delta + self.r_delta + self.transcript
    }

    /// The digest of the written form, by which a contributor recognizes
    /// their contribution.
    pub open spec fn hash(self) -> Seq<u8> {
        blake2b_512(self.encoding())
    }
}

impl View for PublicKey {
    type V = PublicKeyView;

    open spec fn view(&self) -> PublicKeyView {
        PublicKeyView {
            delta_after: self.delta_after@,
            s: self.s@,
            s_delta: self.s_delta@,
            r_delta: self.r_delta@,
            transcript: self.transcript@,
        }
    }
}

/// The views of a sequence of public keys.
pub open spec fn key_views(keys: Seq<PublicKey>) -> Seq<PublicKeyView> {
    Seq::new(keys.len(), |i: int| keys[i]@)
}

/// Every key of `keys` is well formed.
pub open spec fn all_keys_wf(keys: Seq<PublicKeyView>) -> bool {
    forall|i: int| 0 <= i < keys.len() ==> (#[trigger] keys[i]).wf()
}

/// The written forms of `keys` one after the other.
pub open spec fn encode_public_keys(keys: Seq<PublicKeyView>) -> Seq<u8>
    decreases keys.len(),
{
    if keys.len() == 0 {
        Seq::empty()
    } else {
        keys[0].encoding() + encode_public_keys(keys.skip(1))
    }
}

/// The number of keys, a little-endian `u32`, followed by their written
/// forms.
pub open spec fn encode_public_key_batch(keys: Seq<PublicKeyView>) -> Seq<u8> {
    spec_u32_to_le_bytes(keys.len() as u32) + encode_public_keys(keys)
}

/// Reads one public key from the front of `input`.
pub open spec fn parse_public_key(input: Seq<u8>) -> Result<(PublicKeyView, Seq<u8>), Phase2Error> {
    let check = CheckForCorrectness::OnlyInGroup;
    match parse_point(Group::G1, UseCompression::No, check, input) {
        Err(e) => Err(e),
        Ok((delta_after, rest1)) => match parse_point(Group::G1, UseCompression::No, check, rest1) {
            Err(e) => Err(e),
            Ok((s, rest2)) => match parse_point(Group::G1, UseCompression::No, check, rest2) {
                Err(e) => Err(e),
                Ok((s_delta, rest3)) => match parse_point(
                    Group::G2,
                    UseCompression::No,
                    check,
                    rest3,
                ) {
                    Err(e) => Err(e),
                    Ok((r_delta, rest4)) => if rest4.len() < HASH_SIZE {
                        Err(Phase2Error::Io)
                    } else {
                        Ok(
                            (
                                PublicKeyView {
                                    delta_after,
                                    s,
                                    s_delta,
                                    r_delta,
                                    transcript: rest4.subrange(0, HASH_SIZE as int),
                                },
                                rest4.skip(HASH_SIZE as int),
                            ),
                        )
                    },
                },
            },
        },
    }
}

/// Puts `head` in front of the keys of a successful result.
pub open spec fn prepend_keys(
    head: Seq<PublicKeyView>,
    result: Result<(Seq<PublicKeyView>, Seq<u8>), Phase2Error>,
) -> Result<(Seq<PublicKeyView>, Seq<u8>), Phase2Error> {
    match result {
        Ok((keys, rest)) => Ok((head + keys, rest)),
        Err(e) => Err(e),
    }
}

/// Reads `count` public keys from the front of `input`.
pub open spec fn parse_public_keys(input: Seq<u8>, count: nat) -> Result<
    (Seq<PublicKeyView>, Seq<u8>),
    Phase2Error,
>
    decreases count,
{
    if count == 0 {
        Ok((Seq::empty(), input))
    } else {
        match parse_public_key(input) {
            Err(e) => Err(e),
            Ok((key, rest)) => prepend_keys(seq![key], parse_public_keys(rest, (count - 1) as nat)),
        }
    }
}

/// Reads a number of keys and that many public keys from the front of
/// `input`.
pub open spec fn parse_public_key_batch(input: Seq<u8>) -> Result<
    (Seq<PublicKeyView>, Seq<u8>),
    Phase2Error,
> {
    if input.len() < 4 {
        Err(Phase2Error::Io)
    } else {
        parse_public_keys(input.skip(4), spec_u32_from_le_bytes(input.subrange(0, 4)) as nat)
    }
}

/// The bytes that are hashed into the transcript of a contribution: the
/// circuit hash, the earlier contributions, `s` and `s_delta`.
pub open spec fn transcript_input(
    cs_hash: Seq<u8>,
    contributions: Seq<PublicKeyView>,
    s: Seq<u8>,
    s_delta: Seq<u8>,
) -> Seq<u8> {
    cs_hash + encode_public_keys(contributions) + s + s_delta
}

/// The transcript of a contribution.
pub open spec fn spec_hash_cs_pubkeys(
    cs_hash: Seq<u8>,
    contributions: Seq<PublicKeyView>,
    s: Seq<u8>,
    s_delta: Seq<u8>,
) -> Seq<u8> {
    blake2b_512(transcript_input(cs_hash, contributions, s, s_delta))
}

/// The point of G2 that a transcript is hashed to: through the lower-case
/// hex text of the digest.
pub open spec fn transcript_point(transcript: Seq<u8>) -> Option<Seq<u8>> {
    spec_hash_to_g2(hex_encoding(transcript))
}

/// A written public key has `PUBLIC_KEY_SIZE` bytes.
pub proof fn lemma_public_key_size(key: PublicKeyView)
    requires
        key.wf(),
    ensures
        key.encoding().len() == PUBLIC_KEY_SIZE,
{
}

/// A written public key reads back, whatever follows it.
pub proof fn lemma_public_key_round_trip(key: PublicKeyView, rest: Seq<u8>)
    requires
        key.wf(),
    ensures
        parse_public_key(key.encoding() + rest) == Ok::<(PublicKeyView, Seq<u8>), Phase2Error>(
            (key, rest),
        ),
{
    let check = CheckForCorrectness::OnlyInGroup;
    let no = UseCompression::No;
    let rest4 = key.transcript + rest;
    let rest3 = key.r_delta + rest4;
    let rest2 = key.s_delta + rest3;
    let rest1 = key.s + rest2;
    assert(key.encoding() + rest =~= key.delta_after + rest1);
    lemma_uncompressed_round_trips(Group::G1, key.delta_after);
    lemma_uncompressed_round_trips(Group::G1, key.s);
    lemma_uncompressed_round_trips(Group::G1, key.s_delta);
    lemma_uncompressed_round_trips(Group::G2, key.r_delta);
    lemma_parse_point_round_trip(Group::G1, no, check, key.delta_after, rest1);
    lemma_parse_point_round_trip(Group::G1, no, check, key.s, rest2);
    lemma_parse_point_round_trip(Group::G1, no, check, key.s_delta, rest3);
    lemma_parse_point_round_trip(Group::G2, no, check, key.r_delta, rest4);
    assert(rest4.subrange(0, HASH_SIZE as int) =~= key.transcript);
    assert(rest4.skip(HASH_SIZE as int) =~= rest);
}

/// Writing one more key appends its written form.
pub proof fn lemma_encode_public_keys_push(keys: Seq<PublicKeyView>, key: PublicKeyView)
    ensures
        encode_public_keys(keys.push(key)) == encode_public_keys(keys) + key.encoding(),
    decreases keys.len(),
{
    if keys.len() == 0 {
        assert(keys.push(key).skip(1) =~= Seq::<PublicKeyView>::empty());
        assert(encode_public_keys(keys.push(key).skip(1)) =~= Seq::<u8>::empty());
        assert(encode_public_keys(keys) =~= Seq::<u8>::empty());
        assert(encode_public_keys(keys.push(key)) =~= key.encoding());
    } else {
        lemma_encode_public_keys_push(keys.skip(1), key);
        assert(keys.push(key).skip(1) =~= keys.skip(1).push(key));
        assert(encode_public_keys(keys.push(key)) =~= encode_public_keys(keys) + key.encoding());
    }
}

/// Written keys read back, whatever follows them.
pub proof fn lemma_public_keys_round_trip(keys: Seq<PublicKeyView>, rest: Seq<u8>)
    requires
        all_keys_wf(keys),
    ensures
        parse_public_keys(encode_public_keys(keys) + rest, keys.len()) == Ok::<
            (Seq<PublicKeyView>, Seq<u8>),
            Phase2Error,
        >((keys, rest)),
    decreases keys.len(),
{
    if keys.len() == 0 {
        assert(encode_public_keys(keys) + rest =~= rest);
        assert(keys =~= Seq::<PublicKeyView>::empty());
    } else {
        let tail = keys.skip(1);
        let tail_bytes = encode_public_keys(tail) + rest;
        assert forall|i: int| 0 <= i < tail.len() implies (#[trigger] tail[i]).wf() by {
            assert(tail[i] == keys[i + 1]);
        }
        assert(keys[0].wf());
        lemma_public_key_round_trip(keys[0], tail_bytes);
        lemma_public_keys_round_trip(tail, rest);
        assert(encode_public_keys(keys) + rest =~= keys[0].encoding() + tail_bytes);
        assert(seq![keys[0]] + tail =~= keys);
    }
}

/// A written batch of keys reads back, whatever follows it.
pub proof fn lemma_public_key_batch_round_trip(keys: Seq<PublicKeyView>, rest: Seq<u8>)
    requires
        all_keys_wf(keys),
        keys.len() <= u32::MAX,
    ensures
        parse_public_key_batch(encode_public_key_batch(keys) + rest) == Ok::<
            (Seq<PublicKeyView>, Seq<u8>),
            Phase2Error,
        >((keys, rest)),
{
    lemma_auto_spec_u32_to_from_le_bytes();
    let prefix = spec_u32_to_le_bytes(keys.len() as u32);
    let input = encode_public_key_batch(keys) + rest;
    assert(input.subrange(0, 4) =~= prefix);
    assert(input.skip(4) =~= encode_public_keys(keys) + rest);
    lemma_public_keys_round_trip(keys, rest);
}

/// Putting keys in front one after the other is putting them in front
/// together.
pub proof fn lemma_prepend_keys_twice(
    first: Seq<PublicKeyView>,
    second: Seq<PublicKeyView>,
    result: Result<(Seq<PublicKeyView>, Seq<u8>), Phase2Error>,
)
    ensures
        prepend_keys(first, prepend_keys(second, result)) == prepend_keys(first + second, result),
{
    match result {
        Ok((keys, rest)) => {
            assert(first + (second + keys) =~= (first + second) + keys);
        },
        Err(_) => {},
    }
}

/// Putting no key in front changes nothing.
pub proof fn lemma_prepend_keys_empty(result: Result<(Seq<PublicKeyView>, Seq<u8>), Phase2Error>)
    ensures
        prepend_keys(Seq::empty(), result) == result,
{
    match result {
        Ok((keys, rest)) => {
            assert(Seq::<PublicKeyView>::empty() + keys =~= keys);
        },
        Err(_) => {},
    }
}

impl PublicKey {
    /// Length of a written public key.
    pub fn size() -> (n: usize)
        ensures
            n == PUBLIC_KEY_SIZE,
    {
        PUBLIC_KEY_SIZE
    }

    /// Appends the written form of the key to `out`.
    pub fn write(&self, out: &mut Vec<u8>)
        ensures
            final(out)@ == old(out)@ + self@.encoding(),
            self@.wf(),
    {
        let ghost start = out@;
        write_point(out, &self.delta_after, UseCompression::No);
        write_point(out, &self.s, UseCompression::No);
        write_point(out, &self.s_delta, UseCompression::No);
        write_point(out, &self.r_delta, UseCompression::No);
        append_bytes(out, self.transcript.as_slice());
        assert(out@ =~= start + self@.encoding());
    }

    /// Reads a public key at `start`. Gives the key and the position behind
    /// it.
    pub fn read(input: &[u8], start: usize) -> (r: Result<(PublicKey, usize), Phase2Error>)
        requires
            start <= input@.len(),
        ensures
            match r {
                Ok((key, end)) => start <= end <= input@.len() && key@.wf() && parse_public_key(
                    input@.skip(start as int),
                ) == Ok::<(PublicKeyView, Seq<u8>), Phase2Error>((key@, input@.skip(end as int))),
                Err(e) => parse_public_key(input@.skip(start as int)) == Err::<
                    (PublicKeyView, Seq<u8>),
                    Phase2Error,
                >(e),
            },
    {
        let check = CheckForCorrectness::OnlyInGroup;
        let (delta_after, pos1) = match read_point::<G1Point>(input, start, UseCompression::No, check) {
            Ok(found) => found,
            Err(e) => {
                return Err(e);
            },
        };
        let (s, pos2) = match read_point::<G1Point>(input, pos1, UseCompression::No, check) {
            Ok(found) => found,
            Err(e) => {
                return Err(e);
            },
        };
        let (s_delta, pos3) = match read_point::<G1Point>(input, pos2, UseCompression::No, check) {
            Ok(found) => found,
            Err(e) => {
                return Err(e);
            },
        };
        let (r_delta, pos4) = match read_point::<G2Point>(input, pos3, UseCompression::No, check) {
            Ok(found) => found,
            Err(e) => {
                return Err(e);
            },
        };
        if input.len() - pos4 < HASH_SIZE {
            return Err(Phase2Error::Io);
        }
        let end = pos4 + HASH_SIZE;
        let transcript = to_array_64(&input[pos4..end]);
        proof {
            assert(input@.skip(pos4 as int).subrange(0, HASH_SIZE as int) =~= input@.subrange(
                pos4 as int,
                end as int,
            ));
            assert(input@.skip(pos4 as int).skip(HASH_SIZE as int) =~= input@.skip(end as int));
        }
        Ok((PublicKey { delta_after, s, s_delta, r_delta, transcript }, end))
    }

    /// The digest of the written form of the key.
    pub fn hash(&self) -> (digest: [u8; 64])
        ensures
            digest@ == self@.hash(),
    {
        let mut written: Vec<u8> = Vec::new();
        self.write(&mut written);
        assert(written@ =~= self@.encoding());
        blake2b(written.as_slice())
    }

    /// Appends to `out` the number of `keys` and their written forms. Fails
    /// with `InvalidLength`, and writes nothing, if their number does not
    /// fit the 32 bits it is written in.
    pub fn write_batch(out: &mut Vec<u8>, keys: &Vec<PublicKey>) -> (r: Result<(), Phase2Error>)
        ensures
            r is Ok <==> keys@.len() <= u32::MAX,
            r is Err ==> r == Err::<(), Phase2Error>(Phase2Error::InvalidLength) && final(out)@ == old(
                out,
            )@,
            r is Ok ==> final(out)@ == old(out)@ + encode_public_key_batch(key_views(keys@))
                && all_keys_wf(key_views(keys@)),
    {
        let count = keys.len();
        if count > u32::MAX as usize {
            return Err(Phase2Error::InvalidLength);
        }
        let prefix = u32_to_le_bytes(count as u32);
        append_bytes(out, prefix.as_slice());
        let ghost all = key_views(keys@);
        let mut i: usize = 0;
        assert(all.take(0) =~= Seq::<PublicKeyView>::empty());
        while i < count
            invariant
                i <= count,
                count == keys@.len(),
                all == key_views(keys@),
                out@ == old(out)@ + spec_u32_to_le_bytes(count as u32) + encode_public_keys(
                    all.take(i as int),
                ),
                forall|j: int| 0 <= j < i ==> (#[trigger] all[j]).wf(),
            decreases count - i,
        {
            keys[i].write(out);
            proof {
                lemma_encode_public_keys_push(all.take(i as int), all[i as int]);
                assert(all.take(i + 1) =~= all.take(i as int).push(all[i as int]));
                assert(out@ =~= old(out)@ + spec_u32_to_le_bytes(count as u32) + encode_public_keys(
                    all.take(i + 1),
                ));
            }
            i += 1;
        }
        proof {
            assert(all.take(count as int) =~= all);
            assert(out@ =~= old(out)@ + (spec_u32_to_le_bytes(count as u32) + encode_public_keys(
                all,
            )));
        }
        Ok(())
    }

    /// Reads a number of keys and that many public keys at `start`. Gives
    /// the keys and the position behind them.
    pub fn read_batch(input: &[u8], start: usize) -> (r: Result<(Vec<PublicKey>, usize), Phase2Error>)
        requires
            start <= input@.len(),
        ensures
            match r {
                Ok((keys, end)) => start <= end <= input@.len() && all_keys_wf(key_views(keys@))
                    && parse_public_key_batch(input@.skip(start as int)) == Ok::<
                    (Seq<PublicKeyView>, Seq<u8>),
                    Phase2Error,
                >((key_views(keys@), input@.skip(end as int))),
                Err(e) => parse_public_key_batch(input@.skip(start as int)) == Err::<
                    (Seq<PublicKeyView>, Seq<u8>),
                    Phase2Error,
                >(e),
            },
    {
        if input.len() - start < 4 {
            return Err(Phase2Error::Io);
        }
        let first = start + 4;
        let count = u32_from_le_bytes(&input[start..first]);
        proof {
            assert(input@.skip(start as int).subrange(0, 4) =~= input@.subrange(
                start as int,
                first as int,
            ));
            assert(input@.skip(start as int).skip(4) =~= input@.skip(first as int));
        }
        let ghost whole = parse_public_keys(input@.skip(first as int), count as nat);
        let mut keys: Vec<PublicKey> = Vec::new();
        let mut pos = first;
        let mut i: u32 = 0;
        proof {
            assert(key_views(keys@) =~= Seq::<PublicKeyView>::empty());
            lemma_prepend_keys_empty(whole);
        }
        while i < count
            invariant
                first <= pos <= input@.len(),
                i <= count,
                keys@.len() == i,
                all_keys_wf(key_views(keys@)),
                whole == parse_public_key_batch(input@.skip(start as int)),
                whole == prepend_keys(
                    key_views(keys@),
                    parse_public_keys(input@.skip(pos as int), (count - i) as nat),
                ),
            decreases count - i,
        {
            let ghost done = key_views(keys@);
            match PublicKey::read(input, pos) {
                Err(e) => {
                    proof {
                        assert(parse_public_keys(input@.skip(pos as int), (count - i) as nat)
                            == Err::<(Seq<PublicKeyView>, Seq<u8>), Phase2Error>(e));
                    }
                    return Err(e);
                },
                Ok((key, end)) => {
                    proof {
                        let later = parse_public_keys(
                            input@.skip(end as int),
                            (count - i - 1) as nat,
                        );
                        lemma_prepend_keys_twice(done, seq![key@], later);
                        assert(key_views(keys@.push(key)) =~= done + seq![key@]);
                    }
                    keys.push(key);
                    pos = end;
                    i += 1;
                },
            }
        }
        proof {
            assert(key_views(keys@) + Seq::<PublicKeyView>::empty() =~= key_views(keys@));
        }
        Ok((keys, pos))
    }
}

impl Clone for PublicKey {
    fn clone(&self) -> (r: Self)
        ensures
            r@ == self@,
    {
        PublicKey {
            delta_after: self.delta_after.clone(),
            s: self.s.clone(),
            s_delta: self.s_delta.clone(),
            r_delta: self.r_delta.clone(),
            transcript: self.transcript,
        }
    }
}

impl PartialEq for PublicKey {
    fn eq(&self, other: &Self) -> (r: bool) {
        let same = self.delta_after == other.delta_after && self.s == other.s && self.s_delta
            == other.s_delta && self.r_delta == other.r_delta && bytes_equal(
            self.transcript.as_slice(),
            other.transcript.as_slice(),
        );
        same
    }
}

impl PartialEqSpecImpl for PublicKey {
    open spec fn obeys_eq_spec() -> bool {
        true
    }

    open spec fn eq_spec(&self, other: &Self) -> bool {
        self@ == other@
    }
}

/// A copy of `keys`.
pub fn clone_keys(keys: &Vec<PublicKey>) -> (copy: Vec<PublicKey>)
    ensures
        key_views(copy@) == key_views(keys@),
{
    let mut copy: Vec<PublicKey> = Vec::new();
    let mut i: usize = 0;
    while i < keys.len()
        invariant
            i <= keys@.len(),
            copy@.len() == i,
            forall|j: int| 0 <= j < i ==> (#[trigger] copy@[j])@ == keys@[j]@,
        decreases keys@.len() - i,
    {
        copy.push(keys[i].clone());
        i += 1;
    }
    assert(key_views(copy@) =~= key_views(keys@));
    copy
}

/// The transcript of a contribution: the digest of the circuit hash, the
/// written forms of the contributions before it, `s` and `s_delta`.
pub fn hash_cs_pubkeys(
    cs_hash: &[u8; 64],
    contributions: &[PublicKey],
    s: &G1Point,
    s_delta: &G1Point,
) -> (digest: [u8; 64])
    ensures
        digest@ == spec_hash_cs_pubkeys(cs_hash@, key_views(contributions@), s@, s_delta@),
{
    let mut data: Vec<u8> = Vec::new();
    append_bytes(&mut data, cs_hash.as_slice());
    let ghost all = key_views(contributions@);
    let mut i: usize = 0;
    assert(all.take(0) =~= Seq::<PublicKeyView>::empty());
    assert(data@ =~= cs_hash@ + encode_public_keys(all.take(0)));
    while i < contributions.len()
        invariant
            i <= contributions@.len(),
            all == key_views(contributions@),
            data@ == cs_hash@ + encode_public_keys(all.take(i as int)),
        decreases contributions@.len() - i,
    {
        contributions[i].write(&mut data);
        proof {
            lemma_encode_public_keys_push(all.take(i as int), all[i as int]);
            assert(all.take(i + 1) =~= all.take(i as int).push(all[i as int]));
            assert(data@ =~= cs_hash@ + encode_public_keys(all.take(i + 1)));
        }
        i += 1;
    }
    assert(all.take(contributions@.len() as int) =~= all);
    write_point(&mut data, s, UseCompression::No);
    write_point(&mut data, s_delta, UseCompression::No);
    assert(data@ =~= transcript_input(cs_hash@, all, s@, s_delta@));
    blake2b(data.as_slice())
}

/// The secret of a contribution.
pub struct PrivateKey {
    /// The factor by which the contribution scales delta.
    pub delta: Scalar,
}

/// The secret and the public record of a contribution.
pub struct Keypair {
    pub public_key: PublicKey,
    pub private_key: PrivateKey,
}

/// The public key that the secret `delta` and the element `s` give for a
/// contribution to parameters whose delta in G1 is `delta_g1`, if the
/// transcript hashes to a point.
pub open spec fn spec_public_key(
    delta_g1: Seq<u8>,
    cs_hash: Seq<u8>,
    contributions: Seq<PublicKeyView>,
    delta: Seq<u8>,
    s: Seq<u8>,
) -> Option<PublicKeyView> {
    let s_delta = g1_mul(s, delta);
    let transcript = spec_hash_cs_pubkeys(cs_hash, contributions, s, s_delta);
    match transcript_point(transcript) {
        None => None,
        Some(r) => Some(
            PublicKeyView {
                delta_after: g1_mul(delta_g1, delta),
                s,
                s_delta,
                r_delta: g2_mul(r, delta),
                transcript,
            },
        ),
    }
}

impl Keypair {
    /// The key pair of a contribution with the secret `delta` and the
    /// element `s`. Fails with `HashToCurve` if the transcript hashes to no
    /// point.
    pub fn from_secret(
        delta_g1: &G1Point,
        cs_hash: &[u8; 64],
        contributions: &[PublicKey],
        delta: Scalar,
        s: G1Point,
    ) -> (r: Result<Keypair, Phase2Error>)
        ensures
            match r {
                Ok(pair) => spec_public_key(
                    delta_g1@,
                    cs_hash@,
                    key_views(contributions@),
                    delta@,
                    s@,
                ) == Some(pair.public_key@) && pair.private_key.delta@ == delta@,
                Err(e) => e == Phase2Error::HashToCurve && spec_public_key(
                    delta_g1@,
                    cs_hash@,
                    key_views(contributions@),
                    delta@,
                    s@,
                ) is None,
            },
    {
        let s_delta = s.mul(&delta);
        let transcript = hash_cs_pubkeys(cs_hash, contributions, &s, &s_delta);
        let text = hex_encode(transcript.as_slice());
        let r = match hash_to_g2(text.as_slice()) {
            Some(point) => point,
            None => {
                return Err(Phase2Error::HashToCurve);
            },
        };
        let r_delta = r.mul(&delta);
        let delta_after = delta_g1.mul(&delta);
        Ok(
            Keypair {
                public_key: PublicKey { delta_after, s, s_delta, r_delta, transcript },
                private_key: PrivateKey { delta },
            },
        )
    }
}

/// The failure of reading public keys is a failure of reading.
pub proof fn lemma_parse_public_keys_error(input: Seq<u8>, count: nat)
    ensures
        parse_public_keys(input, count) is Err ==> is_read_error(
            parse_public_keys(input, count)->Err_0,
        ),
    decreases count,
{
    if count > 0 {
        match parse_public_key(input) {
            Ok((_, rest)) => {
                lemma_parse_public_keys_error(rest, (count - 1) as nat);
            },
            Err(_) => {},
        }
    }
}

} // verus!
