//! Contributing to written parameters and verifying them batch by batch: the
//! queries are read, worked on and written again a batch of elements at a
//! time, so that no query is ever held in memory as a whole.
//!
//! The parameters are in the form in which `MPCParameters::write` writes
//! them.

use crate::bytes::{append_bytes, bytes_equal, to_array_64};
use crate::codec::{
    all_canonical, all_round_trip, encode_point_vec, encode_points, encodings, found_points,
    lemma_encode_points_concat, lemma_encode_points_push, lemma_parse_points_consumes,
    lemma_parse_points_len, lemma_parse_points_split, lemma_prepend_empty, lemma_prepend_ok,
    lemma_prepend_prepend, parse_point_vec, parse_points, prepend, read_length, read_point,
    read_points, write_point, CheckForCorrectness,
};
use crate::contribution::{scale_all, spec_contribute};
use crate::curve::{check_same_ratio, scalar_zero, G1Point, G2Point, Group, Scalar};
use crate::error::{InvariantKind, Phase2Error, RatioCheck};
use crate::verification::{
    check_prefix, coefficients_valid, result_view, same_points, sample_coefficients, scalar_views,
    lemma_verify_gives_no_zero_scalar, spec_check_queries, spec_check_unchanged, spec_merge,
    spec_same_points, spec_verify, verify_transcript,
};
use crate::hash::HASH_SIZE;
use crate::key::{ProvingKeyView, VerifyingKey};
use crate::keypair::{key_views, Keypair, PublicKey, PUBLIC_KEY_SIZE};
use crate::parameters::MPCParametersView;
use crate::point::{point_mul, CurvePoint};
use crate::serialization::{lemma_mpc_round_trip, lemma_read_error, parse_mpc, spec_read};
use crate::UseCompression;
use rand::rngs::ThreadRng;
use vstd::bytes::{spec_u64_to_le_bytes, u64_to_le_bytes};
use vstd::prelude::*;

verus! {

/// The elements of `points`, each multiplied by `scalar` if there is one.
pub open spec fn scaled_points(group: Group, points: Seq<Seq<u8>>, scalar: Option<Seq<u8>>) -> Seq<
    Seq<u8>,
> {
    match scalar {
        Some(factor) => Seq::new(points.len(), |i: int| point_mul(group, points[i], factor)),
        None => points,
    }
}

/// Reads a sequence at `start` and appends it to `out`, each element
/// multiplied by `scalar` if there is one, `batch_size` elements at a time.
/// Gives the position behind the sequence and, for the proof, what was
/// read.
fn stream_points<G: CurvePoint>(
    input: &[u8],
    start: usize,
    out: &mut Vec<u8>,
    scalar: Option<&Scalar>,
    batch_size: usize,
) -> (r: Result<(usize, Ghost<Seq<Seq<u8>>>), Phase2Error>)
    requires
        start <= input@.len(),
        batch_size > 0,
    ensures
        match r {
            Ok((end, points)) => {
                let written = scaled_points(G::group(), points@, scalar_view(scalar));
                &&& start <= end <= input@.len()
                &&& parse_point_vec(
                    G::group(),
                    UseCompression::Yes,
                    CheckForCorrectness::OnlyInGroup,
                    input@.skip(start as int),
                ) == Ok::<(Seq<Seq<u8>>, Seq<u8>), Phase2Error>((points@, input@.skip(end as int)))
                &&& final(out)@ == old(out)@ + encode_point_vec(
                    G::group(),
                    UseCompression::Yes,
                    written,
                )
                &&& all_round_trip(G::group(), UseCompression::Yes, written)
                &&& all_canonical(G::group(), written)
                &&& points@.len() <= u64::MAX
            },
            Err(e) => parse_point_vec(
                G::group(),
                UseCompression::Yes,
                CheckForCorrectness::OnlyInGroup,
                input@.skip(start as int),
            ) == Err::<(Seq<Seq<u8>>, Seq<u8>), Phase2Error>(e),
        },
{
    let compressed = UseCompression::Yes;
    let check = CheckForCorrectness::OnlyInGroup;
    let ghost group = G::group();
    let ghost factor = scalar_view(scalar);
    let (count, first) = match read_length(input, start) {
        Ok(found) => found,
        Err(e) => {
            return Err(e);
        },
    };
    let prefix = u64_to_le_bytes(count);
    append_bytes(out, prefix.as_slice());
    let ghost whole = parse_points(group, compressed, check, input@.skip(first as int), count as nat);
    let ghost mut done: Seq<Seq<u8>> = Seq::empty();
    let mut pos = first;
    let mut read: u64 = 0;
    proof {
        lemma_prepend_empty(whole);
        assert(scaled_points(group, done, factor) =~= Seq::<Seq<u8>>::empty());
        assert(out@ =~= old(out)@ + spec_u64_to_le_bytes(count) + encode_points(
            group,
            compressed,
            scaled_points(group, done, factor),
        ));
    }
    while read < count
        invariant
            batch_size > 0,
            first <= pos <= input@.len(),
            read <= count,
            group == G::group(),
            factor == scalar_view(scalar),
            compressed == UseCompression::Yes,
            check == CheckForCorrectness::OnlyInGroup,
            done.len() == read,
            whole == parse_point_vec(group, compressed, check, input@.skip(start as int)),
            whole == prepend(
                done,
                parse_points(group, compressed, check, input@.skip(pos as int), (count - read) as nat),
            ),
            out@ == old(out)@ + spec_u64_to_le_bytes(count) + encode_points(
                group,
                compressed,
                scaled_points(group, done, factor),
            ),
            all_round_trip(group, compressed, scaled_points(group, done, factor)),
            all_canonical(group, scaled_points(group, done, factor)),
        decreases count - read,
    {
        let remaining = count - read;
        let size: u64 = if remaining < batch_size as u64 {
            remaining
        } else {
            batch_size as u64
        };
        proof {
            lemma_parse_points_split(
                group,
                compressed,
                check,
                input@.skip(pos as int),
                size as nat,
                (remaining - size) as nat,
            );
        }
        let (batch, end) = match read_points::<G>(input, pos, size, compressed, check) {
            Ok(found) => found,
            Err(e) => {
                return Err(e);
            },
        };
        let ghost read_now = encodings(batch@);
        let ghost out_before = out@;
        let mut j: usize = 0;
        proof {
            assert(scaled_points(group, read_now.take(0), factor) =~= Seq::<Seq<u8>>::empty());
            assert(out@ =~= out_before + encode_points(
                group,
                compressed,
                scaled_points(group, read_now.take(0), factor),
            ));
        }
        while j < batch.len()
            invariant
                j <= batch@.len(),
                group == G::group(),
                factor == scalar_view(scalar),
                compressed == UseCompression::Yes,
                read_now == encodings(batch@),
                out@ == out_before + encode_points(
                    group,
                    compressed,
                    scaled_points(group, read_now.take(j as int), factor),
                ),
                all_round_trip(group, compressed, scaled_points(group, read_now.take(j as int), factor)),
                all_canonical(group, scaled_points(group, read_now.take(j as int), factor)),
            decreases batch@.len() - j,
        {
            let ghost so_far = scaled_points(group, read_now.take(j as int), factor);
            let ghost next;
            match scalar {
                Some(s) => {
                    let scaled = batch[j].scale(s);
                    proof {
                        next = scaled.encoding();
                    }
                    write_point(out, &scaled, compressed);
                },
                None => {
                    proof {
                        next = batch@[j as int].encoding();
                    }
                    write_point(out, &batch[j], compressed);
                },
            }
            proof {
                lemma_encode_points_push(group, compressed, so_far, next);
                assert(scaled_points(group, read_now.take(j + 1), factor) =~= so_far.push(next));
            }
            j += 1;
        }
        proof {
            assert(read_now.take(batch@.len() as int) =~= read_now);
            let later = parse_points(
                group,
                compressed,
                check,
                input@.skip(end as int),
                (remaining - size) as nat,
            );
            lemma_prepend_prepend(done, read_now, later);
            let before = scaled_points(group, done, factor);
            let added = scaled_points(group, read_now, factor);
            assert(scaled_points(group, done + read_now, factor) =~= before + added);
            lemma_encode_points_concat(group, compressed, before, added);
            assert(out@ =~= old(out)@ + spec_u64_to_le_bytes(count) + encode_points(
                group,
                compressed,
                scaled_points(group, done + read_now, factor),
            ));
            done = done + read_now;
        }
        pos = end;
        read = read + size;
    }
    proof {
        assert(done + Seq::<Seq<u8>>::empty() =~= done);
        assert(out@ =~= old(out)@ + encode_point_vec(
            group,
            compressed,
            scaled_points(group, done, factor),
        ));
    }
    Ok((pos, Ghost(done)))
}

/// The scalar by which a sequence is multiplied, if by any.
pub open spec fn scalar_view(scalar: Option<&Scalar>) -> Option<Seq<u8>> {
    match scalar {
        Some(s) => Some(s@),
        None => None,
    }
}

/// What a contribution makes of written parameters: the written form of the
/// parameters after the contribution, followed by what followed the
/// parameters before it, less the room that the new public key takes.
///
/// The secret must not be zero, the bytes must hold parameters followed by
/// room for one public key, the transcript must hash to a point, and the
/// contributions must stay few enough for their number to be written.
pub open spec fn spec_contribute_written(written: Seq<u8>, delta: Seq<u8>, s: Seq<u8>) -> Result<
    (Seq<u8>, MPCParametersView),
    Phase2Error,
> {
    if delta == scalar_zero() {
        Err(Phase2Error::ZeroScalar)
    } else {
        match parse_mpc(UseCompression::Yes, CheckForCorrectness::OnlyInGroup, written) {
            Err(e) => Err(e),
            Ok((before, rest)) => if rest.len() < PUBLIC_KEY_SIZE {
                Err(Phase2Error::Io)
            } else {
                match spec_contribute(before, delta, s) {
                    Err(e) => Err(e),
                    Ok(after) => if after.contributions.len() > u32::MAX {
                        Err(Phase2Error::InvalidLength)
                    } else {
                        Ok(
                            (
                                after.encoding(UseCompression::Yes) + rest.skip(
                                    PUBLIC_KEY_SIZE as int,
                                ),
                                after,
                            ),
                        )
                    },
                }
            },
        }
    }
}

/// Contributes the secret `delta`, with `s` as the element of the signature
/// of knowledge, to the parameters written in `buffer`, which are followed
/// by room for one more public key. The H and L queries are worked on
/// `batch_size` elements at a time. Gives the digest of the new public key.
///
/// Afterwards `buffer` holds what `MPCParameters::write` writes for the
/// parameters after the contribution. On failure it is as it was.
pub fn contribute_with(buffer: &mut Vec<u8>, delta: Scalar, s: G1Point, batch_size: usize) -> (r: Result<
    [u8; 64],
    Phase2Error,
>)
    requires
        batch_size > 0,
    ensures
        match spec_contribute_written(old(buffer)@, delta@, s@) {
            Ok((written, after)) => r is Ok && r->Ok_0@ == after.contributions.last().hash()
                && final(buffer)@ == written && parse_mpc(
                UseCompression::Yes,
                CheckForCorrectness::OnlyInGroup,
                written,
            ) is Ok && spec_read(written) == Ok::<MPCParametersView, Phase2Error>(after),
            Err(e) => r == Err::<[u8; 64], Phase2Error>(e) && final(buffer)@ == old(buffer)@,
        },
{
    let compressed = UseCompression::Yes;
    let check = CheckForCorrectness::OnlyInGroup;
    let delta_inv = match delta.inverse() {
        Some(inverse) => inverse,
        None => {
            return Err(Phase2Error::ZeroScalar);
        },
    };
    let input = buffer.as_slice();
    let mut out: Vec<u8> = Vec::new();
    assert(input@.skip(0) =~= input@);
    let (vk, pos1) = match VerifyingKey::read(input, 0, compressed, check) {
        Ok(found) => found,
        Err(e) => {
            return Err(e);
        },
    };
    let (beta_g1, pos2) = match read_point::<G1Point>(input, pos1, compressed, check) {
        Ok(found) => found,
        Err(e) => {
            return Err(e);
        },
    };
    let (delta_g1, pos3) = match read_point::<G1Point>(input, pos2, compressed, check) {
        Ok(found) => found,
        Err(e) => {
            return Err(e);
        },
    };
    let ghost vk_before = vk@;
    let new_delta_g1 = delta_g1.mul(&delta);
    let new_vk = VerifyingKey {
        alpha_g1: vk.alpha_g1,
        beta_g2: vk.beta_g2,
        gamma_g2: vk.gamma_g2,
        delta_g2: vk.delta_g2.mul(&delta),
        gamma_abc_g1: vk.gamma_abc_g1,
    };
    new_vk.write(&mut out, compressed);
    write_point(&mut out, &beta_g1, compressed);
    write_point(&mut out, &new_delta_g1, compressed);
    let (pos4, a_query) = match stream_points::<G1Point>(input, pos3, &mut out, None, batch_size) {
        Ok(found) => found,
        Err(e) => {
            return Err(e);
        },
    };
    let (pos5, b_g1_query) = match stream_points::<G1Point>(input, pos4, &mut out, None, batch_size) {
        Ok(found) => found,
        Err(e) => {
            return Err(e);
        },
    };
    let (pos6, b_g2_query) = match stream_points::<G2Point>(input, pos5, &mut out, None, batch_size) {
        Ok(found) => found,
        Err(e) => {
            return Err(e);
        },
    };
    let (pos7, h_query) = match stream_points::<G1Point>(
        input,
        pos6,
        &mut out,
        Some(&delta_inv),
        batch_size,
    ) {
        Ok(found) => found,
        Err(e) => {
            return Err(e);
        },
    };
    let (pos8, l_query) = match stream_points::<G1Point>(
        input,
        pos7,
        &mut out,
        Some(&delta_inv),
        batch_size,
    ) {
        Ok(found) => found,
        Err(e) => {
            return Err(e);
        },
    };
    let ghost key_before = ProvingKeyView {
        vk: vk_before,
        beta_g1: beta_g1@,
        delta_g1: delta_g1@,
        a_query: a_query@,
        b_g1_query: b_g1_query@,
        b_g2_query: b_g2_query@,
        h_query: h_query@,
        l_query: l_query@,
    };
    if input.len() - pos8 < HASH_SIZE {
        return Err(Phase2Error::Io);
    }
    let pos9 = pos8 + HASH_SIZE;
    let cs_hash = to_array_64(&input[pos8..pos9]);
    proof {
        assert(input@.skip(pos8 as int).subrange(0, HASH_SIZE as int) =~= input@.subrange(
            pos8 as int,
            pos9 as int,
        ));
        assert(input@.skip(pos8 as int).skip(HASH_SIZE as int) =~= input@.skip(pos9 as int));
    }
    append_bytes(&mut out, cs_hash.as_slice());
    let (mut contributions, pos10) = match PublicKey::read_batch(input, pos9) {
        Ok(found) => found,
        Err(e) => {
            return Err(e);
        },
    };
    let ghost before = MPCParametersView {
        params: key_before,
        cs_hash: cs_hash@,
        contributions: key_views(contributions@),
    };
    let ghost rest = input@.skip(pos10 as int);
    assert(parse_mpc(compressed, check, input@) == Ok::<(MPCParametersView, Seq<u8>), Phase2Error>(
        (before, rest),
    ));
    if input.len() - pos10 < PUBLIC_KEY_SIZE {
        return Err(Phase2Error::Io);
    }
    let pair = match Keypair::from_secret(&delta_g1, &cs_hash, contributions.as_slice(), delta, s) {
        Ok(pair) => pair,
        Err(e) => {
            return Err(e);
        },
    };
    let public_key = pair.public_key;
    let hash = public_key.hash();
    let ghost pushed = public_key@;
    contributions.push(public_key);
    let ghost after = spec_contribute(before, delta@, s@)->Ok_0;
    proof {
        assert(key_views(contributions@) =~= before.contributions.push(pushed));
        assert(spec_contribute(before, delta@, s@) is Ok);
        assert(scaled_points(Group::G1, h_query@, Some(delta_inv@))
            =~= scale_all(h_query@, delta_inv@));
        assert(scaled_points(Group::G1, l_query@, Some(delta_inv@))
            =~= scale_all(l_query@, delta_inv@));
    }
    let ghost key_bytes = out@;
    match PublicKey::write_batch(&mut out, &contributions) {
        Ok(()) => {},
        Err(e) => {
            return Err(e);
        },
    }
    let tail_start = pos10 + PUBLIC_KEY_SIZE;
    append_bytes(&mut out, &input[tail_start..input.len()]);
    proof {
        let tail = rest.skip(PUBLIC_KEY_SIZE as int);
        assert(input@.subrange(tail_start as int, input@.len() as int) =~= tail);
        assert(key_bytes =~= after.params.encoding(compressed) + after.cs_hash);
        assert(out@ =~= after.encoding(compressed) + tail);
        lemma_mpc_round_trip(after, compressed, check, tail);
    }
    *buffer = out;
    Ok(hash)
}

/// Contributes a secret drawn from `rng` to the parameters written in
/// `buffer`, which are followed by room for one more public key. Gives the
/// digest of the new public key.
///
/// What happens is what `contribute_with` does for the secret and the
/// element that were drawn.
pub fn contribute(buffer: &mut Vec<u8>, rng: &mut ThreadRng, batch_size: usize) -> (r: Result<
    [u8; 64],
    Phase2Error,
>)
    requires
        batch_size > 0,
    ensures
        exists|delta: Seq<u8>, s: Seq<u8>|
            match #[trigger] spec_contribute_written(old(buffer)@, delta, s) {
                Ok((written, after)) => r is Ok && r->Ok_0@ == after.contributions.last().hash()
                    && final(buffer)@ == written && spec_read(written) == Ok::<
                    MPCParametersView,
                    Phase2Error,
                >(after),
                Err(e) => r == Err::<[u8; 64], Phase2Error>(e) && final(buffer)@ == old(buffer)@,
            },
{
    let delta = Scalar::random(rng);
    let factor = Scalar::random(rng);
    let s = G1Point::generator().mul(&factor);
    let ghost delta_bytes = delta@;
    let ghost s_bytes = s@;
    let r = contribute_with(buffer, delta, s, batch_size);
    proof {
        let outcome = spec_contribute_written(old(buffer)@, delta_bytes, s_bytes);
        assert(match outcome {
            Ok((written, after)) => r is Ok && r->Ok_0@ == after.contributions.last().hash()
                && buffer@ == written && spec_read(written) == Ok::<MPCParametersView, Phase2Error>(
                after,
            ),
            Err(e) => r == Err::<[u8; 64], Phase2Error>(e) && buffer@ == old(buffer)@,
        });
    }
    r
}

/// What a first pass over written parameters finds: the small parts, and
/// where the queries begin.
struct Scan {
    vk: VerifyingKey,
    beta_g1: G1Point,
    delta_g1: G1Point,
    a_start: usize,
    b_g1_start: usize,
    b_g2_start: usize,
    h_start: usize,
    l_start: usize,
    cs_hash: [u8; 64],
    contributions: Vec<PublicKey>,
}

/// The sequence of `group` that begins at `start` reads as `points`.
spec fn reads_as(input: Seq<u8>, start: usize, group: Group, points: Seq<Seq<u8>>) -> bool {
    &&& start <= input.len()
    &&& parse_point_vec(
        group,
        UseCompression::Yes,
        CheckForCorrectness::OnlyInGroup,
        input.skip(start as int),
    ) is Ok
    &&& found_points(
        parse_point_vec(
            group,
            UseCompression::Yes,
            CheckForCorrectness::OnlyInGroup,
            input.skip(start as int),
        ),
    ) == points
}

/// What was found is what the parameters `mpc`, written in `input`, hold.
spec fn scan_of(scan: Scan, input: Seq<u8>, mpc: MPCParametersView) -> bool {
    &&& scan.vk@ == mpc.params.vk
    &&& scan.beta_g1@ == mpc.params.beta_g1
    &&& scan.delta_g1@ == mpc.params.delta_g1
    &&& scan.cs_hash@ == mpc.cs_hash
    &&& key_views(scan.contributions@) == mpc.contributions
    &&& reads_as(input, scan.a_start, Group::G1, mpc.params.a_query)
    &&& reads_as(input, scan.b_g1_start, Group::G1, mpc.params.b_g1_query)
    &&& reads_as(input, scan.b_g2_start, Group::G2, mpc.params.b_g2_query)
    &&& reads_as(input, scan.h_start, Group::G1, mpc.params.h_query)
    &&& reads_as(input, scan.l_start, Group::G1, mpc.params.l_query)
}

/// Reads a sequence at `start`, `batch_size` elements at a time, and keeps
/// nothing of it. Gives the position behind the sequence and, for the
/// proof, what was read.
fn skip_points<G: CurvePoint>(input: &[u8], start: usize, batch_size: usize) -> (r: Result<
    (usize, Ghost<Seq<Seq<u8>>>),
    Phase2Error,
>)
    requires
        start <= input@.len(),
        batch_size > 0,
    ensures
        match r {
            Ok((end, points)) => start <= end <= input@.len() && parse_point_vec(
                G::group(),
                UseCompression::Yes,
                CheckForCorrectness::OnlyInGroup,
                input@.skip(start as int),
            ) == Ok::<(Seq<Seq<u8>>, Seq<u8>), Phase2Error>((points@, input@.skip(end as int))),
            Err(e) => parse_point_vec(
                G::group(),
                UseCompression::Yes,
                CheckForCorrectness::OnlyInGroup,
                input@.skip(start as int),
            ) == Err::<(Seq<Seq<u8>>, Seq<u8>), Phase2Error>(e),
        },
{
    let compressed = UseCompression::Yes;
    let check = CheckForCorrectness::OnlyInGroup;
    let ghost group = G::group();
    let (count, first) = match read_length(input, start) {
        Ok(found) => found,
        Err(e) => {
            return Err(e);
        },
    };
    let ghost whole = parse_points(group, compressed, check, input@.skip(first as int), count as nat);
    let ghost mut done: Seq<Seq<u8>> = Seq::empty();
    let mut pos = first;
    let mut read: u64 = 0;
    proof {
        lemma_prepend_empty(whole);
    }
    while read < count
        invariant
            batch_size > 0,
            first <= pos <= input@.len(),
            read <= count,
            group == G::group(),
            compressed == UseCompression::Yes,
            check == CheckForCorrectness::OnlyInGroup,
            whole == parse_point_vec(group, compressed, check, input@.skip(start as int)),
            whole == prepend(
                done,
                parse_points(group, compressed, check, input@.skip(pos as int), (count - read) as nat),
            ),
        decreases count - read,
    {
        let remaining = count - read;
        let size: u64 = if remaining < batch_size as u64 {
            remaining
        } else {
            batch_size as u64
        };
        proof {
            lemma_parse_points_split(
                group,
                compressed,
                check,
                input@.skip(pos as int),
                size as nat,
                (remaining - size) as nat,
            );
        }
        let (batch, end) = match read_points::<G>(input, pos, size, compressed, check) {
            Ok(found) => found,
            Err(e) => {
                return Err(e);
            },
        };
        proof {
            let later = parse_points(
                group,
                compressed,
                check,
                input@.skip(end as int),
                (remaining - size) as nat,
            );
            lemma_prepend_prepend(done, encodings(batch@), later);
            done = done + encodings(batch@);
        }
        pos = end;
        read = read + size;
    }
    proof {
        assert(done + Seq::<Seq<u8>>::empty() =~= done);
    }
    Ok((pos, Ghost(done)))
}

/// A first pass over written parameters: everything is read once, a batch
/// at a time, and the small parts and the places of the queries are kept.
fn scan(input: &[u8], batch_size: usize) -> (r: Result<(Scan, Ghost<MPCParametersView>), Phase2Error>)
    requires
        batch_size > 0,
    ensures
        match r {
            Ok((found, mpc)) => spec_read(input@) == Ok::<MPCParametersView, Phase2Error>(mpc@)
                && scan_of(found, input@, mpc@),
            Err(e) => spec_read(input@) == Err::<MPCParametersView, Phase2Error>(e),
        },
{
    let compressed = UseCompression::Yes;
    let check = CheckForCorrectness::OnlyInGroup;
    assert(input@.skip(0) =~= input@);
    let (vk, pos1) = match VerifyingKey::read(input, 0, compressed, check) {
        Ok(found) => found,
        Err(e) => {
            return Err(e);
        },
    };
    let (beta_g1, pos2) = match read_point::<G1Point>(input, pos1, compressed, check) {
        Ok(found) => found,
        Err(e) => {
            return Err(e);
        },
    };
    let (delta_g1, a_start) = match read_point::<G1Point>(input, pos2, compressed, check) {
        Ok(found) => found,
        Err(e) => {
            return Err(e);
        },
    };
    let (b_g1_start, a_query) = match skip_points::<G1Point>(input, a_start, batch_size) {
        Ok(found) => found,
        Err(e) => {
            return Err(e);
        },
    };
    let (b_g2_start, b_g1_query) = match skip_points::<G1Point>(input, b_g1_start, batch_size) {
        Ok(found) => found,
        Err(e) => {
            return Err(e);
        },
    };
    let (h_start, b_g2_query) = match skip_points::<G2Point>(input, b_g2_start, batch_size) {
        Ok(found) => found,
        Err(e) => {
            return Err(e);
        },
    };
    let (l_start, h_query) = match skip_points::<G1Point>(input, h_start, batch_size) {
        Ok(found) => found,
        Err(e) => {
            return Err(e);
        },
    };
    let (pos8, l_query) = match skip_points::<G1Point>(input, l_start, batch_size) {
        Ok(found) => found,
        Err(e) => {
            return Err(e);
        },
    };
    if input.len() - pos8 < HASH_SIZE {
        return Err(Phase2Error::Io);
    }
    let pos9 = pos8 + HASH_SIZE;
    let cs_hash = to_array_64(&input[pos8..pos9]);
    proof {
        assert(input@.skip(pos8 as int).subrange(0, HASH_SIZE as int) =~= input@.subrange(
            pos8 as int,
            pos9 as int,
        ));
        assert(input@.skip(pos8 as int).skip(HASH_SIZE as int) =~= input@.skip(pos9 as int));
    }
    let (contributions, pos10) = match PublicKey::read_batch(input, pos9) {
        Ok(found) => found,
        Err(e) => {
            return Err(e);
        },
    };
    let ghost mpc = MPCParametersView {
        params: ProvingKeyView {
            vk: vk@,
            beta_g1: beta_g1@,
            delta_g1: delta_g1@,
            a_query: a_query@,
            b_g1_query: b_g1_query@,
            b_g2_query: b_g2_query@,
            h_query: h_query@,
            l_query: l_query@,
        },
        cs_hash: cs_hash@,
        contributions: key_views(contributions@),
    };
    assert(parse_mpc(compressed, check, input@) == Ok::<(MPCParametersView, Seq<u8>), Phase2Error>(
        (mpc, input@.skip(pos10 as int)),
    ));
    Ok(
        (
            Scan {
                vk,
                beta_g1,
                delta_g1,
                a_start,
                b_g1_start,
                b_g2_start,
                h_start,
                l_start,
                cs_hash,
                contributions,
            },
            Ghost(mpc),
        ),
    )
}

/// What a reading of the rest of a sequence looks like after `done` of its
/// elements: it gives the elements from `done` on.
spec fn rest_reads_as(
    input: Seq<u8>,
    pos: usize,
    group: Group,
    points: Seq<Seq<u8>>,
    done: int,
    end: Seq<u8>,
) -> bool {
    &&& pos <= input.len()
    &&& 0 <= done <= points.len()
    &&& parse_points(
        group,
        UseCompression::Yes,
        CheckForCorrectness::OnlyInGroup,
        input.skip(pos as int),
        (points.len() - done) as nat,
    ) == Ok::<(Seq<Seq<u8>>, Seq<u8>), Phase2Error>((points.skip(done), end))
}

/// Finds the number of elements of a sequence that is known to read as
/// `points`, and the position of its first element.
fn known_length(
    input: &[u8],
    start: usize,
    Ghost(group): Ghost<Group>,
    Ghost(points): Ghost<Seq<Seq<u8>>>,
) -> (r: (u64, usize))
    requires
        reads_as(input@, start, group, points),
    ensures
        r.0 == points.len(),
        r.0 <= usize::MAX,
        exists|end: Seq<u8>| rest_reads_as(input@, r.1, group, points, 0, end),
{
    let compressed = UseCompression::Yes;
    let check = CheckForCorrectness::OnlyInGroup;
    let total = input.len();
    match read_length(input, start) {
        Ok((count, first)) => {
            proof {
                let rest = input@.skip(first as int);
                lemma_parse_points_len(group, compressed, check, rest, count as nat);
                lemma_parse_points_consumes(group, compressed, check, rest, count as nat);
                assert(count <= total);
                let end = parse_points(group, compressed, check, rest, count as nat)->Ok_0.1;
                assert(points.skip(0) =~= points);
                assert(rest_reads_as(input@, first, group, points, 0, end));
            }
            (count, first)
        },
        Err(_) => {
            proof {
                assert(false);
            }
            (0, start)
        },
    }
}

/// Reads the next batch of a sequence that is known to read as `points`.
fn known_batch<G: CurvePoint>(
    input: &[u8],
    pos: usize,
    size: u64,
    Ghost(points): Ghost<Seq<Seq<u8>>>,
    Ghost(done): Ghost<int>,
    Ghost(end): Ghost<Seq<u8>>,
) -> (r: (Vec<G>, usize))
    requires
        rest_reads_as(input@, pos, G::group(), points, done, end),
        done + size <= points.len(),
    ensures
        r.0@.len() == size,
        encodings(r.0@) == points.subrange(done, done + size),
        rest_reads_as(input@, r.1, G::group(), points, done + size, end),
{
    let compressed = UseCompression::Yes;
    let check = CheckForCorrectness::OnlyInGroup;
    let ghost remaining = (points.len() - done) as nat;
    proof {
        lemma_parse_points_split(
            G::group(),
            compressed,
            check,
            input@.skip(pos as int),
            size as nat,
            (remaining - size) as nat,
        );
    }
    match read_points::<G>(input, pos, size, compressed, check) {
        Ok((batch, next)) => {
            proof {
                let later = parse_points(
                    G::group(),
                    compressed,
                    check,
                    input@.skip(next as int),
                    (remaining - size) as nat,
                );
                lemma_prepend_ok(encodings(batch@), later, points.skip(done), end);
                assert(points.skip(done).take(size as int) =~= points.subrange(done, done + size));
                assert(points.skip(done).skip(size as int) =~= points.skip(done + size));
            }
            (batch, next)
        },
        Err(_) => {
            proof {
                assert(false);
            }
            (Vec::new(), pos)
        },
    }
}

/// Compares two written sequences a batch at a time. Fails with
/// `InvalidLength` if they differ in length, and with the broken invariant
/// `kind` if they differ in an element.
fn stream_same<G: CurvePoint>(
    before: &[u8],
    start_b: usize,
    after: &[u8],
    start_a: usize,
    kind: InvariantKind,
    batch_size: usize,
    Ghost(pb): Ghost<Seq<Seq<u8>>>,
    Ghost(pa): Ghost<Seq<Seq<u8>>>,
) -> (r: Result<(), Phase2Error>)
    requires
        batch_size > 0,
        reads_as(before@, start_b, G::group(), pb),
        reads_as(after@, start_a, G::group(), pa),
    ensures
        r == spec_same_points(pb, pa, kind),
{
    let (count, first_b) = known_length(before, start_b, Ghost(G::group()), Ghost(pb));
    let (count_a, first_a) = known_length(after, start_a, Ghost(G::group()), Ghost(pa));
    if count != count_a {
        return Err(Phase2Error::InvalidLength);
    }
    let ghost end_b = choose|end: Seq<u8>| rest_reads_as(before@, first_b, G::group(), pb, 0, end);
    let ghost end_a = choose|end: Seq<u8>| rest_reads_as(after@, first_a, G::group(), pa, 0, end);
    let mut pos_b = first_b;
    let mut pos_a = first_a;
    let mut done: u64 = 0;
    while done < count
        invariant
            batch_size > 0,
            done <= count,
            count == pb.len(),
            count == pa.len(),
            rest_reads_as(before@, pos_b, G::group(), pb, done as int, end_b),
            rest_reads_as(after@, pos_a, G::group(), pa, done as int, end_a),
            forall|i: int| 0 <= i < done ==> pb[i] == pa[i],
        decreases count - done,
    {
        let remaining = count - done;
        let size: u64 = if remaining < batch_size as u64 {
            remaining
        } else {
            batch_size as u64
        };
        let (batch_b, next_b) = known_batch::<G>(
            before,
            pos_b,
            size,
            Ghost(pb),
            Ghost(done as int),
            Ghost(end_b),
        );
        let (batch_a, next_a) = known_batch::<G>(
            after,
            pos_a,
            size,
            Ghost(pa),
            Ghost(done as int),
            Ghost(end_a),
        );
        let mut j: usize = 0;
        while j < batch_b.len()
            invariant
                j <= batch_b@.len(),
                batch_b@.len() == size,
                batch_a@.len() == size,
                done + size <= count,
                count == pb.len(),
                count == pa.len(),
                encodings(batch_b@) == pb.subrange(done as int, done + size),
                encodings(batch_a@) == pa.subrange(done as int, done + size),
                forall|i: int| 0 <= i < done + j ==> pb[i] == pa[i],
            decreases batch_b@.len() - j,
        {
            assert(encodings(batch_b@)[j as int] == pb[done + j]);
            assert(encodings(batch_a@)[j as int] == pa[done + j]);
            if !batch_b[j].same(&batch_a[j]) {
                return Err(Phase2Error::BrokenInvariant(kind));
            }
            j += 1;
        }
        pos_b = next_b;
        pos_a = next_a;
        done = done + size;
    }
    assert(pb =~= pa);
    Ok(())
}

/// Merges two written sequences of G1 with the coefficients `rho`, a batch
/// at a time.
fn stream_merge(
    before: &[u8],
    start_b: usize,
    after: &[u8],
    start_a: usize,
    rho: &Vec<Scalar>,
    batch_size: usize,
    Ghost(pb): Ghost<Seq<Seq<u8>>>,
    Ghost(pa): Ghost<Seq<Seq<u8>>>,
) -> (pair: (G1Point, G1Point))
    requires
        batch_size > 0,
        reads_as(before@, start_b, Group::G1, pb),
        reads_as(after@, start_a, Group::G1, pa),
        pb.len() == pa.len(),
        rho@.len() == pb.len(),
    ensures
        pair.0@ == spec_merge(pb, scalar_views(rho@)),
        pair.1@ == spec_merge(pa, scalar_views(rho@)),
{
    let ghost coefficients = scalar_views(rho@);
    let (count, first_b) = known_length(before, start_b, Ghost(Group::G1), Ghost(pb));
    let (count_a, first_a) = known_length(after, start_a, Ghost(Group::G1), Ghost(pa));
    let ghost end_b = choose|end: Seq<u8>| rest_reads_as(before@, first_b, Group::G1, pb, 0, end);
    let ghost end_a = choose|end: Seq<u8>| rest_reads_as(after@, first_a, Group::G1, pa, 0, end);
    let mut sum_b = G1Point::zero();
    let mut sum_a = G1Point::zero();
    let mut pos_b = first_b;
    let mut pos_a = first_a;
    let mut done: u64 = 0;
    proof {
        assert(pb.take(0) =~= Seq::<Seq<u8>>::empty());
        assert(pa.take(0) =~= Seq::<Seq<u8>>::empty());
    }
    while done < count
        invariant
            batch_size > 0,
            done <= count,
            count == pb.len(),
            count == pa.len(),
            count == rho@.len(),
            count <= usize::MAX,
            coefficients == scalar_views(rho@),
            rest_reads_as(before@, pos_b, Group::G1, pb, done as int, end_b),
            rest_reads_as(after@, pos_a, Group::G1, pa, done as int, end_a),
            sum_b@ == spec_merge(pb.take(done as int), coefficients),
            sum_a@ == spec_merge(pa.take(done as int), coefficients),
        decreases count - done,
    {
        let remaining = count - done;
        let size: u64 = if remaining < batch_size as u64 {
            remaining
        } else {
            batch_size as u64
        };
        let (batch_b, next_b) = known_batch::<G1Point>(
            before,
            pos_b,
            size,
            Ghost(pb),
            Ghost(done as int),
            Ghost(end_b),
        );
        let (batch_a, next_a) = known_batch::<G1Point>(
            after,
            pos_a,
            size,
            Ghost(pa),
            Ghost(done as int),
            Ghost(end_a),
        );
        let offset = done as usize;
        let mut j: usize = 0;
        while j < batch_b.len()
            invariant
                j <= batch_b@.len(),
                batch_b@.len() == size,
                batch_a@.len() == size,
                offset == done,
                done + size <= count,
                count <= usize::MAX,
                count == pb.len(),
                count == pa.len(),
                count == rho@.len(),
                coefficients == scalar_views(rho@),
                encodings(batch_b@) == pb.subrange(done as int, done + size),
                encodings(batch_a@) == pa.subrange(done as int, done + size),
                sum_b@ == spec_merge(pb.take(done + j), coefficients),
                sum_a@ == spec_merge(pa.take(done + j), coefficients),
            decreases batch_b@.len() - j,
        {
            let k = offset + j;
            proof {
                assert(encodings(batch_b@)[j as int] == pb[done + j]);
                assert(encodings(batch_a@)[j as int] == pa[done + j]);
                assert(pb.take(k + 1).drop_last() =~= pb.take(k as int));
                assert(pa.take(k + 1).drop_last() =~= pa.take(k as int));
                assert(coefficients[k as int] == rho@[k as int]@);
            }
            sum_b = sum_b.add(&batch_b[j].mul(&rho[k]));
            sum_a = sum_a.add(&batch_a[j].mul(&rho[k]));
            j += 1;
        }
        pos_b = next_b;
        pos_a = next_a;
        done = done + size;
    }
    proof {
        assert(pb.take(count as int) =~= pb);
        assert(pa.take(count as int) =~= pa);
    }
    (sum_b, sum_a)
}

/// Checks, on what a first pass found and on the written queries, what a
/// contribution must leave as it was.
fn check_unchanged_scanned(
    before: &[u8],
    found_before: &Scan,
    after: &[u8],
    found_after: &Scan,
    batch_size: usize,
    Ghost(mb): Ghost<MPCParametersView>,
    Ghost(ma): Ghost<MPCParametersView>,
) -> (r: Result<(), Phase2Error>)
    requires
        batch_size > 0,
        scan_of(*found_before, before@, mb),
        scan_of(*found_after, after@, ma),
    ensures
        r == spec_check_unchanged(mb, ma),
{
    let count = found_after.contributions.len();
    if count == 0 {
        return Err(Phase2Error::NoContributions);
    }
    let pubkey = &found_after.contributions[count - 1];
    assert(ma.contributions.last() == pubkey@);
    if !pubkey.delta_after.same(&found_after.delta_g1) {
        return Err(Phase2Error::BrokenInvariant(InvariantKind::DeltaG1));
    }
    let g1 = G1Point::generator();
    let g2 = G2Point::generator();
    if !check_same_ratio((&g1, &pubkey.delta_after), (&g2, &found_after.vk.delta_g2)) {
        return Err(Phase2Error::PairingCheckFailed(RatioCheck::G2Delta));
    }
    if !check_prefix(&found_before.contributions, &found_after.contributions) {
        return Err(Phase2Error::BrokenInvariant(InvariantKind::Contributions));
    }
    if !bytes_equal(found_before.cs_hash.as_slice(), found_after.cs_hash.as_slice()) {
        return Err(Phase2Error::BrokenInvariant(InvariantKind::CsHash));
    }
    let h_before = known_length(
        before,
        found_before.h_start,
        Ghost(Group::G1),
        Ghost(mb.params.h_query),
    );
    let h_after = known_length(after, found_after.h_start, Ghost(Group::G1), Ghost(ma.params.h_query));
    let l_before = known_length(
        before,
        found_before.l_start,
        Ghost(Group::G1),
        Ghost(mb.params.l_query),
    );
    let l_after = known_length(after, found_after.l_start, Ghost(Group::G1), Ghost(ma.params.l_query));
    if h_before.0 != h_after.0 || l_before.0 != l_after.0 {
        return Err(Phase2Error::InvalidLength);
    }
    if !found_before.vk.alpha_g1.same(&found_after.vk.alpha_g1) {
        return Err(Phase2Error::BrokenInvariant(InvariantKind::AlphaG1));
    }
    if !found_before.beta_g1.same(&found_after.beta_g1) {
        return Err(Phase2Error::BrokenInvariant(InvariantKind::BetaG1));
    }
    if !found_before.vk.beta_g2.same(&found_after.vk.beta_g2) {
        return Err(Phase2Error::BrokenInvariant(InvariantKind::BetaG2));
    }
    if !found_before.vk.gamma_g2.same(&found_after.vk.gamma_g2) {
        return Err(Phase2Error::BrokenInvariant(InvariantKind::GammaG2));
    }
    match same_points(
        &found_before.vk.gamma_abc_g1,
        &found_after.vk.gamma_abc_g1,
        &InvariantKind::GammaAbcG1,
    ) {
        Ok(()) => {},
        Err(e) => {
            return Err(e);
        },
    }
    match stream_same::<G1Point>(
        before,
        found_before.a_start,
        after,
        found_after.a_start,
        InvariantKind::AlphaG1Query,
        batch_size,
        Ghost(mb.params.a_query),
        Ghost(ma.params.a_query),
    ) {
        Ok(()) => {},
        Err(e) => {
            return Err(e);
        },
    }
    match stream_same::<G1Point>(
        before,
        found_before.b_g1_start,
        after,
        found_after.b_g1_start,
        InvariantKind::BetaG1Query,
        batch_size,
        Ghost(mb.params.b_g1_query),
        Ghost(ma.params.b_g1_query),
    ) {
        Ok(()) => {},
        Err(e) => {
            return Err(e);
        },
    }
    stream_same::<G2Point>(
        before,
        found_before.b_g2_start,
        after,
        found_after.b_g2_start,
        InvariantKind::BetaG2Query,
        batch_size,
        Ghost(mb.params.b_g2_query),
        Ghost(ma.params.b_g2_query),
    )
}

/// Checks the pairing equations for the written H and L queries, merged
/// with the coefficients `rho_h` and `rho_l` a batch at a time.
fn check_queries_scanned(
    before: &[u8],
    found_before: &Scan,
    after: &[u8],
    found_after: &Scan,
    rho_h: &Vec<Scalar>,
    rho_l: &Vec<Scalar>,
    batch_size: usize,
    Ghost(mb): Ghost<MPCParametersView>,
    Ghost(ma): Ghost<MPCParametersView>,
) -> (r: Result<(), Phase2Error>)
    requires
        batch_size > 0,
        scan_of(*found_before, before@, mb),
        scan_of(*found_after, after@, ma),
        mb.params.h_query.len() == ma.params.h_query.len(),
        mb.params.l_query.len() == ma.params.l_query.len(),
        rho_h@.len() == mb.params.h_query.len(),
        rho_l@.len() == mb.params.l_query.len(),
    ensures
        r == spec_check_queries(mb, ma, scalar_views(rho_h@), scalar_views(rho_l@)),
{
    let h = stream_merge(
        before,
        found_before.h_start,
        after,
        found_after.h_start,
        rho_h,
        batch_size,
        Ghost(mb.params.h_query),
        Ghost(ma.params.h_query),
    );
    if !check_same_ratio(
        (&h.0, &h.1),
        (&found_after.vk.delta_g2, &found_before.vk.delta_g2),
    ) {
        return Err(Phase2Error::PairingCheckFailed(RatioCheck::HQuery));
    }
    let l = stream_merge(
        before,
        found_before.l_start,
        after,
        found_after.l_start,
        rho_l,
        batch_size,
        Ghost(mb.params.l_query),
        Ghost(ma.params.l_query),
    );
    if !check_same_ratio(
        (&l.0, &l.1),
        (&found_after.vk.delta_g2, &found_before.vk.delta_g2),
    ) {
        return Err(Phase2Error::PairingCheckFailed(RatioCheck::LQuery));
    }
    Ok(())
}

/// What the verification of written parameters gives: both must read as
/// parameters, the coefficients must be as many as the elements of the H
/// and L queries, and the result is then that of the verification of the
/// parameters read.
pub open spec fn spec_verify_written(
    before: Seq<u8>,
    after: Seq<u8>,
    rho_h: Seq<Seq<u8>>,
    rho_l: Seq<Seq<u8>>,
) -> Result<Seq<Seq<u8>>, Phase2Error> {
    match spec_read(before) {
        Err(e) => Err(e),
        Ok(mb) => match spec_read(after) {
            Err(e) => Err(e),
            Ok(ma) => match spec_check_unchanged(mb, ma) {
                Err(e) => Err(e),
                Ok(()) => if rho_h.len() != mb.params.h_query.len() || rho_l.len()
                    != mb.params.l_query.len() {
                    Err(Phase2Error::InvalidLength)
                } else {
                    spec_verify(mb, ma, rho_h, rho_l)
                },
            },
        },
    }
}

/// Verifies the parameters written in `after` against those written in
/// `before`, merging the H and L queries with the coefficients `rho_h` and
/// `rho_l`. The queries are read `batch_size` elements at a time. Gives the
/// digests of all contributions of `after`, oldest first.
///
/// Fails as reading `before` or else `after` fails; then as
/// `MPCParameters::verify_with` does for what was read, and with
/// `InvalidLength` if the coefficients are not as many as the elements.
pub fn verify_with(
    before: &[u8],
    after: &[u8],
    rho_h: &Vec<Scalar>,
    rho_l: &Vec<Scalar>,
    batch_size: usize,
) -> (r: Result<Vec<[u8; 64]>, Phase2Error>)
    requires
        batch_size > 0,
    ensures
        result_view(r) == spec_verify_written(
            before@,
            after@,
            scalar_views(rho_h@),
            scalar_views(rho_l@),
        ),
{
    let (found_before, mb) = match scan(before, batch_size) {
        Ok(found) => found,
        Err(e) => {
            return Err(e);
        },
    };
    let (found_after, ma) = match scan(after, batch_size) {
        Ok(found) => found,
        Err(e) => {
            return Err(e);
        },
    };
    match check_unchanged_scanned(before, &found_before, after, &found_after, batch_size, mb, ma) {
        Ok(()) => {},
        Err(e) => {
            return Err(e);
        },
    }
    let h_count = known_length(
        before,
        found_before.h_start,
        Ghost(Group::G1),
        Ghost(mb@.params.h_query),
    );
    let l_count = known_length(
        before,
        found_before.l_start,
        Ghost(Group::G1),
        Ghost(mb@.params.l_query),
    );
    if rho_h.len() as u64 != h_count.0 || rho_l.len() as u64 != l_count.0 {
        return Err(Phase2Error::InvalidLength);
    }
    match check_queries_scanned(
        before,
        &found_before,
        after,
        &found_after,
        rho_h,
        rho_l,
        batch_size,
        mb,
        ma,
    ) {
        Ok(()) => {},
        Err(e) => {
            return Err(e);
        },
    }
    verify_transcript(found_before.cs_hash, found_after.contributions.as_slice())
}

/// Verifies the parameters written in `after` against those written in
/// `before`. The queries are read `batch_size` elements at a time. Gives
/// the digests of all contributions of `after`, oldest first.
///
/// Fails as reading `before` or else `after` fails. After that the result
/// is the one that `MPCParameters::verify` gives for what was read.
pub fn verify(before: &[u8], after: &[u8], batch_size: usize) -> (r: Result<Vec<[u8; 64]>, Phase2Error>)
    requires
        batch_size > 0,
    ensures
        match spec_read(before@) {
            Err(e) => result_view(r) == Err::<Seq<Seq<u8>>, Phase2Error>(e),
            Ok(mb) => match spec_read(after@) {
                Err(e) => result_view(r) == Err::<Seq<Seq<u8>>, Phase2Error>(e),
                Ok(ma) => match spec_check_unchanged(mb, ma) {
                    Err(e) => result_view(r) == Err::<Seq<Seq<u8>>, Phase2Error>(e),
                    Ok(()) => {
                        ||| {
                            &&& result_view(r) == Err::<Seq<Seq<u8>>, Phase2Error>(
                                Phase2Error::ZeroScalar,
                            )
                            &&& mb.params.h_query.len() + mb.params.l_query.len() > 0
                        }
                        ||| exists|rho_h: Seq<Seq<u8>>, rho_l: Seq<Seq<u8>>|
                            {
                                &&& coefficients_valid(rho_h, mb.params.h_query.len())
                                &&& coefficients_valid(rho_l, mb.params.l_query.len())
                                &&& result_view(r) == #[trigger] spec_verify(mb, ma, rho_h, rho_l)
                            }
                    },
                },
            },
        },
        result_view(r) == Err::<Seq<Seq<u8>>, Phase2Error>(Phase2Error::ZeroScalar) ==> {
            &&& spec_read(before@) is Ok
            &&& spec_read(before@)->Ok_0.params.h_query.len() + spec_read(
                before@,
            )->Ok_0.params.l_query.len() > 0
        },
{
    proof {
        lemma_read_error(before@);
        lemma_read_error(after@);
    }
    let (found_before, mb) = match scan(before, batch_size) {
        Ok(found) => found,
        Err(e) => {
            return Err(e);
        },
    };
    let (found_after, ma) = match scan(after, batch_size) {
        Ok(found) => found,
        Err(e) => {
            return Err(e);
        },
    };
    proof {
        lemma_verify_gives_no_zero_scalar(mb@, ma@, Seq::empty(), Seq::empty());
    }
    match check_unchanged_scanned(before, &found_before, after, &found_after, batch_size, mb, ma) {
        Ok(()) => {},
        Err(e) => {
            return Err(e);
        },
    }
    let h_count = known_length(
        before,
        found_before.h_start,
        Ghost(Group::G1),
        Ghost(mb@.params.h_query),
    );
    let l_count = known_length(
        before,
        found_before.l_start,
        Ghost(Group::G1),
        Ghost(mb@.params.l_query),
    );
    let mut rng = rand::thread_rng();
    let rho_h = match sample_coefficients(&mut rng, h_count.0 as usize) {
        Ok(rho) => rho,
        Err(e) => {
            return Err(e);
        },
    };
    let rho_l = match sample_coefficients(&mut rng, l_count.0 as usize) {
        Ok(rho) => rho,
        Err(e) => {
            return Err(e);
        },
    };
    match check_queries_scanned(
        before,
        &found_before,
        after,
        &found_after,
        &rho_h,
        &rho_l,
        batch_size,
        mb,
        ma,
    ) {
        Ok(()) => {},
        Err(e) => {
            assert(result_view(Err::<Vec<[u8; 64]>, Phase2Error>(e)) == spec_verify(
                mb@,
                ma@,
                scalar_views(rho_h@),
                scalar_views(rho_l@),
            ));
            return Err(e);
        },
    }
    let r = verify_transcript(found_before.cs_hash, found_after.contributions.as_slice());
    proof {
        lemma_verify_gives_no_zero_scalar(mb@, ma@, scalar_views(rho_h@), scalar_views(rho_l@));
        assert(result_view(r) == spec_verify(mb@, ma@, scalar_views(rho_h@), scalar_views(rho_l@)));
    }
    r
}

} // verus!
