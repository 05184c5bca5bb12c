//! Reading and writing group elements and sequences of them.
//!
//! A sequence is written as its length, a little-endian `u64`, followed by
//! its elements. The functions that read work on a byte string and a
//! position in it; what they compute is stated by the `parse_` functions,
//! which take the input from that position on and give back what follows
//! the part they read.

use crate::bytes::append_bytes;
use crate::curve::{has_infinity_flag, Group};
use crate::error::Phase2Error;
use crate::point::{
    point_decode, point_encode, point_is_canonical, point_round_trips, point_size, CurvePoint,
};
use crate::UseCompression;
use vstd::bytes::{
    lemma_auto_spec_u64_to_from_le_bytes, spec_u64_from_le_bytes, spec_u64_to_le_bytes,
    u64_from_le_bytes, u64_to_le_bytes,
};
use vstd::prelude::*;

verus! {

/// How much is demanded of an element that is read.
#[derive(Clone, Copy, Debug, PartialEq, Eq, Structural)]
pub enum CheckForCorrectness {
    /// The element is in the group and is not the point at infinity.
    Full,
    /// The element is in the group.
    OnlyInGroup,
    /// Nothing beyond decoding, which in itself yields elements of the group
    /// only.
    No,
}

/// Whether an element is acceptable under `check`.
pub open spec fn check_accepts(check: CheckForCorrectness, point: Seq<u8>) -> bool {
    check is Full ==> !has_infinity_flag(point)
}

/// The encodings of a sequence of elements.
pub open spec fn encodings<G: CurvePoint>(points: Seq<G>) -> Seq<Seq<u8>> {
    Seq::new(points.len(), |i: int| points[i].encoding())
}

/// Every element of `points` is a canonical encoding of `group`.
pub open spec fn all_canonical(group: Group, points: Seq<Seq<u8>>) -> bool {
    forall|i: int| 0 <= i < points.len() ==> point_is_canonical(group, #[trigger] points[i])
}

/// Every element of `points` reads back from what is written for it.
pub open spec fn all_round_trip(group: Group, compressed: UseCompression, points: Seq<Seq<u8>>) -> bool {
    forall|i: int|
        0 <= i < points.len() ==> point_round_trips(group, compressed, #[trigger] points[i])
}

/// Every element of `points` is acceptable under `check`.
pub open spec fn all_accepted(check: CheckForCorrectness, points: Seq<Seq<u8>>) -> bool {
    forall|i: int| 0 <= i < points.len() ==> check_accepts(check, #[trigger] points[i])
}

/// The elements of `points` written one after the other.
pub open spec fn encode_points(group: Group, compressed: UseCompression, points: Seq<Seq<u8>>) -> Seq<
    u8,
>
    decreases points.len(),
{
    if points.len() == 0 {
        Seq::empty()
    } else {
        point_encode(group, compressed, points[0]) + encode_points(
            group,
            compressed,
            points.skip(1),
        )
    }
}

/// The length of `points` followed by its elements.
pub open spec fn encode_point_vec(group: Group, compressed: UseCompression, points: Seq<Seq<u8>>) -> Seq<
    u8,
> {
    spec_u64_to_le_bytes(points.len() as u64) + encode_points(group, compressed, points)
}

/// Reads one element from the front of `input`.
pub open spec fn parse_point(
    group: Group,
    compressed: UseCompression,
    check: CheckForCorrectness,
    input: Seq<u8>,
) -> Result<(Seq<u8>, Seq<u8>), Phase2Error> {
    let size = point_size(group, compressed) as int;
    if input.len() < size {
        Err(Phase2Error::Io)
    } else {
        match point_decode(group, compressed, input.subrange(0, size)) {
            None => Err(Phase2Error::Deserialization),
            Some(point) => if check_accepts(check, point) {
                Ok((point, input.skip(size)))
            } else {
                Err(Phase2Error::Deserialization)
            },
        }
    }
}

/// Reads `count` elements from the front of `input`.
pub open spec fn parse_points(
    group: Group,
    compressed: UseCompression,
    check: CheckForCorrectness,
    input: Seq<u8>,
    count: nat,
) -> Result<(Seq<Seq<u8>>, Seq<u8>), Phase2Error>
    decreases count,
{
    if count == 0 {
        Ok((Seq::empty(), input))
    } else {
        match parse_point(group, compressed, check, input) {
            Err(e) => Err(e),
            Ok((point, rest)) => prepend(
                seq![point],
                parse_points(group, compressed, check, rest, (count - 1) as nat),
            ),
        }
    }
}

/// Puts `head` in front of the elements of a successful result.
pub open spec fn prepend(
    head: Seq<Seq<u8>>,
    result: Result<(Seq<Seq<u8>>, Seq<u8>), Phase2Error>,
) -> Result<(Seq<Seq<u8>>, Seq<u8>), Phase2Error> {
    match result {
        Ok((points, rest)) => Ok((head + points, rest)),
        Err(e) => Err(e),
    }
}

/// Reads a length and that many elements from the front of `input`.
pub open spec fn parse_point_vec(
    group: Group,
    compressed: UseCompression,
    check: CheckForCorrectness,
    input: Seq<u8>,
) -> Result<(Seq<Seq<u8>>, Seq<u8>), Phase2Error> {
    if input.len() < 8 {
        Err(Phase2Error::Io)
    } else {
        parse_points(
            group,
            compressed,
            check,
            input.skip(8),
            spec_u64_from_le_bytes(input.subrange(0, 8)) as nat,
        )
    }
}

/// Writing one more element appends its bytes.
pub proof fn lemma_encode_points_push(
    group: Group,
    compressed: UseCompression,
    points: Seq<Seq<u8>>,
    point: Seq<u8>,
)
    ensures
        encode_points(group, compressed, points.push(point)) == encode_points(
            group,
            compressed,
            points,
        ) + point_encode(group, compressed, point),
    decreases points.len(),
{
    if points.len() == 0 {
        assert(points.push(point).skip(1) =~= Seq::<Seq<u8>>::empty());
        assert(encode_points(group, compressed, points.push(point).skip(1)) =~= Seq::<u8>::empty());
        assert(encode_points(group, compressed, points) =~= Seq::<u8>::empty());
        assert(encode_points(group, compressed, points.push(point)) =~= point_encode(
            group,
            compressed,
            point,
        ));
    } else {
        lemma_encode_points_push(group, compressed, points.skip(1), point);
        assert(points.push(point).skip(1) =~= points.skip(1).push(point));
        assert(encode_points(group, compressed, points.push(point)) =~= encode_points(
            group,
            compressed,
            points,
        ) + point_encode(group, compressed, point));
    }
}

/// One element that was written reads back, whatever follows it.
pub proof fn lemma_parse_point_round_trip(
    group: Group,
    compressed: UseCompression,
    check: CheckForCorrectness,
    point: Seq<u8>,
    rest: Seq<u8>,
)
    requires
        point_round_trips(group, compressed, point),
        check_accepts(check, point),
    ensures
        parse_point(group, compressed, check, point_encode(group, compressed, point) + rest) == Ok::<
            (Seq<u8>, Seq<u8>),
            Phase2Error,
        >((point, rest)),
{
    let written = point_encode(group, compressed, point);
    let input = written + rest;
    let size = point_size(group, compressed) as int;
    assert(input.subrange(0, size) =~= written);
    assert(input.skip(size) =~= rest);
}

/// Elements that were written read back, whatever follows them.
pub proof fn lemma_parse_points_round_trip(
    group: Group,
    compressed: UseCompression,
    check: CheckForCorrectness,
    points: Seq<Seq<u8>>,
    rest: Seq<u8>,
)
    requires
        all_round_trip(group, compressed, points),
        all_accepted(check, points),
    ensures
        parse_points(
            group,
            compressed,
            check,
            encode_points(group, compressed, points) + rest,
            points.len(),
        ) == Ok::<(Seq<Seq<u8>>, Seq<u8>), Phase2Error>((points, rest)),
    decreases points.len(),
{
    if points.len() == 0 {
        assert(encode_points(group, compressed, points) + rest =~= rest);
        assert(points =~= Seq::<Seq<u8>>::empty());
    } else {
        let tail = points.skip(1);
        let tail_bytes = encode_points(group, compressed, tail) + rest;
        assert forall|i: int| 0 <= i < tail.len() implies point_round_trips(
            group,
            compressed,
            #[trigger] tail[i],
        ) && check_accepts(check, tail[i]) by {
            assert(tail[i] == points[i + 1]);
        }
        assert(point_round_trips(group, compressed, points[0]));
        assert(check_accepts(check, points[0]));
        lemma_parse_point_round_trip(group, compressed, check, points[0], tail_bytes);
        lemma_parse_points_round_trip(group, compressed, check, tail, rest);
        assert(encode_points(group, compressed, points) + rest =~= point_encode(
            group,
            compressed,
            points[0],
        ) + tail_bytes);
        assert(seq![points[0]] + tail =~= points);
    }
}

/// A sequence that was written with its length reads back, whatever follows
/// it.
pub proof fn lemma_parse_point_vec_round_trip(
    group: Group,
    compressed: UseCompression,
    check: CheckForCorrectness,
    points: Seq<Seq<u8>>,
    rest: Seq<u8>,
)
    requires
        points.len() <= u64::MAX,
        all_round_trip(group, compressed, points),
        all_accepted(check, points),
    ensures
        parse_point_vec(
            group,
            compressed,
            check,
            encode_point_vec(group, compressed, points) + rest,
        ) == Ok::<(Seq<Seq<u8>>, Seq<u8>), Phase2Error>((points, rest)),
{
    lemma_auto_spec_u64_to_from_le_bytes();
    let prefix = spec_u64_to_le_bytes(points.len() as u64);
    let input = encode_point_vec(group, compressed, points) + rest;
    assert(input.subrange(0, 8) =~= prefix);
    assert(input.skip(8) =~= encode_points(group, compressed, points) + rest);
    lemma_parse_points_round_trip(group, compressed, check, points, rest);
}

/// Putting elements in front one after the other is putting them in front
/// together.
pub proof fn lemma_prepend_prepend(
    first: Seq<Seq<u8>>,
    second: Seq<Seq<u8>>,
    result: Result<(Seq<Seq<u8>>, Seq<u8>), Phase2Error>,
)
    ensures
        prepend(first, prepend(second, result)) == prepend(first + second, result),
{
    match result {
        Ok((points, rest)) => {
            assert(first + (second + points) =~= (first + second) + points);
        },
        Err(_) => {},
    }
}

/// Appends to `out` what is written for `point`.
pub fn write_point<G: CurvePoint>(out: &mut Vec<u8>, point: &G, compressed: UseCompression)
    ensures
        final(out)@ == old(out)@ + point_encode(G::group(), compressed, point.encoding()),
        point_round_trips(G::group(), compressed, point.encoding()),
        point_is_canonical(G::group(), point.encoding()),
{
    let bytes = point.encode(compressed);
    append_bytes(out, bytes.as_slice());
}

/// Appends to `out` the length of `points` and what is written for each of
/// them.
pub fn write_point_vec<G: CurvePoint>(out: &mut Vec<u8>, points: &Vec<G>, compressed: UseCompression)
    ensures
        final(out)@ == old(out)@ + encode_point_vec(G::group(), compressed, encodings(points@)),
        all_round_trip(G::group(), compressed, encodings(points@)),
        all_canonical(G::group(), encodings(points@)),
        points@.len() <= u64::MAX,
{
    let count = points.len();
    let prefix = u64_to_le_bytes(count as u64);
    append_bytes(out, prefix.as_slice());
    let ghost all = encodings(points@);
    let mut i: usize = 0;
    assert(all.take(0) =~= Seq::<Seq<u8>>::empty());
    while i < count
        invariant
            i <= count,
            count == points@.len(),
            all == encodings(points@),
            out@ == old(out)@ + spec_u64_to_le_bytes(count as u64) + encode_points(
                G::group(),
                compressed,
                all.take(i as int),
            ),
            forall|j: int|
                0 <= j < i ==> point_round_trips(G::group(), compressed, #[trigger] all[j])
                    && point_is_canonical(G::group(), all[j]),
        decreases count - i,
    {
        let ghost before = out@;
        write_point(out, &points[i], compressed);
        proof {
            lemma_encode_points_push(G::group(), compressed, all.take(i as int), all[i as int]);
            assert(all.take(i + 1) =~= all.take(i as int).push(all[i as int]));
            assert(out@ =~= old(out)@ + spec_u64_to_le_bytes(count as u64) + encode_points(
                G::group(),
                compressed,
                all.take(i + 1),
            ));
        }
        i += 1;
    }
    proof {
        assert(all.take(count as int) =~= all);
        assert(out@ =~= old(out)@ + (spec_u64_to_le_bytes(count as u64) + encode_points(
            G::group(),
            compressed,
            all,
        )));
    }
}

/// Reads one element at `start`. Gives the element and the position behind
/// it.
pub fn read_point<G: CurvePoint>(
    input: &[u8],
    start: usize,
    compressed: UseCompression,
    check: CheckForCorrectness,
) -> (r: Result<(G, usize), Phase2Error>)
    requires
        start <= input@.len(),
    ensures
        match r {
            Ok((point, end)) => start <= end <= input@.len() && parse_point(
                G::group(),
                compressed,
                check,
                input@.skip(start as int),
            ) == Ok::<(Seq<u8>, Seq<u8>), Phase2Error>((point.encoding(), input@.skip(end as int)))
                && point_is_canonical(G::group(), point.encoding()),
            Err(e) => parse_point(G::group(), compressed, check, input@.skip(start as int)) == Err::<
                (Seq<u8>, Seq<u8>),
                Phase2Error,
            >(e),
        },
{
    let size = G::encoded_size(compressed);
    if input.len() - start < size {
        return Err(Phase2Error::Io);
    }
    let end = start + size;
    proof {
        assert(input@.skip(start as int).subrange(0, size as int) =~= input@.subrange(
            start as int,
            end as int,
        ));
        assert(input@.skip(start as int).skip(size as int) =~= input@.skip(end as int));
    }
    match G::decode(&input[start..end], compressed) {
        None => Err(Phase2Error::Deserialization),
        Some(point) => {
            let rejected = match check {
                CheckForCorrectness::Full => point.is_infinity(),
                _ => false,
            };
            if rejected {
                Err(Phase2Error::Deserialization)
            } else {
                Ok((point, end))
            }
        },
    }
}

/// Reads a length and that many elements at `start`. Gives the elements and
/// the position behind them.
pub fn read_point_vec<G: CurvePoint>(
    input: &[u8],
    start: usize,
    compressed: UseCompression,
    check: CheckForCorrectness,
) -> (r: Result<(Vec<G>, usize), Phase2Error>)
    requires
        start <= input@.len(),
    ensures
        match r {
            Ok((points, end)) => start <= end <= input@.len() && parse_point_vec(
                G::group(),
                compressed,
                check,
                input@.skip(start as int),
            ) == Ok::<(Seq<Seq<u8>>, Seq<u8>), Phase2Error>(
                (encodings(points@), input@.skip(end as int)),
            ) && all_canonical(G::group(), encodings(points@)),
            Err(e) => parse_point_vec(G::group(), compressed, check, input@.skip(start as int))
                == Err::<(Seq<Seq<u8>>, Seq<u8>), Phase2Error>(e),
        },
{
    let (count, first) = match read_length(input, start) {
        Ok(found) => found,
        Err(e) => {
            return Err(e);
        },
    };
    read_points::<G>(input, first, count, compressed, check)
}

/// Putting nothing in front changes nothing.
pub proof fn lemma_prepend_empty(result: Result<(Seq<Seq<u8>>, Seq<u8>), Phase2Error>)
    ensures
        prepend(Seq::empty(), result) == result,
{
    match result {
        Ok((points, rest)) => {
            assert(Seq::<Seq<u8>>::empty() + points =~= points);
        },
        Err(_) => {},
    }
}

/// Reads `count` elements at `start`. Gives the elements and the position
/// behind them.
pub fn read_points<G: CurvePoint>(
    input: &[u8],
    start: usize,
    count: u64,
    compressed: UseCompression,
    check: CheckForCorrectness,
) -> (r: Result<(Vec<G>, usize), Phase2Error>)
    requires
        start <= input@.len(),
    ensures
        match r {
            Ok((points, end)) => start <= end <= input@.len() && points@.len() == count
                && parse_points(G::group(), compressed, check, input@.skip(start as int), count as nat)
                == Ok::<(Seq<Seq<u8>>, Seq<u8>), Phase2Error>(
                (encodings(points@), input@.skip(end as int)),
            ) && all_canonical(G::group(), encodings(points@)),
            Err(e) => parse_points(
                G::group(),
                compressed,
                check,
                input@.skip(start as int),
                count as nat,
            ) == Err::<(Seq<Seq<u8>>, Seq<u8>), Phase2Error>(e),
        },
{
    let ghost group = G::group();
    let ghost whole = parse_points(group, compressed, check, input@.skip(start as int), count as nat);
    let mut points: Vec<G> = Vec::new();
    let mut pos = start;
    let mut i: u64 = 0;
    proof {
        assert(encodings(points@) =~= Seq::<Seq<u8>>::empty());
        lemma_prepend_empty(whole);
    }
    while i < count
        invariant
            start <= pos <= input@.len(),
            i <= count,
            group == G::group(),
            points@.len() == i,
            all_canonical(group, encodings(points@)),
            whole == parse_points(group, compressed, check, input@.skip(start as int), count as nat),
            whole == prepend(
                encodings(points@),
                parse_points(group, compressed, check, input@.skip(pos as int), (count - i) as nat),
            ),
        decreases count - i,
    {
        let ghost done = encodings(points@);
        match read_point::<G>(input, pos, compressed, check) {
            Err(e) => {
                proof {
                    assert(parse_points(
                        group,
                        compressed,
                        check,
                        input@.skip(pos as int),
                        (count - i) as nat,
                    ) == Err::<(Seq<Seq<u8>>, Seq<u8>), Phase2Error>(e));
                }
                return Err(e);
            },
            Ok((point, end)) => {
                proof {
                    let later = parse_points(
                        group,
                        compressed,
                        check,
                        input@.skip(end as int),
                        (count - i - 1) as nat,
                    );
                    lemma_prepend_prepend(done, seq![point.encoding()], later);
                    assert(encodings(points@.push(point)) =~= done + seq![point.encoding()]);
                }
                points.push(point);
                pos = end;
                i += 1;
            },
        }
    }
    proof {
        assert(encodings(points@) + Seq::<Seq<u8>>::empty() =~= encodings(points@));
    }
    Ok((points, pos))
}

/// Reads the length of a sequence at `start`. Gives the length and the
/// position behind it.
pub fn read_length(input: &[u8], start: usize) -> (r: Result<(u64, usize), Phase2Error>)
    requires
        start <= input@.len(),
    ensures
        match r {
            Ok((count, end)) => input@.len() - start >= 8 && end == start + 8 && count
                == spec_u64_from_le_bytes(input@.skip(start as int).subrange(0, 8))
                && input@.skip(start as int).skip(8) == input@.skip(end as int),
            Err(e) => e == Phase2Error::Io && input@.len() - start < 8,
        },
{
    if input.len() - start < 8 {
        return Err(Phase2Error::Io);
    }
    let end = start + 8;
    let count = u64_from_le_bytes(&input[start..end]);
    proof {
        assert(input@.skip(start as int).subrange(0, 8) =~= input@.subrange(start as int, end as int));
        assert(input@.skip(start as int).skip(8) =~= input@.skip(end as int));
    }
    Ok((count, end))
}

/// Reading `first + second` elements is reading `first` elements and then
/// `second` more.
pub proof fn lemma_parse_points_split(
    group: Group,
    compressed: UseCompression,
    check: CheckForCorrectness,
    input: Seq<u8>,
    first: nat,
    second: nat,
)
    ensures
        parse_points(group, compressed, check, input, first + second) == match parse_points(
            group,
            compressed,
            check,
            input,
            first,
        ) {
            Ok((points, rest)) => prepend(
                points,
                parse_points(group, compressed, check, rest, second),
            ),
            Err(e) => Err(e),
        },
    decreases first,
{
    if first == 0 {
        lemma_prepend_empty(parse_points(group, compressed, check, input, second));
    } else {
        match parse_point(group, compressed, check, input) {
            Err(e) => {},
            Ok((point, rest)) => {
                lemma_parse_points_split(
                    group,
                    compressed,
                    check,
                    rest,
                    (first - 1) as nat,
                    second,
                );
                match parse_points(group, compressed, check, rest, (first - 1) as nat) {
                    Err(e) => {},
                    Ok((points, rest2)) => {
                        lemma_prepend_prepend(
                            seq![point],
                            points,
                            parse_points(group, compressed, check, rest2, second),
                        );
                    },
                }
            },
        }
    }
}

/// What is written for two sequences one after the other is what is written
/// for the one followed by what is written for the other.
pub proof fn lemma_encode_points_concat(
    group: Group,
    compressed: UseCompression,
    first: Seq<Seq<u8>>,
    second: Seq<Seq<u8>>,
)
    ensures
        encode_points(group, compressed, first + second) == encode_points(group, compressed, first)
            + encode_points(group, compressed, second),
    decreases second.len(),
{
    if second.len() == 0 {
        assert(first + second =~= first);
        assert(encode_points(group, compressed, first) + encode_points(group, compressed, second)
            =~= encode_points(group, compressed, first));
    } else {
        let shorter = second.drop_last();
        lemma_encode_points_concat(group, compressed, first, shorter);
        lemma_encode_points_push(group, compressed, first + shorter, second.last());
        lemma_encode_points_push(group, compressed, shorter, second.last());
        assert((first + shorter).push(second.last()) =~= first + second);
        assert(shorter.push(second.last()) =~= second);
        assert(encode_points(group, compressed, first + second) =~= encode_points(
            group,
            compressed,
            first,
        ) + encode_points(group, compressed, second));
    }
}

/// A successful reading that was put together from a first part and the
/// reading of the rest: the first part is the beginning of what was read,
/// and the rest was read successfully.
pub proof fn lemma_prepend_ok(
    head: Seq<Seq<u8>>,
    result: Result<(Seq<Seq<u8>>, Seq<u8>), Phase2Error>,
    points: Seq<Seq<u8>>,
    rest: Seq<u8>,
)
    requires
        prepend(head, result) == Ok::<(Seq<Seq<u8>>, Seq<u8>), Phase2Error>((points, rest)),
    ensures
        head.len() <= points.len(),
        head == points.take(head.len() as int),
        result == Ok::<(Seq<Seq<u8>>, Seq<u8>), Phase2Error>((points.skip(head.len() as int), rest)),
{
    match result {
        Ok((tail, end)) => {
            assert(head + tail == points);
            assert(points.take(head.len() as int) =~= head);
            assert(points.skip(head.len() as int) =~= tail);
        },
        Err(_) => {},
    }
}

/// A successful reading of `count` elements gives `count` elements.
pub proof fn lemma_parse_points_len(
    group: Group,
    compressed: UseCompression,
    check: CheckForCorrectness,
    input: Seq<u8>,
    count: nat,
)
    requires
        parse_points(group, compressed, check, input, count) is Ok,
    ensures
        found_points(parse_points(group, compressed, check, input, count)).len() == count,
    decreases count,
{
    if count > 0 {
        let first = parse_point(group, compressed, check, input);
        lemma_parse_points_len(group, compressed, check, first->Ok_0.1, (count - 1) as nat);
    }
}

/// The elements of a successful reading.
pub open spec fn found_points(result: Result<(Seq<Seq<u8>>, Seq<u8>), Phase2Error>) -> Seq<Seq<u8>> {
    result->Ok_0.0
}

/// A successful reading of `count` elements takes as many bytes as `count`
/// elements have, so there are no more elements than bytes.
pub proof fn lemma_parse_points_consumes(
    group: Group,
    compressed: UseCompression,
    check: CheckForCorrectness,
    input: Seq<u8>,
    count: nat,
)
    requires
        parse_points(group, compressed, check, input, count) is Ok,
    ensures
        input.len() == parse_points(group, compressed, check, input, count)->Ok_0.1.len() + count
            * point_size(group, compressed),
        count <= input.len(),
    decreases count,
{
    let size = point_size(group, compressed);
    if count > 0 {
        let first = parse_point(group, compressed, check, input);
        lemma_parse_points_consumes(group, compressed, check, first->Ok_0.1, (count - 1) as nat);
        assert(count * size == (count - 1) * size + size) by (nonlinear_arith);
        assert((count - 1) * size >= count - 1) by (nonlinear_arith)
            requires
                size >= 1,
                count >= 1,
        ;
    } else {
        assert(0 * size == 0) by (nonlinear_arith);
    }
}

/// Reading elements fails only because the input ends too early or because
/// some bytes are no element.
pub open spec fn is_read_error(e: Phase2Error) -> bool {
    e is Io || e is Deserialization
}

/// The failure of reading `count` elements is a failure of reading.
pub proof fn lemma_parse_points_error(
    group: Group,
    compressed: UseCompression,
    check: CheckForCorrectness,
    input: Seq<u8>,
    count: nat,
)
    ensures
        parse_points(group, compressed, check, input, count) is Err ==> is_read_error(
            parse_points(group, compressed, check, input, count)->Err_0,
        ),
    decreases count,
{
    if count > 0 {
        match parse_point(group, compressed, check, input) {
            Ok((_, rest)) => {
                lemma_parse_points_error(group, compressed, check, rest, (count - 1) as nat);
            },
            Err(_) => {},
        }
    }
}

/// The failure of reading a sequence is a failure of reading.
pub proof fn lemma_parse_point_vec_error(
    group: Group,
    compressed: UseCompression,
    check: CheckForCorrectness,
    input: Seq<u8>,
)
    ensures
        parse_point_vec(group, compressed, check, input) is Err ==> is_read_error(
            parse_point_vec(group, compressed, check, input)->Err_0,
        ),
{
    if input.len() >= 8 {
        lemma_parse_points_error(
            group,
            compressed,
            check,
            input.skip(8),
            spec_u64_from_le_bytes(input.subrange(0, 8)) as nat,
        );
    }
}

} // verus!
