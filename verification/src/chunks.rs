//! Splitting the H and L queries into chunks that can be contributed to one
//! by one, and putting the chunks together again.

use crate::codec::{encodings, CheckForCorrectness};
use crate::curve::{G1Point, G2Point};
use crate::error::Phase2Error;
use crate::key::{clone_points, ProvingKey, ProvingKeyView};
use crate::keypair::clone_keys;
use crate::parameters::{spec_new, MPCParameters, MPCParametersView};
use crate::point::CurvePoint;
use crate::phase1::parse_groth16_params;
use crate::polynomial::{Groth16Params, KeypairAssembly};
use crate::qap::{circuit_to_qap, spec_circuit_to_qap, Constraints};
use crate::UseCompression;
use vstd::prelude::*;

verus! {

/// The views of a sequence of parameters.
pub open spec fn mpc_views(mpcs: Seq<MPCParameters>) -> Seq<MPCParametersView> {
    Seq::new(mpcs.len(), |i: int| mpcs[i]@)
}

/// `a` divided by `b`, rounded up.
pub open spec fn ceil_div(a: nat, b: nat) -> nat
    recommends
        b > 0,
{
    if a % b == 0 {
        a / b
    } else {
        a / b + 1
    }
}

/// The larger of two numbers.
pub open spec fn larger(a: nat, b: nat) -> nat {
    if a >= b {
        a
    } else {
        b
    }
}

/// The number of chunks that parameters are split into: enough for the
/// longer of the two queries.
pub open spec fn spec_num_chunks(full: MPCParametersView, chunk_size: nat) -> nat {
    ceil_div(larger(full.params.h_query.len(), full.params.l_query.len()), chunk_size)
}

/// The part of `points` that falls into chunk `i`: the elements from
/// `i * chunk_size` up to `(i + 1) * chunk_size`, as far as there are any.
pub open spec fn spec_chunk_slice(points: Seq<Seq<u8>>, chunk_size: nat, i: nat) -> Seq<Seq<u8>> {
    let start = i * chunk_size;
    let end = if (i + 1) * chunk_size < points.len() {
        (i + 1) * chunk_size
    } else {
        points.len()
    };
    if start < points.len() {
        points.subrange(start as int, end as int)
    } else {
        Seq::empty()
    }
}

/// Chunk `i` of `full`: the same verifying key, beta, delta, circuit hash
/// and contributions, no A or B query, and its parts of the H and L queries.
pub open spec fn spec_chunk(full: MPCParametersView, chunk_size: nat, i: nat) -> MPCParametersView {
    MPCParametersView {
        params: ProvingKeyView {
            vk: full.params.vk,
            beta_g1: full.params.beta_g1,
            delta_g1: full.params.delta_g1,
            a_query: Seq::empty(),
            b_g1_query: Seq::empty(),
            b_g2_query: Seq::empty(),
            h_query: spec_chunk_slice(full.params.h_query, chunk_size, i),
            l_query: spec_chunk_slice(full.params.l_query, chunk_size, i),
        },
        cs_hash: full.cs_hash,
        contributions: full.contributions,
    }
}

/// The chunks of `full`, in their order.
pub open spec fn spec_chunks(full: MPCParametersView, chunk_size: nat) -> Seq<MPCParametersView> {
    Seq::new(spec_num_chunks(full, chunk_size), |i: int| spec_chunk(full, chunk_size, i as nat))
}

/// The part of a key that all chunks share: everything but the H and L
/// queries.
pub open spec fn spec_query_parameters(key: ProvingKeyView) -> ProvingKeyView {
    ProvingKeyView { h_query: Seq::empty(), l_query: Seq::empty(), ..key }
}

/// The H queries of `mpcs` one after the other.
pub open spec fn concat_h(mpcs: Seq<MPCParametersView>) -> Seq<Seq<u8>>
    decreases mpcs.len(),
{
    if mpcs.len() == 0 {
        Seq::empty()
    } else {
        concat_h(mpcs.drop_last()) + mpcs.last().params.h_query
    }
}

/// The L queries of `mpcs` one after the other.
pub open spec fn concat_l(mpcs: Seq<MPCParametersView>) -> Seq<Seq<u8>>
    decreases mpcs.len(),
{
    if mpcs.len() == 0 {
        Seq::empty()
    } else {
        concat_l(mpcs.drop_last()) + mpcs.last().params.l_query
    }
}

/// The parameters that chunks and the shared part give together: the A and
/// B queries of the shared part, the H and L queries of all chunks in their
/// order, and everything else from the first chunk.
pub open spec fn spec_combine(queries: ProvingKeyView, mpcs: Seq<MPCParametersView>) -> MPCParametersView
    recommends
        mpcs.len() > 0,
{
    MPCParametersView {
        params: ProvingKeyView {
            vk: mpcs[0].params.vk,
            beta_g1: mpcs[0].params.beta_g1,
            delta_g1: mpcs[0].params.delta_g1,
            a_query: queries.a_query,
            b_g1_query: queries.b_g1_query,
            b_g2_query: queries.b_g2_query,
            h_query: concat_h(mpcs),
            l_query: concat_l(mpcs),
        },
        cs_hash: mpcs[0].cs_hash,
        contributions: mpcs[0].contributions,
    }
}

/// The first `count` elements of `points`, or all of them if there are
/// fewer.
pub open spec fn spec_prefix(points: Seq<Seq<u8>>, count: nat) -> Seq<Seq<u8>> {
    if count < points.len() {
        points.take(count as int)
    } else {
        points
    }
}

/// The first `k` chunks hold, one after the other, the first
/// `k * chunk_size` elements of each query.
pub proof fn lemma_concat_chunks(full: MPCParametersView, chunk_size: nat, k: nat)
    requires
        chunk_size > 0,
        k <= spec_num_chunks(full, chunk_size),
    ensures
        concat_h(spec_chunks(full, chunk_size).take(k as int)) == spec_prefix(
            full.params.h_query,
            k * chunk_size,
        ),
        concat_l(spec_chunks(full, chunk_size).take(k as int)) == spec_prefix(
            full.params.l_query,
            k * chunk_size,
        ),
    decreases k,
{
    let chunks = spec_chunks(full, chunk_size);
    let h = full.params.h_query;
    let l = full.params.l_query;
    if k == 0 {
        assert(chunks.take(0) =~= Seq::<MPCParametersView>::empty());
        assert(0 * chunk_size == 0) by (nonlinear_arith);
        assert(spec_prefix(h, 0) =~= Seq::<Seq<u8>>::empty());
        assert(spec_prefix(l, 0) =~= Seq::<Seq<u8>>::empty());
    } else {
        let j = (k - 1) as nat;
        lemma_concat_chunks(full, chunk_size, j);
        let first = chunks.take(k as int);
        assert(first.drop_last() =~= chunks.take(j as int));
        assert(first.last() == spec_chunk(full, chunk_size, j));
        assert(k * chunk_size == j * chunk_size + chunk_size) by (nonlinear_arith)
            requires
                k == j + 1,
        ;
        assert((j + 1) * chunk_size == k * chunk_size) by (nonlinear_arith)
            requires
                k == j + 1,
        ;
        assert(spec_prefix(h, j * chunk_size) + spec_chunk_slice(h, chunk_size, j) =~= spec_prefix(
            h,
            k * chunk_size,
        ));
        assert(spec_prefix(l, j * chunk_size) + spec_chunk_slice(l, chunk_size, j) =~= spec_prefix(
            l,
            k * chunk_size,
        ));
    }
}

/// All chunks together reach the end of both queries.
pub proof fn lemma_chunks_cover(len: nat, chunk_size: nat)
    requires
        chunk_size > 0,
    ensures
        ceil_div(len, chunk_size) * chunk_size >= len,
        len > 0 ==> (ceil_div(len, chunk_size) - 1) * chunk_size < len,
        len > 0 ==> ceil_div(len, chunk_size) > 0,
{
    let q = len / chunk_size;
    let r = len % chunk_size;
    assert(len == q * chunk_size + r && 0 <= r < chunk_size) by (nonlinear_arith)
        requires
            q == len / chunk_size,
            r == len % chunk_size,
            chunk_size > 0,
    ;
    assert((q + 1) * chunk_size == q * chunk_size + chunk_size) by (nonlinear_arith);
    assert((q - 1) * chunk_size == q * chunk_size - chunk_size) by (nonlinear_arith);
    if len > 0 && r == 0 {
        assert(q > 0) by (nonlinear_arith)
            requires
                len == q * chunk_size,
                len > 0,
                q >= 0,
        ;
    }
}

/// Combining is the inverse of chunking: the chunks of parameters and the
/// part that they share combine to the parameters they were made from. This
/// holds wherever there is a chunk at all, that is, where the H and L
/// queries are not both empty.
pub proof fn lemma_combine_inverts_chunking(full: MPCParametersView, chunk_size: nat)
    requires
        chunk_size > 0,
        spec_num_chunks(full, chunk_size) > 0,
    ensures
        spec_combine(spec_query_parameters(full.params), spec_chunks(full, chunk_size)) == full,
{
    let chunks = spec_chunks(full, chunk_size);
    let count = spec_num_chunks(full, chunk_size);
    let h = full.params.h_query;
    let l = full.params.l_query;
    let longest = larger(h.len(), l.len());
    lemma_concat_chunks(full, chunk_size, count);
    lemma_chunks_cover(longest, chunk_size);
    assert(chunks.take(count as int) =~= chunks);
    assert(spec_prefix(h, count * chunk_size) == h);
    assert(spec_prefix(l, count * chunk_size) == l);
    assert(chunks[0] == spec_chunk(full, chunk_size, 0));
}

/// A copy of the elements of `points` from `start` up to `end`.
pub fn clone_range<G: CurvePoint>(points: &Vec<G>, start: usize, end: usize) -> (copy: Vec<G>)
    requires
        start <= end <= points@.len(),
    ensures
        encodings(copy@) == encodings(points@).subrange(start as int, end as int),
{
    let mut copy: Vec<G> = Vec::new();
    let mut i: usize = start;
    while i < end
        invariant
            start <= i <= end,
            end <= points@.len(),
            copy@.len() == i - start,
            forall|j: int|
                0 <= j < i - start ==> (#[trigger] copy@[j]).encoding() == points@[start
                    + j].encoding(),
        decreases end - i,
    {
        copy.push(points[i].duplicate());
        i += 1;
    }
    assert(encodings(copy@) =~= encodings(points@).subrange(start as int, end as int));
    copy
}

/// Appends copies of the elements of `points` to `out`.
pub fn extend_points<G: CurvePoint>(out: &mut Vec<G>, points: &Vec<G>)
    ensures
        encodings(final(out)@) == encodings(old(out)@) + encodings(points@),
{
    let mut i: usize = 0;
    assert(encodings(out@) =~= encodings(old(out)@) + encodings(points@).take(0));
    while i < points.len()
        invariant
            i <= points@.len(),
            encodings(out@) == encodings(old(out)@) + encodings(points@).take(i as int),
        decreases points@.len() - i,
    {
        let ghost before = out@;
        let copy = points[i].duplicate();
        out.push(copy);
        assert(encodings(out@) =~= encodings(before).push(copy.encoding()));
        assert(encodings(out@) =~= encodings(old(out)@) + encodings(points@).take(i + 1));
        i += 1;
    }
    assert(encodings(points@).take(points@.len() as int) =~= encodings(points@));
}

/// The part of `points` that falls into the chunk that starts at `start`.
fn chunk_slice(points: &Vec<G1Point>, chunk_size: usize, start: usize, i: Ghost<nat>) -> (slice: Vec<
    G1Point,
>)
    requires
        chunk_size > 0,
        start == i@ * chunk_size,
    ensures
        encodings(slice@) == spec_chunk_slice(encodings(points@), chunk_size as nat, i@),
{
    assert((i@ + 1) * chunk_size == i@ * chunk_size + chunk_size) by (nonlinear_arith);
    if start < points.len() {
        let end = if points.len() - start <= chunk_size {
            points.len()
        } else {
            start + chunk_size
        };
        clone_range(points, start, end)
    } else {
        let slice: Vec<G1Point> = Vec::new();
        assert(encodings(slice@) =~= Seq::<Seq<u8>>::empty());
        slice
    }
}

/// The number of chunks for queries of which the longer has `longest`
/// elements.
fn num_chunks(longest: usize, chunk_size: usize) -> (count: usize)
    requires
        chunk_size > 0,
    ensures
        count == ceil_div(longest as nat, chunk_size as nat),
{
    if longest % chunk_size == 0 {
        longest / chunk_size
    } else {
        proof {
            lemma_chunks_cover(longest as nat, chunk_size as nat);
            assert(longest / chunk_size < longest) by (nonlinear_arith)
                requires
                    longest % chunk_size != 0,
                    chunk_size > 0,
                    longest >= 0,
            ;
        }
        longest / chunk_size + 1
    }
}

impl MPCParameters {
    /// The parameters for a program, before any contribution, together with
    /// the part of the key that all chunks share and the chunks themselves,
    /// each with at most `chunk_size` elements of the H and of the L query.
    ///
    /// Fails as `new` does.
    pub fn new_chunked(cs: KeypairAssembly, params: Groth16Params, chunk_size: usize) -> (r: Result<
        (MPCParameters, ProvingKey, Vec<MPCParameters>),
        Phase2Error,
    >)
        requires
            chunk_size > 0,
        ensures
            match r {
                Ok((full, queries, chunks)) => {
                    &&& spec_new(cs@, params@) == Ok::<MPCParametersView, Phase2Error>(full@)
                    &&& queries@ == spec_query_parameters(full@.params)
                    &&& mpc_views(chunks@) == spec_chunks(full@, chunk_size as nat)
                },
                Err(e) => spec_new(cs@, params@) == Err::<MPCParametersView, Phase2Error>(e),
            },
    {
        let full = match MPCParameters::new(cs, params) {
            Ok(full) => full,
            Err(e) => {
                return Err(e);
            },
        };
        let queries = full.query_parameters();
        let chunks = full.chunks(chunk_size);
        Ok((full, queries, chunks))
    }

    /// The part of the key that all chunks share: everything but the H and
    /// L queries.
    pub fn query_parameters(&self) -> (queries: ProvingKey)
        ensures
            queries@ == spec_query_parameters(self@.params),
    {
        let queries = ProvingKey {
            vk: self.params.vk.clone(),
            beta_g1: self.params.beta_g1.clone(),
            delta_g1: self.params.delta_g1.clone(),
            a_query: clone_points(&self.params.a_query),
            b_g1_query: clone_points(&self.params.b_g1_query),
            b_g2_query: clone_points(&self.params.b_g2_query),
            h_query: Vec::new(),
            l_query: Vec::new(),
        };
        assert(queries@.h_query =~= Seq::<Seq<u8>>::empty());
        assert(queries@.l_query =~= Seq::<Seq<u8>>::empty());
        queries
    }

    /// The chunks of the parameters, each with at most `chunk_size`
    /// elements of the H and of the L query.
    pub fn chunks(&self, chunk_size: usize) -> (chunks: Vec<MPCParameters>)
        requires
            chunk_size > 0,
        ensures
            mpc_views(chunks@) == spec_chunks(self@, chunk_size as nat),
    {
        let h_len = self.params.h_query.len();
        let l_len = self.params.l_query.len();
        let longest = if h_len >= l_len {
            h_len
        } else {
            l_len
        };
        let count = num_chunks(longest, chunk_size);
        let ghost expected = spec_chunks(self@, chunk_size as nat);
        let mut chunks: Vec<MPCParameters> = Vec::new();
        let mut i: usize = 0;
        let mut start: usize = 0;
        proof {
            lemma_chunks_cover(longest as nat, chunk_size as nat);
            assert(0 * chunk_size == 0) by (nonlinear_arith);
        }
        while i < count
            invariant
                chunk_size > 0,
                i <= count,
                count == spec_num_chunks(self@, chunk_size as nat),
                count == ceil_div(longest as nat, chunk_size as nat),
                longest > 0 ==> (count - 1) * chunk_size < longest,
                i < count ==> start == i * chunk_size,
                expected == spec_chunks(self@, chunk_size as nat),
                chunks@.len() == i,
                forall|j: int| 0 <= j < i ==> (#[trigger] chunks@[j])@ == expected[j],
            decreases count - i,
        {
            let h_query = chunk_slice(&self.params.h_query, chunk_size, start, Ghost(i as nat));
            let l_query = chunk_slice(&self.params.l_query, chunk_size, start, Ghost(i as nat));
            let a_query: Vec<G1Point> = Vec::new();
            let b_g1_query: Vec<G1Point> = Vec::new();
            let b_g2_query: Vec<G2Point> = Vec::new();
            let chunk = MPCParameters {
                params: ProvingKey {
                    vk: self.params.vk.clone(),
                    beta_g1: self.params.beta_g1.clone(),
                    delta_g1: self.params.delta_g1.clone(),
                    a_query,
                    b_g1_query,
                    b_g2_query,
                    h_query,
                    l_query,
                },
                cs_hash: self.cs_hash,
                contributions: clone_keys(&self.contributions),
            };
            proof {
                assert(chunk@.params.a_query =~= Seq::<Seq<u8>>::empty());
                assert(chunk@.params.b_g1_query =~= Seq::<Seq<u8>>::empty());
                assert(chunk@.params.b_g2_query =~= Seq::<Seq<u8>>::empty());
                assert(chunk@ == spec_chunk(self@, chunk_size as nat, i as nat));
            }
            chunks.push(chunk);
            i += 1;
            if i < count {
                proof {
                    assert(i * chunk_size == (i - 1) * chunk_size + chunk_size) by (nonlinear_arith);
                    assert(i * chunk_size <= (count - 1) * chunk_size) by (nonlinear_arith)
                        requires
                            i <= count - 1,
                            chunk_size > 0,
                    ;
                }
                start = start + chunk_size;
            }
        }
        assert(mpc_views(chunks@) =~= expected);
        chunks
    }

    /// Puts chunks together: the A and B queries come from `queries`, the H
    /// and L queries are those of the chunks in their order, and everything
    /// else comes from the first chunk. That the chunks agree in what they
    /// share is for the caller to see to.
    pub fn combine(queries: &ProvingKey, mpcs: &[MPCParameters]) -> (r: Result<
        MPCParameters,
        Phase2Error,
    >)
        requires
            mpcs@.len() > 0,
        ensures
            r is Ok,
            r->Ok_0@ == spec_combine(queries@, mpc_views(mpcs@)),
    {
        let ghost all = mpc_views(mpcs@);
        let mut h_query: Vec<G1Point> = Vec::new();
        let mut l_query: Vec<G1Point> = Vec::new();
        let mut i: usize = 0;
        proof {
            assert(all.take(0) =~= Seq::<MPCParametersView>::empty());
            assert(encodings(h_query@) =~= Seq::<Seq<u8>>::empty());
            assert(encodings(l_query@) =~= Seq::<Seq<u8>>::empty());
        }
        while i < mpcs.len()
            invariant
                i <= mpcs@.len(),
                all == mpc_views(mpcs@),
                encodings(h_query@) == concat_h(all.take(i as int)),
                encodings(l_query@) == concat_l(all.take(i as int)),
            decreases mpcs@.len() - i,
        {
            extend_points(&mut h_query, &mpcs[i].params.h_query);
            extend_points(&mut l_query, &mpcs[i].params.l_query);
            proof {
                let next = all.take(i + 1);
                assert(next.drop_last() =~= all.take(i as int));
                assert(next.last() == all[i as int]);
            }
            i += 1;
        }
        assert(all.take(mpcs@.len() as int) =~= all);
        let combined = MPCParameters {
            params: ProvingKey {
                vk: mpcs[0].params.vk.clone(),
                beta_g1: mpcs[0].params.beta_g1.clone(),
                delta_g1: mpcs[0].params.delta_g1.clone(),
                a_query: clone_points(&queries.a_query),
                b_g1_query: clone_points(&queries.b_g1_query),
                b_g2_query: clone_points(&queries.b_g2_query),
                h_query,
                l_query,
            },
            cs_hash: mpcs[0].cs_hash,
            contributions: clone_keys(&mpcs[0].contributions),
        };
        Ok(combined)
    }
}

/// The parameters for a synthesized circuit and the output of the first
/// phase as it is written in `transcript`: the program of the circuit is
/// made first, then the output is read.
pub open spec fn spec_new_from_buffer(
    circuit: Constraints,
    transcript: Seq<u8>,
    compressed: UseCompression,
    check: CheckForCorrectness,
    phase1_size: nat,
    phase2_size: nat,
) -> Result<MPCParametersView, Phase2Error> {
    if !circuit.wf() {
        Err(Phase2Error::InvalidLength)
    } else {
        match parse_groth16_params(compressed, check, phase1_size, phase2_size, transcript) {
            Err(e) => Err(e),
            Ok(params) => spec_new(spec_circuit_to_qap(circuit@), params),
        }
    }
}

/// The same, with the output of the first phase read first.
pub open spec fn spec_new_from_buffer_chunked(
    circuit: Constraints,
    transcript: Seq<u8>,
    compressed: UseCompression,
    check: CheckForCorrectness,
    phase1_size: nat,
    phase2_size: nat,
) -> Result<MPCParametersView, Phase2Error> {
    match parse_groth16_params(compressed, check, phase1_size, phase2_size, transcript) {
        Err(e) => Err(e),
        Ok(params) => if !circuit.wf() {
            Err(Phase2Error::InvalidLength)
        } else {
            spec_new(spec_circuit_to_qap(circuit@), params)
        },
    }
}

impl MPCParameters {
    /// The parameters for a synthesized circuit, before any contribution,
    /// from the output of the first phase as it is written in `transcript`.
    ///
    /// Fails as `circuit_to_qap` does, then as `Groth16Params::read` does,
    /// then as `new` does.
    pub fn new_from_buffer(
        circuit: Constraints,
        transcript: &[u8],
        compressed: UseCompression,
        check_input_for_correctness: CheckForCorrectness,
        phase1_size: usize,
        phase2_size: usize,
    ) -> (r: Result<MPCParameters, Phase2Error>)
        ensures
            match r {
                Ok(mpc) => spec_new_from_buffer(
                    circuit,
                    transcript@,
                    compressed,
                    check_input_for_correctness,
                    phase1_size as nat,
                    phase2_size as nat,
                ) == Ok::<MPCParametersView, Phase2Error>(mpc@),
                Err(e) => spec_new_from_buffer(
                    circuit,
                    transcript@,
                    compressed,
                    check_input_for_correctness,
                    phase1_size as nat,
                    phase2_size as nat,
                ) == Err::<MPCParametersView, Phase2Error>(e),
            },
    {
        let assembly = match circuit_to_qap(circuit) {
            Ok(assembly) => assembly,
            Err(e) => {
                return Err(e);
            },
        };
        let params = match Groth16Params::read(
            transcript,
            compressed,
            check_input_for_correctness,
            phase1_size,
            phase2_size,
        ) {
            Ok(params) => params,
            Err(e) => {
                return Err(e);
            },
        };
        MPCParameters::new(assembly, params)
    }

    /// The parameters for a synthesized circuit, before any contribution,
    /// from the output of the first phase as it is written in `transcript`,
    /// together with the part of the key that all chunks share and the
    /// chunks themselves.
    ///
    /// Fails as `Groth16Params::read` does, then as `circuit_to_qap` does,
    /// then as `new` does.
    pub fn new_from_buffer_chunked(
        circuit: Constraints,
        transcript: &[u8],
        compressed: UseCompression,
        check_input_for_correctness: CheckForCorrectness,
        phase1_size: usize,
        phase2_size: usize,
        chunk_size: usize,
    ) -> (r: Result<(MPCParameters, ProvingKey, Vec<MPCParameters>), Phase2Error>)
        requires
            chunk_size > 0,
        ensures
            match r {
                Ok((full, queries, chunks)) => {
                    &&& spec_new_from_buffer_chunked(
                        circuit,
                        transcript@,
                        compressed,
                        check_input_for_correctness,
                        phase1_size as nat,
                        phase2_size as nat,
                    ) == Ok::<MPCParametersView, Phase2Error>(full@)
                    &&& queries@ == spec_query_parameters(full@.params)
                    &&& mpc_views(chunks@) == spec_chunks(full@, chunk_size as nat)
                },
                Err(e) => spec_new_from_buffer_chunked(
                    circuit,
                    transcript@,
                    compressed,
                    check_input_for_correctness,
                    phase1_size as nat,
                    phase2_size as nat,
                ) == Err::<MPCParametersView, Phase2Error>(e),
            },
    {
        let params = match Groth16Params::read(
            transcript,
            compressed,
            check_input_for_correctness,
            phase1_size,
            phase2_size,
        ) {
            Ok(params) => params,
            Err(e) => {
                return Err(e);
            },
        };
        let assembly = match circuit_to_qap(circuit) {
            Ok(assembly) => assembly,
            Err(e) => {
                return Err(e);
            },
        };
        MPCParameters::new_chunked(assembly, params, chunk_size)
    }
}

} // verus!
