//! Cost of the polynomial commitment scheme's opening.

use vstd::prelude::*;

use super::counts::OpCounts;
use super::statistics::{CircuitStatistics, batch_inversion_ops, lagrange_eval_ops};

verus! {

/// Which polynomial commitment scheme is in use.
#[derive(Clone, Copy, Debug, PartialEq, Eq, Structural)]
pub enum PCSType {
    /// Halo2's multi-open scheme: all evaluations, grouped by sets of
    /// rotations, are batched into a single KZG opening.
    Halo2MultiOpen,
}

/// Views of a list of lists of counts.
pub open spec fn map_view(m: Vec<Vec<usize>>) -> Seq<Seq<usize>> {
    Seq::new(m@.len(), |i: int| m@[i]@)
}

/// Sum of a list of numbers.
pub open spec fn sum(s: Seq<usize>) -> int
    decreases s.len(),
{
    if s.len() == 0 {
        0
    } else {
        sum(s.drop_last()) + s.last()
    }
}

/// Sum of all numbers of all lists.
pub open spec fn sum_all(m: Seq<Seq<usize>>) -> int
    decreases m.len(),
{
    if m.len() == 0 {
        0
    } else {
        sum_all(m.drop_last()) + sum(m.last())
    }
}

/// Total length of all lists.
pub open spec fn total_len(m: Seq<Seq<usize>>) -> int
    decreases m.len(),
{
    if m.len() == 0 {
        0
    } else {
        total_len(m.drop_last()) + m.last().len()
    }
}

/// Cost estimation interface for a polynomial commitment scheme.
pub trait PcsEstimate {
    /// Commitments the scheme adds to the verification key.
    spec fn spec_nb_commitments_vk() -> nat;

    /// Commitments the scheme adds to the proof.
    spec fn spec_nb_commitments() -> nat;

    /// Evaluations the scheme adds to the proof for `nb_point_sets` sets of points.
    spec fn spec_nb_evaluations(nb_point_sets: nat) -> nat;

    /// Cost of reading the opening proof.
    spec fn read_ops(nb_point_sets: nat) -> OpCounts;

    /// Transcript sizes hashed while reading the opening proof from a
    /// transcript of `t0` bytes.
    spec fn read_hashes(t0: nat, nb_point_sets: nat) -> Seq<usize>;

    /// Inputs on which the opening can be computed.
    spec fn opening_ok(map: Seq<Seq<usize>>, max_per_set: nat, point_sets: Seq<usize>, nb_point_sets: nat) -> bool;

    /// Cost of computing the opening.
    spec fn opening_ops(map: Seq<Seq<usize>>, max_per_set: nat, point_sets: Seq<usize>, nb_point_sets: nat) -> OpCounts;

    /// Multi-scalar multiplications recorded while computing the opening.
    spec fn opening_msms(map: Seq<Seq<usize>>) -> Seq<usize>;

    /// Reading the opening proof costs nothing negative.
    proof fn lemma_read_ops_nonneg(nb_point_sets: nat)
        ensures
            Self::read_ops(nb_point_sets).nonneg(),
    ;

    /// Computing the opening costs nothing negative and reads nothing more
    /// from the transcript.
    proof fn lemma_opening_ops_nonneg(map: Seq<Seq<usize>>, max_per_set: nat, point_sets: Seq<usize>, nb_point_sets: nat)
        requires
            Self::opening_ok(map, max_per_set, point_sets, nb_point_sets),
        ensures
            Self::opening_ops(map, max_per_set, point_sets, nb_point_sets).nonneg(),
            Self::opening_ops(map, max_per_set, point_sets, nb_point_sets).transcript == 0,
    ;

    /// The polynomial commitment scheme.
    spec fn spec_pcs_type() -> PCSType;

    fn pcs_type() -> (t: PCSType)
        ensures
            t == Self::spec_pcs_type(),
    ;

    /// Accounts for the transcript elements of the opening proof.
    fn read_transcript(stats: &mut CircuitStatistics, nb_point_sets: usize)
        requires
            old(stats).room_for(Self::read_ops(nb_point_sets as nat)),
        ensures
            final(stats).counts() == old(stats).counts().plus(Self::read_ops(nb_point_sets as nat)),
            final(stats).hash@ == old(stats).hash@ + Self::read_hashes(old(stats).transcript_size as nat, nb_point_sets as nat),
            final(stats).msm@ == old(stats).msm@,
            final(stats).same_header(old(stats)),
    ;

    /// Accounts for the operations that compute the opening.
    fn compute_opening(
        stats: &mut CircuitStatistics,
        halo2_commitment_data: &Vec<Vec<usize>>,
        max_commitments_per_set: usize,
        kzg_halo2_point_sets: &Vec<usize>,
        nb_point_sets: usize,
    )
        requires
            Self::opening_ok(map_view(*halo2_commitment_data), max_commitments_per_set as nat, kzg_halo2_point_sets@, nb_point_sets as nat),
            old(stats).room_for(
                Self::opening_ops(map_view(*halo2_commitment_data), max_commitments_per_set as nat, kzg_halo2_point_sets@, nb_point_sets as nat),
            ),
        ensures
            final(stats).counts() == old(stats).counts().plus(
                Self::opening_ops(map_view(*halo2_commitment_data), max_commitments_per_set as nat, kzg_halo2_point_sets@, nb_point_sets as nat),
            ),
            final(stats).hash@ == old(stats).hash@,
            final(stats).msm@ == old(stats).msm@ + Self::opening_msms(map_view(*halo2_commitment_data)),
            final(stats).same_header(old(stats)),
    ;

    fn nb_commitments_vk() -> (n: usize)
        ensures
            n == Self::spec_nb_commitments_vk(),
    ;

    fn nb_commitments() -> (n: usize)
        ensures
            n == Self::spec_nb_commitments(),
    ;

    fn nb_evaluations(nb_point_sets: usize) -> (n: usize)
        ensures
            n == Self::spec_nb_evaluations(nb_point_sets as nat),
    ;
}

/// Halo2's multi-open KZG scheme.
pub struct H2MO;

/// Cost of accumulating the commitments and their evaluations: one
/// decompression per commitment, one multiplication per evaluation, one
/// addition per evaluation but the first, and one scaling and one point
/// addition per set.
pub open spec fn q_evals_ops(map: Seq<Seq<usize>>) -> OpCounts {
    let e = sum_all(map);
    OpCounts {
        decompress: total_len(map),
        mul: e,
        add: if e > 0 { e - 1 } else { 0 },
        add_point: map.len() as int,
        mul_point: map.len() as int,
        ..OpCounts::zero()
    }
}

/// Cost of the interpolations and denominators of each point set.
pub open spec fn f_sets_ops(sets: Seq<usize>) -> OpCounts
    decreases sets.len(),
{
    if sets.len() == 0 {
        OpCounts::zero()
    } else {
        f_sets_ops(sets.drop_last()).plus(lagrange_eval_ops(sets.last() as int)).plus(
            OpCounts { sub: sets.last() as int, mul: sets.last() as int, ..OpCounts::zero() },
        )
    }
}

/// Cost of evaluating `f` at `x3`.
pub open spec fn f_eval_ops(sets: Seq<usize>) -> OpCounts {
    f_sets_ops(sets).plus(batch_inversion_ops(sets.len() as int)).plus(
        OpCounts { mul: 2 * (sets.len() as int), sub: sets.len() as int, add: sets.len() as int, ..OpCounts::zero() },
    )
}

/// Every set has at least one point, and there is at least one set.
pub open spec fn point_sets_ok(sets: Seq<usize>) -> bool {
    &&& sets.len() >= 1
    &&& forall|i: int| 0 <= i < sets.len() ==> #[trigger] sets[i] >= 1
}

pub proof fn lemma_lagrange_eval_nonneg(r: int)
    requires
        r >= 1,
    ensures
        lagrange_eval_ops(r).nonneg(),
{
    assert(r * (r - 1) >= 0) by (nonlinear_arith)
        requires
            r >= 1,
    ;
}

pub proof fn lemma_f_sets_prefix(sets: Seq<usize>, i: int)
    requires
        0 <= i <= sets.len(),
        forall|j: int| 0 <= j < sets.len() ==> #[trigger] sets[j] >= 1,
    ensures
        f_sets_ops(sets.take(i)).le(f_sets_ops(sets)),
        f_sets_ops(sets.take(i)).nonneg(),
    decreases sets.len() - i,
{
    if i < sets.len() {
        lemma_f_sets_prefix(sets, i + 1);
        assert(sets.take(i + 1).drop_last() =~= sets.take(i));
        assert(sets.take(i + 1).last() == sets[i]);
        lemma_lagrange_eval_nonneg(sets[i] as int);
    } else {
        assert(sets.take(i) =~= sets);
    }
    lemma_f_sets_nonneg(sets.take(i));
}

pub proof fn lemma_f_sets_nonneg(sets: Seq<usize>)
    requires
        forall|j: int| 0 <= j < sets.len() ==> #[trigger] sets[j] >= 1,
    ensures
        f_sets_ops(sets).nonneg(),
        f_sets_ops(sets).transcript == 0,
    decreases sets.len(),
{
    if sets.len() > 0 {
        lemma_f_sets_nonneg(sets.drop_last());
        assert(sets.last() == sets[sets.len() - 1]);
        lemma_lagrange_eval_nonneg(sets.last() as int);
    }
}

pub proof fn lemma_sums_prefix(m: Seq<Seq<usize>>, i: int)
    requires
        0 <= i <= m.len(),
    ensures
        0 <= sum_all(m.take(i)) <= sum_all(m),
        0 <= total_len(m.take(i)) <= total_len(m),
    decreases m.len() - i,
{
    if i < m.len() {
        lemma_sums_prefix(m, i + 1);
        assert(m.take(i + 1).drop_last() =~= m.take(i));
        assert(m.take(i + 1).last() == m[i]);
        lemma_sum_nonneg(m[i]);
    } else {
        assert(m.take(i) =~= m);
    }
    lemma_sum_all_nonneg(m.take(i));
}

pub proof fn lemma_sum_nonneg(s: Seq<usize>)
    ensures
        sum(s) >= 0,
    decreases s.len(),
{
    if s.len() > 0 {
        lemma_sum_nonneg(s.drop_last());
    }
}

pub proof fn lemma_sum_all_nonneg(m: Seq<Seq<usize>>)
    ensures
        sum_all(m) >= 0,
        total_len(m) >= 0,
    decreases m.len(),
{
    if m.len() > 0 {
        lemma_sum_all_nonneg(m.drop_last());
        lemma_sum_nonneg(m.last());
    }
}

pub proof fn lemma_sum_prefix(s: Seq<usize>, i: int)
    requires
        0 <= i <= s.len(),
    ensures
        0 <= sum(s.take(i)) <= sum(s),
    decreases s.len() - i,
{
    if i < s.len() {
        lemma_sum_prefix(s, i + 1);
        assert(s.take(i + 1).drop_last() =~= s.take(i));
        assert(s.take(i + 1).last() == s[i]);
    } else {
        assert(s.take(i) =~= s);
    }
    lemma_sum_nonneg(s.take(i));
}

impl H2MO {
    /// Accumulates the commitments of each point set and their evaluations.
    fn compute_q_evals(stats: &mut CircuitStatistics, halo2_commitment_data: &Vec<Vec<usize>>)
        requires
            old(stats).room_for(q_evals_ops(map_view(*halo2_commitment_data))),
        ensures
            final(stats).counts() == old(stats).counts().plus(q_evals_ops(map_view(*halo2_commitment_data))),
            final(stats).hash@ == old(stats).hash@,
            final(stats).msm@ == old(stats).msm@ + Seq::new(
                halo2_commitment_data@.len(),
                |i: int| halo2_commitment_data@[i]@.len() as usize,
            ),
            final(stats).same_header(old(stats)),
    {
        let ghost s0 = *old(stats);
        let ghost m = map_view(*halo2_commitment_data);
        let ghost msms = Seq::new(m.len(), |i: int| m[i].len() as usize);
        let mut is_first = true;
        let n = halo2_commitment_data.len();
        let mut i: usize = 0;
        while i < n
            invariant
                i <= n,
                n == m.len(),
                m == map_view(*halo2_commitment_data),
                msms == Seq::new(m.len(), |i: int| m[i].len() as usize),
                s0.room_for(q_evals_ops(m)),
                is_first == (sum_all(m.take(i as int)) == 0),
                stats.counts() == s0.counts().plus(
                    OpCounts {
                        decompress: total_len(m.take(i as int)),
                        mul: sum_all(m.take(i as int)),
                        add: if sum_all(m.take(i as int)) > 0 { sum_all(m.take(i as int)) - 1 } else { 0 },
                        add_point: i as int,
                        mul_point: i as int,
                        ..OpCounts::zero()
                    },
                ),
                stats.hash@ == s0.hash@,
                stats.msm@ == s0.msm@ + msms.take(i as int),
                stats.same_header(&s0),
            decreases n - i,
        {
            let set = &halo2_commitment_data[i];
            let ghost row = set@;
            assert(row == m[i as int]);
            proof {
                lemma_sums_prefix(m, i as int);
                lemma_sums_prefix(m, i + 1);
                assert(m.take(i + 1).drop_last() =~= m.take(i as int));
                assert(m.take(i + 1).last() == row);
            }
            stats.msm(set.len());
            assert(stats.msm@ =~= s0.msm@ + msms.take(i + 1));
            let ghost e0 = sum_all(m.take(i as int));
            let ghost c0 = total_len(m.take(i as int));
            let k = set.len();
            let mut j: usize = 0;
            while j < k
                invariant
                    j <= k,
                    k == row.len(),
                    row == set@,
                    s0.room_for(q_evals_ops(m)),
                    e0 + sum(row) <= sum_all(m),
                    c0 + row.len() <= total_len(m),
                    i < m.len(),
                    e0 >= 0,
                    is_first == (e0 + sum(row.take(j as int)) == 0),
                    stats.counts() == s0.counts().plus(
                        OpCounts {
                            decompress: c0 + j,
                            mul: e0 + sum(row.take(j as int)),
                            add: if e0 + sum(row.take(j as int)) > 0 { e0 + sum(row.take(j as int)) - 1 } else { 0 },
                            add_point: i as int,
                            mul_point: i as int,
                            ..OpCounts::zero()
                        },
                    ),
                    stats.hash@ == s0.hash@,
                    stats.msm@ == s0.msm@ + msms.take(i + 1),
                    stats.same_header(&s0),
                decreases k - j,
            {
                let eval = set[j];
                proof {
                    lemma_sum_prefix(row, j as int);
                    lemma_sum_prefix(row, j + 1);
                    assert(row.take(j + 1).drop_last() =~= row.take(j as int));
                    assert(row.take(j + 1).last() == eval);
                }
                stats.decompress_point();
                let ghost e1 = e0 + sum(row.take(j as int));
                let mut q: usize = 0;
                while q < eval
                    invariant
                        q <= eval,
                        e1 + eval <= sum_all(m),
                        e1 >= 0,
                        s0.room_for(q_evals_ops(m)),
                        is_first == (e1 + q == 0),
                        stats.counts() == s0.counts().plus(
                            OpCounts {
                                decompress: c0 + j + 1,
                                mul: e1 + q,
                                add: if e1 + q > 0 { e1 + q - 1 } else { 0 },
                                add_point: i as int,
                                mul_point: i as int,
                                ..OpCounts::zero()
                            },
                        ),
                        c0 + j + 1 <= total_len(m),
                        i < m.len(),
                        stats.hash@ == s0.hash@,
                        stats.msm@ == s0.msm@ + msms.take(i + 1),
                        stats.same_header(&s0),
                    decreases eval - q,
                {
                    stats.mul_scalar();
                    if !is_first {
                        stats.add_scalar();
                    }
                    is_first = false;
                    q = q + 1;
                }
                j = j + 1;
            }
            assert(row.take(k as int) =~= row);
            stats.add_point();
            stats.scale();
            i = i + 1;
        }
        assert(m.take(n as int) =~= m);
        assert(msms.take(n as int) =~= msms);
    }

    /// Evaluates `f` at `x3` from each set's interpolation.
    fn compute_f_eval(stats: &mut CircuitStatistics, kzg_halo2_point_sets: &Vec<usize>)
        requires
            point_sets_ok(kzg_halo2_point_sets@),
            old(stats).room_for(f_eval_ops(kzg_halo2_point_sets@)),
        ensures
            CircuitStatistics::stepped(old(stats), final(stats), f_eval_ops(kzg_halo2_point_sets@)),
    {
        let ghost s0 = *old(stats);
        let ghost sets = kzg_halo2_point_sets@;
        let n = kzg_halo2_point_sets.len();
        proof {
            lemma_f_sets_nonneg(sets);
        }
        let mut i: usize = 0;
        while i < n
            invariant
                i <= n,
                n == sets.len(),
                sets == kzg_halo2_point_sets@,
                point_sets_ok(sets),
                f_sets_ops(sets).nonneg(),
                s0.room_for(f_eval_ops(sets)),
                CircuitStatistics::stepped(&s0, stats, f_sets_ops(sets.take(i as int))),
            decreases n - i,
        {
            let nb_rot = kzg_halo2_point_sets[i];
            proof {
                lemma_f_sets_prefix(sets, i + 1);
                assert(sets.take(i + 1).drop_last() =~= sets.take(i as int));
                assert(sets.take(i + 1).last() == nb_rot);
                lemma_lagrange_eval_nonneg(nb_rot as int);
                assert(nb_rot >= 1);
            }
            // r_eval = lagrange_evaluation(zip(points, evals), x3)
            stats.lagrange_evaluation(nb_rot);
            // denominator
            let mut j: usize = 0;
            while j < nb_rot
                invariant
                    j <= nb_rot,
                    i < n,
                    n == sets.len(),
                    nb_rot == sets[i as int],
                    s0.room_for(f_eval_ops(sets)),
                    f_sets_ops(sets.take(i + 1)).le(f_sets_ops(sets)),
                    f_sets_ops(sets.take(i + 1)) == f_sets_ops(sets.take(i as int)).plus(lagrange_eval_ops(nb_rot as int)).plus(
                        OpCounts { sub: nb_rot as int, mul: nb_rot as int, ..OpCounts::zero() },
                    ),
                    point_sets_ok(sets),
                    CircuitStatistics::stepped(
                        &s0,
                        stats,
                        f_sets_ops(sets.take(i as int)).plus(lagrange_eval_ops(nb_rot as int)).plus(
                            OpCounts { sub: j as int, mul: j as int, ..OpCounts::zero() },
                        ),
                    ),
                decreases nb_rot - j,
            {
                stats.sub_scalar();
                stats.mul_scalar();
                j = j + 1;
            }
            i = i + 1;
        }
        assert(sets.take(n as int) =~= sets);
        // batch inversion of the denominators
        stats.batch_inversion(n);
        // final combination
        let mut k: usize = 0;
        while k < n
            invariant
                k <= n,
                n == sets.len(),
                s0.room_for(f_eval_ops(sets)),
                CircuitStatistics::stepped(
                    &s0,
                    stats,
                    f_sets_ops(sets).plus(batch_inversion_ops(n as int)).plus(
                        OpCounts { mul: 2 * k, sub: k as int, add: k as int, ..OpCounts::zero() },
                    ),
                ),
            decreases n - k,
        {
            // mul(sub(q_eval, r_eval), denominator_inverse)
            stats.mul_scalar();
            stats.sub_scalar();
            // add(mul(acc_eval, x2), evaluation)
            stats.mul_scalar();
            stats.add_scalar();
            k = k + 1;
        }
    }

    /// Evaluates `v`.
    fn compute_v_eval(stats: &mut CircuitStatistics, point_sets_indexes: usize)
        requires
            old(stats).room_for(OpCounts { add: point_sets_indexes as int, mul: point_sets_indexes as int, ..OpCounts::zero() }),
        ensures
            CircuitStatistics::stepped(
                old(stats),
                final(stats),
                OpCounts { add: point_sets_indexes as int, mul: point_sets_indexes as int, ..OpCounts::zero() },
            ),
    {
        stats.add_scalar_times(point_sets_indexes);
        stats.mul_scalar_times(point_sets_indexes);
    }
}

impl PcsEstimate for H2MO {
    open spec fn spec_nb_commitments_vk() -> nat {
        0
    }

    /// The f commitment and the pi term.
    open spec fn spec_nb_commitments() -> nat {
        2
    }

    /// One q evaluation per point set, at least three sets.
    open spec fn spec_nb_evaluations(nb_point_sets: nat) -> nat {
        if nb_point_sets > 3 { nb_point_sets } else { 3 }
    }

    /// Four challenges (x1 to x4), two points (f commitment, pi term) and one
    /// q evaluation per point set.
    open spec fn read_ops(nb_point_sets: nat) -> OpCounts {
        OpCounts {
            from_bytes: 8 + nb_point_sets as int,
            transcript: 96 + 32 * (nb_point_sets as int),
            from_bytes_point: 2,
            decompress: 2,
            ..OpCounts::zero()
        }
    }

    open spec fn read_hashes(t0: nat, nb_point_sets: nat) -> Seq<usize> {
        seq![t0 as usize, t0 as usize, (t0 + 48) as usize, (t0 + 48 + 32 * nb_point_sets) as usize]
    }

    open spec fn opening_ok(map: Seq<Seq<usize>>, max_per_set: nat, point_sets: Seq<usize>, nb_point_sets: nat) -> bool {
        point_sets_ok(point_sets)
    }

    /// Powers of x1 and x4, the accumulation of the commitments, the
    /// evaluation of f and v, and the final point operations.
    open spec fn opening_ops(map: Seq<Seq<usize>>, max_per_set: nat, point_sets: Seq<usize>, nb_point_sets: nat) -> OpCounts {
        OpCounts { mul: max_per_set + nb_point_sets + 1int, ..OpCounts::zero() }.plus(q_evals_ops(map)).plus(
            f_eval_ops(point_sets),
        ).plus(OpCounts { add: nb_point_sets as int, mul: nb_point_sets as int, ..OpCounts::zero() }).plus(
            OpCounts { add_point: 2, mul_point: 2, decompress: 2, ..OpCounts::zero() },
        )
    }

    open spec fn opening_msms(map: Seq<Seq<usize>>) -> Seq<usize> {
        Seq::new(map.len(), |i: int| map[i].len() as usize)
    }

    proof fn lemma_read_ops_nonneg(nb_point_sets: nat) {
    }

    proof fn lemma_opening_ops_nonneg(map: Seq<Seq<usize>>, max_per_set: nat, point_sets: Seq<usize>, nb_point_sets: nat) {
        lemma_sum_all_nonneg(map);
        lemma_f_sets_nonneg(point_sets);
    }

    open spec fn spec_pcs_type() -> PCSType {
        PCSType::Halo2MultiOpen
    }

    fn pcs_type() -> (t: PCSType)
        ensures
            t == PCSType::Halo2MultiOpen,
    {
        PCSType::Halo2MultiOpen
    }

    fn read_transcript(stats: &mut CircuitStatistics, nb_point_sets: usize) {
        let ghost s0 = *old(stats);
        let ghost t0 = s0.transcript_size as nat;
        // x1
        stats.squeeze_challenge();
        // x2
        stats.squeeze_challenge();
        // f commitment
        stats.read_point();
        // x3
        stats.squeeze_challenge();
        // q evaluations at x3
        stats.read_scalars(nb_point_sets);
        // x4
        stats.squeeze_challenge();
        // pi term
        stats.read_point();
        assert(stats.hash@ =~= s0.hash@ + Self::read_hashes(t0, nb_point_sets as nat));
    }

    fn compute_opening(
        stats: &mut CircuitStatistics,
        halo2_commitment_data: &Vec<Vec<usize>>,
        max_commitments_per_set: usize,
        kzg_halo2_point_sets: &Vec<usize>,
        nb_point_sets: usize,
    ) {
        let ghost m = map_view(*halo2_commitment_data);
        proof {
            lemma_sum_all_nonneg(m);
            lemma_f_sets_nonneg(kzg_halo2_point_sets@);
        }
        // powers of x1
        stats.mul_scalar_times(max_commitments_per_set);
        // powers of x4
        stats.mul_scalar_times(nb_point_sets + 1);
        // q evaluations and the final commitment
        Self::compute_q_evals(stats, halo2_commitment_data);
        // f evaluation
        Self::compute_f_eval(stats, kzg_halo2_point_sets);
        // v evaluation
        Self::compute_v_eval(stats, nb_point_sets);
        // compressing the commitment
        stats.add_point();
        stats.add_point();
        stats.scale();
        stats.scale();
        stats.decompress_point();
        stats.decompress_point();
    }

    fn nb_commitments_vk() -> (n: usize) {
        0
    }

    fn nb_commitments() -> (n: usize) {
        2
    }

    fn nb_evaluations(nb_point_sets: usize) -> (n: usize) {
        if nb_point_sets > 3 { nb_point_sets } else { 3 }
    }
}

} // verus!
