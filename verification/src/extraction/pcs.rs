//! The opening steps of the supported polynomial commitment schemes: their
//! order, how they read in the generated Aiken and Plinth verifiers, and what
//! they cost.

use vstd::prelude::*;

use super::queries::{
    Query, commitment_pairs, data_view, distinct_sets, grouped_points, lemma_set_sizes_ok, no_repeated_query,
    precompute_intermediate_sets, set_sizes, sets_view, spec_commitment_data,
};
use super::text::{decimal, push_decimal};
use crate::stats::counts::OpCounts;
use crate::stats::pcs::{H2MO, PcsEstimate, map_view, point_sets_ok};
use crate::stats::statistics::CircuitStatistics;

verus! {

/// The supported polynomial commitment schemes.
#[derive(Clone, Copy, Debug, PartialEq, Eq, Structural)]
pub enum PCSType {
    Halo2MultiOpen,
    AxiomSHPLONK,
}

/// What a scheme's opening needs: its steps, its data, and how both are
/// written out.
pub trait ExtractPCS {
    type PCSExtractionSteps;

    type PCSData;

    /// The opening steps and data for `nb_point_sets` distinct point sets
    /// and `nb_points` distinct points.
    fn extract_pcs(nb_point_sets: usize, nb_points: usize) -> (Vec<Self::PCSExtractionSteps>, Self::PCSData);

    /// A step in Aiken; `number` numbers repeated steps.
    fn step_to_aiken(step: Self::PCSExtractionSteps, number: usize) -> String;

    /// A step in Plinth; `number` numbers repeated steps.
    fn step_to_plinth(step: Self::PCSExtractionSteps, number: usize) -> String;

    /// The scheme's main count.
    fn pcs_data(data: &Self::PCSData) -> usize;

    /// The scheme's data in Aiken.
    fn pcs_data_aiken(data: &Self::PCSData) -> String;

    /// The scheme's data in Plinth.
    fn pcs_data_plinth(data: &Self::PCSData) -> String;

    fn pcs_type() -> PCSType;
}

// ---------------------------------------------------------------------------
// Halo2's multi-open KZG scheme.

/// Halo2's multi-open variant of KZG.
pub struct Halo2MultiOpenScheme;

/// The multi-open data: the number of q evaluations.
#[derive(Clone, Copy, Debug, Default, PartialEq, Eq, Structural)]
pub struct HMOData {
    pub q_evaluations_count: usize,
}

/// The multi-open steps: four challenges (x1 to x4), the f commitment, the q
/// evaluations and the final pi term.
#[derive(Clone, Copy, Debug, PartialEq, Eq, Structural)]
pub enum HMOSteps {
    X1,
    X2,
    X3,
    X4,
    PI,
    QEvals,
    FCommitment,
}

/// The multi-open steps: x1, x2, the f commitment, x3, one q evaluation per
/// point set, x4 and the pi term.
pub open spec fn spec_hmo_steps(nb_point_sets: nat) -> Seq<HMOSteps> {
    seq![HMOSteps::X1, HMOSteps::X2, HMOSteps::FCommitment, HMOSteps::X3] + Seq::new(
        nb_point_sets,
        |i: int| HMOSteps::QEvals,
    ) + seq![HMOSteps::X4, HMOSteps::PI]
}

/// A multi-open step in Aiken.
pub open spec fn hmo_aiken(step: HMOSteps, number: nat) -> Seq<char> {
    match step {
        HMOSteps::X1 => "    let (x1, transcript) = squeeze_challenge(transcript)\n"@,
        HMOSteps::X2 => "    let (x2, transcript) = squeeze_challenge(transcript)\n"@,
        HMOSteps::X3 => "    let (x3, transcript) = squeeze_challenge(transcript)\n"@,
        HMOSteps::X4 => "    let (x4, transcript) = squeeze_challenge(transcript)\n"@,
        HMOSteps::PI => "    let (pi_term, _) =  read_point(transcript)\n"@,
        HMOSteps::FCommitment => "    let (f_commitment, transcript) =  read_point(transcript)\n"@,
        HMOSteps::QEvals => "    let (q_eval_on_x3_"@ + decimal(number) + ", transcript) = read_scalar(transcript)\n"@,
    }
}

/// A multi-open step in Plinth.
pub open spec fn hmo_plinth(step: HMOSteps, number: nat) -> Seq<char> {
    match step {
        HMOSteps::X1 => "  !x1 <- M.squeezeChallenge\n"@,
        HMOSteps::X2 => "  !x2 <- M.squeezeChallenge\n"@,
        HMOSteps::X3 => "  !x3 <- M.squeezeChallenge\n"@,
        HMOSteps::X4 => "  !x4 <- M.squeezeChallenge\n"@,
        HMOSteps::PI => "  !pi_term <- M.readPoint\n"@,
        HMOSteps::FCommitment => "  !f_commitment <- M.readPoint\n"@,
        HMOSteps::QEvals => "  !q_eval_on_x3_"@ + decimal(number) + " <- M.readScalar\n"@,
    }
}

/// The names of the q evaluations 1 to `count`, separated by commas.
pub open spec fn q_eval_names(count: nat) -> Seq<char>
    decreases count,
{
    if count == 0 {
        Seq::empty()
    } else if count == 1 {
        "q_eval_on_x3_1"@
    } else {
        q_eval_names((count - 1) as nat) + ", "@ + "q_eval_on_x3_"@ + decimal(count)
    }
}

impl HMOSteps {
    /// Points and scalars the step reads from the proof.
    pub open spec fn spec_stat(self) -> (nat, nat) {
        match self {
            HMOSteps::PI => (1, 0),
            HMOSteps::FCommitment => (1, 0),
            HMOSteps::QEvals => (0, 1),
            _ => (0, 0),
        }
    }

    /// What the step costs.
    pub open spec fn spec_ops(self) -> OpCounts {
        match self {
            HMOSteps::PI | HMOSteps::FCommitment => OpCounts::read_point1(),
            HMOSteps::QEvals => OpCounts::read_scalar1(),
            _ => OpCounts::squeeze1(),
        }
    }

    /// Points and scalars the step reads from the proof.
    pub fn step_stat(&self) -> (r: (usize, usize))
        ensures
            r.0 == self.spec_stat().0 && r.1 == self.spec_stat().1,
    {
        match self {
            HMOSteps::PI => (1, 0),
            HMOSteps::FCommitment => (1, 0),
            HMOSteps::QEvals => (0, 1),
            _ => (0, 0),
        }
    }

    /// Accounts for the step: a challenge is squeezed (and the transcript
    /// size recorded), a point or a scalar is read.
    pub fn step_stat_operation(&self, stats: &mut CircuitStatistics)
        requires
            old(stats).room_for(self.spec_ops()),
        ensures
            final(stats).counts() == old(stats).counts().plus(self.spec_ops()),
            final(stats).hash@ == (if self.spec_ops() == OpCounts::squeeze1() {
                old(stats).hash@.push(old(stats).transcript_size)
            } else {
                old(stats).hash@
            }),
            final(stats).msm@ == old(stats).msm@,
            final(stats).same_header(old(stats)),
    {
        match self {
            HMOSteps::X1 | HMOSteps::X2 | HMOSteps::X3 | HMOSteps::X4 => stats.squeeze_challenge(),
            HMOSteps::PI | HMOSteps::FCommitment => stats.read_point(),
            HMOSteps::QEvals => stats.read_scalar(),
        }
    }
}

/// The evaluation counts of the commitments opened at point set `idx`, in
/// order; each commitment is given as the index of its point set and its
/// number of evaluations.
pub open spec fn set_evaluations(commitments: Seq<(usize, usize)>, idx: nat) -> Seq<usize>
    decreases commitments.len(),
{
    if commitments.len() == 0 {
        Seq::empty()
    } else if commitments.last().0 == idx {
        set_evaluations(commitments.drop_last(), idx).push(commitments.last().1)
    } else {
        set_evaluations(commitments.drop_last(), idx)
    }
}

/// The evaluation counts of the commitments, point set by point set.
pub open spec fn grouped_evaluations(nb_point_sets: nat, commitments: Seq<(usize, usize)>) -> Seq<Seq<usize>> {
    Seq::new(nb_point_sets, |i: int| set_evaluations(commitments, i as nat))
}

/// The largest number of commitments of a point set; 0 when there is none.
pub open spec fn max_commitments(m: Seq<Seq<usize>>) -> nat
    decreases m.len(),
{
    if m.len() == 0 {
        0
    } else {
        let r = max_commitments(m.drop_last());
        if m.last().len() > r {
            m.last().len()
        } else {
            r
        }
    }
}

impl Halo2MultiOpenScheme {
    /// Accounts for the operations of the multi-open verification, given the
    /// number of points of each point set and, for each commitment, the index
    /// of its point set and its number of evaluations: powers of x1 (the most
    /// commitments of a set) and of x4, the accumulation of the commitments
    /// set by set, the evaluation of f and v, and the final point
    /// operations. There must be at least one point set and every set must
    /// have a point.
    pub fn opening_stat_of_sets(stats: &mut CircuitStatistics, point_sets: &Vec<usize>, commitments: &Vec<(usize, usize)>)
        requires
            point_sets_ok(point_sets@),
            old(stats).room_for(
                H2MO::opening_ops(
                    grouped_evaluations(point_sets@.len(), commitments@),
                    max_commitments(grouped_evaluations(point_sets@.len(), commitments@)),
                    point_sets@,
                    point_sets@.len(),
                ),
            ),
        ensures
            final(stats).counts() == old(stats).counts().plus(
                H2MO::opening_ops(
                    grouped_evaluations(point_sets@.len(), commitments@),
                    max_commitments(grouped_evaluations(point_sets@.len(), commitments@)),
                    point_sets@,
                    point_sets@.len(),
                ),
            ),
            final(stats).hash@ == old(stats).hash@,
            final(stats).msm@ == old(stats).msm@ + H2MO::opening_msms(grouped_evaluations(point_sets@.len(), commitments@)),
            final(stats).same_header(old(stats)),
    {
        let n = point_sets.len();
        let ghost g = grouped_evaluations(n as nat, commitments@);
        let mut data: Vec<Vec<usize>> = Vec::new();
        let mut idx: usize = 0;
        while idx < n
            invariant
                idx <= n,
                n == point_sets@.len(),
                g == grouped_evaluations(n as nat, commitments@),
                map_view(data) == g.take(idx as int),
            decreases n - idx,
        {
            let mut evals: Vec<usize> = Vec::new();
            let m = commitments.len();
            let mut k: usize = 0;
            assert(commitments@.take(0) =~= Seq::<(usize, usize)>::empty());
            while k < m
                invariant
                    k <= m,
                    m == commitments@.len(),
                    evals@ == set_evaluations(commitments@.take(k as int), idx as nat),
                decreases m - k,
            {
                proof {
                    assert(commitments@.take(k + 1).drop_last() =~= commitments@.take(k as int));
                }
                if commitments[k].0 == idx {
                    evals.push(commitments[k].1);
                }
                k = k + 1;
            }
            assert(commitments@.take(m as int) =~= commitments@);
            assert(evals@ == g[idx as int]);
            let ghost before = map_view(data);
            data.push(evals);
            assert(map_view(data) =~= before.push(g[idx as int]));
            idx = idx + 1;
            assert(map_view(data) =~= g.take(idx as int));
        }
        assert(g.take(n as int) =~= g);
        let mut max: usize = 0;
        let mut i: usize = 0;
        assert(g.take(0) =~= Seq::<Seq<usize>>::empty());
        while i < n
            invariant
                i <= n,
                n == g.len(),
                map_view(data) == g,
                max == max_commitments(g.take(i as int)),
            decreases n - i,
        {
            proof {
                assert(g.take(i + 1).drop_last() =~= g.take(i as int));
                assert(g.take(i + 1).last() == data@[i as int]@);
            }
            if data[i].len() > max {
                max = data[i].len();
            }
            i = i + 1;
        }
        assert(g.take(n as int) =~= g);
        H2MO::compute_opening(stats, &data, max, point_sets, n);
    }
}

impl Halo2MultiOpenScheme {
    /// Accounts for the operations of the multi-open verification of the
    /// queries: they are grouped by commitment and point set, then costed
    /// as `opening_stat_of_sets` does. There must be a query, and no
    /// commitment may be queried twice at the same rotation.
    pub fn opening_stat(stats: &mut CircuitStatistics, queries: &Vec<Query>)
        requires
            queries@.len() > 0,
            no_repeated_query(queries@),
            old(stats).room_for(
                H2MO::opening_ops(
                    grouped_evaluations(set_sizes(queries@).len(), commitment_pairs(queries@)),
                    max_commitments(grouped_evaluations(set_sizes(queries@).len(), commitment_pairs(queries@))),
                    set_sizes(queries@),
                    set_sizes(queries@).len(),
                ),
            ),
        ensures
            final(stats).counts() == old(stats).counts().plus(
                H2MO::opening_ops(
                    grouped_evaluations(set_sizes(queries@).len(), commitment_pairs(queries@)),
                    max_commitments(grouped_evaluations(set_sizes(queries@).len(), commitment_pairs(queries@))),
                    set_sizes(queries@),
                    set_sizes(queries@).len(),
                ),
            ),
            final(stats).hash@ == old(stats).hash@,
            final(stats).msm@ == old(stats).msm@ + H2MO::opening_msms(
                grouped_evaluations(set_sizes(queries@).len(), commitment_pairs(queries@)),
            ),
            final(stats).same_header(old(stats)),
    {
        let (sets, data) = precompute_intermediate_sets(queries);
        let nb_queries = queries.len();
        proof {
            lemma_set_sizes_ok(queries@);
        }
        let mut sizes: Vec<usize> = Vec::new();
        let n = sets.len();
        let mut i: usize = 0;
        while i < n
            invariant
                i <= n,
                n == sets@.len(),
                sets_view(sets@) == distinct_sets(grouped_points(queries@)),
                sizes@ == set_sizes(queries@).take(i as int),
            decreases n - i,
        {
            sizes.push(sets[i].len());
            i = i + 1;
            assert(sizes@ =~= set_sizes(queries@).take(i as int));
        }
        assert(set_sizes(queries@).take(n as int) =~= set_sizes(queries@));
        let mut pairs: Vec<(usize, usize)> = Vec::new();
        let m = data.len();
        let mut j: usize = 0;
        while j < m
            invariant
                j <= m,
                m == data@.len(),
                data_view(data@) == spec_commitment_data(queries@),
                pairs@ == commitment_pairs(queries@).take(j as int),
            decreases m - j,
        {
            pairs.push((data[j].point_set_index, data[j].evaluations.len()));
            j = j + 1;
            assert(pairs@ =~= commitment_pairs(queries@).take(j as int));
        }
        assert(commitment_pairs(queries@).take(m as int) =~= commitment_pairs(queries@));
        Self::opening_stat_of_sets(stats, &sizes, &pairs);
    }
}

impl ExtractPCS for Halo2MultiOpenScheme {
    type PCSExtractionSteps = HMOSteps;

    type PCSData = HMOData;

    /// One q evaluation per point set.
    fn extract_pcs(nb_point_sets: usize, nb_points: usize) -> (r: (Vec<HMOSteps>, HMOData))
        ensures
            r.0@ == spec_hmo_steps(nb_point_sets as nat),
            r.1.q_evaluations_count == nb_point_sets,
    {
        let mut steps: Vec<HMOSteps> = Vec::new();
        steps.push(HMOSteps::X1);
        steps.push(HMOSteps::X2);
        steps.push(HMOSteps::FCommitment);
        steps.push(HMOSteps::X3);
        let ghost head = steps@;
        let mut i: usize = 0;
        while i < nb_point_sets
            invariant
                i <= nb_point_sets,
                steps@ == head + Seq::new(i as nat, |j: int| HMOSteps::QEvals),
            decreases nb_point_sets - i,
        {
            steps.push(HMOSteps::QEvals);
            i = i + 1;
            assert(steps@ =~= head + Seq::new(i as nat, |j: int| HMOSteps::QEvals));
        }
        steps.push(HMOSteps::X4);
        steps.push(HMOSteps::PI);
        assert(steps@ =~= spec_hmo_steps(nb_point_sets as nat));
        (steps, HMOData { q_evaluations_count: nb_point_sets })
    }

    fn step_to_aiken(step: HMOSteps, number: usize) -> (s: String)
        ensures
            s@ == hmo_aiken(step, number as nat),
    {
        match step {
            HMOSteps::X1 => String::from_str("    let (x1, transcript) = squeeze_challenge(transcript)\n"),
            HMOSteps::X2 => String::from_str("    let (x2, transcript) = squeeze_challenge(transcript)\n"),
            HMOSteps::X3 => String::from_str("    let (x3, transcript) = squeeze_challenge(transcript)\n"),
            HMOSteps::X4 => String::from_str("    let (x4, transcript) = squeeze_challenge(transcript)\n"),
            HMOSteps::PI => String::from_str("    let (pi_term, _) =  read_point(transcript)\n"),
            HMOSteps::FCommitment => String::from_str(
                "    let (f_commitment, transcript) =  read_point(transcript)\n",
            ),
            HMOSteps::QEvals => {
                let mut s = String::from_str("    let (q_eval_on_x3_");
                push_decimal(&mut s, number as u64);
                s.append(", transcript) = read_scalar(transcript)\n");
                s
            },
        }
    }

    fn step_to_plinth(step: HMOSteps, number: usize) -> (s: String)
        ensures
            s@ == hmo_plinth(step, number as nat),
    {
        match step {
            HMOSteps::X1 => String::from_str("  !x1 <- M.squeezeChallenge\n"),
            HMOSteps::X2 => String::from_str("  !x2 <- M.squeezeChallenge\n"),
            HMOSteps::X3 => String::from_str("  !x3 <- M.squeezeChallenge\n"),
            HMOSteps::X4 => String::from_str("  !x4 <- M.squeezeChallenge\n"),
            HMOSteps::PI => String::from_str("  !pi_term <- M.readPoint\n"),
            HMOSteps::FCommitment => String::from_str("  !f_commitment <- M.readPoint\n"),
            HMOSteps::QEvals => {
                let mut s = String::from_str("  !q_eval_on_x3_");
                push_decimal(&mut s, number as u64);
                s.append(" <- M.readScalar\n");
                s
            },
        }
    }

    fn pcs_data(data: &HMOData) -> (n: usize)
        ensures
            n == data.q_evaluations_count,
    {
        data.q_evaluations_count
    }

    fn pcs_data_aiken(data: &HMOData) -> (s: String)
        ensures
            s@ == q_eval_names(data.q_evaluations_count as nat),
    {
        let mut s = String::new();
        let n = data.q_evaluations_count;
        let mut i: usize = 0;
        while i < n
            invariant
                i <= n,
                s@ == q_eval_names(i as nat),
            decreases n - i,
        {
            if i > 0 {
                s.append(", ");
            }
            s.append("q_eval_on_x3_");
            push_decimal(&mut s, (i + 1) as u64);
            i = i + 1;
            proof {
                reveal_strlit("q_eval_on_x3_");
                reveal_strlit("q_eval_on_x3_1");
                if i == 1 {
                    reveal_with_fuel(decimal, 2);
                    assert(decimal(1) =~= seq!['1']);
                    assert(s@ =~= q_eval_names(1));
                } else {
                    assert(s@ =~= q_eval_names(i as nat));
                }
            }
        }
        s
    }

    fn pcs_data_plinth(data: &HMOData) -> (s: String)
        ensures
            s@ == q_eval_names(data.q_evaluations_count as nat),
    {
        Self::pcs_data_aiken(data)
    }

    fn pcs_type() -> (t: PCSType)
        ensures
            t == PCSType::Halo2MultiOpen,
    {
        PCSType::Halo2MultiOpen
    }
}

// ---------------------------------------------------------------------------
// Axiom's SHPLONK scheme.

/// Axiom's SHPLONK variant of KZG.
pub struct AxiomSHPLONKScheme;

/// The SHPLONK data: the number of rotation sets and of distinct points.
#[derive(Clone, Copy, Debug, Default, PartialEq, Eq, Structural)]
pub struct AxiomSHPLONKData {
    pub rotation_set_count: usize,
    pub super_point_count: usize,
}

/// The SHPLONK steps after the ordinary evaluations.
#[derive(Clone, Copy, Debug, PartialEq, Eq, Structural)]
pub enum AxiomSHPLONKSteps {
    Y,
    V,
    H1,
    U,
    H2,
}

/// A SHPLONK step in Aiken.
pub open spec fn shplonk_aiken(step: AxiomSHPLONKSteps) -> Seq<char> {
    match step {
        AxiomSHPLONKSteps::Y => "    let (shplonk_y, transcript) = squeeze_challenge(transcript)\n"@,
        AxiomSHPLONKSteps::V => "    let (v, transcript) = squeeze_challenge(transcript)\n"@,
        AxiomSHPLONKSteps::H1 => "    let (h1, transcript) = read_point(transcript)\n"@,
        AxiomSHPLONKSteps::U => "    let (u, transcript) = squeeze_challenge(transcript)\n"@,
        AxiomSHPLONKSteps::H2 => "    let (h2, transcript) = read_point(transcript)\n"@,
    }
}

/// A SHPLONK step in Plinth.
pub open spec fn shplonk_plinth(step: AxiomSHPLONKSteps) -> Seq<char> {
    match step {
        AxiomSHPLONKSteps::Y => "  !shplonk_y <- M.squeezeChallenge\n"@,
        AxiomSHPLONKSteps::V => "  !v <- M.squeezeChallenge\n"@,
        AxiomSHPLONKSteps::H1 => "  !h1 <- M.readPoint\n"@,
        AxiomSHPLONKSteps::U => "  !u <- M.squeezeChallenge\n"@,
        AxiomSHPLONKSteps::H2 => "  !h2 <- M.readPoint\n"@,
    }
}

/// The SHPLONK data as text.
pub open spec fn shplonk_data_text(d: AxiomSHPLONKData) -> Seq<char> {
    "rotation_sets="@ + decimal(d.rotation_set_count as nat) + ", super_points="@ + decimal(
        d.super_point_count as nat,
    )
}

impl ExtractPCS for AxiomSHPLONKScheme {
    type PCSExtractionSteps = AxiomSHPLONKSteps;

    type PCSData = AxiomSHPLONKData;

    /// The steps are y, v, h1, u and h2 whatever the circuit.
    fn extract_pcs(nb_point_sets: usize, nb_points: usize) -> (r: (Vec<AxiomSHPLONKSteps>, AxiomSHPLONKData))
        ensures
            r.0@ == seq![
                AxiomSHPLONKSteps::Y,
                AxiomSHPLONKSteps::V,
                AxiomSHPLONKSteps::H1,
                AxiomSHPLONKSteps::U,
                AxiomSHPLONKSteps::H2,
            ],
            r.1 == (AxiomSHPLONKData { rotation_set_count: nb_point_sets, super_point_count: nb_points }),
    {
        let mut steps: Vec<AxiomSHPLONKSteps> = Vec::new();
        steps.push(AxiomSHPLONKSteps::Y);
        steps.push(AxiomSHPLONKSteps::V);
        steps.push(AxiomSHPLONKSteps::H1);
        steps.push(AxiomSHPLONKSteps::U);
        steps.push(AxiomSHPLONKSteps::H2);
        (steps, AxiomSHPLONKData { rotation_set_count: nb_point_sets, super_point_count: nb_points })
    }

    fn step_to_aiken(step: AxiomSHPLONKSteps, number: usize) -> (s: String)
        ensures
            s@ == shplonk_aiken(step),
    {
        match step {
            AxiomSHPLONKSteps::Y => String::from_str(
                "    let (shplonk_y, transcript) = squeeze_challenge(transcript)\n",
            ),
            AxiomSHPLONKSteps::V => String::from_str("    let (v, transcript) = squeeze_challenge(transcript)\n"),
            AxiomSHPLONKSteps::H1 => String::from_str("    let (h1, transcript) = read_point(transcript)\n"),
            AxiomSHPLONKSteps::U => String::from_str("    let (u, transcript) = squeeze_challenge(transcript)\n"),
            AxiomSHPLONKSteps::H2 => String::from_str("    let (h2, transcript) = read_point(transcript)\n"),
        }
    }

    fn step_to_plinth(step: AxiomSHPLONKSteps, number: usize) -> (s: String)
        ensures
            s@ == shplonk_plinth(step),
    {
        match step {
            AxiomSHPLONKSteps::Y => String::from_str("  !shplonk_y <- M.squeezeChallenge\n"),
            AxiomSHPLONKSteps::V => String::from_str("  !v <- M.squeezeChallenge\n"),
            AxiomSHPLONKSteps::H1 => String::from_str("  !h1 <- M.readPoint\n"),
            AxiomSHPLONKSteps::U => String::from_str("  !u <- M.squeezeChallenge\n"),
            AxiomSHPLONKSteps::H2 => String::from_str("  !h2 <- M.readPoint\n"),
        }
    }

    fn pcs_data(data: &AxiomSHPLONKData) -> (n: usize)
        ensures
            n == data.rotation_set_count,
    {
        data.rotation_set_count
    }

    fn pcs_data_aiken(data: &AxiomSHPLONKData) -> (s: String)
        ensures
            s@ == shplonk_data_text(*data),
    {
        let mut s = String::from_str("rotation_sets=");
        push_decimal(&mut s, data.rotation_set_count as u64);
        s.append(", super_points=");
        push_decimal(&mut s, data.super_point_count as u64);
        s
    }

    fn pcs_data_plinth(data: &AxiomSHPLONKData) -> (s: String)
        ensures
            s@ == shplonk_data_text(*data),
    {
        Self::pcs_data_aiken(data)
    }

    fn pcs_type() -> (t: PCSType)
        ensures
            t == PCSType::AxiomSHPLONK,
    {
        PCSType::AxiomSHPLONK
    }
}

} // verus!
