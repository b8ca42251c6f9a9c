//! Cost of the lookup argument.

use vstd::prelude::*;

use super::arguments::{lemma_lookup_fold_ops_prefix, lookup_fold_ops};
use super::counts::OpCounts;
use super::expression::{Argument, ScalarExpression, ops_total, lemma_ops_total_prefix, lemma_ops_total_shape};
use super::primitives::{args_view, cur_next};
use super::rotation_set::RotationSet;
use super::statistics::CircuitStatistics;

verus! {

/// Which lookup scheme is in use.
#[derive(Clone, Copy, Debug, PartialEq, Eq, Structural)]
pub enum LookupType {
    PlookUp,
}

/// Number of rotations over a list of rotation sets.
pub open spec fn total_rotations(s: Seq<RotationSet>) -> nat
    decreases s.len(),
{
    if s.len() == 0 {
        0
    } else {
        total_rotations(s.drop_last()) + s.last().spec_count()
    }
}

/// Cost estimation interface for a lookup argument.
pub trait LookupEstimate {
    /// Degree of the lookup argument.
    spec fn spec_lookup_degree() -> nat;

    /// Rotation sets of the polynomials each lookup argument introduces.
    spec fn spec_rotations() -> Seq<RotationSet>;

    /// Cost of checking `nb_lookups` arguments with the given expressions.
    spec fn argument_ops(nb_lookups: int, args: Seq<Seq<ScalarExpression>>) -> OpCounts;

    /// The lookup scheme.
    spec fn spec_lookup_type() -> LookupType;

    fn lookup_type() -> (t: LookupType)
        ensures
            t == Self::spec_lookup_type(),
    ;

    fn lookup_degree() -> (d: usize)
        ensures
            d == Self::spec_lookup_degree(),
    ;

    fn lookup_poly_rotations() -> (r: Vec<RotationSet>)
        ensures
            r@ == Self::spec_rotations(),
    ;

    /// Accounts for the operations that check the lookup arguments.
    fn compute_argument(stats: &mut CircuitStatistics, nb_lookups: usize, lookup_expression_ops: Vec<Argument>)
        requires
            old(stats).room_for(Self::argument_ops(nb_lookups as int, args_view(lookup_expression_ops))),
        ensures
            CircuitStatistics::stepped(
                old(stats),
                final(stats),
                Self::argument_ops(nb_lookups as int, args_view(lookup_expression_ops)),
            ),
    ;

    /// Commitments the lookups contribute to the proof: one per polynomial.
    fn nb_commitments(nb_arguments: usize) -> (n: usize)
        requires
            nb_arguments * Self::spec_rotations().len() <= usize::MAX,
        ensures
            n == nb_arguments * Self::spec_rotations().len(),
    ;

    /// Evaluations the lookups contribute to the proof: one per polynomial and rotation.
    fn nb_evaluations(nb_arguments: usize) -> (n: usize)
        requires
            nb_arguments * total_rotations(Self::spec_rotations()) <= usize::MAX,
        ensures
            n == nb_arguments * total_rotations(Self::spec_rotations()),
    ;
}

/// The plookup argument.
pub struct PlookUp;

/// Cost of the fixed-shape constraints of `n` lookups.
pub open spec fn lookup_constraints_ops(n: int) -> OpCounts {
    OpCounts { sub: 6 * n, mul: 11 * n, add: 4 * n, ..OpCounts::zero() }
}

impl LookupEstimate for PlookUp {
    /// Unless stated otherwise a simple lookup `q_lookup * advice = table`:
    /// input degree 2, table degree 1, degree `max(4, 2 + 2 + 1)`.
    open spec fn spec_lookup_degree() -> nat {
        5
    }

    /// Z (product): {current, next}; permuted input: {previous, current};
    /// permuted table: {current}.
    open spec fn spec_rotations() -> Seq<RotationSet> {
        seq![cur_next(), RotationSet { first: false, prev: true, curr: true, next: false, last: false }, RotationSet::spec_curr()]
    }

    open spec fn argument_ops(nb_lookups: int, args: Seq<Seq<ScalarExpression>>) -> OpCounts {
        lookup_fold_ops(args).plus(lookup_constraints_ops(nb_lookups))
    }

    open spec fn spec_lookup_type() -> LookupType {
        LookupType::PlookUp
    }

    fn lookup_type() -> (t: LookupType)
        ensures
            t == LookupType::PlookUp,
    {
        LookupType::PlookUp
    }

    fn lookup_degree() -> (d: usize) {
        5
    }

    fn lookup_poly_rotations() -> (r: Vec<RotationSet>) {
        let r = vec![
            RotationSet::new(false, false, true, true, false),
            RotationSet::new(false, true, true, false, false),
            RotationSet::curr(),
        ];
        assert(r@ =~= Self::spec_rotations());
        r
    }

    fn compute_argument(stats: &mut CircuitStatistics, nb_lookups: usize, lookup_expression_ops: Vec<Argument>) {
        let ghost s0 = *old(stats);
        let ghost av = args_view(lookup_expression_ops);
        let n = lookup_expression_ops.len();
        let mut i: usize = 0;
        while i < n
            invariant
                i <= n,
                n == av.len(),
                av == args_view(lookup_expression_ops),
                s0.room_for(Self::argument_ops(nb_lookups as int, av)),
                CircuitStatistics::stepped(&s0, stats, lookup_fold_ops(av.take(i as int))),
            decreases n - i,
        {
            let arg = &lookup_expression_ops[i];
            let ghost a = arg@;
            assert(a == av[i as int]);
            proof {
                lemma_lookup_fold_ops_prefix(av, i + 1);
                assert(av.take(i + 1).drop_last() =~= av.take(i as int));
                assert(av.take(i + 1).last() == a);
                lemma_ops_total_shape(a);
            }
            let ghost base = stats.counts();
            let m = arg.len();
            let mut j: usize = 0;
            while j < m
                invariant
                    j <= m,
                    m == a.len(),
                    a == arg@,
                    s0.room_for(Self::argument_ops(nb_lookups as int, av)),
                    base == s0.counts().plus(lookup_fold_ops(av.take(i as int))),
                    base.plus(ops_total(a)).plus(OpCounts { add: 2 * (a.len() as int), mul: 2 * (a.len() as int), ..OpCounts::zero() }).le(
                        s0.counts().plus(lookup_fold_ops(av)),
                    ),
                    lookup_constraints_ops(nb_lookups as int).nonneg(),
                    ops_total(a).nonneg(),
                    stats.counts() == base.plus(ops_total(a.take(j as int))).plus(
                        OpCounts { add: 2 * j, mul: 2 * j, ..OpCounts::zero() },
                    ),
                    stats.hash@ == s0.hash@,
                    stats.msm@ == s0.msm@,
                    stats.same_header(&s0),
                decreases m - j,
            {
                proof {
                    lemma_ops_total_prefix(a, j + 1);
                    lemma_ops_total_shape(a.take(j + 1));
                    assert(a.take(j + 1).drop_last() =~= a.take(j as int));
                    assert(a.take(j + 1).last() == a[j as int]);
                }
                stats.add_scalar();
                stats.add_scalar();
                stats.mul_scalar();
                stats.mul_scalar();
                // input and table expressions merged together
                stats.consume_expression(&arg[j]);
                j = j + 1;
            }
            assert(a.take(m as int) =~= a);
            i = i + 1;
        }
        assert(av.take(n as int) =~= av);
        // fixed-shape constraints of each lookup
        let mut k: usize = 0;
        while k < nb_lookups
            invariant
                k <= nb_lookups,
                av == args_view(lookup_expression_ops),
                s0.room_for(Self::argument_ops(nb_lookups as int, av)),
                CircuitStatistics::stepped(&s0, stats, lookup_fold_ops(av).plus(lookup_constraints_ops(k as int))),
            decreases nb_lookups - k,
        {
            stats.sub_scalar();  // l1: 1 - product_eval
            stats.mul_scalar();
            stats.mul_scalar();  // l2: product_eval^2
            stats.sub_scalar();
            stats.mul_scalar();
            stats.add_scalar();  // lookup_left: + beta
            stats.add_scalar();  //              + gamma
            stats.mul_scalar();
            stats.mul_scalar();
            stats.add_scalar();  // lookup_right: + beta
            stats.add_scalar();  //               + gamma
            stats.mul_scalar();
            stats.mul_scalar();
            stats.sub_scalar();  // l3: left - right
            stats.mul_scalar();  //     * active_rows
            stats.sub_scalar();  // l4
            stats.mul_scalar();
            stats.sub_scalar();  // l5
            stats.mul_scalar();
            stats.sub_scalar();
            stats.mul_scalar();
            k = k + 1;
        }
    }

    fn nb_commitments(nb_arguments: usize) -> (n: usize) {
        Self::lookup_poly_rotations().len() * nb_arguments
    }

    fn nb_evaluations(nb_arguments: usize) -> (n: usize) {
        let rots = Self::lookup_poly_rotations();
        let mut per: usize = 0;
        let mut i: usize = 0;
        while i < rots.len()
            invariant
                i <= rots@.len(),
                rots@ == Self::spec_rotations(),
                per == total_rotations(rots@.take(i as int)),
                per <= 5 * i,
                i <= 3,
            decreases rots@.len() - i,
        {
            assert(rots@.take(i + 1).drop_last() =~= rots@.take(i as int));
            per = per + rots[i].count();
            i = i + 1;
        }
        assert(rots@.take(3) =~= rots@);
        assert(per == 5) by {
            reveal_with_fuel(total_rotations, 4);
            assert(rots@.drop_last() =~= seq![cur_next(), RotationSet { first: false, prev: true, curr: true, next: false, last: false }]);
        }
        assert(per * nb_arguments == nb_arguments * total_rotations(Self::spec_rotations())) by (nonlinear_arith)
            requires
                per == total_rotations(Self::spec_rotations()),
        ;
        per * nb_arguments
    }
}

/// Each plookup argument has three polynomials and five evaluations.
pub proof fn lemma_plookup_rotations()
    ensures
        PlookUp::spec_rotations().len() == 3,
        total_rotations(PlookUp::spec_rotations()) == 5,
{
    let r = PlookUp::spec_rotations();
    reveal_with_fuel(total_rotations, 4);
    assert(r.drop_last() =~= seq![cur_next(), RotationSet { first: false, prev: true, curr: true, next: false, last: false }]);
    assert(r.drop_last().drop_last() =~= seq![cur_next()]);
    assert(r.drop_last().drop_last().drop_last() =~= Seq::<RotationSet>::empty());
}

} // verus!
