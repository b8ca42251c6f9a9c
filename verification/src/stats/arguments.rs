//! Costs of the PLONK arguments: permutation, proof extraction, trashcans and
//! the vanishing argument.

use vstd::prelude::*;

use super::counts::OpCounts;
use super::expression::{Argument, ScalarExpression, ops_total, lemma_ops_total_shape, lemma_ops_total_prefix};
use super::primitives::{args_view, cur_next};
use super::rotation_set::RotationSet;
use super::statistics::{CircuitStatistics, common_g1s_ops, common_scalars_ops, inner_product_ops, lagrange_basis_ops, read_points_ops, read_scalars_ops, rotates_ops};

verus! {

/// Degree of the permutation argument.
pub const PERM_DEGREE: usize = 3;

/// `ceil(a / b)` for `b > 0`.
pub open spec fn ceil_div(a: int, b: int) -> int {
    (a + b - 1) / b
}

/// `ceil(a / b)`.
pub fn div_ceil(a: usize, b: usize) -> (r: usize)
    requires
        b > 0,
    ensures
        r == ceil_div(a as int, b as int),
{
    let q = a / b;
    if a % b == 0 {
        assert(q == ceil_div(a as int, b as int)) by (nonlinear_arith)
            requires
                q == a / b,
                a % b == 0,
                b > 0,
        ;
        q
    } else {
        assert(q < a) by (nonlinear_arith)
            requires
                q == a / b,
                a % b != 0,
                b > 0,
        ;
        assert(q + 1 == ceil_div(a as int, b as int)) by (nonlinear_arith)
            requires
                q == a / b,
                a % b != 0,
                b > 0,
        ;
        q + 1
    }
}

/// `ceil_div(a, b)` is the rounded-up quotient: the fewest groups of `b`
/// that hold `a` items.
pub proof fn lemma_ceil_div(a: int, b: int)
    requires
        a >= 0,
        b >= 1,
    ensures
        ceil_div(a, b) * b >= a,
        (ceil_div(a, b) - 1) * b < a || a == 0,
        a == 0 ==> ceil_div(a, b) == 0,
{
    let q = ceil_div(a, b);
    assert(q * b >= a && ((q - 1) * b < a || a == 0)) by (nonlinear_arith)
        requires
            q == (a + b - 1) / b,
            a >= 0,
            b >= 1,
    ;
    assert(a == 0 ==> q == 0) by (nonlinear_arith)
        requires
            q == (a + b - 1) / b,
            b >= 1,
    ;
}

/// Number of permutation chunks for `cc` copy-constrained columns at degree `deg`.
pub open spec fn nb_chunks(cc: int, deg: int) -> int {
    ceil_div(cc, deg - 2)
}

pub proof fn lemma_nb_chunks(cc: int, deg: int)
    requires
        deg >= 3,
        cc >= 0,
    ensures
        0 <= nb_chunks(cc, deg) <= cc,
        cc > 0 ==> nb_chunks(cc, deg) >= 1,
{
    let b = deg - 2;
    assert(0 <= (cc + b - 1) / b <= cc) by (nonlinear_arith)
        requires
            b >= 1,
            cc >= 0,
    ;
    assert(cc > 0 ==> (cc + b - 1) / b >= 1) by (nonlinear_arith)
        requires
            b >= 1,
            cc >= 0,
    ;
}

/// Rotation sets of the permutation products: (current, next) for the first,
/// (current, next, last) for the others.
pub fn perm_poly_rotations() -> (r: Vec<RotationSet>)
    ensures
        r@ == seq![cur_next(), RotationSet { last: true, ..cur_next() }],
{
    let r = vec![RotationSet::new(false, false, true, true, false), RotationSet::new(false, false, true, true, true)];
    assert(r@ =~= seq![cur_next(), RotationSet { last: true, ..cur_next() }]);
    r
}

/// Commitments the permutation argument adds to the verification key: one per
/// copy-constrained column.
pub fn nb_perm_commitments_vk(nb_copy_constrained: usize) -> (n: usize)
    ensures
        n == nb_copy_constrained,
{
    nb_copy_constrained
}

/// Commitments the permutation argument adds to the proof: one per chunk of
/// `circuit_degree - 2` columns.
pub fn nb_perm_commitments(nb_copy_constrained: usize, circuit_degree: usize) -> (n: usize)
    requires
        circuit_degree >= 3,
    ensures
        n == nb_chunks(nb_copy_constrained as int, circuit_degree as int),
{
    div_ceil(nb_copy_constrained, circuit_degree - 2)
}

/// Evaluations the permutation argument adds to the proof.
pub open spec fn spec_nb_perm_evaluations(cc: int, deg: int) -> int {
    cc + 3 * nb_chunks(cc, deg) - 1
}

/// Evaluations the permutation argument adds to the proof: one per column,
/// and three per chunk but one.
pub fn nb_perm_evaluations(nb_copy_constrained: usize, circuit_degree: usize) -> (n: usize)
    requires
        circuit_degree >= 3,
        nb_copy_constrained >= 1,
        4 * nb_copy_constrained <= usize::MAX,
    ensures
        n == spec_nb_perm_evaluations(nb_copy_constrained as int, circuit_degree as int),
{
    proof {
        lemma_nb_chunks(nb_copy_constrained as int, circuit_degree as int);
    }
    let nb_common = nb_copy_constrained;
    let nb_cross_terms = 3 * div_ceil(nb_copy_constrained, circuit_degree - 2) - 1;
    nb_common + nb_cross_terms
}

/// Cost of evaluating the permutation argument's terms.
pub open spec fn permutation_ops(cc: int, deg: int) -> OpCounts {
    let np = nb_chunks(cc, deg);
    OpCounts {
        mul: 2 + 2 * np + 5 * cc,
        add: 1 + 2 * np + 4 * cc,
        neg: 1 + np,
        pow: cc,
        sub: 2 * np,
        ..OpCounts::zero()
    }
}

/// Accounts for the evaluation of the permutation argument.
pub fn evaluate_permutation_terms(stats: &mut CircuitStatistics, nb_copy_constrained: usize, circuit_degree: usize)
    requires
        circuit_degree >= 3,
        nb_copy_constrained >= 1,
        old(stats).room_for(permutation_ops(nb_copy_constrained as int, circuit_degree as int)),
    ensures
        CircuitStatistics::stepped(
            old(stats),
            final(stats),
            permutation_ops(nb_copy_constrained as int, circuit_degree as int),
        ),
{
    let ghost s0 = *old(stats);
    let cc = nb_copy_constrained;
    proof {
        lemma_nb_chunks(cc as int, circuit_degree as int);
    }
    let nb_permutations = div_ceil(cc, circuit_degree - 2);
    let ghost total = permutation_ops(cc as int, circuit_degree as int);
    // first set: l_0(X) * (1 - z_0(X))
    stats.mul_scalar();
    stats.add_scalar();
    stats.neg_scalar();
    // last set: l_last(X) * (z_l(X)^2 - z_l(X))
    stats.mul_scalar();
    stats.mul_scalar();
    stats.add_scalar();
    stats.neg_scalar();
    // every set but the first: l_0(X) * (z_i(X) - z_{i-1}(omega^last X))
    let mut i: usize = 0;
    while i < nb_permutations - 1
        invariant
            i <= nb_permutations - 1,
            nb_permutations >= 1,
            nb_permutations == nb_chunks(cc as int, circuit_degree as int),
            nb_permutations <= cc,
            total == permutation_ops(cc as int, circuit_degree as int),
            s0.room_for(total),
            CircuitStatistics::stepped(&s0, stats, OpCounts { mul: 3 + i, add: 2 + i, neg: 2 + i, ..OpCounts::zero() }),
        decreases nb_permutations - 1 - i,
    {
        stats.mul_scalar();
        stats.add_scalar();
        stats.neg_scalar();
        i = i + 1;
    }
    let ghost b1 = OpCounts { mul: 2 + nb_permutations, add: 1 + nb_permutations, neg: 1 + nb_permutations, ..OpCounts::zero() };
    assert(CircuitStatistics::stepped(&s0, stats, b1));
    // left terms: beta * perm_common + eval + gamma, then the product
    let mut i: usize = 0;
    while i < cc
        invariant
            i <= cc,
            total == permutation_ops(cc as int, circuit_degree as int),
            s0.room_for(total),
            nb_permutations == nb_chunks(cc as int, circuit_degree as int),
            1 <= nb_permutations <= cc,
            b1 == (OpCounts { mul: 2 + nb_permutations, add: 1 + nb_permutations, neg: 1 + nb_permutations, ..OpCounts::zero() }),
            CircuitStatistics::stepped(&s0, stats, b1.plus(OpCounts { mul: i as int, add: 2 * i, ..OpCounts::zero() })),
        decreases cc - i,
    {
        stats.mul_scalar();
        stats.add_scalar();
        stats.add_scalar();
        i = i + 1;
    }
    stats.mul_scalar_times(cc);
    // right terms: delta^i * beta * x + eval + gamma, then the product
    let ghost b2 = b1.plus(OpCounts { mul: 2 * cc, add: 2 * cc, ..OpCounts::zero() });
    let mut i: usize = 0;
    while i < cc
        invariant
            i <= cc,
            total == permutation_ops(cc as int, circuit_degree as int),
            s0.room_for(total),
            nb_permutations == nb_chunks(cc as int, circuit_degree as int),
            1 <= nb_permutations <= cc,
            b1 == (OpCounts { mul: 2 + nb_permutations, add: 1 + nb_permutations, neg: 1 + nb_permutations, ..OpCounts::zero() }),
            b2 == b1.plus(OpCounts { mul: 2 * cc, add: 2 * cc, ..OpCounts::zero() }),
            CircuitStatistics::stepped(&s0, stats, b2.plus(OpCounts { pow: i as int, mul: 2 * i, add: 2 * i, ..OpCounts::zero() })),
        decreases cc - i,
    {
        stats.pow_scalar();
        stats.add_scalar();
        stats.add_scalar();
        stats.mul_scalar();
        stats.mul_scalar();
        i = i + 1;
    }
    stats.mul_scalar_times(cc);
    // (left_i - right_i) * (1 - (l_last + l_blind))
    let ghost b3 = b2.plus(OpCounts { pow: cc as int, mul: 3 * cc, add: 2 * cc, ..OpCounts::zero() });
    let mut i: usize = 0;
    while i < nb_permutations
        invariant
            i <= nb_permutations,
            total == permutation_ops(cc as int, circuit_degree as int),
            s0.room_for(total),
            nb_permutations == nb_chunks(cc as int, circuit_degree as int),
            1 <= nb_permutations <= cc,
            b1 == (OpCounts { mul: 2 + nb_permutations, add: 1 + nb_permutations, neg: 1 + nb_permutations, ..OpCounts::zero() }),
            b2 == b1.plus(OpCounts { mul: 2 * cc, add: 2 * cc, ..OpCounts::zero() }),
            b3 == b2.plus(OpCounts { pow: cc as int, mul: 3 * cc, add: 2 * cc, ..OpCounts::zero() }),
            CircuitStatistics::stepped(&s0, stats, b3.plus(OpCounts { mul: i as int, sub: 2 * i, add: i as int, ..OpCounts::zero() })),
        decreases nb_permutations - i,
    {
        stats.mul_scalar();
        stats.sub_scalar();
        stats.sub_scalar();
        stats.add_scalar();
        i = i + 1;
    }
}

/// Cost of absorbing the verification key and the inputs.
pub open spec fn absorb_ops(nb_public_inputs: int, nb_committed_instances: int) -> OpCounts {
    common_scalars_ops(2 + nb_public_inputs).plus(common_g1s_ops(nb_committed_instances)).plus(OpCounts::from_int1())
}

/// Absorbs the verification key hash, the committed instances, the number of
/// public inputs and the public inputs.
pub fn absorb_vk_and_inputs(stats: &mut CircuitStatistics, nb_public_inputs: usize, nb_committed_instances: usize)
    requires
        old(stats).room_for(absorb_ops(nb_public_inputs as int, nb_committed_instances as int)),
        nb_public_inputs + 2 <= usize::MAX,
    ensures
        CircuitStatistics::stepped(old(stats), final(stats), absorb_ops(nb_public_inputs as int, nb_committed_instances as int)),
{
    let ghost s0 = *old(stats);
    // vk hash
    stats.common_scalar();
    // committed instances
    stats.common_g1s(nb_committed_instances);
    // number of public inputs, converted to a scalar
    stats.from_int_scalar();
    stats.common_scalar();
    // public inputs
    stats.common_scalars(nb_public_inputs);
    assert(stats.counts() == s0.counts().plus(absorb_ops(nb_public_inputs as int, nb_committed_instances as int)));
}

/// Points the proof holds outside the commitment scheme's own.
pub open spec fn pes_points(a: int, l: int, deg: int, cc: int, trash: int) -> int {
    a + 3 * l + nb_chunks(cc, deg) + trash + deg
}

/// Scalars the proof holds outside the commitment scheme's own.
pub open spec fn pes_scalars(evals: int, l: int, deg: int, cc: int, trash: int, ci: int) -> int {
    (if ci > 0 { 1int } else { 0int }) + evals + 1 + spec_nb_perm_evaluations(cc, deg) + 5 * l + trash
}

/// Cost of computing the instance evaluation.
pub open spec fn instance_ops(pi: int) -> OpCounts {
    if pi > 0 {
        rotates_ops(pi + 1).plus(lagrange_basis_ops(pi + 1)).plus(inner_product_ops(pi + 1))
    } else {
        OpCounts::from_int1()
    }
}

/// Cost of extracting the proof's commitments and evaluations (outside the
/// commitment scheme) and of computing the instance evaluation.
pub open spec fn pes_ops(a: int, l: int, deg: int, cc: int, trash: int, evals: int, pi: int, ci: int) -> OpCounts {
    read_points_ops(pes_points(a, l, deg, cc, trash)).plus(OpCounts { decompress: deg - 1, from_bytes: 12, pow: 1, mul: 1, ..OpCounts::zero() }).plus(
        instance_ops(pi),
    ).plus(read_scalars_ops(pes_scalars(evals, l, deg, cc, trash, ci)))
}

/// Transcript sizes hashed by the six challenges squeezed while extracting the
/// proof (theta, beta, gamma, the trash challenge, y and x), from a transcript
/// of `t0` bytes.
pub open spec fn pes_hashes(t0: int, a: int, l: int, deg: int, cc: int, trash: int) -> Seq<usize> {
    let t1 = t0 + 48 * a;
    let t2 = t1 + 96 * l;
    let t3 = t2 + 48 * nb_chunks(cc, deg) + 48 * l;
    let t4 = t3 + 48 * trash + 48;
    let t5 = t4 + 48 * (deg - 1);
    seq![t1 as usize, t2 as usize, t2 as usize, t3 as usize, t4 as usize, t5 as usize]
}

/// Extracts the commitments and evaluations that do not belong to the
/// commitment scheme, and computes the instance evaluation.
#[verifier::rlimit(50)]
pub fn process_pes(
    stats: &mut CircuitStatistics,
    nb_advice: usize,
    nb_lookups: usize,
    circuit_degree: usize,
    nb_copy_constrained: usize,
    nb_trash_args: usize,
    nb_advice_fixed_evals: usize,
    nb_public_inputs: usize,
    nb_committed_instances: usize,
)
    requires
        circuit_degree >= 3,
        nb_copy_constrained >= 1,
        4 * nb_copy_constrained <= usize::MAX,
        old(stats).room_for(
            pes_ops(
                nb_advice as int,
                nb_lookups as int,
                circuit_degree as int,
                nb_copy_constrained as int,
                nb_trash_args as int,
                nb_advice_fixed_evals as int,
                nb_public_inputs as int,
                nb_committed_instances as int,
            ),
        ),
    ensures
        final(stats).counts() == old(stats).counts().plus(
            pes_ops(
                nb_advice as int,
                nb_lookups as int,
                circuit_degree as int,
                nb_copy_constrained as int,
                nb_trash_args as int,
                nb_advice_fixed_evals as int,
                nb_public_inputs as int,
                nb_committed_instances as int,
            ),
        ),
        final(stats).hash@ == old(stats).hash@ + pes_hashes(
            old(stats).transcript_size as int,
            nb_advice as int,
            nb_lookups as int,
            circuit_degree as int,
            nb_copy_constrained as int,
            nb_trash_args as int,
        ),
        final(stats).msm@ == old(stats).msm@,
        final(stats).same_header(old(stats)),
{
    let ghost s0 = *old(stats);
    let ghost a = nb_advice as int;
    let ghost l = nb_lookups as int;
    let ghost deg = circuit_degree as int;
    let ghost cc = nb_copy_constrained as int;
    let ghost tr = nb_trash_args as int;
    let ghost np = nb_chunks(cc, deg);
    let ghost points = pes_points(a, l, deg, cc, tr);
    let ghost scalars = pes_scalars(nb_advice_fixed_evals as int, l, deg, cc, tr, nb_committed_instances as int);
    let ghost total = pes_ops(a, l, deg, cc, tr, nb_advice_fixed_evals as int, nb_public_inputs as int, nb_committed_instances as int);
    let ghost inst = instance_ops(nb_public_inputs as int);
    let ghost h = pes_hashes(s0.transcript_size as int, a, l, deg, cc, tr);
    proof {
        lemma_nb_chunks(cc, deg);
        lemma_instance_ops_nonneg(nb_public_inputs as int);
    }
    let nb_perms = div_ceil(nb_copy_constrained, circuit_degree - 2);
    // advice commitments
    stats.read_points(nb_advice);
    // theta
    stats.squeeze_challenge();
    assert(stats.hash@ =~= s0.hash@ + h.take(1));
    // permuted input and table commitments of each lookup
    stats.read_points(2 * nb_lookups);
    // beta, gamma
    stats.squeeze_challenge();
    assert(stats.hash@ =~= s0.hash@ + h.take(2));
    stats.squeeze_challenge();
    assert(stats.hash@ =~= s0.hash@ + h.take(3));
    // permutation products
    stats.read_points(nb_perms);
    // lookup products
    stats.read_points(nb_lookups);
    // trash challenge, then the trashcan commitments
    stats.squeeze_challenge();
    assert(stats.hash@ =~= s0.hash@ + h.take(4));
    stats.read_points(nb_trash_args);
    // vanishing randomness
    stats.read_point();
    // y
    stats.squeeze_challenge();
    assert(stats.hash@ =~= s0.hash@ + h.take(5));
    // vanishing splits
    let mut i: usize = 0;
    while i < circuit_degree - 1
        invariant
            i <= circuit_degree - 1,
            circuit_degree >= 3,
            stats.msm@ == s0.msm@,
            stats.same_header(&s0),
            s0.room_for(total),
            total == pes_ops(a, l, deg, cc, tr, nb_advice_fixed_evals as int, nb_public_inputs as int, nb_committed_instances as int),
            inst == instance_ops(nb_public_inputs as int),
            inst.nonneg(),
            np == nb_chunks(cc, deg),
            np >= 1,
            scalars == pes_scalars(nb_advice_fixed_evals as int, l, deg, cc, tr, nb_committed_instances as int),
            scalars >= 0,
            points >= deg - 1,
            deg == circuit_degree,
            h == pes_hashes(s0.transcript_size as int, a, l, deg, cc, tr),
            stats.hash@ == s0.hash@ + h.take(5),
            points == pes_points(a, l, deg, cc, tr),
            stats.counts() == s0.counts().plus(read_points_ops(points - (deg - 1) + i)).plus(
                OpCounts { decompress: i as int, from_bytes: 10, ..OpCounts::zero() },
            ),
        decreases circuit_degree - 1 - i,
    {
        stats.read_point();
        stats.decompress_point();
        i = i + 1;
    }
    // x, then x^(n-1) and x^n
    stats.squeeze_challenge();
    assert(stats.hash@ =~= s0.hash@ + h);
    stats.pow_scalar();
    stats.mul_scalar();
    // committed instance evaluation
    if nb_committed_instances > 0 {
        stats.read_scalar();
    }
    // instance evaluation
    if nb_public_inputs > 0 {
        stats.rotate_omegas(nb_public_inputs + 1);
        stats.lagrange_polynomial_basis(nb_public_inputs + 1);
        stats.inner_product(nb_public_inputs + 1);
    } else {
        stats.from_int_scalar();
    }
    // advice and fixed evaluations, one per rotation
    stats.read_scalars(nb_advice_fixed_evals);
    // vanishing random evaluation
    stats.read_scalar();
    // permutation common evaluations, then the products' evaluations
    stats.read_scalars(nb_copy_constrained);
    stats.read_scalars(3 * nb_perms - 1);
    // lookup evaluations: product, next product, permuted input, previous permuted input, permuted table
    stats.read_scalars(5 * nb_lookups);
    // trashcan evaluations
    stats.read_scalars(nb_trash_args);
}

pub proof fn lemma_instance_ops_nonneg(pi: int)
    requires
        pi >= 0,
    ensures
        instance_ops(pi).nonneg(),
{
}


/// Degree of the trashcan argument.
pub const TRASH_DEGREE: usize = 2;

/// Commitments the trashcan argument adds to the proof: one per argument.
pub fn nb_trash_commitments(nb_trashcans: usize) -> (n: usize)
    ensures
        n == nb_trashcans,
{
    nb_trashcans
}

/// Evaluations the trashcan argument adds to the proof: one per argument.
pub fn nb_trash_evaluations(nb_trashcans: usize) -> (n: usize)
    ensures
        n == nb_trashcans,
{
    nb_trashcans
}

/// Cost of checking one trashcan argument: each expression is evaluated and
/// folded with the challenge, then `compressed - (1 - q) * trash_eval`.
pub open spec fn trash_arg_ops(a: Seq<ScalarExpression>) -> OpCounts {
    ops_total(a).plus(OpCounts { mul: a.len() + 1int, add: a.len() as int, sub: 2, ..OpCounts::zero() })
}

/// Cost of checking every trashcan argument.
pub open spec fn trash_ops(args: Seq<Seq<ScalarExpression>>) -> OpCounts
    decreases args.len(),
{
    if args.len() == 0 {
        OpCounts::zero()
    } else {
        trash_ops(args.drop_last()).plus(trash_arg_ops(args.last()))
    }
}

/// Cost of folding every lookup argument's expressions: two additions, two
/// multiplications and the expression itself, per expression.
pub open spec fn lookup_fold_ops(args: Seq<Seq<ScalarExpression>>) -> OpCounts
    decreases args.len(),
{
    if args.len() == 0 {
        OpCounts::zero()
    } else {
        lookup_fold_ops(args.drop_last()).plus(ops_total(args.last())).plus(
            OpCounts { add: 2 * (args.last().len() as int), mul: 2 * (args.last().len() as int), ..OpCounts::zero() },
        )
    }
}

pub proof fn lemma_trash_ops_prefix(args: Seq<Seq<ScalarExpression>>, i: int)
    requires
        0 <= i <= args.len(),
    ensures
        trash_ops(args.take(i)).le(trash_ops(args)),
        trash_ops(args.take(i)).nonneg(),
    decreases args.len() - i,
{
    if i < args.len() {
        lemma_trash_ops_prefix(args, i + 1);
        assert(args.take(i + 1).drop_last() =~= args.take(i));
        lemma_ops_total_shape(args[i]);
        assert(args.take(i + 1).last() == args[i]);
    } else {
        assert(args.take(i) =~= args);
    }
    lemma_trash_ops_nonneg(args.take(i));
}

pub proof fn lemma_trash_ops_nonneg(args: Seq<Seq<ScalarExpression>>)
    ensures
        trash_ops(args).nonneg(),
        trash_ops(args).transcript == 0,
    decreases args.len(),
{
    if args.len() > 0 {
        lemma_trash_ops_nonneg(args.drop_last());
        lemma_ops_total_shape(args.last());
    }
}

pub proof fn lemma_lookup_fold_ops_prefix(args: Seq<Seq<ScalarExpression>>, i: int)
    requires
        0 <= i <= args.len(),
    ensures
        lookup_fold_ops(args.take(i)).le(lookup_fold_ops(args)),
        lookup_fold_ops(args.take(i)).nonneg(),
    decreases args.len() - i,
{
    if i < args.len() {
        lemma_lookup_fold_ops_prefix(args, i + 1);
        assert(args.take(i + 1).drop_last() =~= args.take(i));
        lemma_ops_total_shape(args[i]);
        assert(args.take(i + 1).last() == args[i]);
    } else {
        assert(args.take(i) =~= args);
    }
    lemma_lookup_fold_ops_nonneg(args.take(i));
}

pub proof fn lemma_lookup_fold_ops_nonneg(args: Seq<Seq<ScalarExpression>>)
    ensures
        lookup_fold_ops(args).nonneg(),
        lookup_fold_ops(args).transcript == 0,
    decreases args.len(),
{
    if args.len() > 0 {
        lemma_lookup_fold_ops_nonneg(args.drop_last());
        lemma_ops_total_shape(args.last());
    }
}

/// Checks every trashcan argument.
pub fn compute_trashcans(stats: &mut CircuitStatistics, trashcan_args: Vec<Argument>)
    requires
        old(stats).room_for(trash_ops(args_view(trashcan_args))),
    ensures
        CircuitStatistics::stepped(old(stats), final(stats), trash_ops(args_view(trashcan_args))),
{
    let ghost s0 = *old(stats);
    let ghost av = args_view(trashcan_args);
    let n = trashcan_args.len();
    let mut i: usize = 0;
    while i < n
        invariant
            i <= n,
            n == av.len(),
            av == args_view(trashcan_args),
            s0.room_for(trash_ops(av)),
            CircuitStatistics::stepped(&s0, stats, trash_ops(av.take(i as int))),
        decreases n - i,
    {
        let arg = &trashcan_args[i];
        let ghost a = arg@;
        assert(a == av[i as int]);
        proof {
            lemma_trash_ops_prefix(av, i + 1);
            assert(av.take(i + 1).drop_last() =~= av.take(i as int));
            assert(av.take(i + 1).last() == a);
            lemma_ops_total_shape(a);
        }
        let ghost base = stats.counts();
        let m = arg.len();
        let mut j: usize = 0;
        while j < m
            invariant
                j <= m,
                m == a.len(),
                a == arg@,
                s0.room_for(trash_ops(av)),
                base == s0.counts().plus(trash_ops(av.take(i as int))),
                base.plus(trash_arg_ops(a)).le(s0.counts().plus(trash_ops(av))),
                ops_total(a).nonneg(),
                stats.counts() == base.plus(ops_total(a.take(j as int))).plus(
                    OpCounts { mul: j as int, add: j as int, ..OpCounts::zero() },
                ),
                stats.hash@ == s0.hash@,
                stats.msm@ == s0.msm@,
                stats.same_header(&s0),
            decreases m - j,
        {
            proof {
                lemma_ops_total_prefix(a, j + 1);
                lemma_ops_total_shape(a.take(j + 1));
                assert(a.take(j + 1).drop_last() =~= a.take(j as int));
                assert(a.take(j + 1).last() == a[j as int]);
            }
            stats.consume_expression(&arg[j]);
            stats.mul_scalar();
            stats.add_scalar();
            j = j + 1;
        }
        assert(a.take(m as int) =~= a);
        stats.sub_scalar();
        stats.mul_scalar();
        stats.sub_scalar();
        i = i + 1;
    }
    assert(av.take(n as int) =~= av);
}

/// Commitments the vanishing argument adds to the proof: the random
/// polynomial and `circuit_degree - 1` splits.
pub fn nb_vanish_commitments(circuit_degree: usize) -> (n: usize)
    requires
        circuit_degree >= 1,
    ensures
        n == circuit_degree,
{
    let nb_random: usize = 1;
    let nb_splits = circuit_degree - 1;
    nb_random + nb_splits
}

/// Evaluations the vanishing argument adds to the proof: the random polynomial's.
pub fn nb_vanish_evaluations() -> (n: usize)
    ensures
        n == 1,
{
    1
}

/// Cost of combining every constraint into the vanishing check.
pub open spec fn vanishing_ops(gates: int, perms: int, lookups: int, trash: int, deg: int) -> OpCounts {
    let total = gates + 1 + 2 * perms + 5 * lookups + trash;
    OpCounts {
        add: total,
        mul: total + 1,
        sub: 1,
        inv: 1,
        mul_point: deg - 1,
        add_point: deg - 1,
        compress: 1,
        ..OpCounts::zero()
    }
}

/// Combines every constraint (gates, permutation terms, lookups, trashcans)
/// with the challenge `y`, divides by `x^n - 1`, and batches the split
/// commitments.
pub fn compute_vanishing(
    stats: &mut CircuitStatistics,
    nb_gate_equations: usize,
    nb_permutations: usize,
    nb_lookups: usize,
    nb_trash_args: usize,
    circuit_degree: usize,
)
    requires
        circuit_degree >= 1,
        old(stats).room_for(vanishing_ops(nb_gate_equations as int, nb_permutations as int, nb_lookups as int, nb_trash_args as int, circuit_degree as int)),
    ensures
        CircuitStatistics::stepped(
            old(stats),
            final(stats),
            vanishing_ops(nb_gate_equations as int, nb_permutations as int, nb_lookups as int, nb_trash_args as int, circuit_degree as int),
        ),
{
    let ghost s0 = *old(stats);
    let ghost d = vanishing_ops(nb_gate_equations as int, nb_permutations as int, nb_lookups as int, nb_trash_args as int, circuit_degree as int);
    // one addition and one multiplication per expression: gates, the first and
    // last permutation terms, the cross terms, the combined sets, five per
    // lookup, one per trashcan
    let total = nb_gate_equations + 1 + 2 * nb_permutations + 5 * nb_lookups + nb_trash_args;
    stats.add_scalar_times(total);
    stats.mul_scalar_times(total);
    // vanishing / (x^n - 1)
    stats.sub_scalar();
    stats.inv_scalar();
    stats.mul_scalar();
    // h commitments: one scaling and one addition per split
    let mut i: usize = 0;
    while i < circuit_degree - 1
        invariant
            i <= circuit_degree - 1,
            d == vanishing_ops(nb_gate_equations as int, nb_permutations as int, nb_lookups as int, nb_trash_args as int, circuit_degree as int),
            s0.room_for(d),
            CircuitStatistics::stepped(&s0, stats, OpCounts { mul_point: i as int, add_point: i as int, compress: 0, ..d }),
        decreases circuit_degree - 1 - i,
    {
        stats.scale();
        stats.add_point();
        i = i + 1;
    }
    stats.compress_point();
}

} // verus!
