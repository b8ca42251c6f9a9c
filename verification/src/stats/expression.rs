use vstd::prelude::*;

use super::counts::OpCounts;
use super::scalar_ops::ScalarOps;

verus! {

/// A constraint expression: its degree and what evaluating it costs.
#[derive(Clone, Copy, Debug, Default, PartialEq, Eq, Structural)]
pub struct ScalarExpression {
    pub degree: usize,
    pub ops: ScalarOps,
}

/// An argument: the expressions that one gate, lookup or trashcan contributes.
pub type Argument = Vec<ScalarExpression>;

/// Total cost of a sequence of expressions.
pub open spec fn ops_total(s: Seq<ScalarExpression>) -> OpCounts
    decreases s.len(),
{
    if s.len() == 0 {
        OpCounts::zero()
    } else {
        ops_total(s.drop_last()).plus(s.last().ops.as_counts())
    }
}

/// Largest degree in a sequence of expressions (0 when empty).
pub open spec fn max_degree(s: Seq<ScalarExpression>) -> nat
    decreases s.len(),
{
    if s.len() == 0 {
        0
    } else {
        let m = max_degree(s.drop_last());
        if s.last().degree > m {
            s.last().degree as nat
        } else {
            m
        }
    }
}

/// Cost of batching `n >= 1` expressions together with a random challenge:
/// their own costs plus one addition and one multiplication per extra expression.
pub open spec fn batch_ops(s: Seq<ScalarExpression>) -> OpCounts {
    ops_total(s).plus(OpCounts { add: s.len() - 1, mul: s.len() - 1, ..OpCounts::zero() })
}

/// The expression obtained by batching `s`.
pub open spec fn batched(s: Seq<ScalarExpression>, e: ScalarExpression) -> bool {
    if s.len() == 0 {
        e.degree == 0 && e.ops == ScalarOps::zero()
    } else {
        e.degree == max_degree(s) && e.ops.as_counts() == batch_ops(s)
    }
}

/// The cost of `s` only has scalar-arithmetic counts, all non-negative.
pub proof fn lemma_ops_total_shape(s: Seq<ScalarExpression>)
    ensures
        ops_total(s).nonneg(),
        ops_total(s).inv == 0 && ops_total(s).pow == 0 && ops_total(s).to_bytes == 0,
        ops_total(s).from_bytes == 0 && ops_total(s).add_point == 0 && ops_total(s).mul_point == 0,
        ops_total(s).from_bytes_point == 0 && ops_total(s).decompress == 0,
        ops_total(s).compress == 0 && ops_total(s).transcript == 0,
    decreases s.len(),
{
    if s.len() > 0 {
        lemma_ops_total_shape(s.drop_last());
    }
}

/// The cost of a prefix is at most the cost of the whole sequence.
pub proof fn lemma_ops_total_prefix(s: Seq<ScalarExpression>, i: int)
    requires
        0 <= i <= s.len(),
    ensures
        ops_total(s.take(i)).le(ops_total(s)),
    decreases s.len() - i,
{
    if i < s.len() {
        lemma_ops_total_prefix(s, i + 1);
        assert(s.take(i + 1).drop_last() =~= s.take(i));
    } else {
        assert(s.take(i) =~= s);
    }
}

impl ScalarExpression {
    pub fn gate_expression(
        degree: usize,
        neg: usize,
        add: usize,
        sub: usize,
        mul: usize,
        from_int: usize,
    ) -> (e: Self)
        ensures
            e.degree == degree,
            e.ops == (ScalarOps { nb_neg: neg, nb_add: add, nb_sub: sub, nb_mul: mul, nb_from_int: from_int }),
    {
        ScalarExpression { degree, ops: ScalarOps::new(neg, add, sub, mul, from_int) }
    }

    /// A lookup expression's degree is `max(4, 2 + max(input, 1) + max(table, 1))`.
    pub fn lookup_expression(
        input_degree: usize,
        table_degree: usize,
        neg: usize,
        add: usize,
        sub: usize,
        mul: usize,
        from_int: usize,
    ) -> (e: Self)
        requires
            input_degree + table_degree + 4 <= usize::MAX,
        ensures
            e.degree == lookup_degree_of(input_degree as int, table_degree as int),
            e.ops == (ScalarOps { nb_neg: neg, nb_add: add, nb_sub: sub, nb_mul: mul, nb_from_int: from_int }),
    {
        let i = if input_degree > 1 { input_degree } else { 1 };
        let t = if table_degree > 1 { table_degree } else { 1 };
        let d = 2 + i + t;
        ScalarExpression {
            degree: if d > 4 { d } else { 4 },
            ops: ScalarOps::new(neg, add, sub, mul, from_int),
        }
    }

    /// A trashcan expression has degree at least 2.
    pub fn trashcan_expression(
        degree: usize,
        neg: usize,
        add: usize,
        sub: usize,
        mul: usize,
        from_int: usize,
    ) -> (e: Self)
        ensures
            e.degree == (if degree > 2 { degree } else { 2 }),
            e.ops == (ScalarOps { nb_neg: neg, nb_add: add, nb_sub: sub, nb_mul: mul, nb_from_int: from_int }),
    {
        ScalarExpression {
            degree: if degree > 2 { degree } else { 2 },
            ops: ScalarOps::new(neg, add, sub, mul, from_int),
        }
    }

    /// Batches expressions into one: the largest degree, the summed costs, and
    /// one addition and one multiplication per expression after the first.
    pub fn batch_expressions(expressions: Vec<Self>) -> (e: Self)
        requires
            expressions@.len() > 0 ==> batch_ops(expressions@).fits(),
        ensures
            batched(expressions@, e),
    {
        let n = expressions.len();
        if n == 0 {
            return ScalarExpression { degree: 0, ops: ScalarOps::empty() };
        }
        let ghost s = expressions@;
        proof {
            lemma_ops_total_shape(s);
        }
        let mut acc = expressions[0];
        assert(s.take(1).drop_last() =~= s.take(0));
        assert(s.take(1).last() == s[0]);
        assert(s.take(0).len() == 0);
        assert(max_degree(s.take(0)) == 0);
        assert(ops_total(s.take(0)) == OpCounts::zero());
        assert(max_degree(s.take(1)) == s[0].degree);
        assert(ops_total(s.take(1)) == OpCounts::zero().plus(s[0].ops.as_counts()));
        let mut i: usize = 1;
        while i < n
            invariant
                1 <= i <= n,
                n == s.len(),
                s == expressions@,
                batch_ops(s).fits(),
                ops_total(s).nonneg(),
                acc.degree == max_degree(s.take(i as int)),
                acc.ops.as_counts() == ops_total(s.take(i as int)).plus(
                    OpCounts { add: i - 1, mul: i - 1, ..OpCounts::zero() },
                ),
            decreases n - i,
        {
            let exp = expressions[i];
            proof {
                lemma_ops_total_prefix(s, i + 1);
                lemma_ops_total_shape(s.take(i + 1));
                assert(s.take(i + 1).drop_last() =~= s.take(i as int));
                assert(s.take(i + 1).last() == exp);
            }
            let mut combined = ScalarExpression {
                degree: if acc.degree > exp.degree { acc.degree } else { exp.degree },
                ops: acc.ops.add(&exp.ops),
            };
            combined.ops.nb_add = combined.ops.nb_add + 1;
            combined.ops.nb_mul = combined.ops.nb_mul + 1;
            acc = combined;
            i = i + 1;
        }
        assert(s.take(n as int) =~= s);
        acc
    }
}

/// Degree of a lookup expression with the given input and table degrees.
pub open spec fn lookup_degree_of(input_degree: int, table_degree: int) -> int {
    let i = if input_degree > 1 { input_degree } else { 1 };
    let t = if table_degree > 1 { table_degree } else { 1 };
    if 2 + i + t > 4 { 2 + i + t } else { 4 }
}

} // verus!
