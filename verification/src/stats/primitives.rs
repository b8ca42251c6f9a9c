use vstd::prelude::*;

use super::column::{Column, ColumnType};
use super::expression::{Argument, ScalarExpression, lookup_degree_of};
use super::lookup_table::LookupTable;
use super::rotation_set::RotationSet;
use super::scalar_ops::ScalarOps;

verus! {

// ---------------------------------------------------------------------------
// Shorthands for the chip descriptions.

/// Rotations {current, next}.
pub open spec fn cur_next() -> RotationSet {
    RotationSet { first: false, prev: false, curr: true, next: true, last: false }
}

pub open spec fn advice_col(r: RotationSet, cc: bool) -> Column {
    Column::spec_of(ColumnType::Advice, r, cc)
}

pub open spec fn shared_col() -> Column {
    Column::spec_of(ColumnType::SharedFixed, RotationSet::spec_curr(), false)
}

pub open spec fn exclusive_col(cc: bool) -> Column {
    Column::spec_of(ColumnType::ExclusiveFixed, RotationSet::spec_curr(), cc)
}

pub open spec fn selector_col() -> Column {
    Column::spec_of(ColumnType::Selector, RotationSet::spec_curr(), false)
}

pub open spec fn complex_selector_col() -> Column {
    Column::spec_of(ColumnType::ComplexSelector, RotationSet::spec_curr(), false)
}

pub open spec fn ops_of(neg: usize, add: usize, sub: usize, mul: usize, from_int: usize) -> ScalarOps {
    ScalarOps { nb_neg: neg, nb_add: add, nb_sub: sub, nb_mul: mul, nb_from_int: from_int }
}

/// A gate expression.
pub open spec fn gexp(d: usize, neg: usize, add: usize, sub: usize, mul: usize, from_int: usize) -> ScalarExpression {
    ScalarExpression { degree: d, ops: ops_of(neg, add, sub, mul, from_int) }
}

/// A lookup expression.
pub open spec fn lexp(i: usize, t: usize, neg: usize, add: usize, sub: usize, mul: usize, from_int: usize) -> ScalarExpression {
    ScalarExpression { degree: lookup_degree_of(i as int, t as int) as usize, ops: ops_of(neg, add, sub, mul, from_int) }
}

/// A trashcan expression.
pub open spec fn texp(d: usize, neg: usize, add: usize, sub: usize, mul: usize, from_int: usize) -> ScalarExpression {
    ScalarExpression { degree: if d > 2 { d } else { 2 }, ops: ops_of(neg, add, sub, mul, from_int) }
}

/// The view of a list of arguments.
pub open spec fn args_view(v: Vec<Argument>) -> Seq<Seq<ScalarExpression>> {
    Seq::new(v@.len(), |i: int| v@[i]@)
}

// ---------------------------------------------------------------------------
// Native: the base arithmetic chip shared by all composite chips.

pub struct Native;

impl Native {
    pub open spec fn spec_advice() -> Seq<Column> {
        seq![
            advice_col(cur_next(), true),
            advice_col(cur_next(), true),
            advice_col(cur_next(), true),
            advice_col(RotationSet::spec_curr(), true),
            advice_col(RotationSet::spec_curr(), true),
        ]
    }

    pub open spec fn spec_fixed() -> Seq<Column> {
        Seq::new(9, |i: int| shared_col())
    }

    /// fixed_values (exclusive, copy-constrained), q_arith, q_12_minus_34, q_parallel.
    pub open spec fn spec_extra() -> Seq<Column> {
        seq![exclusive_col(true), selector_col(), selector_col(), selector_col()]
    }

    pub open spec fn spec_gates() -> Seq<Seq<ScalarExpression>> {
        seq![
            seq![gexp(4, 0, 8, 0, 11, 0)],
            seq![gexp(2, 2, 3, 0, 1, 0)],
            seq![gexp(2, 1, 2, 0, 1, 0), gexp(2, 1, 2, 0, 1, 0), gexp(2, 1, 2, 0, 1, 0)],
        ]
    }

    pub fn advice_columns() -> (r: Vec<Column>)
        ensures
            r@ == Self::spec_advice(),
    {
        let r = vec![
            Column::advice(RotationSet::new(false, false, true, true, false), true),
            Column::advice(RotationSet::new(false, false, true, true, false), true),
            Column::advice(RotationSet::new(false, false, true, true, false), true),
            Column::advice(RotationSet::curr(), true),
            Column::advice(RotationSet::curr(), true),
        ];
        assert(r@ =~= Self::spec_advice());
        r
    }

    pub fn fixed_columns() -> (r: Vec<Column>)
        ensures
            r@ == Self::spec_fixed(),
    {
        let r = vec![
            Column::shared_fixed(RotationSet::curr(), false),  // q_1
            Column::shared_fixed(RotationSet::curr(), false),  // q_2
            Column::shared_fixed(RotationSet::curr(), false),  // q_3
            Column::shared_fixed(RotationSet::curr(), false),  // q_4
            Column::shared_fixed(RotationSet::curr(), false),  // q_5
            Column::shared_fixed(RotationSet::curr(), false),  // q_next
            Column::shared_fixed(RotationSet::curr(), false),  // q_12
            Column::shared_fixed(RotationSet::curr(), false),  // q_13
            Column::shared_fixed(RotationSet::curr(), false),  // q_constant
        ];
        assert(r@ =~= Self::spec_fixed());
        r
    }

    pub fn extra_columns() -> (r: Vec<Column>)
        ensures
            r@ == Self::spec_extra(),
    {
        let r = vec![
            Column::exclusive_fixed(RotationSet::curr(), true),
            Column::selector(),
            Column::selector(),
            Column::selector(),
        ];
        assert(r@ =~= Self::spec_extra());
        r
    }

    pub fn gate_args() -> (r: Vec<Argument>)
        ensures
            args_view(r) == Self::spec_gates(),
    {
        // arith: q_arith * [qc + sum q_i * w_i + q_next * w_1_next + q_12 * w_1 * w_2 + q_13 * w_1 * w_3]
        let a = vec![ScalarExpression::gate_expression(4, 0, 8, 0, 11, 0)];
        // q_12_minus_34 * [(w_1 + w_2) - (w_3 + w_4)]
        let b = vec![ScalarExpression::gate_expression(2, 2, 3, 0, 1, 0)];
        // q_parallel * [w_i + q_i - w_i_next] for three wires
        let c = vec![
            ScalarExpression::gate_expression(2, 1, 2, 0, 1, 0),
            ScalarExpression::gate_expression(2, 1, 2, 0, 1, 0),
            ScalarExpression::gate_expression(2, 1, 2, 0, 1, 0),
        ];
        assert(a@ =~= Self::spec_gates()[0]);
        assert(b@ =~= Self::spec_gates()[1]);
        assert(c@ =~= Self::spec_gates()[2]);
        let r = vec![a, b, c];
        assert(args_view(r) =~= Self::spec_gates());
        r
    }
}

// ---------------------------------------------------------------------------
// Poseidon (width 3, 8 full rounds, 60 partial rounds, 5 skipped).

pub struct Poseidon;

impl Poseidon {
    pub open spec fn spec_advice() -> Seq<Column> {
        Seq::new(8, |i: int| if i < 3 { advice_col(cur_next(), true) } else { advice_col(RotationSet::spec_curr(), false) })
    }

    pub open spec fn spec_fixed() -> Seq<Column> {
        Seq::new(8, |i: int| shared_col())
    }

    /// q_full_round, q_partial_round.
    pub open spec fn spec_extra() -> Seq<Column> {
        seq![selector_col(), complex_selector_col()]
    }

    pub open spec fn spec_gates() -> Seq<Seq<ScalarExpression>> {
        seq![
            seq![
                gexp(4, 1, 1, 0, 3, 0),
                gexp(4, 1, 1, 0, 3, 0),
                gexp(4, 1, 1, 0, 3, 0),
                gexp(4, 1, 4, 0, 10, 3),
                gexp(4, 1, 4, 0, 10, 3),
                gexp(4, 1, 4, 0, 10, 3),
            ],
        ]
    }

    pub open spec fn spec_trash() -> Seq<Seq<ScalarExpression>> {
        seq![
            seq![
                texp(5, 1, 9, 0, 32, 8),
                texp(5, 1, 9, 0, 32, 8),
                texp(5, 1, 4, 0, 7, 3),
                texp(5, 1, 5, 0, 12, 4),
                texp(5, 1, 6, 0, 17, 5),
                texp(5, 1, 7, 0, 22, 6),
                texp(5, 1, 8, 0, 27, 7),
                texp(5, 1, 9, 0, 32, 8),
            ],
        ]
    }

    pub fn advice_columns() -> (r: Vec<Column>)
        ensures
            r@ == Self::spec_advice(),
    {
        let r = vec![
            Column::advice(RotationSet::new(false, false, true, true, false), true),
            Column::advice(RotationSet::new(false, false, true, true, false), true),
            Column::advice(RotationSet::new(false, false, true, true, false), true),
            Column::advice(RotationSet::curr(), false),
            Column::advice(RotationSet::curr(), false),
            Column::advice(RotationSet::curr(), false),
            Column::advice(RotationSet::curr(), false),
            Column::advice(RotationSet::curr(), false),
        ];
        assert(r@ =~= Self::spec_advice());
        r
    }

    pub fn fixed_columns() -> (r: Vec<Column>)
        ensures
            r@ == Self::spec_fixed(),
    {
        let r = vec![
            Column::shared_fixed(RotationSet::curr(), false),
            Column::shared_fixed(RotationSet::curr(), false),
            Column::shared_fixed(RotationSet::curr(), false),
            Column::shared_fixed(RotationSet::curr(), false),
            Column::shared_fixed(RotationSet::curr(), false),
            Column::shared_fixed(RotationSet::curr(), false),
            Column::shared_fixed(RotationSet::curr(), false),
            Column::shared_fixed(RotationSet::curr(), false),
        ];
        assert(r@ =~= Self::spec_fixed());
        r
    }

    pub fn extra_columns() -> (r: Vec<Column>)
        ensures
            r@ == Self::spec_extra(),
    {
        let r = vec![Column::selector(), Column::complex_selector()];
        assert(r@ =~= Self::spec_extra());
        r
    }

    pub fn gate_args() -> (r: Vec<Argument>)
        ensures
            args_view(r) == Self::spec_gates(),
    {
        // full round gate: three S-box hint checks, then the linear layer
        let a = vec![
            ScalarExpression::gate_expression(4, 1, 1, 0, 3, 0),
            ScalarExpression::gate_expression(4, 1, 1, 0, 3, 0),
            ScalarExpression::gate_expression(4, 1, 1, 0, 3, 0),
            ScalarExpression::gate_expression(4, 1, 4, 0, 10, 3),
            ScalarExpression::gate_expression(4, 1, 4, 0, 10, 3),
            ScalarExpression::gate_expression(4, 1, 4, 0, 10, 3),
        ];
        assert(a@ =~= Self::spec_gates()[0]);
        let r = vec![a];
        assert(args_view(r) =~= Self::spec_gates());
        r
    }

    pub fn trash_args() -> (r: Vec<Argument>)
        ensures
            args_view(r) == Self::spec_trash(),
    {
        // partial round gate: two linear constraints, then six S-box constraints
        let a = vec![
            ScalarExpression::trashcan_expression(5, 1, 9, 0, 32, 8),
            ScalarExpression::trashcan_expression(5, 1, 9, 0, 32, 8),
            ScalarExpression::trashcan_expression(5, 1, 4, 0, 7, 3),
            ScalarExpression::trashcan_expression(5, 1, 5, 0, 12, 4),
            ScalarExpression::trashcan_expression(5, 1, 6, 0, 17, 5),
            ScalarExpression::trashcan_expression(5, 1, 7, 0, 22, 6),
            ScalarExpression::trashcan_expression(5, 1, 8, 0, 27, 7),
            ScalarExpression::trashcan_expression(5, 1, 9, 0, 32, 8),
        ];
        assert(a@ =~= Self::spec_trash()[0]);
        let r = vec![a];
        assert(args_view(r) =~= Self::spec_trash());
        r
    }
}

// ---------------------------------------------------------------------------
// Twisted Edwards chip for Jubjub.

pub struct EdwardsJubjub;

impl EdwardsJubjub {
    pub open spec fn spec_advice() -> Seq<Column> {
        Seq::new(
            9,
            |i: int|
                if i < 2 {
                    advice_col(cur_next(), true)
                } else {
                    advice_col(RotationSet::spec_curr(), i < 7)
                },
        )
    }

    /// q_double, q_cond_add, q_mem.
    pub open spec fn spec_extra() -> Seq<Column> {
        seq![selector_col(), selector_col(), selector_col()]
    }

    pub open spec fn spec_gates() -> Seq<Seq<ScalarExpression>> {
        seq![
            seq![gexp(5, 1, 3, 0, 7, 2), gexp(5, 2, 3, 0, 6, 2), gexp(3, 1, 1, 0, 2, 0)],
            seq![gexp(3, 2, 5, 0, 7, 2), gexp(3, 3, 5, 0, 7, 2), gexp(5, 1, 1, 0, 4, 0)],
            seq![gexp(5, 2, 3, 0, 7, 2)],
        ]
    }

    pub fn advice_columns() -> (r: Vec<Column>)
        ensures
            r@ == Self::spec_advice(),
    {
        let r = vec![
            Column::advice(RotationSet::new(false, false, true, true, false), true),
            Column::advice(RotationSet::new(false, false, true, true, false), true),
            Column::advice(RotationSet::curr(), true),
            Column::advice(RotationSet::curr(), true),
            Column::advice(RotationSet::curr(), true),
            Column::advice(RotationSet::curr(), true),
            Column::advice(RotationSet::curr(), true),
            Column::advice(RotationSet::curr(), false),
            Column::advice(RotationSet::curr(), false),
        ];
        assert(r@ =~= Self::spec_advice());
        r
    }

    pub fn extra_columns() -> (r: Vec<Column>)
        ensures
            r@ == Self::spec_extra(),
    {
        let r = vec![Column::selector(), Column::selector(), Column::selector()];
        assert(r@ =~= Self::spec_extra());
        r
    }

    pub fn gate_args() -> (r: Vec<Argument>)
        ensures
            args_view(r) == Self::spec_gates(),
    {
        // double gate
        let a = vec![
            ScalarExpression::gate_expression(5, 1, 3, 0, 7, 2),
            ScalarExpression::gate_expression(5, 2, 3, 0, 6, 2),
            ScalarExpression::gate_expression(3, 1, 1, 0, 2, 0),
        ];
        // conditional addition gate
        let b = vec![
            ScalarExpression::gate_expression(3, 2, 5, 0, 7, 2),
            ScalarExpression::gate_expression(3, 3, 5, 0, 7, 2),
            ScalarExpression::gate_expression(5, 1, 1, 0, 4, 0),
        ];
        // membership gate
        let c = vec![ScalarExpression::gate_expression(5, 2, 3, 0, 7, 2)];
        assert(a@ =~= Self::spec_gates()[0]);
        assert(b@ =~= Self::spec_gates()[1]);
        assert(c@ =~= Self::spec_gates()[2]);
        let r = vec![a, b, c];
        assert(args_view(r) =~= Self::spec_gates());
        r
    }
}

// ---------------------------------------------------------------------------
// Power-of-two range decomposition (one value column).

pub struct P2RDecomposition;

impl P2RDecomposition {
    pub open spec fn spec_advice() -> Seq<Column> {
        seq![advice_col(RotationSet::spec_curr(), false)]
    }

    /// tag column (exclusive fixed), q_pow2range.
    pub open spec fn spec_extra() -> Seq<Column> {
        seq![exclusive_col(false), complex_selector_col()]
    }

    /// One argument per value column: (tag, t_tag) and (selector * value, t_val).
    pub open spec fn spec_lookup_arg() -> Seq<ScalarExpression> {
        seq![lexp(2, 1, 0, 0, 0, 1, 0), lexp(2, 1, 0, 0, 0, 0, 0)]
    }

    pub fn advice_columns() -> (r: Vec<Column>)
        ensures
            r@ == Self::spec_advice(),
    {
        let r = vec![Column::advice(RotationSet::curr(), false)];
        assert(r@ =~= Self::spec_advice());
        r
    }

    pub fn extra_columns() -> (r: Vec<Column>)
        ensures
            r@ == Self::spec_extra(),
    {
        let r = vec![Column::exclusive_fixed(RotationSet::curr(), false), Column::complex_selector()];
        assert(r@ =~= Self::spec_extra());
        r
    }

    /// The pow2range table: tag and value columns.
    pub fn lookup_tables() -> (r: Vec<LookupTable>)
        ensures
            r@.len() == 1,
            r@[0].tview() == ("pow2range"@, 2usize, 0usize, 0usize, 0usize),
    {
        vec![LookupTable::register(String::from_str("pow2range"), 2)]
    }

    pub fn lookup_arg() -> (r: Argument)
        ensures
            r@ == Self::spec_lookup_arg(),
    {
        let r = vec![
            ScalarExpression::lookup_expression(2, 1, 0, 0, 0, 1, 0),
            ScalarExpression::lookup_expression(2, 1, 0, 0, 0, 0, 0),
        ];
        assert(r@ =~= Self::spec_lookup_arg());
        r
    }

    /// The chip's lookup arguments: one, on its single value column.
    pub fn lookup_args() -> (r: Vec<Argument>)
        ensures
            args_view(r) == seq![Self::spec_lookup_arg()],
    {
        let r = vec![Self::lookup_arg()];
        assert(args_view(r) =~= seq![Self::spec_lookup_arg()]);
        r
    }
}

} // verus!
