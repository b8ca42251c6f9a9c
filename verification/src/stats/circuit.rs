//! From chips and an extra configuration to the circuit description the
//! estimator works on: columns, arguments, degree and grouped queries.

use vstd::prelude::*;

use super::arguments::{PERM_DEGREE, TRASH_DEGREE, div_ceil, nb_chunks, perm_poly_rotations};
use super::chips::{ChipKind, SupportedChips};
use super::column::{Column, ColumnType};
use super::config::CircuitConfig;
use super::expression::{Argument, ScalarExpression, lookup_degree_of};
use super::estimate::{Processed, ProcessedSpec};
use super::flatten::{
    all_wf, closure, flat_closures, flatten_chips, insert_kinds, kinds, lemma_flatten_laws, lemma_flatten_wf, spec_flatten,
};
use super::lookup::{LookupEstimate, PlookUp};
use super::lookup_table::{LookupTable, TableView, table_views};
use super::merge::{
    advice_lists, all_tables, distinct_tables, extra_lists, fixed_lists, insert_tables, merge_chips_advice,
    merge_chips_fixed, spec_distinct_tables, spec_merged_advice, spec_merged_fixed,
};
use super::pcs::PcsEstimate;
use super::pcs::total_len;
use super::point_sets::{
    count_key, lemma_count_key_append, lemma_present_keys_same, lemma_point_sets_partition, group_queries, point_set_keys, spec_commitment_map, spec_max_per_set, spec_point_set_sizes,
};
use super::primitives::{advice_col, args_view, cur_next, selector_col};
use super::rotation_set::RotationSet;
use super::scalar_ops::ScalarOps;

verus! {

// ---------------------------------------------------------------------------
// What the chips contribute, chip after chip.

/// Every chip's gate arguments, chip after chip.
pub open spec fn all_gates(ks: Seq<ChipKind>) -> Seq<Seq<ScalarExpression>>
    decreases ks.len(),
{
    if ks.len() == 0 {
        Seq::empty()
    } else {
        all_gates(ks.drop_last()) + ks.last().spec_gates()
    }
}

/// The lookup arguments of the chips.
pub open spec fn all_lookups(ks: Seq<ChipKind>) -> Seq<Seq<ScalarExpression>>
    decreases ks.len(),
{
    if ks.len() == 0 {
        Seq::empty()
    } else {
        all_lookups(ks.drop_last()) + ks.last().spec_lookups()
    }
}

/// The trashcan arguments of the chips.
pub open spec fn all_trash(ks: Seq<ChipKind>) -> Seq<Seq<ScalarExpression>>
    decreases ks.len(),
{
    if ks.len() == 0 {
        Seq::empty()
    } else {
        all_trash(ks.drop_last()) + ks.last().spec_trash()
    }
}

/// Number of lookup arguments the chips declare.
pub open spec fn sum_lookup_args(ks: Seq<ChipKind>) -> nat
    decreases ks.len(),
{
    if ks.len() == 0 {
        0
    } else {
        sum_lookup_args(ks.drop_last()) + ks.last().spec_nb_lookup_args()
    }
}

/// Number of trashcan arguments the chips declare.
pub open spec fn sum_trash_args(ks: Seq<ChipKind>) -> nat
    decreases ks.len(),
{
    if ks.len() == 0 {
        0
    } else {
        sum_trash_args(ks.drop_last()) + ks.last().spec_nb_trash_args()
    }
}

/// Largest degree among the chips (0 when there is none).
pub open spec fn max_chip_degree(ks: Seq<ChipKind>) -> nat
    decreases ks.len(),
{
    if ks.len() == 0 {
        0
    } else {
        let m = max_chip_degree(ks.drop_last());
        let d = ks.last().spec_degree();
        if d > m { d } else { m }
    }
}

/// Largest number of pow2range columns a chip asks for (0 when there is none).
pub open spec fn max_nr_pow2(ks: Seq<ChipKind>) -> nat
    decreases ks.len(),
{
    if ks.len() == 0 {
        0
    } else {
        let m = max_nr_pow2(ks.drop_last());
        let d = ks.last().spec_nr_pow2();
        if d > m { d } else { m }
    }
}

/// The circuit degree: the largest of the requested degree, the permutation
/// degree when columns are copy-constrained, the lookup degree when there are
/// lookups, the trashcan degree when there are trashcans, and the chips'.
pub open spec fn spec_compute_degree(extra_degree: nat, cc: nat, nb_lookups: nat, nb_trash: nat, ks: Seq<ChipKind>) -> nat {
    let a = extra_degree;
    let b = if cc > 0 && PERM_DEGREE > a { PERM_DEGREE as nat } else { a };
    let c = if nb_lookups > 0 && 5 > b { 5 } else { b };
    let d = if nb_trash > 0 && TRASH_DEGREE > c { TRASH_DEGREE as nat } else { c };
    let e = max_chip_degree(ks);
    if e > d { e } else { d }
}

proof fn lemma_args_view_append(a: Seq<Argument>, b: Seq<Argument>)
    ensures
        Seq::new((a + b).len(), |i: int| (a + b)[i]@) == Seq::new(a.len(), |i: int| a[i]@) + Seq::new(
            b.len(),
            |i: int| b[i]@,
        ),
{
    assert(Seq::new((a + b).len(), |i: int| (a + b)[i]@) =~= Seq::new(a.len(), |i: int| a[i]@) + Seq::new(
        b.len(),
        |i: int| b[i]@,
    ));
}

/// Appends `more` to `out`.
fn append_args(out: &mut Vec<Argument>, more: Vec<Argument>)
    ensures
        args_view(*final(out)) == args_view(*old(out)) + args_view(more),
{
    let mut more = more;
    let ghost m = more@;
    proof {
        lemma_args_view_append(out@, more@);
    }
    out.append(&mut more);
    assert(args_view(*out) =~= Seq::new((old(out)@ + m).len(), |i: int| (old(out)@ + m)[i]@));
}

/// Every chip's gate arguments, in the order of the chips.
pub fn collect_gates(chips: &Vec<SupportedChips>) -> (r: Vec<Argument>)
    ensures
        args_view(r) == all_gates(kinds(chips@)),
{
    let ghost ks = kinds(chips@);
    let mut out: Vec<Argument> = Vec::new();
    assert(args_view(out) =~= all_gates(ks.take(0)));
    let n = chips.len();
    let mut i: usize = 0;
    while i < n
        invariant
            i <= n,
            n == chips@.len(),
            ks == kinds(chips@),
            args_view(out) == all_gates(ks.take(i as int)),
        decreases n - i,
    {
        let g = chips[i].gates();
        append_args(&mut out, g);
        proof {
            assert(ks.take(i + 1).drop_last() =~= ks.take(i as int));
            assert(ks.take(i + 1).last() == ks[i as int]);
        }
        i = i + 1;
    }
    assert(ks.take(n as int) =~= ks);
    out
}

/// The lookup arguments of the chips, chip after chip.
pub fn collect_lookups(chips: &Vec<SupportedChips>) -> (r: Vec<Argument>)
    requires
        all_wf(kinds(chips@)),
    ensures
        args_view(r) == all_lookups(kinds(chips@)),
{
    let ghost ks = kinds(chips@);
    let mut out: Vec<Argument> = Vec::new();
    assert(args_view(out) =~= all_lookups(ks.take(0)));
    let n = chips.len();
    let mut i: usize = 0;
    while i < n
        invariant
            i <= n,
            n == chips@.len(),
            ks == kinds(chips@),
            all_wf(ks),
            args_view(out) == all_lookups(ks.take(i as int)),
        decreases n - i,
    {
        assert(ks[i as int].wf());
        let g = chips[i].lookups();
        append_args(&mut out, g);
        proof {
            assert(ks.take(i + 1).drop_last() =~= ks.take(i as int));
            assert(ks.take(i + 1).last() == ks[i as int]);
        }
        i = i + 1;
    }
    assert(ks.take(n as int) =~= ks);
    out
}

/// The trashcan arguments of the chips, chip after chip.
pub fn collect_trashcans(chips: &Vec<SupportedChips>) -> (r: Vec<Argument>)
    ensures
        args_view(r) == all_trash(kinds(chips@)),
{
    let ghost ks = kinds(chips@);
    let mut out: Vec<Argument> = Vec::new();
    assert(args_view(out) =~= all_trash(ks.take(0)));
    let n = chips.len();
    let mut i: usize = 0;
    while i < n
        invariant
            i <= n,
            n == chips@.len(),
            ks == kinds(chips@),
            args_view(out) == all_trash(ks.take(i as int)),
        decreases n - i,
    {
        let g = chips[i].trashcans();
        append_args(&mut out, g);
        proof {
            assert(ks.take(i + 1).drop_last() =~= ks.take(i as int));
            assert(ks.take(i + 1).last() == ks[i as int]);
        }
        i = i + 1;
    }
    assert(ks.take(n as int) =~= ks);
    out
}

pub proof fn lemma_sums_prefix(ks: Seq<ChipKind>, i: int)
    requires
        0 <= i <= ks.len(),
    ensures
        sum_lookup_args(ks.take(i)) <= sum_lookup_args(ks),
        sum_trash_args(ks.take(i)) <= sum_trash_args(ks),
    decreases ks.len() - i,
{
    if i < ks.len() {
        lemma_sums_prefix(ks, i + 1);
        assert(ks.take(i + 1).drop_last() =~= ks.take(i));
    } else {
        assert(ks.take(i) =~= ks);
    }
}

/// Number of lookup arguments the chips declare.
pub fn count_lookup_args(chips: &Vec<SupportedChips>) -> (n: usize)
    requires
        sum_lookup_args(kinds(chips@)) <= usize::MAX,
    ensures
        n == sum_lookup_args(kinds(chips@)),
{
    let ghost ks = kinds(chips@);
    let mut total: usize = 0;
    let n = chips.len();
    let mut i: usize = 0;
    while i < n
        invariant
            i <= n,
            n == chips@.len(),
            ks == kinds(chips@),
            sum_lookup_args(ks) <= usize::MAX,
            total == sum_lookup_args(ks.take(i as int)),
        decreases n - i,
    {
        proof {
            assert(ks.take(i + 1).drop_last() =~= ks.take(i as int));
            assert(ks.take(i + 1).last() == ks[i as int]);
            lemma_sums_prefix(ks, i + 1);
        }
        total = total + chips[i].nb_lookup_args();
        i = i + 1;
    }
    assert(ks.take(n as int) =~= ks);
    total
}

/// Number of trashcan arguments the chips declare.
pub fn count_trash_args(chips: &Vec<SupportedChips>) -> (n: usize)
    requires
        sum_trash_args(kinds(chips@)) <= usize::MAX,
    ensures
        n == sum_trash_args(kinds(chips@)),
{
    let ghost ks = kinds(chips@);
    let mut total: usize = 0;
    let n = chips.len();
    let mut i: usize = 0;
    while i < n
        invariant
            i <= n,
            n == chips@.len(),
            ks == kinds(chips@),
            sum_trash_args(ks) <= usize::MAX,
            total == sum_trash_args(ks.take(i as int)),
        decreases n - i,
    {
        proof {
            assert(ks.take(i + 1).drop_last() =~= ks.take(i as int));
            assert(ks.take(i + 1).last() == ks[i as int]);
            lemma_sums_prefix(ks, i + 1);
        }
        total = total + chips[i].nb_trashcan_args();
        i = i + 1;
    }
    assert(ks.take(n as int) =~= ks);
    total
}

/// Largest number of pow2range columns the chips ask for (0 when none does).
pub fn max_pow2range_cols(chips: &Vec<SupportedChips>) -> (n: usize)
    ensures
        n == max_nr_pow2(kinds(chips@)),
{
    let ghost ks = kinds(chips@);
    let mut best: usize = 0;
    let n = chips.len();
    let mut i: usize = 0;
    while i < n
        invariant
            i <= n,
            n == chips@.len(),
            ks == kinds(chips@),
            best == max_nr_pow2(ks.take(i as int)),
        decreases n - i,
    {
        proof {
            assert(ks.take(i + 1).drop_last() =~= ks.take(i as int));
            assert(ks.take(i + 1).last() == ks[i as int]);
        }
        let d = chips[i].nr_pow2range_cols();
        if d > best {
            best = d;
        }
        i = i + 1;
    }
    assert(ks.take(n as int) =~= ks);
    best
}

/// The circuit degree: the largest of `extra_degree`, the permutation degree
/// when columns are copy-constrained, the lookup degree when there are
/// lookup arguments, the trashcan degree when there are trashcan arguments,
/// and every chip's degree.
pub fn compute_degree(
    extra_degree: usize,
    nb_copy_constrained: usize,
    nb_lookup_args: usize,
    nb_trash_args: usize,
    chips: &Vec<SupportedChips>,
) -> (d: usize)
    requires
        all_wf(kinds(chips@)),
    ensures
        d == spec_compute_degree(
            extra_degree as nat,
            nb_copy_constrained as nat,
            nb_lookup_args as nat,
            nb_trash_args as nat,
            kinds(chips@),
        ),
{
    let ghost ks = kinds(chips@);
    let mut d = extra_degree;
    if nb_copy_constrained > 0 && PERM_DEGREE > d {
        d = PERM_DEGREE;
    }
    if nb_lookup_args > 0 && 5 > d {
        d = 5;
    }
    if nb_trash_args > 0 && TRASH_DEGREE > d {
        d = TRASH_DEGREE;
    }
    let ghost base = d;
    let mut best: usize = 0;
    let n = chips.len();
    let mut i: usize = 0;
    while i < n
        invariant
            i <= n,
            n == chips@.len(),
            ks == kinds(chips@),
            all_wf(ks),
            best == max_chip_degree(ks.take(i as int)),
        decreases n - i,
    {
        proof {
            assert(ks.take(i + 1).drop_last() =~= ks.take(i as int));
            assert(ks.take(i + 1).last() == ks[i as int]);
            assert(ks[i as int].wf());
        }
        let c = chips[i].degree();
        if c > best {
            best = c;
        }
        i = i + 1;
    }
    assert(ks.take(n as int) =~= ks);
    if best > d { best } else { d }
}

// ---------------------------------------------------------------------------
// Columns.

/// Number of copy-constrained columns.
pub open spec fn count_cc(cols: Seq<Column>) -> nat
    decreases cols.len(),
{
    if cols.len() == 0 {
        0
    } else {
        count_cc(cols.drop_last()) + if cols.last().copy_constrained { 1nat } else { 0nat }
    }
}

/// Number of evaluations the columns need: one per rotation of each.
pub open spec fn sum_rotations(cols: Seq<Column>) -> nat
    decreases cols.len(),
{
    if cols.len() == 0 {
        0
    } else {
        sum_rotations(cols.drop_last()) + cols.last().rotations.spec_count()
    }
}

/// Largest number of rotations of a column, 1 when there is no column.
pub open spec fn max_rotations(cols: Seq<Column>) -> nat
    decreases cols.len(),
{
    if cols.len() == 0 {
        1
    } else if cols.len() == 1 {
        cols[0].rotations.spec_count()
    } else {
        let m = max_rotations(cols.drop_last());
        let c = cols.last().rotations.spec_count();
        if c > m { c } else { m }
    }
}

/// The rotation sets the columns are queried at.
pub open spec fn rotations_of(cols: Seq<Column>) -> Seq<RotationSet> {
    Seq::new(cols.len(), |i: int| cols[i].rotations)
}

pub proof fn lemma_column_sums(cols: Seq<Column>)
    ensures
        count_cc(cols) <= cols.len(),
        sum_rotations(cols) <= 5 * cols.len(),
    decreases cols.len(),
{
    if cols.len() > 0 {
        lemma_column_sums(cols.drop_last());
    }
}

/// Number of copy-constrained columns.
pub fn count_copy_constrained(cols: &Vec<Column>) -> (n: usize)
    ensures
        n == count_cc(cols@),
{
    let mut total: usize = 0;
    let n = cols.len();
    let mut i: usize = 0;
    while i < n
        invariant
            i <= n,
            n == cols@.len(),
            total == count_cc(cols@.take(i as int)),
        decreases n - i,
    {
        proof {
            assert(cols@.take(i + 1).drop_last() =~= cols@.take(i as int));
            lemma_column_sums(cols@.take(i as int));
        }
        if cols[i].is_copy_constrained() {
            total = total + 1;
        }
        i = i + 1;
    }
    assert(cols@.take(n as int) =~= cols@);
    total
}

/// Number of evaluations of the columns.
pub fn count_evaluations(cols: &Vec<Column>) -> (n: usize)
    requires
        5 * cols@.len() <= usize::MAX,
    ensures
        n == sum_rotations(cols@),
{
    let mut total: usize = 0;
    let n = cols.len();
    let mut i: usize = 0;
    while i < n
        invariant
            i <= n,
            n == cols@.len(),
            5 * n <= usize::MAX,
            total == sum_rotations(cols@.take(i as int)),
        decreases n - i,
    {
        proof {
            assert(cols@.take(i + 1).drop_last() =~= cols@.take(i as int));
            lemma_column_sums(cols@.take(i + 1));
        }
        total = total + cols[i].rotations().count();
        i = i + 1;
    }
    assert(cols@.take(n as int) =~= cols@);
    total
}

/// Largest number of rotations of a column, 1 when there is no column.
pub fn max_queries_per_column(cols: &Vec<Column>) -> (n: usize)
    ensures
        n == max_rotations(cols@),
{
    let n = cols.len();
    if n == 0 {
        return 1;
    }
    let mut best = cols[0].rotations().count();
    let mut i: usize = 1;
    assert(cols@.take(1) =~= seq![cols@[0]]);
    while i < n
        invariant
            1 <= i <= n,
            n == cols@.len(),
            best == max_rotations(cols@.take(i as int)),
        decreases n - i,
    {
        proof {
            assert(cols@.take(i + 1).drop_last() =~= cols@.take(i as int));
        }
        let c = cols[i].rotations().count();
        if c > best {
            best = c;
        }
        i = i + 1;
    }
    assert(cols@.take(n as int) =~= cols@);
    best
}

/// Appends the rotation sets of the columns to `out`.
fn push_rotations(out: &mut Vec<RotationSet>, cols: &Vec<Column>)
    ensures
        final(out)@ == old(out)@ + rotations_of(cols@),
{
    let n = cols.len();
    let mut i: usize = 0;
    while i < n
        invariant
            i <= n,
            n == cols@.len(),
            out@ == old(out)@ + rotations_of(cols@.take(i as int)),
        decreases n - i,
    {
        out.push(cols[i].rotations());
        i = i + 1;
        assert(out@ =~= old(out)@ + rotations_of(cols@.take(i as int)));
    }
    assert(cols@.take(n as int) =~= cols@);
}

/// Appends `n` copies of `r` to `out`.
fn push_copies(out: &mut Vec<RotationSet>, r: RotationSet, n: usize)
    ensures
        final(out)@ == old(out)@ + Seq::new(n as nat, |i: int| r),
{
    let mut i: usize = 0;
    while i < n
        invariant
            i <= n,
            out@ == old(out)@ + Seq::new(i as nat, |j: int| r),
        decreases n - i,
    {
        out.push(r);
        i = i + 1;
        assert(out@ =~= old(out)@ + Seq::new(i as nat, |j: int| r));
    }
}

/// `r` repeated `n` times.
pub open spec fn repeat_rots(r: Seq<RotationSet>, n: nat) -> Seq<RotationSet>
    decreases n,
{
    if n == 0 {
        Seq::empty()
    } else {
        repeat_rots(r, (n - 1) as nat) + r
    }
}

// ---------------------------------------------------------------------------
// The circuit the chips and the extra configuration describe.

/// Number of evaluations of the extra columns: as configured, or one per
/// extra advice column.
pub open spec fn spec_evaluations(extra: CircuitConfig) -> int {
    if extra.nb_evaluations > 0 {
        extra.nb_evaluations as int
    } else {
        extra.nb_advice as int
    }
}

/// The `i`-th extra column, `offset` columns in, is queried at the current
/// and next rows while evaluations remain, at the current row only after.
pub open spec fn extra_rotations(i: int, offset: int, evals: int) -> RotationSet {
    if i + offset < evals {
        cur_next()
    } else {
        RotationSet::spec_curr()
    }
}

/// The extra advice columns, all copy-constrained.
pub open spec fn extra_advice_columns(extra: CircuitConfig) -> Seq<Column> {
    Seq::new(
        extra.nb_advice as nat,
        |i: int| advice_col(extra_rotations(i, extra.nb_advice + extra.nb_fixed, spec_evaluations(extra)), true),
    )
}

/// The extra fixed columns, none copy-constrained.
pub open spec fn extra_fixed_columns(extra: CircuitConfig) -> Seq<Column> {
    Seq::new(
        extra.nb_fixed as nat,
        |i: int|
            Column::spec_of(
                ColumnType::ExclusiveFixed,
                extra_rotations(i, 2 * extra.nb_advice + extra.nb_fixed, spec_evaluations(extra)),
                false,
            ),
    )
}

/// `n` selectors.
pub open spec fn selector_columns(n: nat) -> Seq<Column> {
    Seq::new(n, |i: int| selector_col())
}

/// A table column, queried at the current row.
pub open spec fn table_col() -> Column {
    Column::spec_of(ColumnType::Table, RotationSet::spec_curr(), false)
}

/// The columns of the tables.
pub open spec fn table_columns(ts: Seq<TableView>) -> Seq<Column>
    decreases ts.len(),
{
    if ts.len() == 0 {
        Seq::empty()
    } else {
        table_columns(ts.drop_last()) + Seq::new(ts.last().1 as nat, |i: int| table_col())
    }
}

/// Number of pow2range columns: as configured, or the largest a chip asks for.
pub open spec fn p2r_cols(extra: CircuitConfig, used: Seq<ChipKind>) -> nat {
    match extra.nr_pow2range_cols {
        Some(n) => n as nat,
        None => max_nr_pow2(spec_flatten(used)),
    }
}

/// The chips used, with a single power-of-two range decomposition chip when
/// pow2range columns are needed.
pub open spec fn with_p2r(extra: CircuitConfig, used: Seq<ChipKind>) -> Seq<ChipKind> {
    if p2r_cols(extra, used) > 0 {
        used.push(ChipKind::P2RDecomposition(p2r_cols(extra, used) as usize))
    } else {
        used
    }
}

/// Every chip the circuit holds, dependencies included, each once.
pub open spec fn effective_chips(extra: CircuitConfig, used: Seq<ChipKind>) -> Seq<ChipKind> {
    spec_flatten(with_p2r(extra, used))
}

/// Advice columns: the chips' merged, then the extra ones.
pub open spec fn spec_advice_columns(extra: CircuitConfig, ks: Seq<ChipKind>) -> Seq<Column> {
    spec_merged_advice(ks) + extra_advice_columns(extra)
}

/// Fixed columns: the chips', the tables', the extra ones, the selectors.
pub open spec fn spec_fixed_columns(extra: CircuitConfig, ks: Seq<ChipKind>) -> Seq<Column> {
    spec_merged_fixed(ks) + table_columns(spec_distinct_tables(ks)) + extra_fixed_columns(extra) + selector_columns(
        extra.nb_selectors as nat,
    )
}

/// Copy-constrained columns: the instance column when there are public
/// inputs, the committed instance column when there are committed instances,
/// and the copy-constrained advice and fixed columns.
pub open spec fn spec_nb_cc(pi: nat, ci: nat, extra: CircuitConfig, ks: Seq<ChipKind>) -> nat {
    (if pi > 0 { 1nat } else { 0nat }) + (if ci > 0 { 1nat } else { 0nat }) + count_cc(
        spec_advice_columns(extra, ks),
    ) + count_cc(spec_fixed_columns(extra, ks))
}

/// Lookup arguments: one for the extra lookups, and the chips'.
pub open spec fn spec_nb_lookup_args(extra: CircuitConfig, ks: Seq<ChipKind>) -> nat {
    (if extra.nb_lookups > 0 { 1nat } else { 0nat }) + sum_lookup_args(ks)
}

/// The circuit degree.
pub open spec fn spec_circuit_degree(pi: nat, ci: nat, extra: CircuitConfig, ks: Seq<ChipKind>) -> nat {
    spec_compute_degree(
        extra.degree as nat,
        spec_nb_cc(pi, ci, extra, ks),
        spec_nb_lookup_args(extra, ks),
        sum_trash_args(ks),
        ks,
    )
}

/// The last permutation products are also queried at the last row.
pub open spec fn perm_last() -> RotationSet {
    RotationSet { last: true, ..cur_next() }
}

/// Permutation queries: each copy-constrained column at the current row,
/// then the products.
pub open spec fn perm_queries(cc: nat, deg: nat) -> Seq<RotationSet> {
    Seq::new(cc, |i: int| RotationSet::spec_curr()) + Seq::new(
        nb_chunks(cc as int, deg as int) as nat,
        |i: int| if i == 0 { cur_next() } else { perm_last() },
    )
}

/// Every polynomial query of the circuit: advice and fixed columns, the
/// committed instance, the permutation, the vanishing argument, the lookups
/// and the trashcans (which share one query).
pub open spec fn spec_queries(pi: nat, ci: nat, extra: CircuitConfig, ks: Seq<ChipKind>) -> Seq<RotationSet> {
    let cc = spec_nb_cc(pi, ci, extra, ks);
    let deg = spec_circuit_degree(pi, ci, extra, ks);
    let curr = RotationSet::spec_curr();
    rotations_of(spec_advice_columns(extra, ks)) + rotations_of(spec_fixed_columns(extra, ks)) + (if ci > 0 {
        seq![curr]
    } else {
        Seq::empty()
    }) + perm_queries(cc, deg) + seq![curr, curr] + repeat_rots(
        PlookUp::spec_rotations(),
        spec_nb_lookup_args(extra, ks),
    ) + (if sum_trash_args(ks) > 0 {
        seq![curr]
    } else {
        Seq::empty()
    })
}

/// The expression of an extra lookup: a single multiplication.
pub open spec fn extra_lookup_expr() -> ScalarExpression {
    ScalarExpression {
        degree: lookup_degree_of(0, 0) as usize,
        ops: ScalarOps { nb_neg: 0, nb_add: 0, nb_sub: 0, nb_mul: 1, nb_from_int: 0 },
    }
}

/// Lookup arguments: the chips', then one holding the extra lookups.
pub open spec fn spec_lookup_args(extra: CircuitConfig, ks: Seq<ChipKind>) -> Seq<Seq<ScalarExpression>> {
    all_lookups(ks) + if extra.nb_lookups > 0 {
        seq![Seq::new(extra.nb_lookups as nat, |i: int| extra_lookup_expr())]
    } else {
        Seq::empty()
    }
}

/// The extra advice columns.
fn push_extra_advice(out: &mut Vec<Column>, extra: &CircuitConfig)
    ensures
        final(out)@ == old(out)@ + extra_advice_columns(*extra),
{
    let evals = if extra.nb_evaluations > 0 { extra.nb_evaluations } else { extra.nb_advice };
    // columns queried at two rows are those whose position leaves evaluations
    let wide = evals.saturating_sub(extra.nb_advice).saturating_sub(extra.nb_fixed);
    let n = extra.nb_advice;
    let mut i: usize = 0;
    while i < n
        invariant
            i <= n,
            n == extra.nb_advice,
            wide == (if spec_evaluations(*extra) - extra.nb_advice - extra.nb_fixed > 0 {
                spec_evaluations(*extra) - extra.nb_advice - extra.nb_fixed
            } else {
                0
            }),
            out@ == old(out)@ + extra_advice_columns(*extra).take(i as int),
        decreases n - i,
    {
        let rotations = if i < wide {
            RotationSet::new(false, false, true, true, false)
        } else {
            RotationSet::curr()
        };
        assert(rotations == extra_rotations(i as int, extra.nb_advice + extra.nb_fixed, spec_evaluations(*extra)));
        let col = Column::advice(rotations, true);
        out.push(col);
        proof {
            assert(extra_advice_columns(*extra).take(i + 1) =~= extra_advice_columns(*extra).take(i as int).push(col));
        }
        i = i + 1;
    }
    assert(extra_advice_columns(*extra).take(n as int) =~= extra_advice_columns(*extra));
}

/// The extra fixed columns.
fn push_extra_fixed(out: &mut Vec<Column>, extra: &CircuitConfig)
    ensures
        final(out)@ == old(out)@ + extra_fixed_columns(*extra),
{
    let evals = if extra.nb_evaluations > 0 { extra.nb_evaluations } else { extra.nb_advice };
    let wide = evals.saturating_sub(extra.nb_advice).saturating_sub(extra.nb_advice).saturating_sub(extra.nb_fixed);
    let n = extra.nb_fixed;
    let mut i: usize = 0;
    while i < n
        invariant
            i <= n,
            n == extra.nb_fixed,
            wide == (if spec_evaluations(*extra) - 2 * extra.nb_advice - extra.nb_fixed > 0 {
                spec_evaluations(*extra) - 2 * extra.nb_advice - extra.nb_fixed
            } else {
                0
            }),
            out@ == old(out)@ + extra_fixed_columns(*extra).take(i as int),
        decreases n - i,
    {
        let rotations = if i < wide {
            RotationSet::new(false, false, true, true, false)
        } else {
            RotationSet::curr()
        };
        assert(rotations == extra_rotations(i as int, 2 * extra.nb_advice + extra.nb_fixed, spec_evaluations(*extra)));
        let col = Column::exclusive_fixed(rotations, false);
        out.push(col);
        proof {
            assert(extra_fixed_columns(*extra).take(i + 1) =~= extra_fixed_columns(*extra).take(i as int).push(col));
        }
        i = i + 1;
    }
    assert(extra_fixed_columns(*extra).take(n as int) =~= extra_fixed_columns(*extra));
}

/// The columns of the tables.
fn push_table_columns(out: &mut Vec<Column>, tables: &Vec<LookupTable>)
    ensures
        final(out)@ == old(out)@ + table_columns(table_views(tables@)),
{
    let ghost ts = table_views(tables@);
    let n = tables.len();
    let mut i: usize = 0;
    assert(table_columns(ts.take(0)) =~= Seq::<Column>::empty());
    assert(out@ =~= old(out)@ + table_columns(ts.take(0)));
    while i < n
        invariant
            i <= n,
            n == tables@.len(),
            ts == table_views(tables@),
            out@ == old(out)@ + table_columns(ts.take(i as int)),
        decreases n - i,
    {
        let m = tables[i].nb_columns;
        let ghost before = out@;
        let mut j: usize = 0;
        while j < m
            invariant
                j <= m,
                out@ == before + Seq::new(j as nat, |k: int| table_col()),
            decreases m - j,
        {
            out.push(Column::table(RotationSet::curr()));
            j = j + 1;
            assert(out@ =~= before + Seq::new(j as nat, |k: int| table_col()));
        }
        proof {
            assert(ts.take(i + 1).drop_last() =~= ts.take(i as int));
            assert(ts.take(i + 1).last() == ts[i as int]);
            assert(ts[i as int].1 == m);
            assert(out@ =~= old(out)@ + table_columns(ts.take(i + 1)));
        }
        i = i + 1;
    }
    assert(ts.take(n as int) =~= ts);
}

/// `n` selector columns.
fn push_selectors(out: &mut Vec<Column>, n: usize)
    ensures
        final(out)@ == old(out)@ + selector_columns(n as nat),
{
    let mut i: usize = 0;
    while i < n
        invariant
            i <= n,
            out@ == old(out)@ + selector_columns(i as nat),
        decreases n - i,
    {
        out.push(Column::selector());
        i = i + 1;
        assert(out@ =~= old(out)@ + selector_columns(i as nat));
    }
}

/// Every polynomial query, in the order of `spec_queries`.
pub fn build_queries(
    nb_committed_instances: usize,
    advice: &Vec<Column>,
    fixed: &Vec<Column>,
    nb_copy_constrained: usize,
    circuit_degree: usize,
    nb_lookup_args: usize,
    nb_trash_args: usize,
) -> (q: Vec<RotationSet>)
    requires
        circuit_degree >= 3,
    ensures
        q@ == rotations_of(advice@) + rotations_of(fixed@) + (if nb_committed_instances > 0 {
            seq![RotationSet::spec_curr()]
        } else {
            Seq::empty()
        }) + perm_queries(nb_copy_constrained as nat, circuit_degree as nat) + seq![
            RotationSet::spec_curr(),
            RotationSet::spec_curr(),
        ] + repeat_rots(PlookUp::spec_rotations(), nb_lookup_args as nat) + (if nb_trash_args > 0 {
            seq![RotationSet::spec_curr()]
        } else {
            Seq::empty()
        }),
{
    let ghost curr = RotationSet::spec_curr();
    let mut q: Vec<RotationSet> = Vec::new();
    push_rotations(&mut q, advice);
    push_rotations(&mut q, fixed);
    if nb_committed_instances > 0 {
        q.push(RotationSet::curr());
    }
    let ghost s1 = q@;
    assert(s1 == rotations_of(advice@) + rotations_of(fixed@) + (if nb_committed_instances > 0 {
        seq![curr]
    } else {
        Seq::empty()
    }));
    // permutation: every copy-constrained column, then the products
    push_copies(&mut q, RotationSet::curr(), nb_copy_constrained);
    let perm = perm_poly_rotations();
    let chunks = div_ceil(nb_copy_constrained, circuit_degree - 2);
    let ghost s2 = q@;
    let mut i: usize = 0;
    while i < chunks
        invariant
            i <= chunks,
            perm@ == seq![cur_next(), perm_last()],
            q@ == s2 + Seq::new(i as nat, |j: int| if j == 0 { cur_next() } else { perm_last() }),
        decreases chunks - i,
    {
        if i == 0 {
            q.push(perm[0]);
        } else {
            q.push(perm[1]);
        }
        i = i + 1;
        assert(q@ =~= s2 + Seq::new(i as nat, |j: int| if j == 0 { cur_next() } else { perm_last() }));
    }
    assert(q@ =~= s1 + perm_queries(nb_copy_constrained as nat, circuit_degree as nat));
    // vanishing argument: g and the random polynomial
    q.push(RotationSet::curr());
    q.push(RotationSet::curr());
    let ghost s3 = q@;
    // lookups: the polynomials of each argument
    let rots = PlookUp::lookup_poly_rotations();
    let mut k: usize = 0;
    assert(q@ =~= s3 + repeat_rots(PlookUp::spec_rotations(), 0));
    while k < nb_lookup_args
        invariant
            k <= nb_lookup_args,
            rots@ == PlookUp::spec_rotations(),
            q@ == s3 + repeat_rots(PlookUp::spec_rotations(), k as nat),
        decreases nb_lookup_args - k,
    {
        let ghost before = q@;
        let m = rots.len();
        let mut j: usize = 0;
        while j < m
            invariant
                j <= m,
                m == rots@.len(),
                q@ == before + rots@.take(j as int),
            decreases m - j,
        {
            q.push(rots[j]);
            j = j + 1;
            assert(q@ =~= before + rots@.take(j as int));
        }
        k = k + 1;
        assert(rots@.take(m as int) =~= rots@);
        assert(q@ =~= s3 + repeat_rots(PlookUp::spec_rotations(), k as nat));
    }
    // trashcans share a single query
    if nb_trash_args > 0 {
        q.push(RotationSet::curr());
    }
    q
}

/// What processing the chips `used` with `extra`, `pi` public inputs and
/// `ci` committed instances gives.
pub open spec fn spec_process(pi: nat, ci: nat, extra: CircuitConfig, used: Seq<ChipKind>) -> ProcessedSpec {
    let ks = effective_chips(extra, used);
    let advice = spec_advice_columns(extra, ks);
    let fixed = spec_fixed_columns(extra, ks);
    let q = spec_queries(pi, ci, extra, ks);
    ProcessedSpec {
        circuit_degree: spec_circuit_degree(pi, ci, extra, ks),
        nb_public_inputs: pi,
        nb_committed_instances: ci,
        nb_advice: advice.len(),
        nb_fixed: fixed.len(),
        nb_copy_constrained: spec_nb_cc(pi, ci, extra, ks),
        gate_args: all_gates(ks),
        lookup_args: spec_lookup_args(extra, ks),
        trashcan_args: all_trash(ks),
        nb_advice_fixed_evaluations: sum_rotations(advice) + sum_rotations(fixed),
        max_advice_queries: max_rotations(advice),
        commitment_map: spec_commitment_map(q),
        kzg_halo2_point_sets: spec_point_set_sizes(q),
        nb_point_sets: point_set_keys(q).len(),
        max_commitments_per_query: spec_max_per_set(q),
    }
}

/// The inputs `process` accepts: with a number of evaluations, at least one
/// per extra advice column and at most two per extra advice and fixed
/// column; no power-of-two range chip among the chips (it is added from the
/// number of pow2range columns); chips whose degrees fit in `usize`; a
/// circuit degree of at least 3; and counts that fit in `usize`.
pub open spec fn process_ok(pi: nat, ci: nat, extra: CircuitConfig, used: Seq<ChipKind>) -> bool {
    let ks = effective_chips(extra, used);
    &&& extra.nb_evaluations > 0 ==> extra.nb_advice <= extra.nb_evaluations <= 2 * (extra.nb_advice
        + extra.nb_fixed)
    &&& forall|i: int| 0 <= i < used.len() ==> !(#[trigger] used[i] is P2RDecomposition)
    &&& all_wf(used)
    &&& spec_circuit_degree(pi, ci, extra, ks) >= 3
    &&& 5 * (spec_advice_columns(extra, ks).len() + spec_fixed_columns(extra, ks).len()) + 2
        + spec_nb_lookup_args(extra, ks) + sum_trash_args(ks) <= usize::MAX
}

proof fn lemma_kinds_push(v: Seq<SupportedChips>, x: SupportedChips)
    ensures
        kinds(v.push(x)) == kinds(v).push(x@),
{
    assert(kinds(v.push(x)) =~= kinds(v).push(x@));
}

/// The chips as a vector.
fn chips_to_vec(chips: &[SupportedChips]) -> (r: Vec<SupportedChips>)
    ensures
        kinds(r@) == kinds(chips@),
{
    let mut out: Vec<SupportedChips> = Vec::new();
    let n = chips.len();
    let mut i: usize = 0;
    while i < n
        invariant
            i <= n,
            n == chips@.len(),
            kinds(out@) == kinds(chips@).take(i as int),
        decreases n - i,
    {
        let c = chips[i].clone_chip();
        proof {
            lemma_kinds_push(out@, c);
        }
        out.push(c);
        i = i + 1;
        assert(kinds(out@) =~= kinds(chips@).take(i as int));
    }
    assert(kinds(chips@).take(n as int) =~= kinds(chips@));
    out
}

/// Describes the circuit made of the chips `used_chips` and the extra
/// configuration `extra`: its columns, arguments and degree, and its queries
/// grouped by rotation set. All counts are lower bounds.
pub fn process<PCS: PcsEstimate>(
    nb_public_inputs: usize,
    nb_committed_instances: usize,
    extra: CircuitConfig,
    used_chips: &[SupportedChips],
) -> (p: Processed)
    requires
        process_ok(nb_public_inputs as nat, nb_committed_instances as nat, extra, kinds(used_chips@)),
    ensures
        p@ == spec_process(nb_public_inputs as nat, nb_committed_instances as nat, extra, kinds(used_chips@)),
{
    let ghost used = kinds(used_chips@);
    let ghost pi = nb_public_inputs as nat;
    let ghost ci = nb_committed_instances as nat;
    let mut all = chips_to_vec(used_chips);
    let p2r_n = match extra.nr_pow2range_cols {
        Some(n) => n,
        None => {
            let flat = flatten_chips(&all);
            max_pow2range_cols(&flat)
        },
    };
    if p2r_n > 0 {
        let ghost before = all@;
        all.push(SupportedChips::P2RDecomposition(p2r_n));
        proof {
            lemma_kinds_push(before, SupportedChips::P2RDecomposition(p2r_n));
        }
    }
    assert(kinds(all@) == with_p2r(extra, used));
    proof {
        assert(all_wf(with_p2r(extra, used)));
        lemma_flatten_wf(with_p2r(extra, used));
    }
    let effective = flatten_chips(&all);
    let ghost ks = kinds(effective@);
    assert(ks == effective_chips(extra, used));
    let tables = distinct_tables(&effective);
    // advice columns: the chips' merged, then the extra ones
    let mut advice = merge_chips_advice(&effective);
    push_extra_advice(&mut advice, &extra);
    // fixed columns: the chips', the tables', the extra ones, the selectors
    let mut fixed = merge_chips_fixed(&effective);
    push_table_columns(&mut fixed, &tables);
    push_extra_fixed(&mut fixed, &extra);
    push_selectors(&mut fixed, extra.nb_selectors);
    assert(advice@ == spec_advice_columns(extra, ks));
    assert(fixed@ == spec_fixed_columns(extra, ks));
    let nb_advice = advice.len();
    let nb_fixed = fixed.len();
    let max_advice_queries = max_queries_per_column(&advice);
    proof {
        lemma_column_sums(advice@);
        lemma_column_sums(fixed@);
    }
    let nb_copy_constrained = (if nb_public_inputs > 0 { 1 } else { 0 }) + (if nb_committed_instances > 0 {
        1
    } else {
        0
    }) + count_copy_constrained(&advice) + count_copy_constrained(&fixed);
    let nb_advice_fixed_evaluations = count_evaluations(&advice) + count_evaluations(&fixed);
    let nb_lookup_args = (if extra.nb_lookups > 0 { 1 } else { 0 }) + count_lookup_args(&effective);
    let nb_trash_args = count_trash_args(&effective);
    let circuit_degree = compute_degree(extra.degree, nb_copy_constrained, nb_lookup_args, nb_trash_args, &effective);
    let queries = build_queries(
        nb_committed_instances,
        &advice,
        &fixed,
        nb_copy_constrained,
        circuit_degree,
        nb_lookup_args,
        nb_trash_args,
    );
    assert(queries@ == spec_queries(pi, ci, extra, ks));
    let (commitment_map, kzg_halo2_point_sets, nb_point_sets, max_commitments_per_query) = group_queries(&queries);
    let gate_args = collect_gates(&effective);
    let mut lookup_args = collect_lookups(&effective);
    if extra.nb_lookups > 0 {
        // the extra lookups form a single argument
        let mut arg: Argument = Vec::new();
        let mut i: usize = 0;
        while i < extra.nb_lookups
            invariant
                i <= extra.nb_lookups,
                arg@ == Seq::new(i as nat, |j: int| extra_lookup_expr()),
            decreases extra.nb_lookups - i,
        {
            arg.push(ScalarExpression::lookup_expression(0, 0, 0, 0, 0, 1, 0));
            i = i + 1;
            assert(arg@ =~= Seq::new(i as nat, |j: int| extra_lookup_expr()));
        }
        let ghost before = args_view(lookup_args);
        lookup_args.push(arg);
        assert(args_view(lookup_args) =~= before.push(arg@));
    }
    assert(args_view(lookup_args) =~= spec_lookup_args(extra, ks));
    let trashcan_args = collect_trashcans(&effective);
    let p = Processed {
        circuit_degree,
        nb_public_inputs,
        nb_committed_instances,
        nb_advice,
        nb_fixed,
        nb_copy_constrained,
        gate_args,
        lookup_args,
        trashcan_args,
        nb_advice_fixed_evaluations,
        max_advice_queries,
        commitment_map,
        kzg_halo2_point_sets,
        nb_point_sets,
        max_commitments_per_query,
    };
    assert(p@.commitment_map =~= spec_commitment_map(queries@));
    p
}

pub proof fn lemma_max_chip_degree(ks: Seq<ChipKind>)
    ensures
        forall|i: int| 0 <= i < ks.len() ==> (#[trigger] ks[i]).spec_degree() <= max_chip_degree(ks),
    decreases ks.len(),
{
    if ks.len() > 0 {
        lemma_max_chip_degree(ks.drop_last());
        assert forall|i: int| 0 <= i < ks.len() implies (#[trigger] ks[i]).spec_degree() <= max_chip_degree(ks) by {
            if i < ks.len() - 1 {
                assert(ks[i] == ks.drop_last()[i]);
            }
        }
    }
}

/// What processing promises: the extra advice columns add to the chips',
/// the extra fixed columns and selectors add to the chips' and the tables',
/// the extra lookups form one more argument, the circuit degree is at least
/// the requested degree and every chip's, every chip asked for is in the
/// circuit, and every query is opened at exactly one point set.
pub proof fn lemma_process_laws(pi: nat, ci: nat, extra: CircuitConfig, used: Seq<ChipKind>)
    ensures
        ({
            let p = spec_process(pi, ci, extra, used);
            let ks = effective_chips(extra, used);
            &&& p.nb_advice == spec_merged_advice(ks).len() + extra.nb_advice
            &&& p.nb_fixed == spec_merged_fixed(ks).len() + table_columns(spec_distinct_tables(ks)).len()
                + extra.nb_fixed + extra.nb_selectors
            &&& p.lookup_args.len() == all_lookups(ks).len() + if extra.nb_lookups > 0 { 1int } else { 0int }
            &&& p.circuit_degree >= extra.degree
            &&& (forall|i: int| 0 <= i < ks.len() ==> p.circuit_degree >= (#[trigger] ks[i]).spec_degree())
            &&& (forall|c: ChipKind| used.contains(c) ==> #[trigger] ks.contains(c))
            &&& ks.no_duplicates()
            &&& total_len(p.commitment_map) == spec_queries(pi, ci, extra, ks).len()
        }),
{
    let ks = effective_chips(extra, used);
    lemma_max_chip_degree(ks);
    lemma_flatten_laws(with_p2r(extra, used));
    assert forall|c: ChipKind| used.contains(c) implies #[trigger] ks.contains(c) by {
        if p2r_cols(extra, used) > 0 {
            let k = choose|k: int| 0 <= k < used.len() && used[k] == c;
            assert(with_p2r(extra, used)[k] == c);
            assert(with_p2r(extra, used).contains(c));
        }
    }
    lemma_point_sets_partition(spec_queries(pi, ci, extra, ks));
}

/// The configuration with one more selector.
pub open spec fn with_one_more_selector(extra: CircuitConfig) -> CircuitConfig {
    CircuitConfig {
        nb_selectors: (extra.nb_selectors + 1) as usize,
        nb_advice: extra.nb_advice,
        nb_fixed: extra.nb_fixed,
        nb_evaluations: extra.nb_evaluations,
        nb_lookups: extra.nb_lookups,
        degree: extra.degree,
        nr_pow2range_cols: extra.nr_pow2range_cols,
    }
}

proof fn lemma_selector_chips(extra: CircuitConfig, used: Seq<ChipKind>)
    requires
        extra.nb_selectors < usize::MAX,
    ensures
        effective_chips(with_one_more_selector(extra), used) == effective_chips(extra, used),
{
    assert(p2r_cols(with_one_more_selector(extra), used) == p2r_cols(extra, used));
}

proof fn lemma_selector_fixed(extra: CircuitConfig, ks: Seq<ChipKind>)
    requires
        extra.nb_selectors < usize::MAX,
    ensures
        spec_fixed_columns(with_one_more_selector(extra), ks) == spec_fixed_columns(extra, ks).push(selector_col()),
        count_cc(spec_fixed_columns(extra, ks).push(selector_col())) == count_cc(spec_fixed_columns(extra, ks)),
        sum_rotations(spec_fixed_columns(extra, ks).push(selector_col())) == sum_rotations(spec_fixed_columns(extra, ks))
            + 1,
{
    let e2 = with_one_more_selector(extra);
    let sel = selector_col();
    let f = spec_fixed_columns(extra, ks);
    assert(selector_columns(e2.nb_selectors as nat) =~= selector_columns(extra.nb_selectors as nat).push(sel));
    assert(spec_fixed_columns(e2, ks) =~= f.push(sel));
    assert(f.push(sel).drop_last() =~= f);
}

/// Adding a query at a set that already has one keeps the present keys.
proof fn lemma_extra_present_query(a: Seq<RotationSet>, b: Seq<RotationSet>, rest: Seq<RotationSet>, x: RotationSet)
    requires
        rest.contains(x),
    ensures
        point_set_keys((a + b) + rest) == point_set_keys((a + b.push(x)) + rest),
{
    let q = (a + b) + rest;
    let q2 = (a + b.push(x)) + rest;
    assert forall|k: nat| k < 32 implies (count_key(q, k) > 0 <==> count_key(q2, k) > 0) by {
        lemma_count_key_append(a + b, rest, k);
        lemma_count_key_append(a + b.push(x), rest, k);
        lemma_count_key_append(a, b, k);
        lemma_count_key_append(a, b.push(x), k);
        assert(b.push(x).drop_last() =~= b);
        if k == x.spec_key() {
            let t = choose|t: int| 0 <= t < rest.len() && rest[t] == x;
            lemma_count_key_append(rest.take(t + 1), rest.skip(t + 1), k);
            assert(rest.take(t + 1) + rest.skip(t + 1) =~= rest);
            assert(rest.take(t + 1).drop_last() =~= rest.take(t));
        }
    }
    lemma_present_keys_same(q, q2, 32);
}

proof fn lemma_selector_counts(pi: nat, ci: nat, extra: CircuitConfig, ks: Seq<ChipKind>)
    requires
        extra.nb_selectors < usize::MAX,
    ensures
        spec_nb_cc(pi, ci, with_one_more_selector(extra), ks) == spec_nb_cc(pi, ci, extra, ks),
        spec_circuit_degree(pi, ci, with_one_more_selector(extra), ks) == spec_circuit_degree(pi, ci, extra, ks),
{
    lemma_selector_fixed(extra, ks);
}

/// The queries after the advice and fixed columns' own.
pub open spec fn tail_queries(pi: nat, ci: nat, extra: CircuitConfig, ks: Seq<ChipKind>) -> Seq<RotationSet> {
    let curr = RotationSet::spec_curr();
    (if ci > 0 { seq![curr] } else { Seq::empty() }) + perm_queries(
        spec_nb_cc(pi, ci, extra, ks),
        spec_circuit_degree(pi, ci, extra, ks),
    ) + seq![curr, curr] + repeat_rots(PlookUp::spec_rotations(), spec_nb_lookup_args(extra, ks)) + (if sum_trash_args(
        ks,
    ) > 0 {
        seq![curr]
    } else {
        Seq::empty()
    })
}

proof fn lemma_tail_has_curr(pi: nat, ci: nat, extra: CircuitConfig, ks: Seq<ChipKind>)
    ensures
        tail_queries(pi, ci, extra, ks).contains(RotationSet::spec_curr()),
{
    let curr = RotationSet::spec_curr();
    let ins: Seq<RotationSet> = if ci > 0 { seq![curr] } else { Seq::empty() };
    let pq = perm_queries(spec_nb_cc(pi, ci, extra, ks), spec_circuit_degree(pi, ci, extra, ks));
    let t = tail_queries(pi, ci, extra, ks);
    assert(t[(ins.len() + pq.len()) as int] == curr);
}

proof fn lemma_queries_split(pi: nat, ci: nat, extra: CircuitConfig, ks: Seq<ChipKind>)
    ensures
        spec_queries(pi, ci, extra, ks) == (rotations_of(spec_advice_columns(extra, ks)) + rotations_of(
            spec_fixed_columns(extra, ks),
        )) + tail_queries(pi, ci, extra, ks),
{
    assert(spec_queries(pi, ci, extra, ks) =~= (rotations_of(spec_advice_columns(extra, ks)) + rotations_of(
        spec_fixed_columns(extra, ks),
    )) + tail_queries(pi, ci, extra, ks));
}

proof fn lemma_selector_tail(pi: nat, ci: nat, extra: CircuitConfig, ks: Seq<ChipKind>)
    requires
        extra.nb_selectors < usize::MAX,
    ensures
        tail_queries(pi, ci, with_one_more_selector(extra), ks) == tail_queries(pi, ci, extra, ks),
        spec_advice_columns(with_one_more_selector(extra), ks) == spec_advice_columns(extra, ks),
{
    lemma_selector_counts(pi, ci, extra, ks);
}

proof fn lemma_selector_queries(pi: nat, ci: nat, extra: CircuitConfig, ks: Seq<ChipKind>)
    requires
        extra.nb_selectors < usize::MAX,
    ensures
        point_set_keys(spec_queries(pi, ci, with_one_more_selector(extra), ks)) == point_set_keys(
            spec_queries(pi, ci, extra, ks),
        ),
{
    let e2 = with_one_more_selector(extra);
    lemma_selector_fixed(extra, ks);
    lemma_selector_tail(pi, ci, extra, ks);
    lemma_queries_split(pi, ci, extra, ks);
    lemma_queries_split(pi, ci, e2, ks);
    let curr = RotationSet::spec_curr();
    let f = spec_fixed_columns(extra, ks);
    let a = rotations_of(spec_advice_columns(extra, ks));
    let b = rotations_of(f);
    let rest = tail_queries(pi, ci, extra, ks);
    assert(rotations_of(f.push(selector_col())) =~= b.push(curr));
    lemma_tail_has_curr(pi, ci, extra, ks);
    lemma_extra_present_query(a, b, rest, curr);
}

/// One more selector adds one fixed column, evaluated once at the current
/// row and not copy constrained: the circuit keeps its advice columns, copy
/// constraints, degree, arguments and point sets.
pub proof fn lemma_one_more_selector(pi: nat, ci: nat, extra: CircuitConfig, used: Seq<ChipKind>)
    requires
        extra.nb_selectors < usize::MAX,
    ensures
        ({
            let p = spec_process(pi, ci, extra, used);
            let p2 = spec_process(pi, ci, with_one_more_selector(extra), used);
            &&& p2.nb_fixed == p.nb_fixed + 1
            &&& p2.nb_advice_fixed_evaluations == p.nb_advice_fixed_evaluations + 1
            &&& p2.nb_advice == p.nb_advice
            &&& p2.nb_copy_constrained == p.nb_copy_constrained
            &&& p2.circuit_degree == p.circuit_degree
            &&& p2.nb_committed_instances == p.nb_committed_instances
            &&& p2.gate_args == p.gate_args
            &&& p2.lookup_args == p.lookup_args
            &&& p2.trashcan_args == p.trashcan_args
            &&& p2.nb_point_sets == p.nb_point_sets
        }),
{
    let ks = effective_chips(extra, used);
    lemma_selector_chips(extra, used);
    lemma_selector_fixed(extra, ks);
    lemma_selector_counts(pi, ci, extra, ks);
    lemma_selector_queries(pi, ci, extra, ks);
}

/// A chip with the name of its lookup table, if any, cleared.
pub open spec fn unnamed(k: ChipKind) -> ChipKind {
    match k {
        ChipKind::Lookup(t) => ChipKind::Lookup((Seq::empty(), t.1, t.2, t.3, t.4)),
        _ => k,
    }
}

/// The chips with their table names cleared.
pub open spec fn unnamed_all(ks: Seq<ChipKind>) -> Seq<ChipKind> {
    Seq::new(ks.len(), |i: int| unnamed(ks[i]))
}

/// What the chips contribute, table names apart, does not depend on those
/// names.
proof fn lemma_unnamed_contributions(ks: Seq<ChipKind>)
    ensures
        all_gates(unnamed_all(ks)) == all_gates(ks),
        all_lookups(unnamed_all(ks)) == all_lookups(ks),
        all_trash(unnamed_all(ks)) == all_trash(ks),
        sum_lookup_args(unnamed_all(ks)) == sum_lookup_args(ks),
        sum_trash_args(unnamed_all(ks)) == sum_trash_args(ks),
        max_chip_degree(unnamed_all(ks)) == max_chip_degree(ks),
        spec_merged_advice(unnamed_all(ks)) == spec_merged_advice(ks),
        spec_merged_fixed(unnamed_all(ks)) == spec_merged_fixed(ks),
    decreases ks.len(),
{
    let u = unnamed_all(ks);
    if ks.len() > 0 {
        lemma_unnamed_contributions(ks.drop_last());
        assert(u.drop_last() =~= unnamed_all(ks.drop_last()));
        assert(u.last() == unnamed(ks.last()));
    }
    assert(advice_lists(u) =~= advice_lists(ks));
    assert(fixed_lists(u) =~= fixed_lists(ks));
    assert(extra_lists(u) =~= extra_lists(ks));
}

/// The power-of-two range chip that a configuration adds to chips that ask
/// for no pow2range column.
pub open spec fn p2r_tail(extra: CircuitConfig) -> Seq<ChipKind> {
    match extra.nr_pow2range_cols {
        Some(n) => if n > 0 { seq![ChipKind::P2RDecomposition(n)] } else { Seq::empty() },
        None => Seq::empty(),
    }
}

/// A lookup chip on its own: the circuit holds it, then the power-of-two
/// range chip when the configuration asks for pow2range columns.
proof fn lemma_lookup_alone(extra: CircuitConfig, v: TableView)
    ensures
        effective_chips(extra, seq![ChipKind::Lookup(v)]) == seq![ChipKind::Lookup(v)] + p2r_tail(extra),
{
    let l = ChipKind::Lookup(v);
    let e = Seq::<ChipKind>::empty();
    assert(seq![l].drop_last() =~= e);
    assert(seq![l].last() == l);
    assert(flat_closures(e) == e);
    assert(closure(l) == seq![l]);
    assert(flat_closures(seq![l]) =~= seq![l]);
    assert(insert_kinds(e, e) == e);
    assert(!e.contains(l));
    assert(insert_kinds(e, seq![l]) =~= seq![l]);
    assert(spec_flatten(seq![l]) == seq![l]);
    assert(max_nr_pow2(e) == 0);
    assert(max_nr_pow2(seq![l]) == 0);
    match extra.nr_pow2range_cols {
        Some(n) => {
            if n > 0 {
                let p = ChipKind::P2RDecomposition(n);
                assert(with_p2r(extra, seq![l]) =~= seq![l, p]);
                assert(seq![l, p].drop_last() =~= seq![l]);
                assert(flat_closures(seq![l, p]) =~= seq![l, p]);
                assert(seq![l, p].drop_last() =~= seq![l]);
                assert(!seq![l].contains(p)) by {
                    if seq![l].contains(p) {
                        let t = choose|t: int| 0 <= t < 1 && seq![l][t] == p;
                        assert(seq![l][t] == l);
                    }
                }
                assert(insert_kinds(e, seq![l, p]) =~= seq![l, p]);
                assert(seq![l] + p2r_tail(extra) =~= seq![l, p]);
            } else {
                assert(with_p2r(extra, seq![l]) == seq![l]);
                assert(seq![l] + p2r_tail(extra) =~= seq![l]);
            }
        },
        None => {
            assert(with_p2r(extra, seq![l]) == seq![l]);
            assert(seq![l] + p2r_tail(extra) =~= seq![l]);
        },
    }
}

/// The table columns of a lookup chip on its own: its table's, then the
/// power-of-two range table's when that chip is there.
proof fn lemma_lookup_alone_tables(extra: CircuitConfig, v: TableView)
    requires
        v.2 >= 1,
    ensures
        table_columns(spec_distinct_tables(seq![ChipKind::Lookup(v)] + p2r_tail(extra))) == Seq::new(
            v.1 as nat,
            |i: int| table_col(),
        ) + table_columns(all_tables(p2r_tail(extra))),
{
    let l = ChipKind::Lookup(v);
    let ks = seq![l] + p2r_tail(extra);
    let e = Seq::<TableView>::empty();
    assert(seq![l].drop_last() =~= Seq::<ChipKind>::empty());
    assert(seq![l].last() == l);
    assert(all_tables(Seq::<ChipKind>::empty()) == e);
    assert(all_tables(seq![l]) =~= seq![v]);
    assert(seq![v].drop_last() =~= e);
    assert(seq![v].last() == v);
    assert(insert_tables(e, e) == e);
    assert(!e.contains(v));
    assert(insert_tables(e, seq![v]) =~= seq![v]);
    assert(table_columns(e) == Seq::<Column>::empty());
    assert(table_columns(seq![v]) =~= Seq::new(v.1 as nat, |i: int| table_col()));
    if p2r_tail(extra).len() > 0 {
        let p = p2r_tail(extra)[0];
        let pt = ("pow2range"@, 2usize, 0usize, 0usize, 0usize);
        assert(ks =~= seq![l, p]);
        assert(seq![l, p].drop_last() =~= seq![l]);
        assert(all_tables(ks) =~= seq![v, pt]);
        assert(all_tables(p2r_tail(extra)) =~= seq![pt]) by {
            assert(p2r_tail(extra).drop_last() =~= Seq::<ChipKind>::empty());
        }
        assert(seq![v, pt].drop_last() =~= seq![v]);
        assert(!seq![v].contains(pt)) by {
            if seq![v].contains(pt) {
                let t = choose|t: int| 0 <= t < 1 && seq![v][t] == pt;
                assert(seq![v][t] == v);
            }
        }
        assert(insert_tables(e, seq![v, pt]) =~= seq![v, pt]);
        assert(seq![v, pt].drop_last() =~= seq![v]);
        assert(seq![pt].drop_last() =~= e);
        assert(table_columns(seq![pt]) =~= Seq::new(2, |i: int| table_col()));
    } else {
        assert(ks =~= seq![l]);
        assert(all_tables(p2r_tail(extra)) =~= e);
        assert(table_columns(e) =~= Seq::<Column>::empty());
    }
}

/// The name of a lookup chip's table never changes an estimate: two lookup
/// chips that differ in their table's name alone make the same circuit, and
/// either both are accepted or neither is.
pub proof fn lemma_lookup_name_irrelevant(pi: nat, ci: nat, extra: CircuitConfig, v1: TableView, v2: TableView)
    requires
        v1.1 == v2.1,
        v1.2 == v2.2,
        v1.3 == v2.3,
        v1.4 == v2.4,
        v1.2 >= 1,
    ensures
        spec_process(pi, ci, extra, seq![ChipKind::Lookup(v1)]) == spec_process(pi, ci, extra, seq![ChipKind::Lookup(v2)]),
        process_ok(pi, ci, extra, seq![ChipKind::Lookup(v1)]) == process_ok(pi, ci, extra, seq![ChipKind::Lookup(v2)]),
{
    let u1 = seq![ChipKind::Lookup(v1)];
    let u2 = seq![ChipKind::Lookup(v2)];
    lemma_lookup_alone(extra, v1);
    lemma_lookup_alone(extra, v2);
    lemma_lookup_alone_tables(extra, v1);
    lemma_lookup_alone_tables(extra, v2);
    let ks1 = effective_chips(extra, u1);
    let ks2 = effective_chips(extra, u2);
    assert(unnamed_all(ks1) =~= unnamed_all(ks2));
    lemma_unnamed_contributions(ks1);
    lemma_unnamed_contributions(ks2);
    assert(spec_advice_columns(extra, ks1) == spec_advice_columns(extra, ks2));
    assert(spec_fixed_columns(extra, ks1) == spec_fixed_columns(extra, ks2));
    assert(spec_nb_lookup_args(extra, ks1) == spec_nb_lookup_args(extra, ks2));
    assert(spec_lookup_args(extra, ks1) == spec_lookup_args(extra, ks2));
    assert(spec_nb_cc(pi, ci, extra, ks1) == spec_nb_cc(pi, ci, extra, ks2));
    assert(spec_circuit_degree(pi, ci, extra, ks1) == spec_circuit_degree(pi, ci, extra, ks2));
    assert(spec_queries(pi, ci, extra, ks1) == spec_queries(pi, ci, extra, ks2));
    assert(u1[0].wf() == u2[0].wf());
    assert(all_wf(u1) == all_wf(u2)) by {
        if all_wf(u1) {
            assert forall|i: int| 0 <= i < u2.len() implies (#[trigger] u2[i]).wf() by {
                assert(u1[i].wf());
            }
        }
        if all_wf(u2) {
            assert forall|i: int| 0 <= i < u1.len() implies (#[trigger] u1[i]).wf() by {
                assert(u2[i].wf());
            }
        }
    }
}

} // verus!
