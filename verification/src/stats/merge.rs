use vstd::prelude::*;

use super::chips::{ChipKind, SupportedChips};
use super::column::{Column, ColumnType};
use super::flatten::{flatten_chips, kinds, spec_flatten};
use super::lookup_table::{LookupTable, TableView, table_views};
use super::rotation_set::RotationSet;

verus! {

/// The views of a list of column lists.
pub open spec fn col_lists(v: Seq<Vec<Column>>) -> Seq<Seq<Column>> {
    Seq::new(v.len(), |i: int| v[i]@)
}

pub proof fn lemma_col_lists_push(v: Seq<Vec<Column>>, x: Vec<Column>)
    ensures
        col_lists(v.push(x)) == col_lists(v).push(x@),
{
    assert(col_lists(v.push(x)) =~= col_lists(v).push(x@));
}

/// `acc` with its first columns merged with `cols`, position by position.
pub open spec fn merge_into(acc: Seq<Column>, cols: Seq<Column>) -> Seq<Column> {
    Seq::new(acc.len(), |i: int| if i < cols.len() { acc[i].merged(cols[i]) } else { acc[i] })
}

/// `acc` merged with each list of `ls` in turn.
pub open spec fn merge_lists(acc: Seq<Column>, ls: Seq<Seq<Column>>) -> Seq<Column>
    decreases ls.len(),
{
    if ls.len() == 0 {
        acc
    } else {
        merge_into(merge_lists(acc, ls.drop_last()), ls.last())
    }
}

/// Length of the longest list (0 when there is none).
pub open spec fn max_len(ls: Seq<Seq<Column>>) -> nat
    decreases ls.len(),
{
    if ls.len() == 0 {
        0
    } else {
        let m = max_len(ls.drop_last());
        if ls.last().len() > m {
            ls.last().len()
        } else {
            m
        }
    }
}

/// The lists one after the other.
pub open spec fn concat_lists(ls: Seq<Seq<Column>>) -> Seq<Column>
    decreases ls.len(),
{
    if ls.len() == 0 {
        Seq::empty()
    } else {
        concat_lists(ls.drop_last()) + ls.last()
    }
}

pub open spec fn empty_of(t: ColumnType) -> Column {
    Column { column_type: t, copy_constrained: false, rotations: RotationSet::default_spec() }
}

pub open spec fn advice_lists(ks: Seq<ChipKind>) -> Seq<Seq<Column>> {
    Seq::new(ks.len(), |i: int| ks[i].spec_advice())
}

pub open spec fn fixed_lists(ks: Seq<ChipKind>) -> Seq<Seq<Column>> {
    Seq::new(ks.len(), |i: int| ks[i].spec_fixed())
}

pub open spec fn extra_lists(ks: Seq<ChipKind>) -> Seq<Seq<Column>> {
    Seq::new(ks.len(), |i: int| ks[i].spec_extra_fixed())
}

/// One advice column per position, merging every chip's column at that position.
pub open spec fn spec_merged_advice(ks: Seq<ChipKind>) -> Seq<Column> {
    merge_lists(Seq::new(max_len(advice_lists(ks)), |i: int| empty_of(ColumnType::Advice)), advice_lists(ks))
}

/// The merged shared fixed columns, then every chip's other fixed columns.
pub open spec fn spec_merged_fixed(ks: Seq<ChipKind>) -> Seq<Column> {
    merge_lists(Seq::new(max_len(fixed_lists(ks)), |i: int| empty_of(ColumnType::SharedFixed)), fixed_lists(ks))
        + concat_lists(extra_lists(ks))
}

/// Every column of every list has the given type.
pub open spec fn all_of_type(ls: Seq<Seq<Column>>, t: ColumnType) -> bool {
    forall|i: int, j: int| 0 <= i < ls.len() && 0 <= j < ls[i].len() ==> (#[trigger] ls[i][j]).column_type == t
}

pub proof fn lemma_advice_is_advice(ks: Seq<ChipKind>)
    ensures
        all_of_type(advice_lists(ks), ColumnType::Advice),
{
    assert forall|i: int, j: int| 0 <= i < advice_lists(ks).len() && 0 <= j < advice_lists(ks)[i].len()
        implies (#[trigger] advice_lists(ks)[i][j]).column_type == ColumnType::Advice by {
        let k = ks[i];
        match k {
            ChipKind::Native => {},
            ChipKind::Poseidon => {},
            ChipKind::EdwardsJubjub => {},
            ChipKind::P2RDecomposition(_) => {},
            _ => {},
        }
    }
}

pub proof fn lemma_fixed_is_shared(ks: Seq<ChipKind>)
    ensures
        all_of_type(fixed_lists(ks), ColumnType::SharedFixed),
{
}

/// Merges `cols` into the first columns of `acc`.
fn merge_columns_into(acc: &mut Vec<Column>, cols: &Vec<Column>)
    requires
        cols@.len() <= old(acc)@.len(),
        forall|i: int| 0 <= i < cols@.len() ==> (#[trigger] cols@[i]).column_type == old(acc)@[i].column_type,
    ensures
        final(acc)@ == merge_into(old(acc)@, cols@),
{
    let ghost a0 = acc@;
    let n = cols.len();
    let mut i: usize = 0;
    while i < n
        invariant
            i <= n,
            n == cols@.len(),
            n <= a0.len(),
            acc@.len() == a0.len(),
            forall|j: int| 0 <= j < n ==> (#[trigger] cols@[j]).column_type == a0[j].column_type,
            forall|j: int| 0 <= j < a0.len() ==> #[trigger] acc@[j] == (if j < i { a0[j].merged(cols@[j]) } else { a0[j] }),
        decreases n - i,
    {
        let mut c = acc[i];
        c.merge_column(cols[i]);
        acc.set(i, c);
        i = i + 1;
    }
    assert(acc@ =~= merge_into(a0, cols@));
}

/// Length of the longest list.
fn max_len_of(ls: &Vec<Vec<Column>>) -> (m: usize)
    ensures
        m == max_len(col_lists(ls@)),
{
    let ghost s = col_lists(ls@);
    let mut m: usize = 0;
    let n = ls.len();
    let mut i: usize = 0;
    while i < n
        invariant
            i <= n,
            n == ls@.len(),
            s == col_lists(ls@),
            m == max_len(s.take(i as int)),
        decreases n - i,
    {
        assert(s.take(i + 1).drop_last() =~= s.take(i as int));
        if ls[i].len() > m {
            m = ls[i].len();
        }
        i = i + 1;
    }
    assert(s.take(n as int) =~= s);
    m
}

/// Every list is at most as long as `max_len`.
pub proof fn lemma_max_len(ls: Seq<Seq<Column>>)
    ensures
        forall|i: int| 0 <= i < ls.len() ==> (#[trigger] ls[i]).len() <= max_len(ls),
    decreases ls.len(),
{
    if ls.len() > 0 {
        lemma_max_len(ls.drop_last());
        assert forall|i: int| 0 <= i < ls.len() implies (#[trigger] ls[i]).len() <= max_len(ls) by {
            if i < ls.len() - 1 {
                assert(ls[i] == ls.drop_last()[i]);
            }
        }
    }
}

/// `merge_lists` keeps the length and the column types of the base.
pub proof fn lemma_merge_lists_shape(acc: Seq<Column>, ls: Seq<Seq<Column>>, t: ColumnType)
    requires
        forall|j: int| 0 <= j < acc.len() ==> (#[trigger] acc[j]).column_type == t,
    ensures
        merge_lists(acc, ls).len() == acc.len(),
        forall|j: int| 0 <= j < acc.len() ==> (#[trigger] merge_lists(acc, ls)[j]).column_type == t,
    decreases ls.len(),
{
    if ls.len() > 0 {
        lemma_merge_lists_shape(acc, ls.drop_last(), t);
    }
}

/// Merges the lists into `len` fresh columns of type `t`.
fn merge_all(ls: &Vec<Vec<Column>>, t: ColumnType) -> (r: Vec<Column>)
    requires
        all_of_type(col_lists(ls@), t),
    ensures
        r@ == merge_lists(
            Seq::new(max_len(col_lists(ls@)), |i: int| empty_of(t)),
            col_lists(ls@),
        ),
{
    let ghost s = col_lists(ls@);
    let m = max_len_of(ls);
    let mut acc: Vec<Column> = Vec::new();
    let mut k: usize = 0;
    while k < m
        invariant
            k <= m,
            acc@ == Seq::new(k as nat, |i: int| empty_of(t)),
        decreases m - k,
    {
        acc.push(Column { column_type: t, copy_constrained: false, rotations: RotationSet::none() });
        k = k + 1;
        assert(acc@ =~= Seq::new(k as nat, |i: int| empty_of(t)));
    }
    let ghost base = acc@;
    proof {
        lemma_max_len(s);
    }
    let n = ls.len();
    let mut i: usize = 0;
    while i < n
        invariant
            i <= n,
            n == ls@.len(),
            s == col_lists(ls@),
            base == Seq::new(m as nat, |i: int| empty_of(t)),
            m == max_len(s),
            all_of_type(s, t),
            forall|j: int| 0 <= j < s.len() ==> (#[trigger] s[j]).len() <= max_len(s),
            acc@ == merge_lists(base, s.take(i as int)),
        decreases n - i,
    {
        proof {
            lemma_merge_lists_shape(base, s.take(i as int), t);
            assert(s.take(i + 1).drop_last() =~= s.take(i as int));
            assert(s[i as int] == ls@[i as int]@);
        }
        merge_columns_into(&mut acc, &ls[i]);
        i = i + 1;
    }
    assert(s.take(n as int) =~= s);
    acc
}

/// Merges the advice columns of all chips position by position.
pub fn merge_chips_advice(chips: &Vec<SupportedChips>) -> (r: Vec<Column>)
    ensures
        r@ == spec_merged_advice(kinds(chips@)),
{
    let ghost ks = kinds(chips@);
    let mut all: Vec<Vec<Column>> = Vec::new();
    let n = chips.len();
    let mut i: usize = 0;
    while i < n
        invariant
            i <= n,
            n == chips@.len(),
            ks == kinds(chips@),
            col_lists(all@) == advice_lists(ks).take(i as int),
        decreases n - i,
    {
        let a = chips[i].advice();
        let ghost before = col_lists(all@);
        all.push(a);
        proof {
            lemma_col_lists_push(all@.drop_last(), a);
            assert(all@.drop_last() =~= all@.drop_last());
            assert(advice_lists(ks).take(i + 1) =~= advice_lists(ks).take(i as int).push(advice_lists(ks)[i as int]));
        }
        i = i + 1;
    }
    assert(advice_lists(ks).take(n as int) =~= advice_lists(ks));
    proof {
        lemma_advice_is_advice(ks);
    }
    merge_all(&all, ColumnType::Advice)
}

/// Merges the shared fixed columns of all chips position by position, then
/// appends every chip's other fixed columns.
pub fn merge_chips_fixed(chips: &Vec<SupportedChips>) -> (r: Vec<Column>)
    ensures
        r@ == spec_merged_fixed(kinds(chips@)),
{
    let ghost ks = kinds(chips@);
    let mut all: Vec<Vec<Column>> = Vec::new();
    let n = chips.len();
    let mut i: usize = 0;
    while i < n
        invariant
            i <= n,
            n == chips@.len(),
            ks == kinds(chips@),
            col_lists(all@) == fixed_lists(ks).take(i as int),
        decreases n - i,
    {
        let a = chips[i].fixed();
        let ghost before = col_lists(all@);
        all.push(a);
        proof {
            lemma_col_lists_push(all@.drop_last(), a);
            assert(all@.drop_last() =~= all@.drop_last());
            assert(fixed_lists(ks).take(i + 1) =~= fixed_lists(ks).take(i as int).push(fixed_lists(ks)[i as int]));
        }
        i = i + 1;
    }
    assert(fixed_lists(ks).take(n as int) =~= fixed_lists(ks));
    proof {
        lemma_fixed_is_shared(ks);
    }
    let mut out = merge_all(&all, ColumnType::SharedFixed);
    let ghost merged = out@;
    let mut i: usize = 0;
    while i < n
        invariant
            i <= n,
            n == chips@.len(),
            ks == kinds(chips@),
            out@ == merged + concat_lists(extra_lists(ks).take(i as int)),
        decreases n - i,
    {
        let extra = chips[i].extra_fixed();
        let ghost before = out@;
        let m = extra.len();
        let mut j: usize = 0;
        while j < m
            invariant
                j <= m,
                m == extra@.len(),
                out@ == before + extra@.take(j as int),
            decreases m - j,
        {
            out.push(extra[j]);
            j = j + 1;
            assert(out@ =~= before + extra@.take(j as int));
        }
        assert(extra@.take(m as int) =~= extra@);
        assert(extra_lists(ks).take(i + 1).drop_last() =~= extra_lists(ks).take(i as int));
        assert(out@ =~= merged + concat_lists(extra_lists(ks).take(i + 1)));
        i = i + 1;
    }
    assert(extra_lists(ks).take(n as int) =~= extra_lists(ks));
    out
}

// ---------------------------------------------------------------------------
// Lookup tables.

/// Adds each table of `s` in turn, skipping those already present.
pub open spec fn insert_tables(d: Seq<TableView>, s: Seq<TableView>) -> Seq<TableView>
    decreases s.len(),
{
    if s.len() == 0 {
        d
    } else {
        let r = insert_tables(d, s.drop_last());
        if r.contains(s.last()) { r } else { r.push(s.last()) }
    }
}

/// All tables of the chips, one after the other.
pub open spec fn all_tables(ks: Seq<ChipKind>) -> Seq<TableView>
    decreases ks.len(),
{
    if ks.len() == 0 {
        Seq::empty()
    } else {
        all_tables(ks.drop_last()) + ks.last().spec_tables()
    }
}

/// The distinct tables of already-flattened chips.
pub open spec fn spec_distinct_tables(ks: Seq<ChipKind>) -> Seq<TableView> {
    insert_tables(Seq::empty(), all_tables(ks))
}

/// The distinct lookup tables of already-flattened chips.
pub fn distinct_tables(chips: &Vec<SupportedChips>) -> (r: Vec<LookupTable>)
    ensures
        table_views(r@) == spec_distinct_tables(kinds(chips@)),
{
    let ghost ks = kinds(chips@);
    let mut out: Vec<LookupTable> = Vec::new();
    let ghost raw: Seq<TableView> = Seq::empty();
    assert(table_views(out@) =~= insert_tables(Seq::empty(), raw));
    let n = chips.len();
    let mut i: usize = 0;
    while i < n
        invariant
            i <= n,
            n == chips@.len(),
            ks == kinds(chips@),
            raw == all_tables(ks.take(i as int)),
            table_views(out@) == insert_tables(Seq::empty(), raw),
        decreases n - i,
    {
        let ts = chips[i].lookup_tables();
        let m = ts.len();
        let ghost raw0 = raw;
        let mut j: usize = 0;
        while j < m
            invariant
                j <= m,
                m == ts@.len(),
                table_views(ts@) == ks[i as int].spec_tables(),
                i < n,
                n == ks.len(),
                raw == raw0 + ks[i as int].spec_tables().take(j as int),
                table_views(out@) == insert_tables(Seq::empty(), raw),
            decreases m - j,
        {
            let t = ts[j].duplicate();
            let ghost tv = t.tview();
            assert(tv == ks[i as int].spec_tables()[j as int]);
            let ghost ov = table_views(out@);
            let k = out.len();
            let mut found = false;
            let mut q: usize = 0;
            while q < k
                invariant
                    q <= k,
                    k == out@.len(),
                    ov == table_views(out@),
                    tv == t.tview(),
                    found == exists|p: int| 0 <= p < q && ov[p] == tv,
                decreases k - q,
            {
                assert(ov[q as int] == out@[q as int].tview());
                let b = out[q].same_as(&t);
                assert(b == (out@[q as int].tview() == t.tview()));
                assert(tv == t.tview());
                if b {
                    found = true;
                    assert(ov[q as int] == tv);
                } else {
                    assert(ov[q as int] != tv);
                }
                q = q + 1;
            }
            proof {
                assert((raw + seq![tv]).drop_last() =~= raw);
                assert(found == ov.contains(tv));
                raw = raw + seq![tv];
                assert(raw0 + ks[i as int].spec_tables().take(j + 1) =~= raw);
            }
            if !found {
                out.push(t);
                assert(table_views(out@) =~= ov.push(tv));
            }
            j = j + 1;
        }
        proof {
            assert(ks[i as int].spec_tables().take(m as int) =~= ks[i as int].spec_tables());
            assert(ks.take(i + 1).drop_last() =~= ks.take(i as int));
            assert(ks.take(i + 1).last() == ks[i as int]);
        }
        i = i + 1;
    }
    assert(ks.take(n as int) =~= ks);
    out
}

/// The distinct lookup tables of the chips and of every chip they depend on.
pub fn flatten_tables(chips: &Vec<SupportedChips>) -> (r: Vec<LookupTable>)
    ensures
        table_views(r@) == spec_distinct_tables(spec_flatten(kinds(chips@))),
{
    let flat = flatten_chips(chips);
    distinct_tables(&flat)
}

} // verus!
