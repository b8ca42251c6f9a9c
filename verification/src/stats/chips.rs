use vstd::prelude::*;

use super::column::Column;
use super::expression::{Argument, ScalarExpression, max_degree};
use super::lookup_table::{LookupTable, TableView, table_views};
use super::primitives::{
    EdwardsJubjub, Native, P2RDecomposition, Poseidon, args_view,
};
use super::scalar_ops::ScalarOps;

verus! {

/// The chips whose costs the estimator knows.
#[derive(Debug, Clone)]
pub enum SupportedChips {
    Native,
    Poseidon,
    HashToCurve,
    EdwardsJubjub,
    /// Power-of-two range decomposition with the given number of value columns.
    P2RDecomposition(usize),
    /// A user-supplied lookup table.
    Lookup(LookupTable),
}

/// Returns a chip made of `nb_arguments` lookup arguments into one table column.
/// `name` only labels the table.
pub fn lookup_chip(name: String, nb_arguments: usize, input_degree: usize, table_degree: usize) -> (c:
    SupportedChips)
    ensures
        c matches SupportedChips::Lookup(t) && t.name@ == name@ && t.nb_columns == 1
            && t.nb_arguments == (if nb_arguments > 1 { nb_arguments } else { 1 })
            && t.input_degree == (if input_degree > 2 { input_degree } else { 2 })
            && t.table_degree == (if table_degree > 1 { table_degree } else { 1 }),
{
    SupportedChips::Lookup(
        LookupTable::new(
            name,
            1,
            if nb_arguments > 1 { nb_arguments } else { 1 },
            if input_degree > 1 { input_degree } else { 1 },
            if table_degree > 1 { table_degree } else { 1 },
        ),
    )
}

/// Degree of a group of expressions: its largest degree, 1 when empty.
pub open spec fn group_degree(g: Seq<ScalarExpression>) -> nat {
    if g.len() == 0 { 1 } else { max_degree(g) }
}

/// Degree of a list of argument groups: the largest group degree, 1 when empty.
pub open spec fn args_degree(a: Seq<Seq<ScalarExpression>>) -> nat
    decreases a.len(),
{
    if a.len() == 0 {
        1
    } else if a.len() == 1 {
        group_degree(a[0])
    } else {
        let m = args_degree(a.drop_last());
        let g = group_degree(a.last());
        if g > m { g } else { m }
    }
}

/// Degree of the lookup argument of a table: `max(4, 2 + input + table)`.
pub open spec fn table_lookup_degree(t: TableView) -> int {
    if 2 + t.3 + t.4 > 4 { 2 + t.3 + t.4 } else { 4 }
}

/// What a chip is, as far as the estimator is concerned.
pub enum ChipKind {
    Native,
    Poseidon,
    HashToCurve,
    EdwardsJubjub,
    P2RDecomposition(usize),
    Lookup(TableView),
}

impl View for SupportedChips {
    type V = ChipKind;

    open spec fn view(&self) -> ChipKind {
        match self {
            SupportedChips::Native => ChipKind::Native,
            SupportedChips::Poseidon => ChipKind::Poseidon,
            SupportedChips::HashToCurve => ChipKind::HashToCurve,
            SupportedChips::EdwardsJubjub => ChipKind::EdwardsJubjub,
            SupportedChips::P2RDecomposition(n) => ChipKind::P2RDecomposition(*n),
            SupportedChips::Lookup(t) => ChipKind::Lookup(t.tview()),
        }
    }
}

impl ChipKind {
    /// The chip's parameters are small enough for its degree to fit in `usize`.
    pub open spec fn wf(self) -> bool {
        match self {
            ChipKind::Lookup(t) => t.3 + t.4 + 2 <= usize::MAX,
            _ => true,
        }
    }

    pub open spec fn spec_advice(self) -> Seq<Column> {
        match self {
            ChipKind::Native => Native::spec_advice(),
            ChipKind::Poseidon => Poseidon::spec_advice(),
            ChipKind::EdwardsJubjub => EdwardsJubjub::spec_advice(),
            ChipKind::P2RDecomposition(_) => P2RDecomposition::spec_advice(),
            _ => Seq::empty(),
        }
    }

    pub open spec fn spec_fixed(self) -> Seq<Column> {
        match self {
            ChipKind::Native => Native::spec_fixed(),
            ChipKind::Poseidon => Poseidon::spec_fixed(),
            _ => Seq::empty(),
        }
    }

    pub open spec fn spec_extra_fixed(self) -> Seq<Column> {
        match self {
            ChipKind::Native => Native::spec_extra(),
            ChipKind::Poseidon => Poseidon::spec_extra(),
            ChipKind::EdwardsJubjub => EdwardsJubjub::spec_extra(),
            ChipKind::P2RDecomposition(_) => P2RDecomposition::spec_extra(),
            _ => Seq::empty(),
        }
    }

    pub open spec fn spec_gates(self) -> Seq<Seq<ScalarExpression>> {
        match self {
            ChipKind::Native => Native::spec_gates(),
            ChipKind::Poseidon => Poseidon::spec_gates(),
            ChipKind::EdwardsJubjub => EdwardsJubjub::spec_gates(),
            _ => Seq::empty(),
        }
    }

    pub open spec fn spec_lookups(self) -> Seq<Seq<ScalarExpression>> {
        match self {
            ChipKind::P2RDecomposition(n) => Seq::new(n as nat, |i: int| P2RDecomposition::spec_lookup_arg()),
            ChipKind::Lookup(t) => seq![
                Seq::new(
                    t.2 as nat,
                    |i: int|
                        ScalarExpression { degree: table_lookup_degree(t) as usize, ops: ScalarOps::zero() },
                ),
            ],
            _ => Seq::empty(),
        }
    }

    pub open spec fn spec_trash(self) -> Seq<Seq<ScalarExpression>> {
        match self {
            ChipKind::Poseidon => Poseidon::spec_trash(),
            _ => Seq::empty(),
        }
    }

    /// The lookup tables, by name and numbers.
    pub open spec fn spec_tables(self) -> Seq<TableView> {
        match self {
            ChipKind::Lookup(t) => seq![t],
            ChipKind::P2RDecomposition(_) => seq![("pow2range"@, 2usize, 0usize, 0usize, 0usize)],
            _ => Seq::empty(),
        }
    }

    pub open spec fn spec_nb_lookup_args(self) -> nat {
        match self {
            ChipKind::P2RDecomposition(n) => n as nat,
            ChipKind::Lookup(t) => t.2 as nat,
            _ => 0,
        }
    }

    pub open spec fn spec_nb_trash_args(self) -> nat {
        self.spec_trash().len()
    }

    pub open spec fn spec_deps(self) -> Seq<ChipKind> {
        match self {
            ChipKind::Poseidon => seq![ChipKind::Native],
            ChipKind::EdwardsJubjub => seq![ChipKind::Native],
            ChipKind::HashToCurve => seq![ChipKind::Poseidon, ChipKind::EdwardsJubjub],
            _ => Seq::empty(),
        }
    }

    pub open spec fn spec_nr_pow2(self) -> nat {
        match self {
            ChipKind::Native => 1,
            ChipKind::P2RDecomposition(n) => n as nat,
            _ => 0,
        }
    }

    pub open spec fn spec_degree(self) -> nat {
        match self {
            ChipKind::Lookup(t) => table_lookup_degree(t) as nat,
            _ => args_degree(self.spec_gates() + self.spec_lookups() + self.spec_trash()),
        }
    }

    /// The name the chip is known by.
    pub open spec fn spec_name(self) -> Seq<char> {
        match self {
            ChipKind::Native => "Native"@,
            ChipKind::Poseidon => "Poseidon"@,
            ChipKind::HashToCurve => "HashToCurve"@,
            ChipKind::EdwardsJubjub => "EdwardsJubjub"@,
            ChipKind::P2RDecomposition(_) => "P2RDecomposition"@,
            ChipKind::Lookup(_) => "Lookup"@,
        }
    }

}

impl SupportedChips {
    /// The chip's name.
    pub fn name(&self) -> (s: String)
        ensures
            s@ == self@.spec_name(),
    {
        match self {
            SupportedChips::Native => String::from_str("Native"),
            SupportedChips::Poseidon => String::from_str("Poseidon"),
            SupportedChips::HashToCurve => String::from_str("HashToCurve"),
            SupportedChips::EdwardsJubjub => String::from_str("EdwardsJubjub"),
            SupportedChips::P2RDecomposition(_) => String::from_str("P2RDecomposition"),
            SupportedChips::Lookup(_) => String::from_str("Lookup"),
        }
    }

    /// Compares two chips as `same` does.
    pub fn same_as(&self, o: &Self) -> (b: bool)
        ensures
            b == (self@ == o@),
    {
        match (self, o) {
            (SupportedChips::Native, SupportedChips::Native) => true,
            (SupportedChips::Poseidon, SupportedChips::Poseidon) => true,
            (SupportedChips::HashToCurve, SupportedChips::HashToCurve) => true,
            (SupportedChips::EdwardsJubjub, SupportedChips::EdwardsJubjub) => true,
            (SupportedChips::P2RDecomposition(n), SupportedChips::P2RDecomposition(m)) => *n == *m,
            (SupportedChips::Lookup(t), SupportedChips::Lookup(u)) => t.same_as(u),
            _ => false,
        }
    }

    /// Advice columns.
    pub fn advice(&self) -> (r: Vec<Column>)
        ensures
            r@ == self@.spec_advice(),
    {
        match self {
            SupportedChips::Native => Native::advice_columns(),
            SupportedChips::Poseidon => Poseidon::advice_columns(),
            SupportedChips::EdwardsJubjub => EdwardsJubjub::advice_columns(),
            SupportedChips::P2RDecomposition(_) => P2RDecomposition::advice_columns(),
            _ => Vec::new(),
        }
    }

    /// Shared fixed columns.
    pub fn fixed(&self) -> (r: Vec<Column>)
        ensures
            r@ == self@.spec_fixed(),
    {
        match self {
            SupportedChips::Native => Native::fixed_columns(),
            SupportedChips::Poseidon => Poseidon::fixed_columns(),
            _ => Vec::new(),
        }
    }

    /// Selectors, complex selectors and exclusive fixed columns. A lookup
    /// chip has none: its table's columns come from `lookup_tables`.
    pub fn extra_fixed(&self) -> (r: Vec<Column>)
        ensures
            r@ == self@.spec_extra_fixed(),
    {
        match self {
            SupportedChips::Native => Native::extra_columns(),
            SupportedChips::Poseidon => Poseidon::extra_columns(),
            SupportedChips::EdwardsJubjub => EdwardsJubjub::extra_columns(),
            SupportedChips::P2RDecomposition(_) => P2RDecomposition::extra_columns(),
            _ => Vec::new(),
        }
    }

    /// Gate arguments.
    pub fn gates(&self) -> (r: Vec<Argument>)
        ensures
            args_view(r) == self@.spec_gates(),
    {
        match self {
            SupportedChips::Native => Native::gate_args(),
            SupportedChips::Poseidon => Poseidon::gate_args(),
            SupportedChips::EdwardsJubjub => EdwardsJubjub::gate_args(),
            _ => {
                let r: Vec<Argument> = Vec::new();
                assert(args_view(r) =~= self@.spec_gates());
                r
            },
        }
    }

    /// Lookup arguments.
    pub fn lookups(&self) -> (r: Vec<Argument>)
        requires
            self@.wf(),
        ensures
            args_view(r) == self@.spec_lookups(),
    {
        match self {
            SupportedChips::P2RDecomposition(n) => {
                let mut v: Vec<Argument> = Vec::new();
                let mut i: usize = 0;
                while i < *n
                    invariant
                        i <= *n,
                        args_view(v) == Seq::new(i as nat, |j: int| P2RDecomposition::spec_lookup_arg()),
                    decreases *n - i,
                {
                    assert(args_view(v).len() == i);
                    assert(v@.len() == i);
                    let a = P2RDecomposition::lookup_arg();
                    let ghost before = v@;
                    let ghost old_av = args_view(v);
                    v.push(a);
                    assert(v@ == before.push(a));
                    assert(before.len() == i);
                    assert(v@.len() == i + 1);
                    assert(args_view(v).len() == i + 1);
                    assert forall|j: int| 0 <= j < i + 1 implies #[trigger] args_view(v)[j]
                        == P2RDecomposition::spec_lookup_arg() by {
                        if j < i {
                            assert(old_av[j] == before[j]@);
                            assert(args_view(v)[j] == before[j]@);
                        } else {
                            assert(args_view(v)[j] == a@);
                        }
                    }
                    i = i + 1;
                    assert(args_view(v) =~= Seq::new(i as nat, |j: int| P2RDecomposition::spec_lookup_arg()));
                }
                v
            },
            SupportedChips::Lookup(t) => {
                let d = Self::table_degree(t);
                let se = ScalarExpression { degree: d, ops: ScalarOps::empty() };
                let mut arg: Vec<ScalarExpression> = Vec::new();
                let mut i: usize = 0;
                while i < t.nb_arguments
                    invariant
                        i <= t.nb_arguments,
                        se == (ScalarExpression { degree: table_lookup_degree(t.tview()) as usize, ops: ScalarOps::zero() }),
                        arg@ == Seq::new(i as nat, |j: int| se),
                    decreases t.nb_arguments - i,
                {
                    arg.push(se);
                    i = i + 1;
                    assert(arg@ =~= Seq::new(i as nat, |j: int| se));
                }
                let r = vec![arg];
                assert(args_view(r) =~= self@.spec_lookups());
                r
            },
            _ => {
                let r: Vec<Argument> = Vec::new();
                assert(args_view(r) =~= self@.spec_lookups());
                r
            },
        }
    }

    /// Trashcan arguments.
    pub fn trashcans(&self) -> (r: Vec<Argument>)
        ensures
            args_view(r) == self@.spec_trash(),
    {
        match self {
            SupportedChips::Poseidon => Poseidon::trash_args(),
            _ => {
                let r: Vec<Argument> = Vec::new();
                assert(args_view(r) =~= self@.spec_trash());
                r
            },
        }
    }

    /// Number of lookup arguments.
    pub fn nb_lookup_args(&self) -> (n: usize)
        ensures
            n == self@.spec_nb_lookup_args(),
    {
        match self {
            SupportedChips::P2RDecomposition(n) => *n,
            SupportedChips::Lookup(t) => t.nb_arguments,
            _ => 0,
        }
    }

    /// Number of trashcan arguments.
    pub fn nb_trashcan_args(&self) -> (n: usize)
        ensures
            n == self@.spec_nb_trash_args(),
    {
        match self {
            SupportedChips::Poseidon => 1,
            _ => 0,
        }
    }

    /// Lookup tables the chip contributes.
    pub fn lookup_tables(&self) -> (r: Vec<LookupTable>)
        ensures
            table_views(r@) == self@.spec_tables(),
    {
        match self {
            SupportedChips::Lookup(t) => {
                let r = vec![t.duplicate()];
                assert(table_views(r@) =~= self@.spec_tables());
                r
            },
            SupportedChips::P2RDecomposition(_) => {
                let r = P2RDecomposition::lookup_tables();
                assert(table_views(r@) =~= self@.spec_tables());
                r
            },
            _ => {
                let r: Vec<LookupTable> = Vec::new();
                assert(table_views(r@) =~= self@.spec_tables());
                r
            },
        }
    }

    /// Direct sub-chips whose columns and gates this chip subsumes.
    pub fn chip_deps(&self) -> (r: Vec<SupportedChips>)
        ensures
            r@.map_values(|c: SupportedChips| c@) == self@.spec_deps(),
    {
        match self {
            SupportedChips::Poseidon => {
                let r = vec![SupportedChips::Native];
                assert(r@.map_values(|c: SupportedChips| c@) =~= self@.spec_deps());
                r
            },
            SupportedChips::EdwardsJubjub => {
                let r = vec![SupportedChips::Native];
                assert(r@.map_values(|c: SupportedChips| c@) =~= self@.spec_deps());
                r
            },
            SupportedChips::HashToCurve => {
                let r = vec![SupportedChips::Poseidon, SupportedChips::EdwardsJubjub];
                assert(r@.map_values(|c: SupportedChips| c@) =~= self@.spec_deps());
                r
            },
            _ => {
                let r: Vec<SupportedChips> = Vec::new();
                assert(r@.map_values(|c: SupportedChips| c@) =~= self@.spec_deps());
                r
            },
        }
    }

    /// Number of pow2range columns best suited to the chip.
    pub fn nr_pow2range_cols(&self) -> (n: usize)
        ensures
            n == self@.spec_nr_pow2(),
    {
        match self {
            SupportedChips::Native => 1,
            SupportedChips::P2RDecomposition(n) => *n,
            _ => 0,
        }
    }

    fn table_degree(t: &LookupTable) -> (d: usize)
        requires
            t.input_degree + t.table_degree + 2 <= usize::MAX,
        ensures
            d == table_lookup_degree(t.tview()),
    {
        let s = 2 + t.input_degree + t.table_degree;
        if s > 4 { s } else { 4 }
    }

    /// Degree of the chip's constraints.
    pub fn degree(&self) -> (d: usize)
        requires
            self@.wf(),
        ensures
            d == self@.spec_degree(),
    {
        match self {
            SupportedChips::Lookup(t) => Self::table_degree(t),
            _ => {
                let mut all = self.gates();
                let mut l = self.lookups();
                let mut t = self.trashcans();
                let ghost g0 = args_view(all);
                let ghost l0 = args_view(l);
                let ghost t0 = args_view(t);
                all.append(&mut l);
                assert(args_view(all) =~= g0 + l0);
                let ghost gl = args_view(all);
                all.append(&mut t);
                assert(args_view(all) =~= gl + t0);
                args_degree_of(&all)
            },
        }
    }
}

/// Degree of a list of argument groups.
pub fn args_degree_of(args: &Vec<Argument>) -> (d: usize)
    ensures
        d == args_degree(args_view(*args)),
{
    let n = args.len();
    if n == 0 {
        return 1;
    }
    let ghost a = args_view(*args);
    let mut best = group_degree_of(&args[0]);
    assert(a.take(1) =~= seq![a[0]]);
    let mut i: usize = 1;
    while i < n
        invariant
            1 <= i <= n,
            n == args@.len(),
            a == args_view(*args),
            best == args_degree(a.take(i as int)),
        decreases n - i,
    {
        let g = group_degree_of(&args[i]);
        assert(a.take(i + 1).drop_last() =~= a.take(i as int));
        if g > best {
            best = g;
        }
        i = i + 1;
    }
    assert(a.take(n as int) =~= a);
    best
}

/// Degree of a group of expressions.
pub fn group_degree_of(g: &Argument) -> (d: usize)
    ensures
        d == group_degree(g@),
{
    let n = g.len();
    if n == 0 {
        return 1;
    }
    let mut best: usize = 0;
    let mut i: usize = 0;
    while i < n
        invariant
            i <= n,
            n == g@.len(),
            best == max_degree(g@.take(i as int)),
        decreases n - i,
    {
        assert(g@.take(i + 1).drop_last() =~= g@.take(i as int));
        if g[i].degree > best {
            best = g[i].degree;
        }
        i = i + 1;
    }
    assert(g@.take(n as int) =~= g@);
    best
}

} // verus!
