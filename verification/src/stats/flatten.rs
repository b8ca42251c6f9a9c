use vstd::prelude::*;

use super::chips::{ChipKind, SupportedChips};

verus! {

/// The kinds of a list of chips.
pub open spec fn kinds(v: Seq<SupportedChips>) -> Seq<ChipKind> {
    Seq::new(v.len(), |i: int| v[i]@)
}

/// The chip followed by everything it depends on, directly or not
/// (depth first, possibly with repetitions).
pub open spec fn closure(c: ChipKind) -> Seq<ChipKind> {
    match c {
        ChipKind::Poseidon => seq![ChipKind::Poseidon, ChipKind::Native],
        ChipKind::EdwardsJubjub => seq![ChipKind::EdwardsJubjub, ChipKind::Native],
        ChipKind::HashToCurve => seq![
            ChipKind::HashToCurve,
            ChipKind::Poseidon,
            ChipKind::Native,
            ChipKind::EdwardsJubjub,
            ChipKind::Native,
        ],
        _ => seq![c],
    }
}

/// Depth of a chip in the dependency graph.
pub open spec fn level(c: ChipKind) -> nat {
    match c {
        ChipKind::Poseidon => 1,
        ChipKind::EdwardsJubjub => 1,
        ChipKind::HashToCurve => 2,
        _ => 0,
    }
}

/// The closures of several chips, one after the other.
pub open spec fn flat_closures(ds: Seq<ChipKind>) -> Seq<ChipKind>
    decreases ds.len(),
{
    if ds.len() == 0 {
        Seq::empty()
    } else {
        flat_closures(ds.drop_last()) + closure(ds.last())
    }
}

/// Adds `x` unless it is there already.
pub open spec fn insert_kind(d: Seq<ChipKind>, x: ChipKind) -> Seq<ChipKind> {
    if d.contains(x) { d } else { d.push(x) }
}

/// Adds each chip of `s` in turn.
pub open spec fn insert_kinds(d: Seq<ChipKind>, s: Seq<ChipKind>) -> Seq<ChipKind>
    decreases s.len(),
{
    if s.len() == 0 {
        d
    } else {
        insert_kind(insert_kinds(d, s.drop_last()), s.last())
    }
}

/// The chips together with all their dependencies, each chip once, in the
/// order in which a depth-first walk first meets them.
pub open spec fn spec_flatten(chips: Seq<ChipKind>) -> Seq<ChipKind> {
    insert_kinds(Seq::empty(), flat_closures(chips))
}

/// Every chip is well formed.
pub open spec fn all_wf(s: Seq<ChipKind>) -> bool {
    forall|i: int| 0 <= i < s.len() ==> (#[trigger] s[i]).wf()
}

pub proof fn lemma_insert_kinds_append(d: Seq<ChipKind>, a: Seq<ChipKind>, b: Seq<ChipKind>)
    ensures
        insert_kinds(d, a + b) == insert_kinds(insert_kinds(d, a), b),
    decreases b.len(),
{
    if b.len() == 0 {
        assert(a + b =~= a);
    } else {
        lemma_insert_kinds_append(d, a, b.drop_last());
        assert((a + b).drop_last() =~= a + b.drop_last());
        assert((a + b).last() == b.last());
    }
}

pub proof fn lemma_insert_kinds_wf(d: Seq<ChipKind>, s: Seq<ChipKind>)
    requires
        all_wf(d),
        all_wf(s),
    ensures
        all_wf(insert_kinds(d, s)),
    decreases s.len(),
{
    if s.len() > 0 {
        lemma_insert_kinds_wf(d, s.drop_last());
        let r = insert_kinds(d, s.drop_last());
        assert(s.last().wf());
        if !r.contains(s.last()) {
            assert forall|i: int| 0 <= i < r.push(s.last()).len() implies (#[trigger] r.push(
                s.last(),
            )[i]).wf() by {
                if i < r.len() {
                    assert(r.push(s.last())[i] == r[i]);
                }
            }
        }
    }
}

pub proof fn lemma_flat_closures_wf(chips: Seq<ChipKind>)
    requires
        all_wf(chips),
    ensures
        all_wf(flat_closures(chips)),
    decreases chips.len(),
{
    if chips.len() > 0 {
        lemma_flat_closures_wf(chips.drop_last());
        let a = flat_closures(chips.drop_last());
        let b = closure(chips.last());
        assert(chips.last().wf());
        assert forall|i: int| 0 <= i < (a + b).len() implies (#[trigger] (a + b)[i]).wf() by {
            if i < a.len() {
                assert((a + b)[i] == a[i]);
            } else {
                assert((a + b)[i] == b[i - a.len()]);
            }
        }
    }
}

/// The flattened chips are well formed when the given ones are.
pub proof fn lemma_flatten_wf(chips: Seq<ChipKind>)
    requires
        all_wf(chips),
    ensures
        all_wf(spec_flatten(chips)),
{
    lemma_flat_closures_wf(chips);
    lemma_insert_kinds_wf(Seq::empty(), flat_closures(chips));
}

/// A chip's closure is the chip followed by the closures of its dependencies,
/// each of a smaller depth.
pub proof fn lemma_closure_unfold(c: ChipKind)
    ensures
        closure(c) == seq![c] + flat_closures(c.spec_deps()),
        forall|j: int| 0 <= j < c.spec_deps().len() ==> level(#[trigger] c.spec_deps()[j]) < level(c),
{
    let ds = c.spec_deps();
    match c {
        ChipKind::Poseidon | ChipKind::EdwardsJubjub => {
            assert(ds =~= seq![ChipKind::Native]);
            assert(ds.drop_last() =~= Seq::<ChipKind>::empty());
            assert(flat_closures(ds.drop_last()) == Seq::<ChipKind>::empty());
            assert(ds.last() == ChipKind::Native);
            assert(closure(ChipKind::Native) =~= seq![ChipKind::Native]);
            assert(flat_closures(ds) =~= seq![ChipKind::Native]);
            assert(closure(c) =~= seq![c] + flat_closures(ds));
        },
        ChipKind::HashToCurve => {
            assert(ds.drop_last() =~= seq![ChipKind::Poseidon]);
            assert(ds.drop_last().drop_last() =~= Seq::<ChipKind>::empty());
            assert(flat_closures(ds.drop_last().drop_last()) == Seq::<ChipKind>::empty());
            assert(ds.drop_last().last() == ChipKind::Poseidon);
            assert(flat_closures(ds.drop_last()) =~= seq![ChipKind::Poseidon, ChipKind::Native]);
            assert(flat_closures(ds) =~= seq![
                ChipKind::Poseidon,
                ChipKind::Native,
                ChipKind::EdwardsJubjub,
                ChipKind::Native,
            ]);
            assert(closure(c) =~= seq![c] + flat_closures(ds));
        },
        _ => {
            assert(flat_closures(ds) =~= Seq::<ChipKind>::empty());
            assert(closure(c) =~= seq![c] + flat_closures(ds));
        },
    }
}

proof fn lemma_insert_kinds_contents(d: Seq<ChipKind>, s: Seq<ChipKind>)
    requires
        d.no_duplicates(),
    ensures
        insert_kinds(d, s).no_duplicates(),
        forall|x: ChipKind| #[trigger] insert_kinds(d, s).contains(x) <==> (d.contains(x) || s.contains(x)),
    decreases s.len(),
{
    if s.len() > 0 {
        lemma_insert_kinds_contents(d, s.drop_last());
        let r = insert_kinds(d, s.drop_last());
        let x = s.last();
        assert forall|y: ChipKind| #[trigger] insert_kinds(d, s).contains(y) <==> (d.contains(y) || s.contains(y)) by {
            if s.contains(y) && y != x {
                let k = choose|k: int| 0 <= k < s.len() && s[k] == y;
                assert(s.drop_last()[k] == y);
            }
            if s.drop_last().contains(y) {
                let k = choose|k: int| 0 <= k < s.drop_last().len() && s.drop_last()[k] == y;
                assert(s[k] == y);
            }
            if !r.contains(x) {
                if r.push(x).contains(y) && y != x {
                    let k = choose|k: int| 0 <= k < r.push(x).len() && r.push(x)[k] == y;
                    assert(r[k] == y);
                }
                if r.contains(y) {
                    let k = choose|k: int| 0 <= k < r.len() && r[k] == y;
                    assert(r.push(x)[k] == y);
                }
                assert(r.push(x)[r.len() as int] == x);
            }
        }
        if !r.contains(x) {
            assert forall|i: int, j: int| 0 <= i < j < r.push(x).len() implies r.push(x)[i] != r.push(x)[j] by {
                if j == r.len() {
                    assert(r.contains(r[i]));
                }
            }
        }
    }
}

/// Every chip of a closure has its dependencies in the closure.
proof fn lemma_closure_closed(c: ChipKind, x: ChipKind, d: ChipKind)
    requires
        closure(c).contains(x),
        x.spec_deps().contains(d),
    ensures
        closure(c).contains(d),
{
    let cs = closure(c);
    let k = choose|k: int| 0 <= k < cs.len() && cs[k] == x;
    let ds = x.spec_deps();
    let j = choose|j: int| 0 <= j < ds.len() && ds[j] == d;
    match c {
        ChipKind::Poseidon | ChipKind::EdwardsJubjub => {
            assert(cs[1] == ChipKind::Native);
        },
        ChipKind::HashToCurve => {
            assert(cs[1] == ChipKind::Poseidon);
            assert(cs[2] == ChipKind::Native);
            assert(cs[3] == ChipKind::EdwardsJubjub);
        },
        _ => {},
    }
}

proof fn lemma_flat_closures_contents(cs: Seq<ChipKind>)
    ensures
        forall|c: ChipKind| cs.contains(c) ==> #[trigger] flat_closures(cs).contains(c),
        forall|x: ChipKind, d: ChipKind|
            #[trigger] flat_closures(cs).contains(x) && #[trigger] x.spec_deps().contains(d)
                ==> flat_closures(cs).contains(d),
    decreases cs.len(),
{
    if cs.len() > 0 {
        let a = flat_closures(cs.drop_last());
        let c = cs.last();
        let b = closure(c);
        lemma_flat_closures_contents(cs.drop_last());
        assert(flat_closures(cs) == a + b);
        assert(b[0] == c);
        assert forall|y: ChipKind| cs.contains(y) implies #[trigger] flat_closures(cs).contains(y) by {
            if y == c {
                assert((a + b)[a.len() as int] == c);
            } else {
                let k = choose|k: int| 0 <= k < cs.len() && cs[k] == y;
                assert(cs.drop_last()[k] == y);
                assert(cs.drop_last().contains(y));
                assert(a.contains(y));
                let m = choose|m: int| 0 <= m < a.len() && a[m] == y;
                assert((a + b)[m] == y);
            }
        }
        assert forall|x: ChipKind, d: ChipKind|
            #[trigger] flat_closures(cs).contains(x) && #[trigger] x.spec_deps().contains(d) implies flat_closures(cs).contains(d) by {
            let k = choose|k: int| 0 <= k < (a + b).len() && (a + b)[k] == x;
            if k < a.len() {
                assert(a[k] == x);
                assert(a.contains(x));
                let m = choose|m: int| 0 <= m < a.len() && a[m] == d;
                assert((a + b)[m] == d);
            } else {
                assert(b[k - a.len()] == x);
                assert(b.contains(x));
                lemma_closure_closed(c, x, d);
                let m = choose|m: int| 0 <= m < b.len() && b[m] == d;
                assert((a + b)[a.len() + m] == d);
            }
        }
    }
}

/// Flattening keeps each chip once, keeps every chip asked for, and brings
/// in every dependency of the chips it holds (and of theirs).
pub proof fn lemma_flatten_laws(chips: Seq<ChipKind>)
    ensures
        spec_flatten(chips).no_duplicates(),
        forall|c: ChipKind| chips.contains(c) ==> #[trigger] spec_flatten(chips).contains(c),
        forall|x: ChipKind, d: ChipKind|
            #[trigger] spec_flatten(chips).contains(x) && #[trigger] x.spec_deps().contains(d)
                ==> spec_flatten(chips).contains(d),
{
    let e = Seq::<ChipKind>::empty();
    lemma_insert_kinds_contents(e, flat_closures(chips));
    lemma_flat_closures_contents(chips);
}

/// Adds `x` to `out` unless a chip of the same kind is there already.
fn insert_one(out: &mut Vec<SupportedChips>, x: SupportedChips)
    ensures
        kinds(final(out)@) == insert_kind(kinds(old(out)@), x@),
{
    let ghost k0 = kinds(out@);
    let n = out.len();
    let mut i: usize = 0;
    while i < n
        invariant
            i <= n,
            n == out@.len(),
            k0 == kinds(out@),
            forall|j: int| 0 <= j < i ==> (#[trigger] out@[j])@ != x@,
        decreases n - i,
    {
        if out[i].same_as(&x) {
            assert(k0[i as int] == x@);
            assert(k0.contains(x@));
            return;
        }
        i = i + 1;
    }
    assert(!k0.contains(x@)) by {
        if k0.contains(x@) {
            let j = choose|j: int| 0 <= j < k0.len() && k0[j] == x@;
            assert(out@[j]@ == x@);
        }
    }
    out.push(x);
    assert(kinds(out@) =~= k0.push(x@));
}

/// Adds the chip and, recursively, its dependencies.
fn insert_closure(out: &mut Vec<SupportedChips>, c: &SupportedChips)
    ensures
        kinds(final(out)@) == insert_kinds(kinds(old(out)@), closure(c@)),
    decreases level(c@),
{
    let ghost d0 = kinds(out@);
    let ghost ck = c@;
    let deps = c.chip_deps();
    proof {
        lemma_closure_unfold(ck);
    }
    insert_one(out, c.clone_chip());
    assert(insert_kinds(d0, seq![ck]) == insert_kind(d0, ck)) by {
        assert(seq![ck].drop_last() =~= Seq::<ChipKind>::empty());
        assert(insert_kinds(d0, Seq::<ChipKind>::empty()) == d0);
        assert(seq![ck].last() == ck);
    }
    let ghost dk = deps@.map_values(|c: SupportedChips| c@);
    let n = deps.len();
    let ghost done: Seq<ChipKind> = seq![ck];
    let mut i: usize = 0;
    while i < n
        invariant
            i <= n,
            n == deps@.len(),
            dk == deps@.map_values(|c: SupportedChips| c@),
            dk == ck.spec_deps(),
            ck == c@,
            forall|j: int| 0 <= j < dk.len() ==> level(#[trigger] dk[j]) < level(ck),
            kinds(out@) == insert_kinds(d0, done),
            done == seq![ck] + flat_closures(dk.take(i as int)),
        decreases n - i,
    {
        let d = deps[i].clone_chip();
        assert(d@ == dk[i as int]);
        assert(level(d@) < level(ck));
        insert_closure(out, &d);
        proof {
            lemma_insert_kinds_append(d0, done, closure(dk[i as int]));
            assert(dk.take(i + 1).drop_last() =~= dk.take(i as int));
            assert(seq![ck] + flat_closures(dk.take(i + 1)) =~= done + closure(dk[i as int]));
            done = done + closure(dk[i as int]);
        }
        i = i + 1;
    }
    assert(dk.take(n as int) =~= dk);
}

/// Flattens `chips` and all their dependencies, each chip once.
pub fn flatten_chips(chips: &Vec<SupportedChips>) -> (r: Vec<SupportedChips>)
    ensures
        kinds(r@) == spec_flatten(kinds(chips@)),
{
    let ghost ks = kinds(chips@);
    let mut out: Vec<SupportedChips> = Vec::new();
    assert(kinds(out@) =~= Seq::<ChipKind>::empty());
    let n = chips.len();
    let mut i: usize = 0;
    while i < n
        invariant
            i <= n,
            n == chips@.len(),
            ks == kinds(chips@),
            kinds(out@) == insert_kinds(Seq::empty(), flat_closures(ks.take(i as int))),
        decreases n - i,
    {
        let c = chips[i].clone_chip();
        let ghost before = kinds(out@);
        insert_closure(&mut out, &c);
        proof {
            lemma_insert_kinds_append(Seq::empty(), flat_closures(ks.take(i as int)), closure(ks[i as int]));
            assert(ks.take(i + 1).drop_last() =~= ks.take(i as int));
        }
        i = i + 1;
    }
    assert(ks.take(n as int) =~= ks);
    out
}

impl SupportedChips {
    /// A copy of the chip.
    pub fn clone_chip(&self) -> (c: Self)
        ensures
            c@ == self@,
    {
        match self {
            SupportedChips::Native => SupportedChips::Native,
            SupportedChips::Poseidon => SupportedChips::Poseidon,
            SupportedChips::HashToCurve => SupportedChips::HashToCurve,
            SupportedChips::EdwardsJubjub => SupportedChips::EdwardsJubjub,
            SupportedChips::P2RDecomposition(n) => SupportedChips::P2RDecomposition(*n),
            SupportedChips::Lookup(t) => SupportedChips::Lookup(t.duplicate()),
        }
    }
}

} // verus!
