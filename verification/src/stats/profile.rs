//! Cost profile of a single chip, taken in isolation.

use vstd::prelude::*;

use super::chips::{ChipKind, SupportedChips};
use super::circuit::{
    build_queries, all_gates, all_lookups, all_trash, collect_gates, collect_lookups, collect_trashcans, compute_degree,
    count_cc, count_copy_constrained, count_evaluations, lemma_column_sums, sum_rotations, perm_queries, repeat_rots, rotations_of,
    spec_compute_degree,
};
use super::counts::OpCounts;
use super::estimate::{
    estimate_proof_size, estimate_vk_size, gate_ops, gates_ops, lemma_gate_ops_nonneg,
    lemma_gates_ops_prefix, proof_size_ok, spec_proof_size, spec_vk_size,
};
use super::expression::{Argument, ScalarExpression};
use super::flatten::{
    closure, flat_closures, flatten_chips, insert_kind, insert_kinds, kinds, lemma_flatten_wf,
    spec_flatten,
};
use super::lookup::{LookupEstimate, PlookUp};
use super::merge::{distinct_tables, merge_chips_advice, merge_chips_fixed, spec_distinct_tables, spec_merged_advice, spec_merged_fixed};
use super::pcs::{PcsEstimate, map_view};
use super::point_sets::{group_queries, point_set_keys, spec_commitment_map};
use super::primitives::args_view;
use super::rotation_set::RotationSet;
use super::scalar_ops::ScalarOps;

verus! {

/// What a chip costs on its own, with no public or committed input and no
/// extra column.
pub struct ChipProfile {
    pub deps: Vec<String>,
    pub degree: usize,
    pub advice_cols: usize,
    pub fixed_cols: usize,
    pub copy_constraints: usize,
    pub nb_lookup_tables: usize,
    pub gates: usize,
    pub lookups: usize,
    pub trash: usize,
    /// Evaluations of the chip's columns: one per queried rotation.
    pub evals: usize,
    pub gate_ops: ScalarOps,
    pub lookup_ops: ScalarOps,
    pub trash_ops: ScalarOps,
    pub commitment_map: Vec<Vec<usize>>,
    pub proof_size: usize,
    pub vk_size: usize,
}

/// The position of a chip's variant in the chips' order.
pub open spec fn chip_rank(k: ChipKind) -> nat {
    match k {
        ChipKind::Native => 0,
        ChipKind::Poseidon => 1,
        ChipKind::HashToCurve => 2,
        ChipKind::EdwardsJubjub => 3,
        ChipKind::P2RDecomposition(_) => 4,
        ChipKind::Lookup(_) => 5,
    }
}

/// The chips of `ks` of rank `r`, in order.
pub open spec fn of_rank(ks: Seq<ChipKind>, r: nat) -> Seq<ChipKind>
    decreases ks.len(),
{
    if ks.len() == 0 {
        Seq::empty()
    } else if chip_rank(ks.last()) == r {
        of_rank(ks.drop_last(), r).push(ks.last())
    } else {
        of_rank(ks.drop_last(), r)
    }
}

/// The chips of `ks` of rank below `n`, by rank.
pub open spec fn ranked(ks: Seq<ChipKind>, n: nat) -> Seq<ChipKind>
    decreases n,
{
    if n == 0 {
        Seq::empty()
    } else {
        ranked(ks, (n - 1) as nat) + of_rank(ks, (n - 1) as nat)
    }
}

/// The names of the chips.
pub open spec fn names(ks: Seq<ChipKind>) -> Seq<Seq<char>> {
    Seq::new(ks.len(), |i: int| ks[i].spec_name())
}

/// The chip and its dependencies, each once, the chip first.
pub open spec fn profile_chips(c: ChipKind) -> Seq<ChipKind> {
    spec_flatten(seq![c])
}

/// The names of the chip's dependencies, by variant.
pub open spec fn spec_deps(c: ChipKind) -> Seq<Seq<char>> {
    names(ranked(profile_chips(c).drop_first(), 6))
}

/// Cost of batching each argument: `gates_ops` applies to any arguments.
pub open spec fn args_ops(args: Seq<Seq<ScalarExpression>>) -> OpCounts {
    gates_ops(args)
}

/// Copy-constrained columns of the chip.
pub open spec fn profile_cc(c: ChipKind) -> nat {
    let ks = profile_chips(c);
    count_cc(spec_merged_advice(ks)) + count_cc(spec_merged_fixed(ks))
}

/// Degree of the chip's circuit.
pub open spec fn profile_degree(c: ChipKind) -> nat {
    let ks = profile_chips(c);
    spec_compute_degree(0, profile_cc(c), all_lookups(ks).len(), all_trash(ks).len(), ks)
}

/// The chip's queries: its columns', the permutation's, the vanishing
/// argument's, the lookups' and the trashcans'.
pub open spec fn profile_queries(c: ChipKind) -> Seq<RotationSet> {
    let ks = profile_chips(c);
    rotations_of(spec_merged_advice(ks)) + rotations_of(spec_merged_fixed(ks)) + perm_queries(
        profile_cc(c),
        profile_degree(c),
    ) + seq![RotationSet::spec_curr(), RotationSet::spec_curr()] + repeat_rots(
        PlookUp::spec_rotations(),
        all_lookups(ks).len(),
    ) + (if all_trash(ks).len() > 0 {
        seq![RotationSet::spec_curr()]
    } else {
        Seq::empty()
    })
}

/// Number of evaluations of the chip's columns: one per queried rotation of
/// each advice and fixed column, as circuit processing counts them.
pub open spec fn profile_evals(c: ChipKind) -> nat {
    let ks = profile_chips(c);
    sum_rotations(spec_merged_advice(ks)) + sum_rotations(spec_merged_fixed(ks))
}

/// The chip's proof size.
pub open spec fn profile_proof_size<PCS: PcsEstimate>(c: ChipKind) -> int {
    let ks = profile_chips(c);
    spec_proof_size::<PCS>(
        0,
        spec_merged_advice(ks).len() as int,
        all_lookups(ks).len() as int,
        all_trash(ks).len() as int,
        profile_degree(c) as int,
        profile_cc(c) as int,
        profile_evals(c) as int,
        point_set_keys(profile_queries(c)).len() as int,
    )
}

/// The inputs `chip_profile` accepts: a chip whose degree fits in `usize`,
/// that has copy-constrained columns, and whose counts and sizes fit in
/// `usize`.
pub open spec fn profile_ok<PCS: PcsEstimate>(c: ChipKind) -> bool {
    let ks = profile_chips(c);
    &&& c.wf()
    &&& profile_cc(c) >= 1
    &&& 5 * (spec_merged_advice(ks).len() + spec_merged_fixed(ks).len()) <= usize::MAX
    &&& args_ops(all_gates(ks)).fits()
    &&& args_ops(all_lookups(ks)).fits()
    &&& args_ops(all_trash(ks)).fits()
    &&& proof_size_ok::<PCS>(
        0,
        spec_merged_advice(ks).len() as int,
        all_lookups(ks).len() as int,
        all_trash(ks).len() as int,
        profile_degree(c) as int,
        profile_cc(c) as int,
        profile_evals(c) as int,
        point_set_keys(profile_queries(c)).len() as int,
    )
    &&& 10 + 48 * (spec_merged_fixed(ks).len() + profile_cc(c) + PCS::spec_nb_commitments_vk()) <= usize::MAX
}

/// The cost of batching arguments is only made of scalar arithmetic.
pub proof fn lemma_args_ops_scalar(args: Seq<Seq<ScalarExpression>>)
    ensures
        args_ops(args).nonneg(),
        args_ops(args).inv == 0 && args_ops(args).pow == 0 && args_ops(args).to_bytes == 0,
        args_ops(args).from_bytes == 0 && args_ops(args).add_point == 0 && args_ops(args).mul_point == 0,
        args_ops(args).from_bytes_point == 0 && args_ops(args).decompress == 0,
        args_ops(args).compress == 0 && args_ops(args).transcript == 0,
    decreases args.len(),
{
    if args.len() > 0 {
        lemma_args_ops_scalar(args.drop_last());
        lemma_gate_ops_nonneg(args.last());
    }
}

/// Sums the cost of batching each argument.
pub fn fold_args(args: &Vec<Argument>) -> (r: ScalarOps)
    requires
        args_ops(args_view(*args)).fits(),
    ensures
        r.as_counts() == args_ops(args_view(*args)),
{
    let ghost av = args_view(*args);
    let mut acc = ScalarOps::empty();
    let n = args.len();
    let mut i: usize = 0;
    assert(av.take(0) =~= Seq::<Seq<ScalarExpression>>::empty());
    while i < n
        invariant
            i <= n,
            n == av.len(),
            av == args_view(*args),
            args_ops(av).fits(),
            acc.as_counts() == args_ops(av.take(i as int)),
        decreases n - i,
    {
        proof {
            lemma_gates_ops_prefix(av, i + 1);
            lemma_gates_ops_prefix(av, i as int);
            lemma_args_ops_scalar(av.take(i + 1));
            lemma_args_ops_scalar(av.take(i as int));
            assert(av.take(i + 1).drop_last() =~= av.take(i as int));
            assert(av.take(i + 1).last() == av[i as int]);
            lemma_gate_ops_nonneg(av[i as int]);
        }
        let arg = args[i].clone();
        assert(arg@ =~= av[i as int]) by {
            assert forall|k: int| 0 <= k < arg@.len() implies arg@[k] == av[i as int][k] by {
                assert(vstd::pervasive::cloned::<ScalarExpression>(args@[i as int]@[k], arg@[k]));
            }
        }
        let e = ScalarExpression::batch_expressions(arg);
        acc = acc.add(&e.ops);
        i = i + 1;
    }
    assert(av.take(n as int) =~= av);
    acc
}

/// The names of the chips of rank `r` among `chips`, appended to `out`.
fn push_names_of_rank(out: &mut Vec<String>, chips: &Vec<SupportedChips>, from: usize, r: usize)
    requires
        from <= chips@.len(),
    ensures
        Seq::new(final(out)@.len(), |i: int| final(out)@[i]@) == Seq::new(old(out)@.len(), |i: int| old(out)@[i]@)
            + names(of_rank(kinds(chips@).skip(from as int), r as nat)),
{
    let ghost ks = kinds(chips@).skip(from as int);
    let ghost o = Seq::new(old(out)@.len(), |i: int| old(out)@[i]@);
    let n = chips.len();
    let mut i: usize = from;
    assert(ks.take(0) =~= Seq::<ChipKind>::empty());
    assert(Seq::new(out@.len(), |i: int| out@[i]@) =~= o + names(of_rank(ks.take(0), r as nat)));
    while i < n
        invariant
            from <= i <= n,
            n == chips@.len(),
            ks == kinds(chips@).skip(from as int),
            o.len() <= out@.len(),
            Seq::new(out@.len(), |i: int| out@[i]@) == o + names(of_rank(ks.take(i - from), r as nat)),
        decreases n - i,
    {
        let ghost before = Seq::new(out@.len(), |i: int| out@[i]@);
        proof {
            assert(ks.take(i - from + 1).drop_last() =~= ks.take(i - from));
            assert(ks.take(i - from + 1).last() == chips@[i as int]@);
        }
        if chip_rank_of(&chips[i]) == r {
            let name = chips[i].name();
            out.push(name);
            proof {
                assert(Seq::new(out@.len(), |i: int| out@[i]@) =~= before.push(name@));
                assert(names(of_rank(ks.take(i - from + 1), r as nat)) =~= names(of_rank(ks.take(i - from), r as nat)).push(
                    chips@[i as int]@.spec_name(),
                ));
            }
        }
        i = i + 1;
    }
    assert(ks.take(n - from) =~= ks);
}

/// The position of a chip's variant in the chips' order.
fn chip_rank_of(c: &SupportedChips) -> (r: usize)
    ensures
        r == chip_rank(c@),
{
    match c {
        SupportedChips::Native => 0,
        SupportedChips::Poseidon => 1,
        SupportedChips::HashToCurve => 2,
        SupportedChips::EdwardsJubjub => 3,
        SupportedChips::P2RDecomposition(_) => 4,
        SupportedChips::Lookup(_) => 5,
    }
}

proof fn lemma_insert_kinds_first(s: Seq<ChipKind>)
    requires
        s.len() > 0,
    ensures
        insert_kinds(Seq::empty(), s).len() > 0,
        insert_kinds(Seq::empty(), s)[0] == s[0],
    decreases s.len(),
{
    let e = Seq::<ChipKind>::empty();
    if s.len() > 1 {
        lemma_insert_kinds_first(s.drop_last());
        assert(s.drop_last()[0] == s[0]);
        let r = insert_kinds(e, s.drop_last());
        assert(insert_kinds(e, s) == insert_kind(r, s.last()));
        if !r.contains(s.last()) {
            assert(r.push(s.last())[0] == r[0]);
        }
    } else {
        assert(s.drop_last() =~= e);
        assert(insert_kinds(e, s.drop_last()) == e);
        assert(!e.contains(s.last()));
        assert(e.push(s.last())[0] == s[0]);
    }
}

/// The chip comes first among the chips of its profile.
pub proof fn lemma_profile_chips_first(c: ChipKind)
    ensures
        profile_chips(c).len() > 0,
        profile_chips(c)[0] == c,
{
    let cs = closure(c);
    assert(flat_closures(seq![c]) =~= cs) by {
        assert(seq![c].drop_last() =~= Seq::<ChipKind>::empty());
        assert(seq![c].last() == c);
        assert(flat_closures(Seq::<ChipKind>::empty()) == Seq::<ChipKind>::empty());
        assert(flat_closures(seq![c]) == flat_closures(seq![c].drop_last()) + closure(seq![c].last()));
    }
    assert(cs.len() > 0 && cs[0] == c);
    lemma_insert_kinds_first(cs);
}

/// Profile of a chip on its own: its dependencies, columns, arguments,
/// their batched costs, its queries grouped by rotation set, and its proof
/// and verification key sizes with no public or committed input.
pub fn chip_profile<PCS: PcsEstimate>(chip: SupportedChips) -> (p: ChipProfile)
    requires
        profile_ok::<PCS>(chip@),
    ensures
        Seq::new(p.deps@.len(), |i: int| p.deps@[i]@) == spec_deps(chip@),
        p.degree == profile_degree(chip@),
        p.advice_cols == spec_merged_advice(profile_chips(chip@)).len(),
        p.fixed_cols == spec_merged_fixed(profile_chips(chip@)).len(),
        p.copy_constraints == profile_cc(chip@),
        p.nb_lookup_tables == spec_distinct_tables(profile_chips(chip@)).len(),
        p.gates == all_gates(profile_chips(chip@)).len(),
        p.lookups == all_lookups(profile_chips(chip@)).len(),
        p.trash == all_trash(profile_chips(chip@)).len(),
        p.evals == profile_evals(chip@),
        p.gate_ops.as_counts() == args_ops(all_gates(profile_chips(chip@))),
        p.lookup_ops.as_counts() == args_ops(all_lookups(profile_chips(chip@))),
        p.trash_ops.as_counts() == args_ops(all_trash(profile_chips(chip@))),
        map_view(p.commitment_map) == spec_commitment_map(profile_queries(chip@)),
        p.proof_size == profile_proof_size::<PCS>(chip@),
        p.vk_size == spec_vk_size::<PCS>(profile_cc(chip@) as int, spec_merged_fixed(profile_chips(chip@)).len() as int),
{
    let ghost c = chip@;
    let single = vec![chip];
    assert(kinds(single@) =~= seq![c]);
    proof {
        lemma_profile_chips_first(c);
        lemma_flatten_wf(seq![c]);
    }
    let chips = flatten_chips(&single);
    let ghost ks = kinds(chips@);
    assert(ks == profile_chips(c));
    // the dependencies: every chip but the first, by variant
    let mut deps: Vec<String> = Vec::new();
    let mut r: usize = 0;
    assert(ks.skip(1) =~= ks.drop_first());
    assert(Seq::new(deps@.len(), |i: int| deps@[i]@) =~= names(ranked(ks.drop_first(), 0)));
    while r < 6
        invariant
            r <= 6,
            ks == kinds(chips@),
            ks.len() > 0,
            ks.skip(1) == ks.drop_first(),
            Seq::new(deps@.len(), |i: int| deps@[i]@) == names(ranked(ks.drop_first(), r as nat)),
        decreases 6 - r,
    {
        push_names_of_rank(&mut deps, &chips, 1, r);
        proof {
            let d = ks.drop_first();
            assert(names(ranked(d, (r + 1) as nat)) =~= names(ranked(d, r as nat)) + names(of_rank(d, r as nat)));
        }
        r = r + 1;
    }
    let tables = distinct_tables(&chips);
    let advice = merge_chips_advice(&chips);
    let fixed = merge_chips_fixed(&chips);
    proof {
        lemma_column_sums(advice@);
        lemma_column_sums(fixed@);
    }
    let nb_copy_constrained = count_copy_constrained(&advice) + count_copy_constrained(&fixed);
    let nb_advice = advice.len();
    let nb_fixed = fixed.len();
    let lookup_args = collect_lookups(&chips);
    let nb_lookups = lookup_args.len();
    let trashcan_args = collect_trashcans(&chips);
    let nb_trashcans = trashcan_args.len();
    let circuit_degree = compute_degree(0, nb_copy_constrained, nb_lookups, nb_trashcans, &chips);
    let gate_args = collect_gates(&chips);
    let nb_gates = gate_args.len();
    let queries = build_queries(0, &advice, &fixed, nb_copy_constrained, circuit_degree, nb_lookups, nb_trashcans);
    assert(queries@ =~= profile_queries(c));
    let nb_evaluations = count_evaluations(&advice) + count_evaluations(&fixed);
    let (commitment_map, sizes, nb_point_sets, max_per_set) = group_queries(&queries);
    let gate_ops = fold_args(&gate_args);
    let lookup_ops = fold_args(&lookup_args);
    let trash_ops = fold_args(&trashcan_args);
    // sizes at no public or committed input: the chip's own baseline
    let proof_size = estimate_proof_size::<PCS>(
        0,
        nb_advice,
        nb_lookups,
        nb_trashcans,
        circuit_degree,
        nb_copy_constrained,
        nb_evaluations,
        nb_point_sets,
    );
    let vk_size = estimate_vk_size::<PCS>(nb_copy_constrained, nb_fixed);
    let nb_lookup_tables = tables.len();
    let p = ChipProfile {
        deps,
        degree: circuit_degree,
        advice_cols: nb_advice,
        fixed_cols: nb_fixed,
        copy_constraints: nb_copy_constrained,
        nb_lookup_tables,
        gates: nb_gates,
        lookups: nb_lookups,
        trash: nb_trashcans,
        evals: nb_evaluations,
        gate_ops,
        lookup_ops,
        trash_ops,
        commitment_map,
        proof_size,
        vk_size,
    };
    assert(map_view(p.commitment_map) =~= spec_commitment_map(queries@));
    p
}

} // verus!
