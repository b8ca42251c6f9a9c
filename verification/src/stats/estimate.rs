//! Proof size, verification key size and verifier operation counts estimated
//! from a description of the circuit.

use vstd::prelude::*;

use super::arguments::{
    absorb_ops, absorb_vk_and_inputs, compute_trashcans, compute_vanishing, div_ceil,
    evaluate_permutation_terms, lemma_instance_ops_nonneg, lemma_lookup_fold_ops_nonneg,
    lemma_nb_chunks, lemma_trash_ops_nonneg, nb_chunks, nb_perm_commitments,
    nb_perm_commitments_vk, nb_perm_evaluations, nb_trash_commitments, nb_trash_evaluations,
    nb_vanish_commitments, nb_vanish_evaluations, pes_hashes, pes_ops, permutation_ops,
    process_pes, spec_nb_perm_evaluations, trash_ops, vanishing_ops,
};
use super::chips::SupportedChips;
use super::chips::ChipKind;
use super::circuit::{lemma_lookup_name_irrelevant, lemma_one_more_selector, process, process_ok, spec_process, with_one_more_selector};
use super::config::CircuitConfig;
use super::counts::OpCounts;
use super::flatten::kinds;
use super::expression::{Argument, ScalarExpression, batch_ops, batched, lemma_ops_total_shape};
use super::lookup::{LookupEstimate, PlookUp, lemma_plookup_rotations};
use super::pcs::{PcsEstimate, map_view};
use super::primitives::args_view;
use super::statistics::{CircuitStatistics, lagrange_basis_ops, rotates_ops};

verus! {

/// Everything the estimator derives from the circuit description.
pub struct Processed {
    pub circuit_degree: usize,
    pub nb_public_inputs: usize,
    pub nb_committed_instances: usize,
    pub nb_advice: usize,
    pub nb_fixed: usize,
    pub nb_copy_constrained: usize,
    pub gate_args: Vec<Argument>,
    pub lookup_args: Vec<Argument>,
    pub trashcan_args: Vec<Argument>,
    pub nb_advice_fixed_evaluations: usize,
    pub max_advice_queries: usize,
    pub commitment_map: Vec<Vec<usize>>,
    pub kzg_halo2_point_sets: Vec<usize>,
    pub nb_point_sets: usize,
    pub max_commitments_per_query: usize,
}

/// What a processed circuit describes, in mathematical terms.
pub struct ProcessedSpec {
    pub circuit_degree: nat,
    pub nb_public_inputs: nat,
    pub nb_committed_instances: nat,
    pub nb_advice: nat,
    pub nb_fixed: nat,
    pub nb_copy_constrained: nat,
    pub gate_args: Seq<Seq<ScalarExpression>>,
    pub lookup_args: Seq<Seq<ScalarExpression>>,
    pub trashcan_args: Seq<Seq<ScalarExpression>>,
    pub nb_advice_fixed_evaluations: nat,
    pub max_advice_queries: nat,
    pub commitment_map: Seq<Seq<usize>>,
    pub kzg_halo2_point_sets: Seq<usize>,
    pub nb_point_sets: nat,
    pub max_commitments_per_query: nat,
}

impl View for Processed {
    type V = ProcessedSpec;

    open spec fn view(&self) -> ProcessedSpec {
        ProcessedSpec {
            circuit_degree: self.circuit_degree as nat,
            nb_public_inputs: self.nb_public_inputs as nat,
            nb_committed_instances: self.nb_committed_instances as nat,
            nb_advice: self.nb_advice as nat,
            nb_fixed: self.nb_fixed as nat,
            nb_copy_constrained: self.nb_copy_constrained as nat,
            gate_args: args_view(self.gate_args),
            lookup_args: args_view(self.lookup_args),
            trashcan_args: args_view(self.trashcan_args),
            nb_advice_fixed_evaluations: self.nb_advice_fixed_evaluations as nat,
            max_advice_queries: self.max_advice_queries as nat,
            commitment_map: map_view(self.commitment_map),
            kzg_halo2_point_sets: self.kzg_halo2_point_sets@,
            nb_point_sets: self.nb_point_sets as nat,
            max_commitments_per_query: self.max_commitments_per_query as nat,
        }
    }
}

/// Number of commitments in the proof.
pub open spec fn proof_commitments<PCS: PcsEstimate>(a: int, l: int, trash: int, deg: int, cc: int) -> int {
    a + nb_chunks(cc, deg) + trash + deg + 3 * l + PCS::spec_nb_commitments()
}

/// Number of scalars in the proof.
pub open spec fn proof_scalars<PCS: PcsEstimate>(ci: int, l: int, trash: int, deg: int, cc: int, evals: int, sets: int) -> int {
    evals + (if ci > 0 { 1int } else { 0int }) + spec_nb_perm_evaluations(cc, deg) + trash + 1 + 5 * l
        + PCS::spec_nb_evaluations(sets as nat)
}

/// Estimated proof size in bytes: 48 bytes per commitment, 32 per scalar, and
/// nothing without advice columns.
pub open spec fn spec_proof_size<PCS: PcsEstimate>(
    ci: int,
    a: int,
    l: int,
    trash: int,
    deg: int,
    cc: int,
    evals: int,
    sets: int,
) -> int {
    if a == 0 {
        0
    } else {
        48 * proof_commitments::<PCS>(a, l, trash, deg, cc) + 32 * proof_scalars::<PCS>(ci, l, trash, deg, cc, evals, sets)
    }
}

/// The proof size estimate: nothing without advice columns; otherwise each
/// more advice column adds a 48-byte commitment, each more evaluation a
/// 32-byte scalar, each more lookup argument three commitments and five
/// scalars, and each more trashcan one commitment and one scalar.
pub proof fn lemma_proof_size_laws<PCS: PcsEstimate>(
    ci: int,
    a: int,
    l: int,
    trash: int,
    deg: int,
    cc: int,
    evals: int,
    sets: int,
)
    ensures
        a == 0 ==> spec_proof_size::<PCS>(ci, a, l, trash, deg, cc, evals, sets) == 0,
        a > 0 ==> spec_proof_size::<PCS>(ci, a + 1, l, trash, deg, cc, evals, sets) == spec_proof_size::<PCS>(
            ci,
            a,
            l,
            trash,
            deg,
            cc,
            evals,
            sets,
        ) + 48,
        a > 0 ==> spec_proof_size::<PCS>(ci, a, l, trash, deg, cc, evals + 1, sets) == spec_proof_size::<PCS>(
            ci,
            a,
            l,
            trash,
            deg,
            cc,
            evals,
            sets,
        ) + 32,
        a > 0 ==> spec_proof_size::<PCS>(ci, a, l + 1, trash, deg, cc, evals, sets) == spec_proof_size::<PCS>(
            ci,
            a,
            l,
            trash,
            deg,
            cc,
            evals,
            sets,
        ) + 3 * 48 + 5 * 32,
        a > 0 ==> spec_proof_size::<PCS>(ci, a, l, trash + 1, deg, cc, evals, sets) == spec_proof_size::<PCS>(
            ci,
            a,
            l,
            trash,
            deg,
            cc,
            evals,
            sets,
        ) + 48 + 32,
{
}

/// The inputs for which the proof size can be computed without overflow.
pub open spec fn proof_size_ok<PCS: PcsEstimate>(ci: int, a: int, l: int, trash: int, deg: int, cc: int, evals: int, sets: int) -> bool {
    &&& deg >= 3
    &&& cc >= 1
    &&& 4 * cc <= usize::MAX
    &&& 48 * proof_commitments::<PCS>(a, l, trash, deg, cc) + 32 * proof_scalars::<PCS>(ci, l, trash, deg, cc, evals, sets) <= usize::MAX
}

/// Estimates a lower bound for the proof size in bytes.
pub fn estimate_proof_size<PCS: PcsEstimate>(
    nb_committed_instances: usize,
    nb_advice: usize,
    nb_lookups: usize,
    nb_trashcans: usize,
    circuit_degree: usize,
    nb_copy_constrained: usize,
    nb_evaluations: usize,
    nb_point_sets: usize,
) -> (n: usize)
    requires
        proof_size_ok::<PCS>(
            nb_committed_instances as int,
            nb_advice as int,
            nb_lookups as int,
            nb_trashcans as int,
            circuit_degree as int,
            nb_copy_constrained as int,
            nb_evaluations as int,
            nb_point_sets as int,
        ),
    ensures
        n == spec_proof_size::<PCS>(
            nb_committed_instances as int,
            nb_advice as int,
            nb_lookups as int,
            nb_trashcans as int,
            circuit_degree as int,
            nb_copy_constrained as int,
            nb_evaluations as int,
            nb_point_sets as int,
        ),
{
    proof {
        lemma_nb_chunks(nb_copy_constrained as int, circuit_degree as int);
        lemma_plookup_rotations();
    }
    // advice: one per column; permutation: one per chunk; trashcans: one per
    // argument; vanishing: the random polynomial and the splits; lookups:
    // three per argument; and the scheme's own
    let nb_commitments = nb_advice + nb_perm_commitments(nb_copy_constrained, circuit_degree)
        + nb_trash_commitments(nb_trashcans) + nb_vanish_commitments(circuit_degree)
        + PlookUp::nb_commitments(nb_lookups) + PCS::nb_commitments();
    // advice and fixed evaluations, the committed instance's, the
    // permutation's, the trashcans', the vanishing polynomial's, five per
    // lookup, and the scheme's own
    let nb_scalars = nb_evaluations + (if nb_committed_instances > 0 { 1 } else { 0 })
        + nb_perm_evaluations(nb_copy_constrained, circuit_degree) + nb_trash_evaluations(nb_trashcans)
        + nb_vanish_evaluations() + PlookUp::nb_evaluations(nb_lookups) + PCS::nb_evaluations(nb_point_sets);
    if nb_advice == 0 {
        return 0;
    }
    nb_commitments * 48 + nb_scalars * 32
}

/// Estimated verification key size in bytes (compressed G1 elements only).
pub open spec fn spec_vk_size<PCS: PcsEstimate>(cc: int, nb_fixed: int) -> int {
    if cc == 0 || nb_fixed == 0 {
        0
    } else {
        10 + 48 * (nb_fixed + cc + PCS::spec_nb_commitments_vk())
    }
}

/// The verification key estimate is zero exactly when there is no
/// copy-constrained or no fixed column; otherwise it is 10 bytes plus one
/// 48-byte commitment per fixed column, per copy-constrained column and per
/// commitment of the scheme, so each more column of either kind adds 48
/// bytes.
pub proof fn lemma_vk_size_laws<PCS: PcsEstimate>(cc: int, nb_fixed: int)
    requires
        cc >= 0,
        nb_fixed >= 0,
    ensures
        spec_vk_size::<PCS>(cc, nb_fixed) > 0 <==> cc > 0 && nb_fixed > 0,
        cc > 0 && nb_fixed > 0 ==> spec_vk_size::<PCS>(cc, nb_fixed) == 10 + 48 * (nb_fixed + cc
            + PCS::spec_nb_commitments_vk()),
        cc > 0 && nb_fixed > 0 ==> spec_vk_size::<PCS>(cc + 1, nb_fixed) == spec_vk_size::<PCS>(cc, nb_fixed) + 48,
        cc > 0 && nb_fixed > 0 ==> spec_vk_size::<PCS>(cc, nb_fixed + 1) == spec_vk_size::<PCS>(cc, nb_fixed) + 48,
{
}

/// Estimates the verification key size in bytes (compressed G1 elements
/// only, neither the SRS nor the scheme's parameters).
pub fn estimate_vk_size<PCS: PcsEstimate>(nb_copy_constrained: usize, nb_fixed: usize) -> (n: usize)
    requires
        10 + 48 * (nb_fixed + nb_copy_constrained + PCS::spec_nb_commitments_vk()) <= usize::MAX,
    ensures
        n == spec_vk_size::<PCS>(nb_copy_constrained as int, nb_fixed as int),
{
    if nb_copy_constrained == 0 || nb_fixed == 0 {
        return 0;
    }
    10 + 48 * (nb_fixed + nb_perm_commitments_vk(nb_copy_constrained) + PCS::nb_commitments_vk())
}

/// Number of blinding factors: 2, one per trashcan, and the largest number of
/// rotations an advice column is queried at, at least 3.
pub open spec fn spec_blinding_factors(max_advice_queries: int, nb_trashcans: int) -> int {
    2 + nb_trashcans + if max_advice_queries > 3 { max_advice_queries } else { 3 }
}

/// The number of blinding factors: five when advice columns are queried at
/// three rows at most and there is no trashcan; each more row an advice
/// column is queried at beyond three, and each trashcan, adds one.
pub proof fn lemma_blinding_factors(max_advice_queries: int, nb_trashcans: int)
    ensures
        max_advice_queries <= 3 ==> spec_blinding_factors(max_advice_queries, nb_trashcans) == 5 + nb_trashcans,
        max_advice_queries >= 3 ==> spec_blinding_factors(max_advice_queries + 1, nb_trashcans)
            == spec_blinding_factors(max_advice_queries, nb_trashcans) + 1,
        spec_blinding_factors(max_advice_queries, nb_trashcans + 1) == spec_blinding_factors(
            max_advice_queries,
            nb_trashcans,
        ) + 1,
{
}

pub fn blinding_factors(max_advice_queries: usize, nb_trashcans: usize) -> (n: usize)
    requires
        spec_blinding_factors(max_advice_queries as int, nb_trashcans as int) <= i32::MAX,
    ensures
        n == spec_blinding_factors(max_advice_queries as int, nb_trashcans as int),
{
    2 + nb_trashcans + if max_advice_queries > 3 { max_advice_queries } else { 3 }
}

/// Cost of one gate: its expressions batched together.
pub open spec fn gate_ops(a: Seq<ScalarExpression>) -> OpCounts {
    if a.len() == 0 { OpCounts::zero() } else { batch_ops(a) }
}

/// Cost of all gates.
pub open spec fn gates_ops(args: Seq<Seq<ScalarExpression>>) -> OpCounts
    decreases args.len(),
{
    if args.len() == 0 {
        OpCounts::zero()
    } else {
        gates_ops(args.drop_last()).plus(gate_ops(args.last()))
    }
}

pub proof fn lemma_gate_ops_nonneg(a: Seq<ScalarExpression>)
    ensures
        gate_ops(a).nonneg(),
        gate_ops(a).inv == 0 && gate_ops(a).pow == 0 && gate_ops(a).to_bytes == 0,
        gate_ops(a).from_bytes == 0 && gate_ops(a).add_point == 0 && gate_ops(a).mul_point == 0,
        gate_ops(a).from_bytes_point == 0 && gate_ops(a).decompress == 0,
        gate_ops(a).compress == 0 && gate_ops(a).transcript == 0,
{
    lemma_ops_total_shape(a);
}

pub proof fn lemma_gates_ops_prefix(args: Seq<Seq<ScalarExpression>>, i: int)
    requires
        0 <= i <= args.len(),
    ensures
        gates_ops(args.take(i)).le(gates_ops(args)),
        gates_ops(args.take(i)).nonneg(),
    decreases args.len() - i,
{
    if i < args.len() {
        lemma_gates_ops_prefix(args, i + 1);
        assert(args.take(i + 1).drop_last() =~= args.take(i));
        assert(args.take(i + 1).last() == args[i]);
        lemma_gate_ops_nonneg(args[i]);
    } else {
        assert(args.take(i) =~= args);
    }
    lemma_gates_ops_nonneg(args.take(i));
}

pub proof fn lemma_gates_ops_nonneg(args: Seq<Seq<ScalarExpression>>)
    ensures
        gates_ops(args).nonneg(),
        gates_ops(args).transcript == 0,
    decreases args.len(),
{
    if args.len() > 0 {
        lemma_gates_ops_nonneg(args.drop_last());
        lemma_gate_ops_nonneg(args.last());
    }
}

/// Batches each gate's expressions and counts the cost.
pub fn compute_gates(stats: &mut CircuitStatistics, gate_args: Vec<Argument>)
    requires
        old(stats).room_for(gates_ops(args_view(gate_args))),
    ensures
        CircuitStatistics::stepped(old(stats), final(stats), gates_ops(args_view(gate_args))),
{
    let ghost s0 = *old(stats);
    let ghost av = args_view(gate_args);
    let mut gate_args = gate_args;
    let n = gate_args.len();
    let mut i: usize = 0;
    while i < n
        invariant
            i <= n,
            n == av.len(),
            n == gate_args@.len(),
            av == args_view(gate_args),
            s0.room_for(gates_ops(av)),
            CircuitStatistics::stepped(&s0, stats, gates_ops(av.take(i as int))),
        decreases n - i,
    {
        proof {
            lemma_gates_ops_prefix(av, i + 1);
            lemma_gates_ops_prefix(av, i as int);
            assert(av.take(i + 1).drop_last() =~= av.take(i as int));
            assert(av.take(i + 1).last() == av[i as int]);
            lemma_gate_ops_nonneg(av[i as int]);
            assert(gate_args@[i as int]@ == av[i as int]);
        }
        let arg = gate_args[i].clone();
        assert(arg@ =~= av[i as int]) by {
            assert forall|k: int| 0 <= k < arg@.len() implies arg@[k] == av[i as int][k] by {
                assert(vstd::pervasive::cloned::<ScalarExpression>(gate_args@[i as int]@[k], arg@[k]));
            }
        }
        let batched_arg = ScalarExpression::batch_expressions(arg);
        stats.consume_expression(&batched_arg);
        i = i + 1;
    }
    assert(av.take(n as int) =~= av);
}

/// Cost of reading the proof: converting the constants 0, 1 and delta,
/// absorbing the verification key and the inputs, extracting the proof's
/// elements and the scheme's.
pub open spec fn read_phase_ops<PCS: PcsEstimate>(p: ProcessedSpec) -> OpCounts {
    let pi = p.nb_public_inputs as int;
    let ci = p.nb_committed_instances as int;
    OpCounts { from_int: 3, ..OpCounts::zero() }.plus(absorb_ops(pi, ci)).plus(
        pes_ops(
            p.nb_advice as int,
            p.lookup_args.len() as int,
            p.circuit_degree as int,
            p.nb_copy_constrained as int,
            p.trashcan_args.len() as int,
            p.nb_advice_fixed_evaluations as int,
            pi,
            ci,
        ),
    ).plus(PCS::read_ops(p.nb_point_sets as nat))
}

/// Cost of checking the constraints and the opening once the proof is read.
pub open spec fn check_phase_ops<PCS: PcsEstimate>(p: ProcessedSpec) -> OpCounts {
    let deg = p.circuit_degree as int;
    let cc = p.nb_copy_constrained as int;
    let l = p.lookup_args.len() as int;
    let trash = p.trashcan_args.len() as int;
    let sets = p.nb_point_sets as int;
    let bf = spec_blinding_factors(p.max_advice_queries as int, trash);
    rotates_ops(sets).plus(rotates_ops(bf + 2)).plus(lagrange_basis_ops(bf + 2)).plus(
        OpCounts { add: bf + 2, sub: 1, ..OpCounts::zero() },
    ).plus(gates_ops(p.gate_args)).plus(PlookUp::argument_ops(l, p.lookup_args)).plus(
        permutation_ops(cc, deg),
    ).plus(trash_ops(p.trashcan_args)).plus(
        vanishing_ops(p.gate_args.len() as int, nb_chunks(cc, deg), l, trash, deg),
    ).plus(
        PCS::opening_ops(
            p.commitment_map,
            p.max_commitments_per_query as nat,
            p.kzg_halo2_point_sets,
            sets as nat,
        ),
    )
}

/// Cost of the whole verifier.
pub open spec fn verifier_ops<PCS: PcsEstimate>(p: ProcessedSpec) -> OpCounts {
    read_phase_ops::<PCS>(p).plus(check_phase_ops::<PCS>(p))
}

/// Size of the transcript once the proof's non-scheme elements are read.
pub open spec fn transcript_after_pes<PCS: PcsEstimate>(p: ProcessedSpec) -> int {
    let pi = p.nb_public_inputs as int;
    let ci = p.nb_committed_instances as int;
    absorb_ops(pi, ci).transcript + pes_ops(
        p.nb_advice as int,
        p.lookup_args.len() as int,
        p.circuit_degree as int,
        p.nb_copy_constrained as int,
        p.trashcan_args.len() as int,
        p.nb_advice_fixed_evaluations as int,
        pi,
        ci,
    ).transcript
}

/// The transcript sizes hashed by the verifier's challenges.
pub open spec fn verifier_hashes<PCS: PcsEstimate>(p: ProcessedSpec) -> Seq<usize> {
    pes_hashes(
        absorb_ops(p.nb_public_inputs as int, p.nb_committed_instances as int).transcript,
        p.nb_advice as int,
        p.lookup_args.len() as int,
        p.circuit_degree as int,
        p.nb_copy_constrained as int,
        p.trashcan_args.len() as int,
    ) + PCS::read_hashes(transcript_after_pes::<PCS>(p) as nat, p.nb_point_sets as nat)
}

/// The proof size of a processed circuit.
pub open spec fn processed_proof_size<PCS: PcsEstimate>(p: ProcessedSpec) -> int {
    spec_proof_size::<PCS>(
        p.nb_committed_instances as int,
        p.nb_advice as int,
        p.lookup_args.len() as int,
        p.trashcan_args.len() as int,
        p.circuit_degree as int,
        p.nb_copy_constrained as int,
        p.nb_advice_fixed_evaluations as int,
        p.nb_point_sets as int,
    )
}

/// The inputs on which the verifier's cost can be estimated: a circuit
/// without advice columns, or one whose degree is at least 3, with
/// copy-constrained columns, whose transcript as read matches the proof
/// size, and whose counts fit in `usize`.
pub open spec fn estimable<PCS: PcsEstimate>(p: ProcessedSpec) -> bool {
    p.nb_advice > 0 ==> {
        &&& proof_size_ok::<PCS>(
            p.nb_committed_instances as int,
            p.nb_advice as int,
            p.lookup_args.len() as int,
            p.trashcan_args.len() as int,
            p.circuit_degree as int,
            p.nb_copy_constrained as int,
            p.nb_advice_fixed_evaluations as int,
            p.nb_point_sets as int,
        )
        &&& 10 + 48 * (p.nb_fixed + p.nb_copy_constrained + PCS::spec_nb_commitments_vk()) <= usize::MAX
        &&& spec_blinding_factors(p.max_advice_queries as int, p.trashcan_args.len() as int) <= i32::MAX
        &&& p.nb_public_inputs + 2 <= usize::MAX
        &&& PCS::read_ops(p.nb_point_sets as nat).transcript == 48 * PCS::spec_nb_commitments() + 32
            * PCS::spec_nb_evaluations(p.nb_point_sets as nat)
        &&& PCS::opening_ok(
            p.commitment_map,
            p.max_commitments_per_query as nat,
            p.kzg_halo2_point_sets,
            p.nb_point_sets as nat,
        )
        &&& verifier_ops::<PCS>(p).fits()
    }
}

/// Estimates the verifier's operation counts from a processed circuit
/// description. Counts are lower bounds: they assume the minimal rotation
/// sets.
#[verifier::rlimit(100)]
pub fn estimate_verifier_code<PCS: PcsEstimate>(processed: Processed) -> (stats: CircuitStatistics)
    requires
        estimable::<PCS>(processed@),
    ensures
        processed.nb_advice == 0 ==> {
            &&& stats.counts() == OpCounts::zero()
            &&& stats.hash@.len() == 0 && stats.msm@.len() == 0
            &&& stats.proof_size == 0 && stats.vk_size == 0 && stats.degree == 0
            &&& stats.public_inputs == 0 && stats.committed_instances == 0
            &&& stats.miller_loop == 0 && stats.pairing == 0
        },
        processed.nb_advice > 0 ==> {
            &&& stats.counts() == OpCounts::zero().plus(verifier_ops::<PCS>(processed@))
            &&& stats.hash@ == verifier_hashes::<PCS>(processed@)
            &&& stats.msm@ == PCS::opening_msms(map_view(processed.commitment_map))
            &&& stats.proof_size == processed_proof_size::<PCS>(processed@)
            &&& stats.vk_size == spec_vk_size::<PCS>(processed.nb_copy_constrained as int, processed.nb_fixed as int)
            &&& stats.degree == processed.circuit_degree
            &&& stats.public_inputs == processed.nb_public_inputs
            &&& stats.committed_instances == processed.nb_committed_instances
            &&& stats.miller_loop == 2 && stats.pairing == 1
            // the transcript absorbs the vk hash, the committed instances, the
            // number of public inputs, the public inputs and the whole proof
            &&& stats.transcript_size == 32 + 48 * processed.nb_committed_instances + 32 + 32
                * processed.nb_public_inputs + stats.proof_size
        },
{
    let ghost p = processed@;
    let Processed {
        circuit_degree,
        nb_public_inputs,
        nb_committed_instances,
        nb_advice,
        nb_fixed,
        nb_copy_constrained,
        gate_args,
        lookup_args,
        trashcan_args,
        nb_advice_fixed_evaluations,
        max_advice_queries,
        commitment_map,
        kzg_halo2_point_sets,
        nb_point_sets,
        max_commitments_per_query,
    } = processed;
    if nb_advice == 0 {
        return CircuitStatistics::empty();
    }
    let nb_lookups = lookup_args.len();
    let nb_trashcans = trashcan_args.len();
    let size_proof = estimate_proof_size::<PCS>(
        nb_committed_instances,
        nb_advice,
        nb_lookups,
        nb_trashcans,
        circuit_degree,
        nb_copy_constrained,
        nb_advice_fixed_evaluations,
        nb_point_sets,
    );
    let vk_size = estimate_vk_size::<PCS>(nb_copy_constrained, nb_fixed);
    let mut stats = CircuitStatistics::new(size_proof, vk_size, circuit_degree, nb_public_inputs, nb_committed_instances);
    proof {
        lemma_nb_chunks(nb_copy_constrained as int, circuit_degree as int);
        lemma_phases_nonneg::<PCS>(p);
    }
    read_proof::<PCS>(
        &mut stats,
        Ghost(p),
        nb_public_inputs,
        nb_committed_instances,
        nb_advice,
        nb_lookups,
        circuit_degree,
        nb_copy_constrained,
        nb_trashcans,
        nb_advice_fixed_evaluations,
        nb_point_sets,
    );
    assert(stats.transcript_size == 32 + 48 * nb_committed_instances + 32 + 32 * nb_public_inputs + size_proof);
    let ghost mid = stats;
    check_constraints::<PCS>(
        &mut stats,
        Ghost(p),
        gate_args,
        lookup_args,
        trashcan_args,
        &commitment_map,
        &kzg_halo2_point_sets,
        max_commitments_per_query,
        max_advice_queries,
        circuit_degree,
        nb_copy_constrained,
        nb_point_sets,
    );
    assert(stats.counts() == mid.counts().plus(check_phase_ops::<PCS>(p)));
    assert(stats.hash@ =~= verifier_hashes::<PCS>(p));
    assert(stats.msm@ =~= PCS::opening_msms(p.commitment_map));
    assert(stats.counts() == OpCounts::zero().plus(verifier_ops::<PCS>(p)));
    stats
}

/// Both phases cost nothing negative.
pub proof fn lemma_phases_nonneg<PCS: PcsEstimate>(p: ProcessedSpec)
    requires
        p.nb_advice > 0,
        estimable::<PCS>(p),
    ensures
        read_phase_ops::<PCS>(p).nonneg(),
        check_phase_ops::<PCS>(p).nonneg(),
        check_phase_ops::<PCS>(p).transcript == 0,
{
    let deg = p.circuit_degree as int;
    let cc = p.nb_copy_constrained as int;
    lemma_nb_chunks(cc, deg);
    lemma_instance_ops_nonneg(p.nb_public_inputs as int);
    PCS::lemma_read_ops_nonneg(p.nb_point_sets as nat);
    PCS::lemma_opening_ops_nonneg(
        p.commitment_map,
        p.max_commitments_per_query as nat,
        p.kzg_halo2_point_sets,
        p.nb_point_sets as nat,
    );
    lemma_gates_ops_nonneg(p.gate_args);
    lemma_lookup_fold_ops_nonneg(p.lookup_args);
    lemma_trash_ops_nonneg(p.trashcan_args);
}

/// Reads the proof: constants, absorption, extraction of the proof's and the
/// scheme's elements.
fn read_proof<PCS: PcsEstimate>(
    stats: &mut CircuitStatistics,
    Ghost(p): Ghost<ProcessedSpec>,
    nb_public_inputs: usize,
    nb_committed_instances: usize,
    nb_advice: usize,
    nb_lookups: usize,
    circuit_degree: usize,
    nb_copy_constrained: usize,
    nb_trashcans: usize,
    nb_advice_fixed_evaluations: usize,
    nb_point_sets: usize,
)
    requires
        p.nb_advice > 0,
        estimable::<PCS>(p),
        nb_public_inputs == p.nb_public_inputs,
        nb_committed_instances == p.nb_committed_instances,
        nb_advice == p.nb_advice,
        nb_lookups == p.lookup_args.len(),
        circuit_degree == p.circuit_degree,
        nb_copy_constrained == p.nb_copy_constrained,
        nb_trashcans == p.trashcan_args.len(),
        nb_advice_fixed_evaluations == p.nb_advice_fixed_evaluations,
        nb_point_sets == p.nb_point_sets,
        old(stats).counts() == OpCounts::zero(),
        old(stats).hash@.len() == 0,
        old(stats).msm@.len() == 0,
    ensures
        final(stats).counts() == OpCounts::zero().plus(read_phase_ops::<PCS>(p)),
        final(stats).hash@ == verifier_hashes::<PCS>(p),
        final(stats).msm@.len() == 0,
        final(stats).same_header(old(stats)),
        final(stats).transcript_size == transcript_after_pes::<PCS>(p) + PCS::read_ops(nb_point_sets as nat).transcript,
{
    proof {
        lemma_phases_nonneg::<PCS>(p);
        lemma_nb_chunks(nb_copy_constrained as int, circuit_degree as int);
        lemma_instance_ops_nonneg(nb_public_inputs as int);
        PCS::lemma_read_ops_nonneg(nb_point_sets as nat);
    }
    // constants 0, 1 and delta as scalars
    stats.from_int_scalar();
    stats.from_int_scalar();
    stats.from_int_scalar();
    absorb_vk_and_inputs(stats, nb_public_inputs, nb_committed_instances);
    // proof extraction and instance evaluation
    process_pes(
        stats,
        nb_advice,
        nb_lookups,
        circuit_degree,
        nb_copy_constrained,
        nb_trashcans,
        nb_advice_fixed_evaluations,
        nb_public_inputs,
        nb_committed_instances,
    );
    // the commitment scheme's elements
    PCS::read_transcript(stats, nb_point_sets);
    assert(stats.hash@ =~= verifier_hashes::<PCS>(p));
}

/// The check phase's steps, each nonnegative.
pub proof fn lemma_check_parts_nonneg<PCS: PcsEstimate>(p: ProcessedSpec)
    requires
        p.nb_advice > 0,
        estimable::<PCS>(p),
    ensures
        rotates_ops(p.nb_point_sets as int).nonneg(),
        lagrange_basis_ops(spec_blinding_factors(p.max_advice_queries as int, p.trashcan_args.len() as int) + 2).nonneg(),
        gates_ops(p.gate_args).nonneg(),
        PlookUp::argument_ops(p.lookup_args.len() as int, p.lookup_args).nonneg(),
        permutation_ops(p.nb_copy_constrained as int, p.circuit_degree as int).nonneg(),
        trash_ops(p.trashcan_args).nonneg(),
        vanishing_ops(
            p.gate_args.len() as int,
            nb_chunks(p.nb_copy_constrained as int, p.circuit_degree as int),
            p.lookup_args.len() as int,
            p.trashcan_args.len() as int,
            p.circuit_degree as int,
        ).nonneg(),
        PCS::opening_ops(
            p.commitment_map,
            p.max_commitments_per_query as nat,
            p.kzg_halo2_point_sets,
            p.nb_point_sets as nat,
        ).nonneg(),
{
    lemma_phases_nonneg::<PCS>(p);
    lemma_nb_chunks(p.nb_copy_constrained as int, p.circuit_degree as int);
    PCS::lemma_opening_ops_nonneg(
        p.commitment_map,
        p.max_commitments_per_query as nat,
        p.kzg_halo2_point_sets,
        p.nb_point_sets as nat,
    );
    lemma_gates_ops_nonneg(p.gate_args);
    lemma_lookup_fold_ops_nonneg(p.lookup_args);
    lemma_trash_ops_nonneg(p.trashcan_args);
}

/// A step of cost `next` after steps costing `done` stays within `usize`
/// when the whole of `total`, of which they are a part, does.
pub proof fn lemma_room_step(base: OpCounts, done: OpCounts, next: OpCounts, total: OpCounts)
    requires
        base.nonneg(),
        done.nonneg(),
        next.nonneg(),
        done.plus(next).le(total),
        base.plus(total).fits(),
    ensures
        base.plus(done).plus(next).fits(),
        base.plus(done).plus(next) == base.plus(done.plus(next)),
{
}

/// Checks the gates, lookups, permutation, trashcans and vanishing argument,
/// then the opening.
#[verifier::rlimit(100)]
fn check_constraints<PCS: PcsEstimate>(
    stats: &mut CircuitStatistics,
    Ghost(p): Ghost<ProcessedSpec>,
    gate_args: Vec<Argument>,
    lookup_args: Vec<Argument>,
    trashcan_args: Vec<Argument>,
    commitment_map: &Vec<Vec<usize>>,
    kzg_halo2_point_sets: &Vec<usize>,
    max_commitments_per_query: usize,
    max_advice_queries: usize,
    circuit_degree: usize,
    nb_copy_constrained: usize,
    nb_point_sets: usize,
)
    requires
        p.nb_advice > 0,
        estimable::<PCS>(p),
        args_view(gate_args) == p.gate_args,
        args_view(lookup_args) == p.lookup_args,
        args_view(trashcan_args) == p.trashcan_args,
        map_view(*commitment_map) == p.commitment_map,
        kzg_halo2_point_sets@ == p.kzg_halo2_point_sets,
        max_commitments_per_query == p.max_commitments_per_query,
        max_advice_queries == p.max_advice_queries,
        circuit_degree == p.circuit_degree,
        nb_copy_constrained == p.nb_copy_constrained,
        nb_point_sets == p.nb_point_sets,
        old(stats).room_for(check_phase_ops::<PCS>(p)),
    ensures
        final(stats).counts() == old(stats).counts().plus(check_phase_ops::<PCS>(p)),
        final(stats).hash@ == old(stats).hash@,
        final(stats).msm@ == old(stats).msm@ + PCS::opening_msms(p.commitment_map),
        final(stats).same_header(old(stats)),
{
    let ghost s0 = *old(stats);
    let ghost base = s0.counts();
    let ghost total = check_phase_ops::<PCS>(p);
    let ghost cc = nb_copy_constrained as int;
    let ghost deg = circuit_degree as int;
    let nb_gates = gate_args.len();
    let nb_lookups = lookup_args.len();
    let nb_trashcans = trashcan_args.len();
    let ghost bf = spec_blinding_factors(max_advice_queries as int, nb_trashcans as int);
    let ghost c1 = rotates_ops(nb_point_sets as int);
    let ghost c2 = rotates_ops(bf + 2);
    let ghost c3 = lagrange_basis_ops(bf + 2);
    let ghost c4 = OpCounts { add: bf + 1, ..OpCounts::zero() };
    let ghost c5 = OpCounts::add1();
    let ghost c6 = OpCounts::sub1();
    let ghost c7 = gates_ops(args_view(gate_args));
    let ghost c8 = PlookUp::argument_ops(nb_lookups as int, args_view(lookup_args));
    let ghost c9 = permutation_ops(cc, deg);
    let ghost c10 = trash_ops(args_view(trashcan_args));
    let ghost c11 = vanishing_ops(nb_gates as int, nb_chunks(cc, deg), nb_lookups as int, nb_trashcans as int, deg);
    let ghost c12 = PCS::opening_ops(
        p.commitment_map,
        max_commitments_per_query as nat,
        kzg_halo2_point_sets@,
        nb_point_sets as nat,
    );
    proof {
        lemma_check_parts_nonneg::<PCS>(p);
        lemma_nb_chunks(cc, deg);
        assert(total == c1.plus(c2).plus(c3).plus(c4.plus(c5).plus(c6)).plus(c7).plus(c8).plus(c9).plus(c10).plus(c11).plus(c12));
    }
    let ghost mut done = OpCounts::zero();
    // one rotation of x per point set
    proof { lemma_room_step(base, done, c1, total); }
    stats.rotate_omegas(nb_point_sets);
    proof { done = done.plus(c1); }
    // rotations for the vanishing polynomial
    let nb_blinding_factors = blinding_factors(max_advice_queries, nb_trashcans);
    proof { lemma_room_step(base, done, c2, total); }
    stats.rotate_omegas(nb_blinding_factors + 2);
    proof { done = done.plus(c2); }
    // Lagrange basis at those points
    proof { lemma_room_step(base, done, c3, total); }
    stats.lagrange_polynomial_basis(nb_blinding_factors + 2);
    proof { done = done.plus(c3); }
    // summing the blinding evaluations from a zero accumulator
    proof { lemma_room_step(base, done, c4, total); }
    stats.add_scalar_times(nb_blinding_factors + 1);
    proof { done = done.plus(c4); }
    // active rows
    proof { lemma_room_step(base, done, c5, total); }
    stats.add_scalar();
    proof { done = done.plus(c5); }
    proof { lemma_room_step(base, done, c6, total); }
    stats.sub_scalar();
    proof { done = done.plus(c6); }
    // gates
    proof { lemma_room_step(base, done, c7, total); }
    compute_gates(stats, gate_args);
    proof { done = done.plus(c7); }
    // lookups
    proof { lemma_room_step(base, done, c8, total); }
    PlookUp::compute_argument(stats, nb_lookups, lookup_args);
    proof { done = done.plus(c8); }
    // permutation
    let nb_permutations = div_ceil(nb_copy_constrained, circuit_degree - 2);
    proof { lemma_room_step(base, done, c9, total); }
    evaluate_permutation_terms(stats, nb_copy_constrained, circuit_degree);
    proof { done = done.plus(c9); }
    // trashcans
    proof { lemma_room_step(base, done, c10, total); }
    compute_trashcans(stats, trashcan_args);
    proof { done = done.plus(c10); }
    // vanishing argument
    proof { lemma_room_step(base, done, c11, total); }
    compute_vanishing(stats, nb_gates, nb_permutations, nb_lookups, nb_trashcans, circuit_degree);
    proof { done = done.plus(c11); }
    // opening
    proof { lemma_room_step(base, done, c12, total); }
    PCS::compute_opening(stats, commitment_map, max_commitments_per_query, kzg_halo2_point_sets, nb_point_sets);
    proof { done = done.plus(c12); }
    assert(done == total);
}

/// The proof of a processed circuit can be sized without overflow.
pub open spec fn proof_size_ok_of<PCS: PcsEstimate>(p: ProcessedSpec) -> bool {
    proof_size_ok::<PCS>(
        p.nb_committed_instances as int,
        p.nb_advice as int,
        p.lookup_args.len() as int,
        p.trashcan_args.len() as int,
        p.circuit_degree as int,
        p.nb_copy_constrained as int,
        p.nb_advice_fixed_evaluations as int,
        p.nb_point_sets as int,
    )
}

/// Estimates the proof size in bytes of the circuit made of `used_chips`
/// and `extra`.
pub fn proof_size<PCS: PcsEstimate>(
    nb_public_inputs: usize,
    nb_committed_instances: usize,
    extra: CircuitConfig,
    used_chips: &[SupportedChips],
) -> (n: usize)
    requires
        process_ok(nb_public_inputs as nat, nb_committed_instances as nat, extra, kinds(used_chips@)),
        proof_size_ok_of::<PCS>(
            spec_process(nb_public_inputs as nat, nb_committed_instances as nat, extra, kinds(used_chips@)),
        ),
    ensures
        n == processed_proof_size::<PCS>(
            spec_process(nb_public_inputs as nat, nb_committed_instances as nat, extra, kinds(used_chips@)),
        ),
{
    let processed = process::<PCS>(nb_public_inputs, nb_committed_instances, extra, used_chips);
    estimate_proof_size::<PCS>(
        nb_committed_instances,
        processed.nb_advice,
        processed.lookup_args.len(),
        processed.trashcan_args.len(),
        processed.circuit_degree,
        processed.nb_copy_constrained,
        processed.nb_advice_fixed_evaluations,
        processed.nb_point_sets,
    )
}

/// Estimates the verification key size in bytes of the circuit made of
/// `used_chips` and `extra`.
pub fn vk_size<PCS: PcsEstimate>(
    nb_public_inputs: usize,
    nb_committed_instances: usize,
    extra: CircuitConfig,
    used_chips: &[SupportedChips],
) -> (n: usize)
    requires
        process_ok(nb_public_inputs as nat, nb_committed_instances as nat, extra, kinds(used_chips@)),
        ({
            let p = spec_process(nb_public_inputs as nat, nb_committed_instances as nat, extra, kinds(used_chips@));
            10 + 48 * (p.nb_fixed + p.nb_copy_constrained + PCS::spec_nb_commitments_vk()) <= usize::MAX
        }),
    ensures
        ({
            let p = spec_process(nb_public_inputs as nat, nb_committed_instances as nat, extra, kinds(used_chips@));
            n == spec_vk_size::<PCS>(p.nb_copy_constrained as int, p.nb_fixed as int)
        }),
{
    let processed = process::<PCS>(nb_public_inputs, nb_committed_instances, extra, used_chips);
    estimate_vk_size::<PCS>(processed.nb_copy_constrained, processed.nb_fixed)
}

/// Estimates the verifier's operation counts for the circuit made of
/// `used_chips` and `extra`.
pub fn verifier_stats<PCS: PcsEstimate>(
    nb_public_inputs: usize,
    nb_committed_instances: usize,
    extra: CircuitConfig,
    used_chips: &[SupportedChips],
) -> (stats: CircuitStatistics)
    requires
        process_ok(nb_public_inputs as nat, nb_committed_instances as nat, extra, kinds(used_chips@)),
        estimable::<PCS>(
            spec_process(nb_public_inputs as nat, nb_committed_instances as nat, extra, kinds(used_chips@)),
        ),
    ensures
        ({
            let p = spec_process(nb_public_inputs as nat, nb_committed_instances as nat, extra, kinds(used_chips@));
            &&& p.nb_advice == 0 ==> stats.counts() == OpCounts::zero() && stats.hash@.len() == 0
                && stats.msm@.len() == 0 && stats.proof_size == 0 && stats.vk_size == 0
            &&& p.nb_advice > 0 ==> {
                &&& stats.counts() == OpCounts::zero().plus(verifier_ops::<PCS>(p))
                &&& stats.hash@ == verifier_hashes::<PCS>(p)
                &&& stats.msm@ == PCS::opening_msms(p.commitment_map)
                &&& stats.proof_size == processed_proof_size::<PCS>(p)
                &&& stats.vk_size == spec_vk_size::<PCS>(p.nb_copy_constrained as int, p.nb_fixed as int)
                &&& stats.degree == p.circuit_degree
                &&& stats.public_inputs == nb_public_inputs
                &&& stats.committed_instances == nb_committed_instances
                &&& stats.transcript_size == 32 + 48 * nb_committed_instances + 32 + 32 * nb_public_inputs
                    + stats.proof_size
            }
        }),
{
    let processed = process::<PCS>(nb_public_inputs, nb_committed_instances, extra, used_chips);
    estimate_verifier_code::<PCS>(processed)
}

/// One more selector adds one evaluation to the proof, 32 bytes, and one
/// fixed-column commitment to the verification key, 48 bytes (as long as
/// neither size is zero).
pub proof fn lemma_one_more_selector_sizes<PCS: PcsEstimate>(
    pi: nat,
    ci: nat,
    extra: CircuitConfig,
    used: Seq<ChipKind>,
)
    requires
        extra.nb_selectors < usize::MAX,
    ensures
        ({
            let p = spec_process(pi, ci, extra, used);
            let p2 = spec_process(pi, ci, with_one_more_selector(extra), used);
            &&& processed_proof_size::<PCS>(p) > 0 ==> processed_proof_size::<PCS>(p2)
                == processed_proof_size::<PCS>(p) + 32
            &&& spec_vk_size::<PCS>(p.nb_copy_constrained as int, p.nb_fixed as int) > 0 ==> spec_vk_size::<PCS>(
                p2.nb_copy_constrained as int,
                p2.nb_fixed as int,
            ) == spec_vk_size::<PCS>(p.nb_copy_constrained as int, p.nb_fixed as int) + 48
        }),
{
    lemma_one_more_selector(pi, ci, extra, used);
}

/// The name of a lookup chip's table is ignored by the estimator: two
/// lookup chips that differ in their table's name alone (as
/// `lookup_chip(n1, a, i, t)` and `lookup_chip(n2, a, i, t)` do) are accepted
/// by the same estimators and get the same proof size, verification key
/// size and verifier statistics (operation counts, hashed transcript sizes
/// and multi-scalar multiplications).
pub proof fn lemma_lookup_name_changes_no_estimate<PCS: PcsEstimate>(
    pi: nat,
    ci: nat,
    extra: CircuitConfig,
    c1: SupportedChips,
    c2: SupportedChips,
)
    requires
        c1 is Lookup,
        c2 is Lookup,
        c1->Lookup_0.nb_columns == c2->Lookup_0.nb_columns,
        c1->Lookup_0.nb_arguments == c2->Lookup_0.nb_arguments,
        c1->Lookup_0.input_degree == c2->Lookup_0.input_degree,
        c1->Lookup_0.table_degree == c2->Lookup_0.table_degree,
        c1->Lookup_0.nb_arguments >= 1,
    ensures
        ({
            let p1 = spec_process(pi, ci, extra, kinds(seq![c1]));
            let p2 = spec_process(pi, ci, extra, kinds(seq![c2]));
            &&& process_ok(pi, ci, extra, kinds(seq![c1])) == process_ok(pi, ci, extra, kinds(seq![c2]))
            &&& proof_size_ok_of::<PCS>(p1) == proof_size_ok_of::<PCS>(p2)
            &&& estimable::<PCS>(p1) == estimable::<PCS>(p2)
            &&& processed_proof_size::<PCS>(p1) == processed_proof_size::<PCS>(p2)
            &&& spec_vk_size::<PCS>(p1.nb_copy_constrained as int, p1.nb_fixed as int) == spec_vk_size::<PCS>(
                p2.nb_copy_constrained as int,
                p2.nb_fixed as int,
            )
            &&& verifier_ops::<PCS>(p1) == verifier_ops::<PCS>(p2)
            &&& verifier_hashes::<PCS>(p1) == verifier_hashes::<PCS>(p2)
            &&& PCS::opening_msms(p1.commitment_map) == PCS::opening_msms(p2.commitment_map)
            &&& p1 == p2
        }),
{
    let t1 = c1->Lookup_0.tview();
    let t2 = c2->Lookup_0.tview();
    assert(kinds(seq![c1]) =~= seq![ChipKind::Lookup(t1)]);
    assert(kinds(seq![c2]) =~= seq![ChipKind::Lookup(t2)]);
    lemma_lookup_name_irrelevant(pi, ci, extra, t1, t2);
}

} // verus!
