use plutus_halo2_verifier_gen::stats::chips::{SupportedChips, lookup_chip};
use plutus_halo2_verifier_gen::stats::circuit::process;
use plutus_halo2_verifier_gen::stats::config::CircuitConfig;
use plutus_halo2_verifier_gen::stats::estimate::{proof_size, verifier_stats, vk_size};
use plutus_halo2_verifier_gen::stats::pcs::H2MO;
use plutus_halo2_verifier_gen::stats::profile::chip_profile;

fn single_advice() -> CircuitConfig {
    // one extra advice column, degree 3, no pow2range column
    CircuitConfig::new(0, 1, 0, None, 0, 3, Some(0))
}

#[test]
fn process_single_advice_column() {
    let p = process::<H2MO>(1, 0, single_advice(), &[]);
    assert_eq!(p.circuit_degree, 3);
    assert_eq!(p.nb_advice, 1);
    assert_eq!(p.nb_fixed, 0);
    // the instance column and the advice column
    assert_eq!(p.nb_copy_constrained, 2);
    assert_eq!(p.nb_advice_fixed_evaluations, 1);
    assert_eq!(p.max_advice_queries, 1);
    // current row: advice, two permutation columns, vanishing g and random;
    // current and next: first product; current, next and last: second product
    assert_eq!(p.commitment_map, vec![vec![1, 1, 1, 1, 1], vec![2], vec![3]]);
    assert_eq!(p.kzg_halo2_point_sets, vec![1, 2, 3]);
    assert_eq!(p.nb_point_sets, 3);
    assert_eq!(p.max_commitments_per_query, 5);
    assert!(p.gate_args.is_empty());
    assert!(p.lookup_args.is_empty());
    assert!(p.trashcan_args.is_empty());
}

#[test]
fn proof_and_vk_sizes_of_single_advice_column() {
    // 8 commitments and 12 scalars
    assert_eq!(proof_size::<H2MO>(1, 0, single_advice(), &[]), 8 * 48 + 12 * 32);
    // no fixed column: no verification key estimate
    assert_eq!(vk_size::<H2MO>(1, 0, single_advice(), &[]), 0);
}

#[test]
fn verifier_transcript_absorbs_inputs_and_proof() {
    let stats = verifier_stats::<H2MO>(1, 0, single_advice(), &[]);
    assert_eq!(stats.proof_size, 768);
    assert_eq!(stats.transcript_size, 32 + 32 + 32 + 768);
    assert_eq!(stats.hash, vec![144, 144, 144, 240, 288, 384, 672, 672, 720, 816]);
    assert_eq!(stats.msm, vec![5, 1, 1]);
    assert_eq!(stats.degree, 3);
    assert_eq!(stats.miller_loop, 2);
    assert_eq!(stats.pairing, 1);
}

#[test]
fn extra_lookups_form_one_argument() {
    let extra = CircuitConfig::new(0, 1, 0, None, 4, 3, Some(0));
    let p = process::<H2MO>(1, 0, extra, &[]);
    assert_eq!(p.lookup_args.len(), 1);
    assert_eq!(p.lookup_args[0].len(), 4);
    // the lookup degree wins over the requested one
    assert_eq!(p.circuit_degree, 5);
}

#[test]
fn selectors_and_extra_fixed_columns_add_up() {
    let extra = CircuitConfig::new(2, 1, 3, None, 0, 3, Some(0));
    let p = process::<H2MO>(1, 0, extra, &[]);
    assert_eq!(p.nb_advice, 1);
    assert_eq!(p.nb_fixed, 5);
}

#[test]
fn native_chip_is_merged_with_extra_columns() {
    let p = process::<H2MO>(1, 0, single_advice(), &[SupportedChips::Native]);
    assert_eq!(p.nb_advice, 6);
    // the arithmetic gate has degree 4
    assert_eq!(p.circuit_degree, 4);
    assert_eq!(p.gate_args.len(), 3);
}

#[test]
fn native_chip_profile() {
    let p = chip_profile::<H2MO>(SupportedChips::Native);
    assert!(p.deps.is_empty());
    assert_eq!(p.degree, 4);
    assert_eq!(p.advice_cols, 5);
    assert_eq!(p.fixed_cols, 13);
    assert_eq!(p.copy_constraints, 6);
    assert_eq!(p.nb_lookup_tables, 0);
    assert_eq!(p.gates, 3);
    assert_eq!(p.lookups, 0);
    assert_eq!(p.trash, 0);
    assert_eq!(p.evals, 21);
    assert_eq!(p.gate_ops.nb_neg, 5);
    assert_eq!(p.gate_ops.nb_add, 19);
    assert_eq!(p.gate_ops.nb_sub, 0);
    assert_eq!(p.gate_ops.nb_mul, 17);
    assert_eq!(p.gate_ops.nb_from_int, 0);
    assert_eq!(p.commitment_map, vec![vec![1; 23], vec![2; 4], vec![3; 2]]);
    assert_eq!(p.proof_size, 14 * 48 + 39 * 32);
    assert_eq!(p.vk_size, 10 + 48 * 19);
}

#[test]
fn hash_to_curve_profile_lists_dependencies_by_variant() {
    let p = chip_profile::<H2MO>(SupportedChips::HashToCurve);
    assert_eq!(p.deps, vec!["Native".to_string(), "Poseidon".to_string(), "EdwardsJubjub".to_string()]);
}

#[test]
fn one_more_selector_adds_one_evaluation_and_one_commitment() {
    let two = CircuitConfig::new(2, 1, 3, None, 0, 3, Some(0));
    let three = CircuitConfig::new(3, 1, 3, None, 0, 3, Some(0));
    let p2 = proof_size::<H2MO>(1, 0, two, &[SupportedChips::Native]);
    let p3 = proof_size::<H2MO>(1, 0, three, &[SupportedChips::Native]);
    assert!(p2 > 0);
    assert_eq!(p3, p2 + 32);
    let v2 = vk_size::<H2MO>(1, 0, two, &[SupportedChips::Native]);
    let v3 = vk_size::<H2MO>(1, 0, three, &[SupportedChips::Native]);
    assert!(v2 > 0);
    assert_eq!(v3, v2 + 48);
}

#[test]
fn the_name_of_a_lookup_table_changes_no_estimate() {
    let extra = single_advice();
    let a = [lookup_chip("range".to_string(), 3, 2, 1)];
    let b = [lookup_chip("bytes".to_string(), 3, 2, 1)];
    assert_eq!(proof_size::<H2MO>(1, 0, extra, &a), proof_size::<H2MO>(1, 0, extra, &b));
    assert_eq!(vk_size::<H2MO>(1, 0, extra, &a), vk_size::<H2MO>(1, 0, extra, &b));
    let sa = verifier_stats::<H2MO>(1, 0, extra, &a);
    let sb = verifier_stats::<H2MO>(1, 0, extra, &b);
    assert_eq!(sa.hash, sb.hash);
    assert_eq!(sa.msm, sb.msm);
    assert_eq!(sa.mul_scalar, sb.mul_scalar);
    assert_eq!(sa.add_scalar, sb.add_scalar);
    assert_eq!(sa.proof_size, sb.proof_size);
}

#[test]
fn a_lookup_chip_has_table_columns_only() {
    let c = lookup_chip("range".to_string(), 3, 2, 1);
    assert!(c.advice().is_empty());
    assert!(c.fixed().is_empty());
    assert!(c.extra_fixed().is_empty());
    assert_eq!(c.lookup_tables().len(), 1);
    assert_eq!(c.lookup_tables()[0].nb_columns, 1);
    // the table column is a fixed column of the circuit
    let p = process::<H2MO>(1, 0, single_advice(), &[c]);
    assert_eq!(p.nb_fixed, 1);
}
