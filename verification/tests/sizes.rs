use plutus_halo2_verifier_gen::stats::arguments::div_ceil;
use plutus_halo2_verifier_gen::stats::config::CircuitConfig;
use plutus_halo2_verifier_gen::stats::estimate::{blinding_factors, estimate_proof_size, estimate_vk_size};
use plutus_halo2_verifier_gen::stats::pcs::H2MO;

#[test]
fn proof_size_of_a_minimal_circuit() {
    // 7 commitments (1 advice, 1 permutation chunk, 3 vanishing, 2 opening)
    // and 8 scalars (1 evaluation, 3 permutation, 1 vanishing, 3 opening)
    assert_eq!(estimate_proof_size::<H2MO>(0, 1, 0, 0, 3, 1, 1, 3), 7 * 48 + 8 * 32);
}

#[test]
fn proof_size_counts_committed_instance_lookups_and_trashcans() {
    // commitments: 2 advice + 1 chunk + 1 trashcan + 5 vanishing + 3 lookup + 2 = 14
    // scalars: 4 evaluations + 1 committed + (2 + 3 - 1) + 1 + 1 + 5 + 4 = 20
    assert_eq!(estimate_proof_size::<H2MO>(1, 2, 1, 1, 5, 2, 4, 4), 14 * 48 + 20 * 32);
}

#[test]
fn proof_size_is_zero_without_advice() {
    assert_eq!(estimate_proof_size::<H2MO>(0, 0, 2, 1, 4, 3, 5, 3), 0);
}

#[test]
fn vk_size_counts_fixed_and_permutation_commitments() {
    assert_eq!(estimate_vk_size::<H2MO>(3, 5), 10 + 48 * 8);
    assert_eq!(estimate_vk_size::<H2MO>(0, 5), 0);
    assert_eq!(estimate_vk_size::<H2MO>(3, 0), 0);
}

#[test]
fn blinding_factors_take_at_least_three_queries() {
    assert_eq!(blinding_factors(1, 0), 5);
    assert_eq!(blinding_factors(4, 2), 8);
}

#[test]
fn div_ceil_rounds_up() {
    assert_eq!(div_ceil(7, 3), 3);
    assert_eq!(div_ceil(6, 3), 2);
    assert_eq!(div_ceil(0, 3), 0);
}

#[test]
fn config_defaults_evaluations_to_advice() {
    let c = CircuitConfig::new(1, 2, 3, None, 4, 5, Some(6));
    assert_eq!(c.nb_evaluations, 2);
    assert_eq!(c.nb_selectors, 1);
    assert_eq!(c.nr_pow2range_cols, Some(6));
    let d = CircuitConfig::new(0, 2, 3, Some(9), 0, 0, None);
    assert_eq!(d.nb_evaluations, 9);
}

