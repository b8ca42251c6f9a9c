use plutus_halo2_verifier_gen::stats::merge::flatten_tables;
use plutus_halo2_verifier_gen::stats::primitives::P2RDecomposition;
use plutus_halo2_verifier_gen::cli::{EstimateCliArguments, UnsupportedChip};
use plutus_halo2_verifier_gen::stats::chips::{SupportedChips, lookup_chip};
use plutus_halo2_verifier_gen::stats::circuit::compute_degree;
use plutus_halo2_verifier_gen::stats::flatten::flatten_chips;

fn names(chips: &[SupportedChips]) -> Vec<String> {
    chips.iter().map(|c| c.name()).collect()
}

#[test]
fn flattening_brings_dependencies_once() {
    let flat = flatten_chips(&vec![SupportedChips::HashToCurve, SupportedChips::Native]);
    assert_eq!(names(&flat), vec!["HashToCurve", "Poseidon", "Native", "EdwardsJubjub"]);
}

#[test]
fn flattening_keeps_distinct_pow2range_chips() {
    let flat = flatten_chips(&vec![
        SupportedChips::P2RDecomposition(2),
        SupportedChips::P2RDecomposition(2),
        SupportedChips::P2RDecomposition(3),
    ]);
    assert_eq!(flat.len(), 2);
}

#[test]
fn lookup_chip_clamps_its_parameters() {
    match lookup_chip("t".to_string(), 0, 0, 0) {
        SupportedChips::Lookup(t) => {
            assert_eq!(t.name, "t");
            assert_eq!(t.nb_columns, 1);
            assert_eq!(t.nb_arguments, 1);
            assert_eq!(t.input_degree, 2);
            assert_eq!(t.table_degree, 1);
        }
        _ => panic!("not a lookup chip"),
    }
}

#[test]
fn lookup_chip_degree() {
    // max(4, 2 + input + table)
    assert_eq!(lookup_chip("t".to_string(), 1, 3, 2).degree(), 7);
    assert_eq!(lookup_chip("t".to_string(), 1, 1, 1).degree(), 5);
}

#[test]
fn degree_is_the_largest_requirement() {
    assert_eq!(compute_degree(0, 0, 0, 0, &vec![]), 0);
    assert_eq!(compute_degree(0, 1, 0, 0, &vec![]), 3);
    assert_eq!(compute_degree(0, 1, 1, 0, &vec![]), 5);
    assert_eq!(compute_degree(0, 0, 0, 1, &vec![]), 2);
    assert_eq!(compute_degree(9, 1, 1, 1, &vec![]), 9);
    assert_eq!(compute_degree(0, 0, 0, 0, &vec![SupportedChips::Native]), 4);
}

fn args() -> EstimateCliArguments {
    EstimateCliArguments {
        nb_public_inputs: 1,
        committed_instances: false,
        native: false,
        poseidon: false,
        jubjub: false,
        bls12_381: false,
        secp256k1: false,
        hash_to_curve: false,
        nb_advice: 2,
        nb_fixed: 3,
        nb_evaluations: 4,
        nb_selectors: 5,
        nb_lookups: 6,
        degree: 7,
        nr_pow2: Some(8),
    }
}

#[test]
fn cli_chips_in_order() {
    let mut a = args();
    a.poseidon = true;
    a.native = true;
    a.hash_to_curve = true;
    a.jubjub = true;
    let chips = a.chips().unwrap();
    assert_eq!(names(&chips), vec!["Native", "EdwardsJubjub", "HashToCurve", "Poseidon"]);
}

#[test]
fn cli_rejects_undescribed_curve_chips() {
    let mut a = args();
    a.secp256k1 = true;
    assert_eq!(a.chips().unwrap_err(), UnsupportedChip::WeierstrassSecp256k1);
    a.bls12_381 = true;
    assert_eq!(a.chips().unwrap_err(), UnsupportedChip::WeierstrassBls12381);
}

#[test]
fn cli_config_copies_the_options() {
    let c = args().config();
    assert_eq!(c.nb_advice, 2);
    assert_eq!(c.nb_fixed, 3);
    assert_eq!(c.nb_evaluations, 4);
    assert_eq!(c.nb_selectors, 5);
    assert_eq!(c.nb_lookups, 6);
    assert_eq!(c.degree, 7);
    assert_eq!(c.nr_pow2range_cols, Some(8));
}

#[test]
fn tables_of_chips_and_their_dependencies() {
    let tables = flatten_tables(&vec![SupportedChips::P2RDecomposition(2), SupportedChips::P2RDecomposition(1)]);
    assert_eq!(tables.len(), 1);
    assert_eq!(tables[0].name, "pow2range");
    assert_eq!(tables[0].nb_columns, 2);
    assert!(flatten_tables(&vec![SupportedChips::Native]).is_empty());
    let args = P2RDecomposition::lookup_args();
    assert_eq!(args.len(), 1);
    assert_eq!(args[0].len(), 2);
}
