use plutus_halo2_verifier_gen::axiom_shplonk::expression::LookupArgument;
use plutus_halo2_verifier_gen::axiom_shplonk::items::ProofItemKind;
use plutus_halo2_verifier_gen::axiom_shplonk::layout::{
    AxiomConstraintSystem, AxiomLayout, ColumnKind, ColumnQuery, CommitmentRef, LayoutError, PermutationColumn,
    complement_rotations, query_index, shplonk_rotation_sets,
};
use plutus_halo2_verifier_gen::axiom_shplonk::names::snake_to_lower_camel;
use plutus_halo2_verifier_gen::axiom_shplonk::paths::AxiomShplonkOutputPaths;
use plutus_halo2_verifier_gen::axiom_shplonk::text::{
    aiken_delta_term, aiken_power, aiken_product, aiken_sum, aiken_xn_power, join_strings, plinth_delta_term,
    plinth_power, plinth_product, plinth_rotation_var, plinth_sum, plinth_xn_power, rotation_var_snake,
};

fn advice(column: usize, rotation: i32) -> ColumnQuery {
    ColumnQuery { kind: ColumnKind::Advice, column, rotation }
}

fn fixed(column: usize, rotation: i32) -> ColumnQuery {
    ColumnQuery { kind: ColumnKind::Fixed, column, rotation }
}

fn strings(v: &[&str]) -> Vec<String> {
    v.iter().map(|s| s.to_string()).collect()
}

#[test]
fn camel_case_names() {
    assert_eq!(snake_to_lower_camel("lookup_0_product_eval"), "lookup0ProductEval");
    assert_eq!(snake_to_lower_camel("x_rot_neg_1"), "xRotNeg1");
    assert_eq!(snake_to_lower_camel("a__b_"), "aB");
    assert_eq!(snake_to_lower_camel("_x"), "X");
    assert_eq!(snake_to_lower_camel(""), "");
}

#[test]
fn sums_products_and_powers() {
    assert_eq!(aiken_sum(&vec![]), "from_int(0)");
    assert_eq!(aiken_sum(&strings(&["a"])), "a");
    assert_eq!(aiken_sum(&strings(&["a", "b", "c"])), "add(add(a, b), c)");
    assert_eq!(aiken_product(&strings(&["a", "b"])), "mul(a, b)");
    assert_eq!(aiken_product(&vec![]), "from_int(1)");
    assert_eq!(plinth_sum(&strings(&["a", "b", "c"])), "((a + b) + c)");
    assert_eq!(plinth_sum(&vec![]), "scalarZero");
    assert_eq!(plinth_product(&strings(&["a", "b"])), "(a * b)");
    assert_eq!(plinth_product(&vec![]), "scalarOne");
    assert_eq!(aiken_power("y", 0), "from_int(1)");
    assert_eq!(aiken_power("y", 1), "y");
    assert_eq!(aiken_power("y", 3), "scalar_pow(y, 3)");
    assert_eq!(plinth_power("y", 3), "powMod (y) 3");
    assert_eq!(aiken_xn_power(2), "scalar_pow(xn, 2)");
    assert_eq!(plinth_xn_power(2), "powMod xn 2");
    assert_eq!(plinth_xn_power(1), "xn");
    assert_eq!(aiken_delta_term(0), "mul(p.beta, p.x)");
    assert_eq!(aiken_delta_term(1), "mul(mul(p.beta, p.x), scalar_delta)");
    assert_eq!(aiken_delta_term(2), "mul(mul(p.beta, p.x), scalar_pow(scalar_delta, 2))");
    assert_eq!(plinth_delta_term(2), "beta pieces * x pieces * powMod scalarDelta 2");
    assert_eq!(join_strings(&strings(&["a", "b", "c"]), ", "), "a, b, c");
}

#[test]
fn rotation_variables() {
    assert_eq!(rotation_var_snake(0), "x_current");
    assert_eq!(rotation_var_snake(2), "x_rot_2");
    assert_eq!(rotation_var_snake(-7), "x_rot_neg_7");
    assert_eq!(plinth_rotation_var(-7), "xRotNeg7");
}

#[test]
fn queries_are_found_by_column_and_rotation() {
    let q = vec![advice(0, 0), advice(1, 1), advice(1, 1)];
    assert_eq!(query_index(&q, 1, 1), Some(1));
    assert_eq!(query_index(&q, 2, 0), None);
}

#[test]
fn complement_keeps_order() {
    assert_eq!(complement_rotations(&vec![0, 1, -1, 2], &vec![1, 2]), vec![0, -1]);
}

#[test]
fn rotation_sets_group_commitments_by_rotations() {
    // advice 0 at rows 0 and 1, advice 1 at row 0, one permutation column
    // and one product, no lookup, 2 blinding factors
    let sets = shplonk_rotation_sets(
        &vec![advice(0, 0), advice(0, 1), advice(1, 0)],
        &vec![fixed(0, 0)],
        &vec![PermutationColumn { kind: ColumnKind::Advice, column: 0 }],
        1,
        0,
        2,
    );
    assert_eq!(sets.len(), 2);
    assert_eq!(sets[0].points, vec![0, 1]);
    let first: Vec<CommitmentRef> = sets[0].commitments.iter().map(|c| c.commitment).collect();
    assert_eq!(first, vec![CommitmentRef::Advice(0), CommitmentRef::PermutationProduct(0)]);
    assert_eq!(sets[1].points, vec![0]);
    let second: Vec<CommitmentRef> = sets[1].commitments.iter().map(|c| c.commitment).collect();
    assert_eq!(
        second,
        vec![
            CommitmentRef::Advice(1),
            CommitmentRef::Fixed(0),
            CommitmentRef::PermutationCommon(0),
            CommitmentRef::VanishingH,
            CommitmentRef::RandomPoly,
        ]
    );
    let evals = &sets[0].commitments[0].evals;
    assert_eq!(evals[0], (0, "p.advice_eval_0".to_string(), "adviceEval0 pieces".to_string()));
    assert_eq!(evals[1], (1, "p.advice_eval_1".to_string(), "adviceEval1 pieces".to_string()));
    let h = &sets[1].commitments[3].evals;
    assert_eq!(h[0], (0, "expected_h".to_string(), "expectedH".to_string()));
}

#[test]
fn last_rows_of_products_are_opened_below_the_blinding_rows() {
    let sets = shplonk_rotation_sets(&vec![], &vec![], &vec![], 2, 0, 3);
    // product 0 at 0, 1 and -4; product 1 at 0 and 1
    assert_eq!(sets.len(), 3);
    assert_eq!(sets[0].points, vec![-4, 0, 1]);
    assert_eq!(sets[1].points, vec![0, 1]);
    assert_eq!(sets[2].points, vec![0]);
    assert_eq!(sets[0].commitments[0].evals[0].1, "p.permutation_last_0");
}

fn system() -> AxiomConstraintSystem {
    AxiomConstraintSystem {
        num_instance_columns: 0,
        num_instance_queries: 0,
        num_challenges: 0,
        advice_column_phases: vec![0, 0],
        num_advice_columns: 2,
        permutation_columns: vec![
            PermutationColumn { kind: ColumnKind::Advice, column: 0 },
            PermutationColumn { kind: ColumnKind::Advice, column: 1 },
            PermutationColumn { kind: ColumnKind::Fixed, column: 0 },
        ],
        degree: 4,
        advice_queries: vec![(0, 0), (0, 1), (1, 0)],
        fixed_queries: vec![(0, 0)],
        gates: vec![],
        lookups: vec![LookupArgument { input: vec![], table: vec![] }],
        blinding_factors: 5,
        quotient_poly_degree: 3,
    }
}

#[test]
fn layout_of_a_supported_system() {
    let l = AxiomLayout::from_vk(&system()).unwrap();
    // three columns in chunks of two
    assert_eq!(l.permutation_set_count, 2);
    assert_eq!(l.chunk_len(), 2);
    assert_eq!(l.advice_queries[1], advice(0, 1));
    assert_eq!(l.fixed_queries[0], fixed(0, 0));
    assert_eq!(l.super_points, vec![0, 1, -6, -1]);
    let items = l.proof_items();
    let names: Vec<String> = items.iter().map(|i| i.name.aiken()).collect();
    assert_eq!(names[0], "advice_0");
    assert_eq!(names[2], "theta");
    assert_eq!(names[3], "lookup_0_permuted_input");
    assert_eq!(names[items.len() - 1], "shplonk_h2");
    assert_eq!(items[items.len() - 1].kind, ProofItemKind::Point);
    assert_eq!(items[items.len() - 2].kind, ProofItemKind::Challenge);
    // 2 advice + theta + 2 permuted + beta + gamma + 2 products + 1 lookup product
    // + random + y + 3 quotient + x + 3 advice + 1 fixed + random_eval + 3 commons
    // + (2 + 1) + 2 permutation evaluations + 5 lookup evaluations + 5 tail
    assert_eq!(items.len(), 2 + 1 + 2 + 2 + 2 + 1 + 2 + 3 + 1 + 3 + 1 + 1 + 3 + 3 + 2 + 5 + 5);
    assert!(names.contains(&"permutation_last_0".to_string()));
    assert!(!names.contains(&"permutation_last_1".to_string()));
    assert_eq!(items[0].name.plinth(), "advice0");
}

#[test]
fn unsupported_systems_are_refused_in_order() {
    let mut s = system();
    s.num_instance_columns = 1;
    s.num_challenges = 1;
    assert_eq!(AxiomLayout::from_vk(&s).unwrap_err(), LayoutError::InstanceColumns);
    let mut s = system();
    s.num_challenges = 1;
    assert_eq!(AxiomLayout::from_vk(&s).unwrap_err(), LayoutError::Challenges);
    let mut s = system();
    s.advice_column_phases = vec![0, 1];
    assert_eq!(AxiomLayout::from_vk(&s).unwrap_err(), LayoutError::MultiPhaseAdvice);
    let mut s = system();
    s.degree = 2;
    assert_eq!(AxiomLayout::from_vk(&s).unwrap_err(), LayoutError::InvalidDegree);
}

#[test]
fn proof_fields_in_aiken() {
    let mut s = system();
    s.lookups.clear();
    s.permutation_columns.clear();
    s.advice_queries.clear();
    s.fixed_queries.clear();
    s.num_advice_columns = 1;
    s.quotient_poly_degree = 1;
    let l = AxiomLayout::from_vk(&s).unwrap();
    let fields = l.aiken_proof_fields();
    assert!(fields.starts_with("  advice_0: ByteArray,\n  theta: State<Scalar>,\n"));
    assert!(fields.ends_with("  shplonk_h2: ByteArray,"));
}

#[test]
fn default_shplonk_paths() {
    let p = AxiomShplonkOutputPaths::default();
    assert_eq!(p.aiken_template, "aiken-verifier/templates/axiom_shplonk.hbs");
    assert_eq!(p.plinth_test_template, "plinth-verifier/templates/axiom_proof_test.hbs");
}
