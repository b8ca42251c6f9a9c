use plutus_halo2_verifier_gen::axiom_shplonk::expression::Style;
use plutus_halo2_verifier_gen::axiom_shplonk::items::{Name, ProofItem, ProofItemKind};
use plutus_halo2_verifier_gen::axiom_shplonk::text::rotation_var;
use plutus_halo2_verifier_gen::axiom_shplonk::constraints::{aiken_folded_terms, plinth_folded_terms};
use plutus_halo2_verifier_gen::axiom_shplonk::expression::{ExpressionError, GateExpression, LookupArgument};
use plutus_halo2_verifier_gen::axiom_shplonk::layout::{
    AxiomConstraintSystem, AxiomLayout, ColumnKind, CommitmentOpening, CommitmentRef, LayoutError, PermutationColumn,
    RotationSet,
};
use plutus_halo2_verifier_gen::axiom_shplonk::openings::{
    aiken_commitment_ref, aiken_rotation_binding, aiken_rotation_list, plinth_commitment_ref,
    plinth_rotation_binding, plinth_rotation_list,
};
use plutus_halo2_verifier_gen::axiom_shplonk::proof_text::{
    aiken_fixed_commitments, aiken_permutation_commitments, plinth_fixed_commitments, plinth_permutation_commitments,
};
use plutus_halo2_verifier_gen::axiom_shplonk::render::{
    AxiomShplonkRenderData, AxiomVerifierInputs, RenderError, render_shplonk_template,
};

fn system() -> AxiomConstraintSystem {
    AxiomConstraintSystem {
        num_instance_columns: 0,
        num_instance_queries: 0,
        num_challenges: 0,
        advice_column_phases: vec![0, 0],
        num_advice_columns: 2,
        permutation_columns: vec![
            PermutationColumn { kind: ColumnKind::Advice, column: 0 },
            PermutationColumn { kind: ColumnKind::Advice, column: 1 },
            PermutationColumn { kind: ColumnKind::Fixed, column: 0 },
        ],
        degree: 4,
        advice_queries: vec![(0, 0), (0, 1), (1, 0)],
        fixed_queries: vec![(0, 0)],
        gates: vec![vec![GateExpression::Advice { column: 0, rotation: 0 }]],
        lookups: vec![LookupArgument {
            input: vec![GateExpression::Advice { column: 0, rotation: 0 }],
            table: vec![GateExpression::Fixed { column: 0, rotation: 0 }],
        }],
        blinding_factors: 5,
        quotient_poly_degree: 3,
    }
}

fn layout() -> AxiomLayout {
    AxiomLayout::from_vk(&system()).unwrap()
}

fn small_layout(blinding_factors: usize) -> AxiomLayout {
    let mut s = system();
    s.lookups.clear();
    s.gates.clear();
    s.permutation_columns.clear();
    s.advice_queries.clear();
    s.fixed_queries.clear();
    s.num_advice_columns = 1;
    s.quotient_poly_degree = 1;
    s.blinding_factors = blinding_factors;
    AxiomLayout::from_vk(&s).unwrap()
}

fn opening(c: CommitmentRef, evals: &[(i32, &str, &str)]) -> CommitmentOpening {
    CommitmentOpening {
        commitment: c,
        evals: evals.iter().map(|(r, a, p)| (*r, a.to_string(), p.to_string())).collect(),
    }
}

#[test]
fn commitment_references() {
    assert_eq!(aiken_commitment_ref(&CommitmentRef::Advice(2)), "p.advice_2");
    assert_eq!(aiken_commitment_ref(&CommitmentRef::Fixed(1)), "fixed_1");
    assert_eq!(aiken_commitment_ref(&CommitmentRef::PermutationCommon(0)), "permutation_common_0");
    assert_eq!(aiken_commitment_ref(&CommitmentRef::LookupPermutedInput(3)), "p.lookup_3_permuted_input");
    assert_eq!(aiken_commitment_ref(&CommitmentRef::RandomPoly), "p.random_poly");
    assert_eq!(plinth_commitment_ref(&CommitmentRef::Advice(2)), "advice2 pieces");
    assert_eq!(plinth_commitment_ref(&CommitmentRef::Fixed(1)), "fixed1");
    assert_eq!(plinth_commitment_ref(&CommitmentRef::PermutationCommon(0)), "permutationCommon0");
    assert_eq!(plinth_commitment_ref(&CommitmentRef::LookupPermutedTable(1)), "lookup1PermutedTable pieces");
    assert_eq!(plinth_commitment_ref(&CommitmentRef::LookupProduct(0)), "lookup0Product pieces");
    assert_eq!(plinth_commitment_ref(&CommitmentRef::PermutationProduct(4)), "permutationProduct4 pieces");
}

#[test]
fn rotation_bindings_and_lists() {
    assert_eq!(aiken_rotation_binding(0), "  let x_current = p.x");
    assert_eq!(aiken_rotation_binding(1), "  let x_rot_1 = rotate_omega(omega, omega_inv, p.x, 1)");
    assert_eq!(aiken_rotation_binding(-6), "  let x_rot_neg_6 = rotate_omega(omega, omega_inv, p.x, -6)");
    assert_eq!(plinth_rotation_binding(0), "        !xCurrent = x pieces");
    assert_eq!(plinth_rotation_binding(-1), "        !xRotNeg1 = rotateOmega (x pieces) -1");
    assert_eq!(aiken_rotation_list(&vec![0, 1, -1]), "[x_current, x_rot_1, x_rot_neg_1]");
    assert_eq!(plinth_rotation_list(&vec![0, 1, -1]), "[xCurrent, xRot1, xRotNeg1]");
    assert_eq!(aiken_rotation_list(&vec![]), "[]");
}

#[test]
fn openings_of_a_set() {
    let l = layout();
    let advice = opening(
        CommitmentRef::Advice(0),
        &[(0, "p.advice_eval_0", "adviceEval0 pieces"), (1, "p.advice_eval_1", "adviceEval1 pieces")],
    );
    let h = opening(CommitmentRef::VanishingH, &[(0, "expected_h", "expectedH")]);
    assert_eq!(l.aiken_opening(&advice), "point_opening(p.advice_0, [p.advice_eval_0, p.advice_eval_1])");
    assert_eq!(l.plinth_opening(&advice), "pointOpening advice0 pieces [adviceEval0 pieces, adviceEval1 pieces]");
    assert_eq!(l.aiken_opening(&h), "Opening { msm: vanishing_h_msm(p, xn), evals: [expected_h] }");
    assert_eq!(l.plinth_opening(&h), "Opening (vanishingHMsm pieces xn) [expectedH]");
    let set = RotationSet { points: vec![0, 1], commitments: vec![advice, h] };
    assert_eq!(
        l.aiken_openings_list(&set),
        "[\n        point_opening(p.advice_0, [p.advice_eval_0, p.advice_eval_1]),\n        Opening { msm: vanishing_h_msm(p, xn), evals: [expected_h] },\n      ]"
    );
    assert_eq!(
        l.plinth_openings_list(&set),
        "[pointOpening advice0 pieces [adviceEval0 pieces, adviceEval1 pieces], Opening (vanishingHMsm pieces xn) [expectedH]]"
    );
}

#[test]
fn vanishing_msm() {
    let l = layout();
    assert_eq!(
        l.aiken_vanishing_h_msm(),
        "  MSM {\n    elements: [\n      MSMElement { scalar: from_int(1), g1: p.h_0 },\n      MSMElement { scalar: xn, g1: p.h_1 },\n      MSMElement { scalar: scalar_pow(xn, 2), g1: p.h_2 },\n    ],\n  }"
    );
    assert_eq!(
        l.plinth_vanishing_h_msm(),
        "    RawMSM\n        [         RawMSMElement scalarOne (h0 pieces)\n        ,         RawMSMElement xn (h1 pieces)\n        ,         RawMSMElement powMod xn 2 (h2 pieces)\n        ]"
    );
}

fn two_set_layout() -> AxiomLayout {
    let mut l = small_layout(2);
    l.query_sets = vec![
        RotationSet {
            points: vec![0, 1],
            commitments: vec![opening(
                CommitmentRef::Advice(0),
                &[(0, "p.advice_eval_0", "adviceEval0 pieces"), (1, "p.advice_eval_1", "adviceEval1 pieces")],
            )],
        },
        RotationSet {
            points: vec![0],
            commitments: vec![opening(CommitmentRef::VanishingH, &[(0, "expected_h", "expectedH")])],
        },
    ];
    l.super_points = vec![0, 1];
    l
}

#[test]
fn aiken_pairing_check_of_two_sets() {
    let s = two_set_layout().aiken_shplonk_pairing_check();
    assert!(s.starts_with(
        "  let xn = scalar_pow(p.x, n)\n  let x_current = p.x\n  let x_rot_1 = rotate_omega(omega, omega_inv, p.x, 1)\n  let z0 = vanishing([x_current, x_rot_1], p.u)\n  let z0_diff_inv = recip_eea(vanishing([], p.u))\n"
    ));
    assert!(s.contains(
        "  let (msm_0, r_0) =\n    rotation_contribution(\n      [x_current, x_rot_1],\n      [\n        point_opening(p.advice_0, [p.advice_eval_0, p.advice_eval_1]),\n      ],\n      p.u,\n      p.shplonk_y,\n      from_int(1),\n      from_int(1),\n    )\n"
    ));
    assert!(s.contains(
        "  let (msm_1, r_1) =\n    rotation_contribution(\n      [x_current],\n      [\n        Opening { msm: vanishing_h_msm(p, xn), evals: [expected_h] },\n      ],\n      p.u,\n      p.shplonk_y,\n      p.v,\n      mul(vanishing([x_rot_1], p.u), z0_diff_inv),\n    )\n"
    ));
    assert!(s.contains(
        "  let outer_msm =\n    foldl([msm_0, msm_1], MSM { elements: [] }, fn(msm, acc) { add_msm(acc, msm) })\n  let r_outer =\n    foldl([r_0, r_1], from_int(0), fn(r, acc) { add(acc, r) })\n"
    ));
    assert!(s.ends_with(
        "  final_exponentiation(\n    miller_loop(axiom_decompress_g1(p.shplonk_h2), s_g2),\n    miller_loop(eval_axiom_msm(outer_msm), generator_g2),\n  )"
    ));
}

#[test]
fn plinth_pairing_check_of_two_sets() {
    let s = two_set_layout().plinth_shplonk_pairing_check();
    assert!(s.starts_with(
        "    let !rotateOmega = BlsUtils.rotateOmega omega omegaInv\n        !xCurrent = x pieces\n        !xRot1 = rotateOmega (x pieces) 1\n        !xn = powMod (x pieces) n\n        !z0 = vanishing [xCurrent, xRot1] (u pieces)\n        !z0DiffInv = recip (vanishing [] (u pieces))\n"
    ));
    assert!(s.contains(
        "        (!msm1, !r1) =\n            rotationContribution\n                [xCurrent]\n                [Opening (vanishingHMsm pieces xn) [expectedH]]\n                (u pieces)\n                (shplonkY pieces)\n                v pieces\n                (vanishing [xRot1] (u pieces) * z0DiffInv)\n"
    ));
    assert!(s.contains("        !outerMsm = foldl addRawMsm (RawMSM []) [msm0, msm1]\n        !rOuter = foldl (+) scalarZero [r0, r1]\n"));
    assert!(s.ends_with("     in bls12_381_finalVerify mlLeft mlRight"));
}

#[test]
fn gate_expressions_in_both_languages() {
    let l = layout();
    let e = GateExpression::Sum(
        Box::new(GateExpression::Advice { column: 0, rotation: 1 }),
        Box::new(GateExpression::Product(
            Box::new(GateExpression::Fixed { column: 0, rotation: 0 }),
            Box::new(GateExpression::Constant(vec![1, 2])),
        )),
    );
    assert_eq!(
        l.aiken_expression(&e).unwrap(),
        "add(p.advice_eval_1, mul(p.fixed_eval_0, from_bytes_little_endian(#\"0102\")))"
    );
    assert_eq!(
        l.plinth_expression(&e).unwrap(),
        "(adviceEval1 pieces + (fixedEval0 pieces * scalarFromLittleEndianHex (stringToBuiltinByteStringHex \"0102\")))"
    );
    let neg = GateExpression::Negated(Box::new(GateExpression::Advice { column: 1, rotation: 0 }));
    assert_eq!(l.aiken_expression(&neg).unwrap(), "neg(p.advice_eval_2)");
    assert_eq!(l.plinth_expression(&neg).unwrap(), "negate (adviceEval2 pieces)");
    let scaled = GateExpression::Scaled(Box::new(GateExpression::Advice { column: 0, rotation: 0 }), vec![0xff]);
    assert_eq!(l.aiken_expression(&scaled).unwrap(), "mul(p.advice_eval_0, from_bytes_little_endian(#\"ff\"))");
}

#[test]
fn unsupported_expressions_are_refused() {
    let l = layout();
    assert_eq!(l.aiken_expression(&GateExpression::Selector).unwrap_err(), ExpressionError::Selector);
    assert_eq!(l.plinth_expression(&GateExpression::Challenge).unwrap_err(), ExpressionError::Challenge);
    assert_eq!(
        l.aiken_expression(&GateExpression::Advice { column: 5, rotation: 0 }).unwrap_err(),
        ExpressionError::MissingAdviceQuery { column: 5, rotation: 0 }
    );
    assert_eq!(
        l.aiken_expression(&GateExpression::Fixed { column: 0, rotation: 1 }).unwrap_err(),
        ExpressionError::MissingFixedQuery { column: 0, rotation: 1 }
    );
    let both = GateExpression::Sum(Box::new(GateExpression::Instance), Box::new(GateExpression::Selector));
    assert_eq!(l.aiken_expression(&both).unwrap_err(), ExpressionError::Instance);
    assert_eq!(l.advice_query_index(1, 0), Ok(2));
    assert_eq!(l.fixed_query_index(1, 0), Err(ExpressionError::MissingFixedQuery { column: 1, rotation: 0 }));
}

#[test]
fn compressed_lookup_expressions() {
    let l = layout();
    assert_eq!(l.aiken_compressed_lookup(&vec![]).unwrap(), "from_int(0)");
    assert_eq!(l.plinth_compressed_lookup(&vec![]).unwrap(), "scalarZero");
    assert_eq!(
        l.aiken_compressed_lookup(&vec![GateExpression::Advice { column: 0, rotation: 0 }]).unwrap(),
        "p.advice_eval_0"
    );
    let two = vec![GateExpression::Advice { column: 0, rotation: 0 }, GateExpression::Fixed { column: 0, rotation: 0 }];
    assert_eq!(
        l.aiken_compressed_lookup(&two).unwrap(),
        "foldl([p.advice_eval_0, p.fixed_eval_0], from_int(0), fn(expr, acc) { add(mul(acc, p.theta), expr) })"
    );
    assert_eq!(
        l.plinth_compressed_lookup(&two).unwrap(),
        "foldl (\\acc expr -> acc * theta pieces + expr) scalarZero [adviceEval0 pieces, fixedEval0 pieces]"
    );
}

#[test]
fn permutation_column_evaluations() {
    let l = layout();
    let advice = PermutationColumn { kind: ColumnKind::Advice, column: 1 };
    assert_eq!(l.aiken_permutation_column_eval(&advice).unwrap(), "p.advice_eval_2");
    assert_eq!(l.plinth_permutation_column_eval(&advice).unwrap(), "adviceEval2 pieces");
    let instance = PermutationColumn { kind: ColumnKind::Instance, column: 0 };
    assert_eq!(l.aiken_permutation_column_eval(&instance).unwrap_err(), ExpressionError::Instance);
    let fixed = PermutationColumn { kind: ColumnKind::Fixed, column: 3 };
    assert_eq!(
        l.plinth_permutation_column_eval(&fixed).unwrap_err(),
        ExpressionError::MissingFixedQuery { column: 3, rotation: 0 }
    );
}

#[test]
fn lagrange_preludes() {
    let l = small_layout(2);
    assert_eq!(
        l.aiken_lagrange_prelude(),
        vec![
            "  let scalar_zero = from_int(0)",
            "  let scalar_one = from_int(1)",
            "  let xn = scalar_pow(p.x, n)",
            "  let rotations = rotate_omegas(omega, omega_inv, -(blinding_factors + 1), 0)",
            "  let l_evals = lagrange_polynomial_basis(p.x, xn, barycentric_weight, rotations)",
            "  expect [l_last, l_blind_0, l_blind_1, l_0] = l_evals",
            "  let l_blind = add(l_blind_0, l_blind_1)",
            "  let active_rows = sub(scalar_one, add(l_last, l_blind))",
        ]
    );
    assert_eq!(
        l.plinth_lagrange_prelude(),
        vec![
            "    let !xn = powMod (x pieces) n",
            "        !rotateOmega = BlsUtils.rotateOmega omega omegaInv",
            "        !rotations =",
            "            [rotateOmega one -3, rotateOmega one -2, rotateOmega one -1, rotateOmega one 0]",
            "        !lEvals = lagrangePolynomialBasis (x pieces) xn barycentricWeight rotations",
            "        !lLast = lEvals !! 0",
            "        !lBlind = ((lEvals !! 1) + (lEvals !! 2))",
            "        !l0 = lEvals !! 3",
            "        !activeRows = scalarOne - (lLast + lBlind)",
        ]
    );
    let none = small_layout(0);
    assert_eq!(none.aiken_lagrange_prelude()[5], "  expect [l_last, l_0] = l_evals");
    assert_eq!(none.aiken_lagrange_prelude()[6], "  let l_blind = from_int(0)");
}

#[test]
fn permutation_constraints() {
    let l = layout();
    let mut lines = vec!["start".to_string()];
    let mut terms = Vec::new();
    l.aiken_permutation_terms(&mut lines, &mut terms).unwrap();
    assert_eq!(terms, vec!["perm_first", "perm_last", "perm_link_1", "perm_set_0", "perm_set_1"]);
    assert_eq!(lines.len(), 6);
    assert_eq!(lines[1], "  let perm_first = mul(l_0, sub(scalar_one, p.permutation_eval_0))");
    assert_eq!(
        lines[2],
        "  let perm_last = mul(l_last, sub(mul(p.permutation_eval_1, p.permutation_eval_1), p.permutation_eval_1))"
    );
    assert_eq!(lines[3], "  let perm_link_1 = mul(l_0, sub(p.permutation_eval_1, p.permutation_last_0))");
    assert_eq!(
        lines[4],
        "  let perm_set_0 = mul(active_rows, sub(mul(mul(p.permutation_next_0, add(add(p.advice_eval_0, mul(p.beta, p.permutation_common_eval_0)), p.gamma)), add(add(p.advice_eval_2, mul(p.beta, p.permutation_common_eval_1)), p.gamma)), mul(mul(p.permutation_eval_0, add(add(p.advice_eval_0, mul(p.beta, p.x)), p.gamma)), add(add(p.advice_eval_2, mul(mul(p.beta, p.x), scalar_delta)), p.gamma))))"
    );
    assert_eq!(
        lines[5],
        "  let perm_set_1 = mul(active_rows, sub(mul(p.permutation_next_1, add(add(p.fixed_eval_0, mul(p.beta, p.permutation_common_eval_2)), p.gamma)), mul(p.permutation_eval_1, add(add(p.fixed_eval_0, mul(mul(p.beta, p.x), scalar_pow(scalar_delta, 2))), p.gamma))))"
    );
    let mut lines = Vec::new();
    let mut terms = Vec::new();
    l.plinth_permutation_terms(&mut lines, &mut terms).unwrap();
    assert_eq!(terms, vec!["permFirst", "permLast", "permLink1", "permSet0", "permSet1"]);
    assert_eq!(lines[0], "        !permFirst = l0 * (scalarOne - permutationEval0 pieces)");
    assert_eq!(
        lines[4],
        "        !permSet1 = activeRows * ((permutationNext1 pieces * ((fixedEval0 pieces + beta pieces * permutationCommonEval2 pieces) + gamma pieces)) - (permutationEval1 pieces * ((fixedEval0 pieces + beta pieces * x pieces * powMod scalarDelta 2) + gamma pieces)))"
    );
}

#[test]
fn permutation_constraints_fail_without_touching_the_lines() {
    let mut l = layout();
    l.permutation_columns[2] = PermutationColumn { kind: ColumnKind::Instance, column: 0 };
    let mut lines = vec!["kept".to_string()];
    let mut terms = Vec::new();
    assert_eq!(l.aiken_permutation_terms(&mut lines, &mut terms), Err(ExpressionError::Instance));
    assert_eq!(lines, vec!["kept"]);
    assert!(terms.is_empty());
    let none = small_layout(1);
    let mut lines = Vec::new();
    let mut terms = Vec::new();
    none.aiken_permutation_terms(&mut lines, &mut terms).unwrap();
    assert!(lines.is_empty() && terms.is_empty());
}

#[test]
fn lookup_constraints() {
    let l = layout();
    let cs = system();
    let mut lines = Vec::new();
    let mut terms = Vec::new();
    l.aiken_lookup_terms(&cs, &mut lines, &mut terms).unwrap();
    assert_eq!(
        terms,
        vec![
            "lookup_0_first",
            "lookup_0_last",
            "lookup_0_product_expression",
            "lookup_0_initial",
            "lookup_0_adjacent"
        ]
    );
    assert_eq!(lines[0], "  let lookup_0_first = mul(l_0, sub(scalar_one, p.lookup_0_product_eval))");
    assert_eq!(
        lines[2],
        "  let lookup_0_product_expression = mul(active_rows, sub(mul(mul(p.lookup_0_product_next, add(p.lookup_0_input_eval, p.beta)), add(p.lookup_0_table_eval, p.gamma)), mul(mul(p.lookup_0_product_eval, add(p.advice_eval_0, p.beta)), add(p.fixed_eval_0, p.gamma))))"
    );
    assert_eq!(
        lines[4],
        "  let lookup_0_adjacent = mul(mul(active_rows, sub(p.lookup_0_input_eval, p.lookup_0_table_eval)), sub(p.lookup_0_input_eval, p.lookup_0_input_prev_eval))"
    );
    let mut lines = Vec::new();
    let mut terms = Vec::new();
    l.plinth_lookup_terms(&cs, &mut lines, &mut terms).unwrap();
    assert_eq!(terms[2], "lookup0ProductExpression");
    assert_eq!(
        lines[2],
        "        !lookup0ProductExpression = activeRows * (lookup0ProductNext pieces * (lookup0InputEval pieces + beta pieces) * (lookup0TableEval pieces + gamma pieces) - lookup0ProductEval pieces * (adviceEval0 pieces + beta pieces) * (fixedEval0 pieces + gamma pieces))"
    );
    assert_eq!(lines[3], "        !lookup0Initial = l0 * (lookup0InputEval pieces - lookup0TableEval pieces)");
    let mut bad = system();
    bad.lookups[0].table = vec![GateExpression::Selector];
    let mut lines = vec!["kept".to_string()];
    let mut terms = Vec::new();
    assert_eq!(l.aiken_lookup_terms(&bad, &mut lines, &mut terms), Err(ExpressionError::Selector));
    assert_eq!(lines, vec!["kept"]);
}

#[test]
fn folded_constraints() {
    let terms = vec!["a".to_string(), "b".to_string()];
    assert_eq!(
        aiken_folded_terms(&terms),
        vec![
            "  let folded =",
            "    foldl(",
            "      [a, b],",
            "      scalar_zero,",
            "      fn(expr, acc) { add(mul(acc, p.plonk_y), expr) },",
            "    )",
            "  mul(folded, recip_eea(sub_int(xn, 1)))",
        ]
    );
    assert_eq!(plinth_folded_terms(&terms)[4], "                [a, b]");
    assert_eq!(plinth_folded_terms(&terms)[5], "     in folded * recip (xn - scalarOne)");
}

#[test]
fn expected_vanishing_evaluation() {
    let l = layout();
    let cs = system();
    let a = l.aiken_expected_h_eval(&cs).unwrap();
    assert!(a.starts_with("  let scalar_zero = from_int(0)\n"));
    assert!(a.contains("\n  let active_rows = sub(scalar_one, add(l_last, l_blind))\n  let gate_0 = p.advice_eval_0\n  let perm_first"));
    assert!(a.contains(
        "      [gate_0, perm_first, perm_last, perm_link_1, perm_set_0, perm_set_1, lookup_0_first, lookup_0_last, lookup_0_product_expression, lookup_0_initial, lookup_0_adjacent],\n"
    ));
    assert!(a.ends_with("  mul(folded, recip_eea(sub_int(xn, 1)))"));
    let p = l.plinth_expected_h_eval(&cs).unwrap();
    assert!(p.contains("\n        !gate0 = adviceEval0 pieces\n        !permFirst"));
    assert!(p.ends_with("     in folded * recip (xn - scalarOne)"));
    let mut bad = system();
    bad.gates = vec![vec![GateExpression::Selector]];
    assert_eq!(l.aiken_expected_h_eval(&bad), Err(ExpressionError::Selector));
    // both verifiers refuse the same circuits, for the same reason
    assert_eq!(l.plinth_expected_h_eval(&bad), Err(ExpressionError::Selector));
    let mut missing = system();
    missing.lookups[0].input = vec![GateExpression::Advice { column: 1, rotation: 1 }];
    assert_eq!(
        l.aiken_expected_h_eval(&missing),
        Err(ExpressionError::MissingAdviceQuery { column: 1, rotation: 1 })
    );
    assert_eq!(
        l.plinth_expected_h_eval(&missing),
        Err(ExpressionError::MissingAdviceQuery { column: 1, rotation: 1 })
    );
}

#[test]
fn commitment_constants() {
    let c = vec!["aa".to_string(), "bb".to_string()];
    assert_eq!(aiken_fixed_commitments(&c), "const fixed_0 =\n  #\"aa\"\n\nconst fixed_1 =\n  #\"bb\"");
    assert_eq!(aiken_permutation_commitments(&vec!["cc".to_string()]), "const permutation_common_0 =\n  #\"cc\"");
    assert_eq!(
        plinth_fixed_commitments(&vec!["aa".to_string()]),
        "fixed0 :: RawPoint\nfixed0 = stringToBuiltinByteStringHex \"aa\""
    );
    assert_eq!(
        plinth_permutation_commitments(&vec!["cc".to_string()]),
        "permutationCommon0 :: RawPoint\npermutationCommon0 = stringToBuiltinByteStringHex \"cc\""
    );
    assert_eq!(aiken_fixed_commitments(&vec![]), "");
}

#[test]
fn reading_the_proof() {
    let l = small_layout(1);
    let a = l.aiken_parse_proof();
    assert!(a.starts_with(
        "  let transcript = construct_transcript(proof, transcript_rep)\n  let (advice_0, transcript) = read_point(transcript)\n  let (theta, transcript) = squeeze_challenge(transcript)\n"
    ));
    assert!(a.contains("  let (random_eval, transcript) = read_scalar(transcript)\n"));
    assert!(a.ends_with("    shplonk_h2,\n  }"));
    let p = l.plinth_parse_proof();
    assert!(p.starts_with(
        "    let !state0 = (proof, commonScalar transcriptRep emptyByteString)\n        (!advice0', !state1) = readRawPoint state0\n        (!theta', !state2) = squeezeChallenge state1\n"
    ));
    assert!(p.contains("        (!randomEval', !state9) = readScalar state8\n"));
    assert!(p.ends_with("     in ProofPieces\n            advice0'\n            theta'\n            beta'\n            gamma'\n            randomPoly'\n            plonkY'\n            h0'\n            x'\n            randomEval'\n            shplonkY'\n            v'\n            shplonkH1'\n            u'\n            shplonkH2'"));
    let f = l.plinth_proof_fields();
    assert!(f.starts_with("advice0 :: RawPoint\n    , theta :: Scalar\n"));
    assert!(f.ends_with("    , shplonkH2 :: RawPoint"));
}

fn inputs() -> AxiomVerifierInputs {
    AxiomVerifierInputs {
        cs: system(),
        n: 8,
        transcript_repr: vec![1],
        omega: vec![2],
        omega_inv: vec![3],
        fixed_commitments: vec![vec![0xaa]],
        permutation_commitments: vec![vec![0xbb], vec![0xcc], vec![0xdd]],
        s_g2: vec![0x0a, 0x0b],
    }
}

#[test]
fn template_values_of_a_verifying_key() {
    let d = AxiomShplonkRenderData::from_vk_and_proof(&inputs(), &vec![0xde, 0xad]).unwrap();
    let keys: Vec<&str> = d.data.iter().map(|(k, _)| k.as_str()).collect();
    assert_eq!(
        keys,
        vec![
            "N",
            "BLINDING_FACTORS",
            "TRANSCRIPT_REP",
            "OMEGA",
            "OMEGA_INV",
            "BARYCENTRIC_WEIGHT",
            "S_G2_CARDANO",
            "PROOF_HEX",
            "AIKEN_FIXED_COMMITMENTS",
            "AIKEN_PERMUTATION_COMMITMENTS",
            "AIKEN_PROOF_FIELDS",
            "AIKEN_PARSE_PROOF",
            "AIKEN_EXPECTED_H_EVAL",
            "AIKEN_SHPLONK_PAIRING_CHECK",
            "AIKEN_VANISHING_H_MSM",
            "PLINTH_FIXED_COMMITMENTS",
            "PLINTH_PERMUTATION_COMMITMENTS",
            "PLINTH_PROOF_FIELDS",
            "PLINTH_PARSE_PROOF",
            "PLINTH_EXPECTED_H_EVAL",
            "PLINTH_SHPLONK_PAIRING_CHECK",
            "PLINTH_VANISHING_H_MSM",
        ]
    );
    assert_eq!(d.data[0].1, "8");
    assert_eq!(d.data[1].1, "5");
    assert_eq!(d.data[2].1, "01");
    assert_eq!(d.data[3].1, "02");
    assert_eq!(d.data[4].1, "03");
    // the inverse of 8 in the scalar field, little-endian
    assert_eq!(d.data[5].1, "01000020ffffff1f7f90fe9f82ef45a9049d6d08079dd22c9fcd69c468f26f65");
    assert_eq!(d.data[6].1, "0b0a");
    assert_eq!(d.data[7].1, "dead");
    assert_eq!(d.data[8].1, "const fixed_0 =\n  #\"aa\"");
    assert_eq!(d.data[16].1.matches("permutationCommon").count(), 6);
    assert!(d.data[13].1.starts_with("  let xn = scalar_pow(p.x, n)\n  let x_current = p.x\n"));
}

#[test]
fn template_values_are_refused_in_order() {
    let mut i = inputs();
    i.cs.num_challenges = 1;
    i.n = 0;
    assert_eq!(
        AxiomShplonkRenderData::from_vk_and_proof(&i, &vec![]).unwrap_err(),
        RenderError::Layout(LayoutError::Challenges)
    );
    let mut i = inputs();
    i.n = 0;
    i.cs.gates = vec![vec![GateExpression::Selector]];
    assert_eq!(AxiomShplonkRenderData::from_vk_and_proof(&i, &vec![]).unwrap_err(), RenderError::ZeroDomain);
    let mut i = inputs();
    i.cs.gates = vec![vec![GateExpression::Selector]];
    assert_eq!(
        AxiomShplonkRenderData::from_vk_and_proof(&i, &vec![]).unwrap_err(),
        RenderError::Expression(ExpressionError::Selector)
    );
}

#[test]
fn names_in_either_style() {
    assert_eq!(rotation_var(-2, Style::Plinth), "xRotNeg2");
    assert_eq!(rotation_var(3, Style::Aiken), "x_rot_3");
    let n = Name::new("lookup_0_input_eval".to_string());
    assert_eq!(n.for_style(Style::Aiken), "lookup_0_input_eval");
    assert_eq!(n.for_style(Style::Plinth), "lookup0InputEval");
    assert_eq!(ProofItem::point(Name::new("a".to_string())).kind, ProofItemKind::Point);
    assert_eq!(ProofItem::scalar(Name::new("a".to_string())).kind, ProofItemKind::Scalar);
    assert_eq!(ProofItem::challenge(Name::new("a".to_string())).kind, ProofItemKind::Challenge);
    let l = small_layout(1);
    let f = l.proof_fields("    ", "P", "S", Style::Plinth);
    assert!(f.starts_with("    advice0: P,\n    theta: S,\n"));
    assert!(f.ends_with("    shplonkH2: P,"));
    assert_eq!(l.proof_fields("  ", "ByteArray", "State<Scalar>", Style::Aiken), l.aiken_proof_fields());
}

#[test]
fn shplonk_template_is_filled_with_the_rendered_values() {
    let d = AxiomShplonkRenderData { data: vec![("N".to_string(), "8".to_string()), ("PROOF_HEX".to_string(), "dead".to_string())] };
    assert_eq!(render_shplonk_template(&d, "{{N}}:{{PROOF_HEX}}"), Some("8:dead".to_string()));
    assert_eq!(render_shplonk_template(&d, "{{OMEGA}}"), None);
}
