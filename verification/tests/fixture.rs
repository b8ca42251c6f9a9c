use plutus_halo2_verifier_gen::axiom_scalar_mul::{
    AxiomScalarMulFixture, AxiomScalarMulOutputPaths, AxiomScalarMulShape, ColumnRotation, FixtureError,
    FixtureRenderError, LookupShape, PermutationColumn, TypedColumnRotation, render_fixture_template,
};
use plutus_halo2_verifier_gen::hex_bytes::ReverseHexError;

fn cr(column: usize, rotation: i32) -> ColumnRotation {
    ColumnRotation { column, rotation }
}

fn pc(kind: &str, column: usize) -> PermutationColumn {
    PermutationColumn { column_type: kind.to_string(), column }
}

fn typed(kind: &str, column: usize) -> TypedColumnRotation {
    TypedColumnRotation { column_type: kind.to_string(), column, rotation: 0 }
}

fn shape() -> AxiomScalarMulShape {
    AxiomScalarMulShape {
        num_fixed_columns: 4,
        num_advice_columns: 3,
        num_instance_columns: 0,
        advice_queries: vec![
            cr(0, 0),
            cr(0, 1),
            cr(0, 2),
            cr(0, 3),
            cr(1, 0),
            cr(1, 1),
            cr(1, 2),
            cr(1, 3),
            cr(2, 0),
        ],
        fixed_queries: vec![cr(1, 0), cr(0, 0), cr(2, 0), cr(3, 0)],
        permutation_columns: vec![pc("fixed", 1), pc("advice", 0), pc("advice", 1), pc("advice", 2)],
        lookup: LookupShape { input: typed("advice", 2), table: typed("fixed", 0) },
    }
}

fn fixture() -> AxiomScalarMulFixture {
    AxiomScalarMulFixture {
        backend: "halo2-axiom 0.5".to_string(),
        curve: "bls12_381".to_string(),
        pcs: "kzg-shplonk".to_string(),
        transcript: "cardano-friendly-blake2b-256".to_string(),
        proof_hex: "beef".to_string(),
        n: 262_144,
        k: 18,
        quotient_poly_degree: 3,
        blinding_factors: 6,
        omega: "om".to_string(),
        omega_inv: "oi".to_string(),
        barycentric_weight: "bw".to_string(),
        transcript_repr: "tr".to_string(),
        s_g2: "0102aB".to_string(),
        fixed_commitments: vec!["f0".to_string(), "f1".to_string(), "f2".to_string(), "f3".to_string()],
        permutation_commitments: vec!["p0".to_string(), "p1".to_string(), "p2".to_string(), "p3".to_string()],
        shape: shape(),
    }
}

#[test]
fn supported_fixture_validates() {
    assert!(fixture().validate().is_ok());
    assert!(shape().validate().is_ok());
}

#[test]
fn unsupported_header_values_are_reported() {
    let mut f = fixture();
    f.backend = "halo2".to_string();
    assert!(matches!(f.validate(), Err(FixtureError::UnsupportedBackend(b)) if b == "halo2"));
    let mut f = fixture();
    f.curve = "bn254".to_string();
    assert!(matches!(f.validate(), Err(FixtureError::UnsupportedCurve(_))));
    let mut f = fixture();
    f.pcs = "kzg-gwc".to_string();
    assert!(matches!(f.validate(), Err(FixtureError::UnsupportedPcs(_))));
    let mut f = fixture();
    f.transcript = "poseidon".to_string();
    assert!(matches!(f.validate(), Err(FixtureError::UnsupportedTranscript(_))));
    let mut f = fixture();
    f.k = 17;
    assert!(matches!(f.validate(), Err(FixtureError::UnsupportedK(17))));
    let mut f = fixture();
    f.n = 1;
    assert!(matches!(f.validate(), Err(FixtureError::UnsupportedN(1))));
    let mut f = fixture();
    f.quotient_poly_degree = 4;
    assert!(matches!(f.validate(), Err(FixtureError::UnsupportedQuotientDegree(4))));
    let mut f = fixture();
    f.blinding_factors = 5;
    assert!(matches!(f.validate(), Err(FixtureError::UnsupportedBlindingFactors(5))));
    let mut f = fixture();
    f.fixed_commitments.pop();
    assert!(matches!(f.validate(), Err(FixtureError::FixedCommitments(3))));
    let mut f = fixture();
    f.permutation_commitments.push("p4".to_string());
    assert!(matches!(f.validate(), Err(FixtureError::PermutationCommitments(5))));
}

#[test]
fn the_first_failing_condition_is_reported() {
    let mut f = fixture();
    f.curve = "bn254".to_string();
    f.k = 17;
    assert!(matches!(f.validate(), Err(FixtureError::UnsupportedCurve(_))));
}

#[test]
fn unsupported_shapes_are_reported() {
    let mut s = shape();
    s.num_fixed_columns = 5;
    assert!(matches!(s.validate(), Err(FixtureError::FixedColumns(5))));
    let mut s = shape();
    s.num_advice_columns = 2;
    assert!(matches!(s.validate(), Err(FixtureError::AdviceColumns(2))));
    let mut s = shape();
    s.num_instance_columns = 1;
    assert!(matches!(s.validate(), Err(FixtureError::InstanceColumns(1))));
    let mut s = shape();
    s.advice_queries.swap(0, 1);
    assert!(matches!(s.validate(), Err(FixtureError::AdviceQueryShape)));
    let mut s = shape();
    s.fixed_queries.pop();
    assert!(matches!(s.validate(), Err(FixtureError::FixedQueryShape)));
    let mut s = shape();
    s.permutation_columns[0] = pc("advice", 1);
    assert!(matches!(s.validate(), Err(FixtureError::PermutationColumnShape)));
    let mut s = shape();
    s.lookup.table.rotation = 1;
    assert!(matches!(s.validate(), Err(FixtureError::LookupQueryShape)));
}

#[test]
fn template_data_fills_every_placeholder() {
    let data = fixture().template_data().unwrap();
    let get = |k: &str| data.iter().find(|(key, _)| key == k).map(|(_, v)| v.clone()).unwrap();
    assert_eq!(data.len(), 16);
    assert_eq!(get("N"), "262144");
    assert_eq!(get("BLINDING_FACTORS"), "6");
    assert_eq!(get("TRANSCRIPT_REP"), "tr");
    assert_eq!(get("OMEGA"), "om");
    assert_eq!(get("OMEGA_INV"), "oi");
    assert_eq!(get("BARYCENTRIC_WEIGHT"), "bw");
    assert_eq!(get("S_G2_CARDANO"), "ab0201");
    assert_eq!(get("PROOF_HEX"), "beef");
    assert_eq!(get("FIXED_0"), "f0");
    assert_eq!(get("FIXED_3"), "f3");
    assert_eq!(get("PERMUTATION_COMMON_2"), "p2");
}

#[test]
fn template_data_needs_hexadecimal_srs_point() {
    let mut f = fixture();
    f.s_g2 = "abc".to_string();
    assert!(matches!(f.template_data(), Err(ReverseHexError::OddLength)));
    f.s_g2 = "xy".to_string();
    assert!(matches!(f.template_data(), Err(ReverseHexError::Decode(_))));
}

#[test]
fn default_output_paths() {
    let p = AxiomScalarMulOutputPaths::default();
    assert_eq!(p.aiken_template, "aiken-verifier/templates/axiom_scalar_mul.hbs");
    assert_eq!(p.plinth_output, "plinth-verifier/plutus-halo2/src/Plutus/Crypto/Halo2/Generic/Verifier.hs");
    assert_eq!(p.plinth_compiled_stub_output, "plinth-verifier/plutus-halo2/test/Generic/VerifyCompiled.hs");
}

#[test]
fn fixture_template_is_filled_with_its_values() {
    let out = render_fixture_template(&fixture(), "n={{N}} g2={{S_G2_CARDANO}} f1={{FIXED_1}}").unwrap();
    assert_eq!(out, "n=262144 g2=ab0201 f1=f1");
}

#[test]
fn fixture_template_with_an_unknown_name_is_refused() {
    assert!(matches!(render_fixture_template(&fixture(), "{{NOT_A_VALUE}}"), Err(FixtureRenderError::Template)));
    assert!(matches!(render_fixture_template(&fixture(), "{{#if}}"), Err(FixtureRenderError::Template)));
}

#[test]
fn fixture_template_needs_hexadecimal_srs_point() {
    let mut f = fixture();
    f.s_g2 = "abc".to_string();
    assert!(matches!(
        render_fixture_template(&f, "{{N}}"),
        Err(FixtureRenderError::Data(ReverseHexError::OddLength))
    ));
}

#[test]
fn fixture_errors_explain_themselves() {
    assert_eq!(FixtureError::UnsupportedBackend("x".to_string()).message(), "unsupported Axiom backend x");
    assert_eq!(FixtureError::UnsupportedK(17).message(), "unsupported scalar-mul fixture k 17");
    assert_eq!(FixtureError::FixedCommitments(3).message(), "expected 4 fixed commitments, got 3");
    assert_eq!(FixtureError::InstanceColumns(1).message(), "expected no instance columns, got 1");
    assert_eq!(FixtureError::FixedQueryShape.message(), "unsupported fixed query shape");
    assert_eq!(FixtureError::LookupQueryShape.message(), "unsupported lookup shape");
    let mut f = fixture();
    f.curve = "bn254".to_string();
    assert_eq!(f.validate().unwrap_err().message(), "unsupported curve bn254");
}

#[test]
fn hex_errors_explain_themselves() {
    assert_eq!(ReverseHexError::OddLength.message(), "hex string has odd length");
    let mut f = fixture();
    f.s_g2 = "zz".to_string();
    match f.template_data() {
        Err(e) => assert_eq!(e.message(), "failed to decode hex bytes"),
        Ok(_) => panic!("the SRS point is not hexadecimal"),
    }
}
