use plutus_halo2_verifier_gen::extraction::rotation_description::RotationDescription::{Current, Custom, Last, Next, Previous};
use plutus_halo2_verifier_gen::extraction::msm::{Commitments, Evaluations};
use plutus_halo2_verifier_gen::extraction::queries::{Query, precompute_intermediate_sets};
use plutus_halo2_verifier_gen::extraction::pcs::{
    AxiomSHPLONKData, AxiomSHPLONKScheme, AxiomSHPLONKSteps, ExtractPCS, HMOData, HMOSteps, Halo2MultiOpenScheme,
    PCSType,
};
use plutus_halo2_verifier_gen::extraction::rotation_description::RotationDescription;
use plutus_halo2_verifier_gen::extraction::text::push_decimal;
use plutus_halo2_verifier_gen::stats::statistics::CircuitStatistics;

#[test]
fn rotations_are_named() {
    assert_eq!(RotationDescription::Last.to_string(), "x_last");
    assert_eq!(RotationDescription::Previous.to_string(), "x_prev");
    assert_eq!(RotationDescription::Current.to_string(), "x_current");
    assert_eq!(RotationDescription::Next.to_string(), "x_next");
    assert_eq!(RotationDescription::Custom(7).to_string(), "x_rot_7");
    assert_eq!(RotationDescription::Custom(-12).to_string(), "x_rot_-12");
    assert_eq!(RotationDescription::Custom(i32::MIN).to_string(), "x_rot_-2147483648");
    assert_eq!(RotationDescription::default(), RotationDescription::Current);
}

#[test]
fn offsets_become_rotations() {
    assert_eq!(RotationDescription::from_i32(-1), RotationDescription::Previous);
    assert_eq!(RotationDescription::from_i32(0), RotationDescription::Current);
    assert_eq!(RotationDescription::from_i32(1), RotationDescription::Next);
    assert_eq!(RotationDescription::from_i32(2), RotationDescription::Custom(2));
    assert_eq!(RotationDescription::from_i32(-2), RotationDescription::Custom(-2));
}

#[test]
fn decimal_notation() {
    let mut s = String::from("n=");
    push_decimal(&mut s, 0);
    push_decimal(&mut s, 1234567890);
    assert_eq!(s, "n=01234567890");
}

#[test]
fn multi_open_steps_for_three_point_sets() {
    let (steps, data) = Halo2MultiOpenScheme::extract_pcs(3, 9);
    assert_eq!(
        steps,
        vec![
            HMOSteps::X1,
            HMOSteps::X2,
            HMOSteps::FCommitment,
            HMOSteps::X3,
            HMOSteps::QEvals,
            HMOSteps::QEvals,
            HMOSteps::QEvals,
            HMOSteps::X4,
            HMOSteps::PI,
        ]
    );
    assert_eq!(data, HMOData { q_evaluations_count: 3 });
    assert_eq!(Halo2MultiOpenScheme::pcs_data(&data), 3);
    assert_eq!(Halo2MultiOpenScheme::pcs_type(), PCSType::Halo2MultiOpen);
}

#[test]
fn multi_open_steps_in_aiken_and_plinth() {
    assert_eq!(
        Halo2MultiOpenScheme::step_to_aiken(HMOSteps::QEvals, 12),
        "    let (q_eval_on_x3_12, transcript) = read_scalar(transcript)\n"
    );
    assert_eq!(
        Halo2MultiOpenScheme::step_to_aiken(HMOSteps::X1, 0),
        "    let (x1, transcript) = squeeze_challenge(transcript)\n"
    );
    assert_eq!(Halo2MultiOpenScheme::step_to_plinth(HMOSteps::QEvals, 2), "  !q_eval_on_x3_2 <- M.readScalar\n");
    assert_eq!(Halo2MultiOpenScheme::step_to_plinth(HMOSteps::PI, 0), "  !pi_term <- M.readPoint\n");
}

#[test]
fn q_evaluation_names_are_joined() {
    let data = HMOData { q_evaluations_count: 3 };
    assert_eq!(Halo2MultiOpenScheme::pcs_data_aiken(&data), "q_eval_on_x3_1, q_eval_on_x3_2, q_eval_on_x3_3");
    assert_eq!(Halo2MultiOpenScheme::pcs_data_plinth(&HMOData { q_evaluations_count: 0 }), "");
}

#[test]
fn multi_open_step_costs() {
    assert_eq!(HMOSteps::PI.step_stat(), (1, 0));
    assert_eq!(HMOSteps::QEvals.step_stat(), (0, 1));
    assert_eq!(HMOSteps::X2.step_stat(), (0, 0));
    let mut stats = CircuitStatistics::new(0, 0, 0, 0, 0);
    HMOSteps::X1.step_stat_operation(&mut stats);
    HMOSteps::FCommitment.step_stat_operation(&mut stats);
    HMOSteps::QEvals.step_stat_operation(&mut stats);
    assert_eq!(stats.hash, vec![0]);
    assert_eq!(stats.transcript_size, 48 + 32);
    assert_eq!(stats.from_bytes_scalar, 3);
    assert_eq!(stats.decompress_point, 1);
}

#[test]
fn shplonk_steps_and_data() {
    let (steps, data) = AxiomSHPLONKScheme::extract_pcs(4, 6);
    assert_eq!(
        steps,
        vec![
            AxiomSHPLONKSteps::Y,
            AxiomSHPLONKSteps::V,
            AxiomSHPLONKSteps::H1,
            AxiomSHPLONKSteps::U,
            AxiomSHPLONKSteps::H2,
        ]
    );
    assert_eq!(data, AxiomSHPLONKData { rotation_set_count: 4, super_point_count: 6 });
    assert_eq!(AxiomSHPLONKScheme::pcs_data_aiken(&data), "rotation_sets=4, super_points=6");
    assert_eq!(AxiomSHPLONKScheme::step_to_plinth(AxiomSHPLONKSteps::H1, 0), "  !h1 <- M.readPoint\n");
    assert_eq!(
        AxiomSHPLONKScheme::step_to_aiken(AxiomSHPLONKSteps::Y, 0),
        "    let (shplonk_y, transcript) = squeeze_challenge(transcript)\n"
    );
    assert_eq!(AxiomSHPLONKScheme::pcs_type(), PCSType::AxiomSHPLONK);
}

#[test]
fn multi_open_opening_costs() {
    let mut stats = CircuitStatistics::new(0, 0, 0, 0, 0);
    // two point sets of one and two points; three commitments, two on the
    // first set with one evaluation each, one on the second with two
    Halo2MultiOpenScheme::opening_stat_of_sets(&mut stats, &vec![1, 2], &vec![(0, 1), (1, 2), (0, 1)]);
    assert_eq!(stats.mul_scalar, 34);
    assert_eq!(stats.add_scalar, 10);
    assert_eq!(stats.sub_scalar, 9);
    assert_eq!(stats.inv_scalar, 3);
    assert_eq!(stats.add_point, 4);
    assert_eq!(stats.mul_point, 4);
    assert_eq!(stats.decompress_point, 5);
    assert_eq!(stats.msm, vec![2, 1]);
    assert_eq!(stats.transcript_size, 0);
    assert!(stats.hash.is_empty());
}

fn query(c: u64, point: RotationDescription, e: u64) -> Query {
    Query { commitment: Commitments(c), point, evaluation: Evaluations(e) }
}

#[test]
fn queries_grouped_by_commitment_and_point_set() {
    let queries = vec![
        query(1, Current, 10),
        query(2, Current, 20),
        query(1, Next, 11),
        query(3, Last, 30),
        query(2, Next, 21),
        query(1, Previous, 12),
        query(4, Custom(3), 40),
        query(4, Last, 41),
        query(4, Custom(-5), 42),
        query(5, Next, 50),
        query(5, Current, 51),
    ];
    let (sets, data) = precompute_intermediate_sets(&queries);
    assert_eq!(
        sets,
        vec![vec![Previous, Current, Next], vec![Current, Next], vec![Last], vec![Last, Custom(-5), Custom(3)]]
    );
    let summary: Vec<(u64, usize, Vec<u64>)> = data
        .iter()
        .map(|d| (d.commitment.0, d.point_set_index, d.evaluations.iter().map(|e| e.0).collect()))
        .collect();
    assert_eq!(
        summary,
        vec![
            (1, 0, vec![12, 10, 11]),
            (2, 1, vec![20, 21]),
            (3, 2, vec![30]),
            (4, 3, vec![41, 42, 40]),
            (5, 1, vec![51, 50]),
        ]
    );
    assert_eq!(data[0].points, vec![Previous, Current, Next]);
}

#[test]
fn opening_costs_of_queries() {
    let queries = vec![query(1, Current, 1), query(1, Next, 2), query(2, Current, 3)];
    let mut from_queries = CircuitStatistics::new(0, 0, 0, 0, 0);
    Halo2MultiOpenScheme::opening_stat(&mut from_queries, &queries);
    let mut from_sets = CircuitStatistics::new(0, 0, 0, 0, 0);
    Halo2MultiOpenScheme::opening_stat_of_sets(&mut from_sets, &vec![2, 1], &vec![(0, 2), (1, 1)]);
    assert_eq!(from_queries.mul_scalar, from_sets.mul_scalar);
    assert_eq!(from_queries.add_scalar, from_sets.add_scalar);
    assert_eq!(from_queries.sub_scalar, from_sets.sub_scalar);
    assert_eq!(from_queries.inv_scalar, from_sets.inv_scalar);
    assert_eq!(from_queries.decompress_point, from_sets.decompress_point);
    assert_eq!(from_queries.msm, from_sets.msm);
    assert_eq!(from_queries.msm, vec![1, 1]);
    assert!(from_queries.mul_scalar > 0);
}
