use plutus_halo2_verifier_gen::extraction::msm::{
    Commitments, ElementMSM, Evaluations, MsmOperations, OptimizedMSM, ScalarOperation,
};
use plutus_halo2_verifier_gen::extraction::rotation_description::RotationDescription;

fn power(c: char, e: i32) -> ScalarOperation {
    ScalarOperation::Power(c, e)
}

#[test]
fn flattening_keeps_the_order_and_scales_every_scalar() {
    let m = MsmOperations::Scale(
        Box::new(MsmOperations::Add(
            Box::new(MsmOperations::Append(Box::new(MsmOperations::Empty), power('x', 2), Commitments(1))),
            Box::new(MsmOperations::AppendW(Box::new(MsmOperations::Empty), ScalarOperation::Zero, 3)),
        )),
        power('y', 1),
    );
    let flat = m.flatten_msm();
    assert_eq!(
        format!("{:?}", flat.elements),
        "[Element(MulS(Power('y', 1), Power('x', 2)), Commitments(1)), ElementW(MulS(Power('y', 1), Zero), 3)]"
    );
    let appended = MsmOperations::AppendNegatedG1(
        Box::new(MsmOperations::Empty),
        ScalarOperation::Rotation(RotationDescription::Current),
    );
    assert_eq!(format!("{:?}", appended.flatten_msm().elements), "[ElementNegatedG1(Rotation(Current))]");
    assert!(MsmOperations::Empty.flatten_msm().elements.is_empty());
}

#[test]
fn optimising_adds_the_scalars_of_each_point() {
    let msm = OptimizedMSM {
        elements: vec![
            ElementMSM::Element(power('x', 1), Commitments(1)),
            ElementMSM::ElementNegatedG1(ScalarOperation::Zero),
            ElementMSM::Element(power('x', 3), Commitments(1)),
            ElementMSM::ElementW(ScalarOperation::Zero, 2),
            ElementMSM::Element(power('x', 2), Commitments(1)),
        ],
    };
    let optimized = msm.optimize_msm();
    assert_eq!(
        format!("{:?}", optimized.elements),
        "[Element(Add(Add(Power('x', 1), Power('x', 3)), Power('x', 2)), Commitments(1)), ElementNegatedG1(Zero), ElementW(Zero, 2)]"
    );
    let distinct = OptimizedMSM {
        elements: vec![
            ElementMSM::Element(power('x', 1), Commitments(1)),
            ElementMSM::Element(power('x', 1), Commitments(2)),
        ],
    };
    assert_eq!(distinct.optimize_msm().elements.len(), 2);
}

#[test]
fn largest_power_of_a_variable() {
    let msm = OptimizedMSM {
        elements: vec![
            ElementMSM::Element(power('x', 1), Commitments(1)),
            ElementMSM::ElementW(
                ScalarOperation::Add(Box::new(power('x', 3)), Box::new(power('y', 7))),
                0,
            ),
        ],
    };
    assert_eq!(msm.find_max_power('x'), 3);
    assert_eq!(msm.find_max_power('y'), 7);
    assert_eq!(msm.find_max_power('z'), 0);
    assert_eq!(OptimizedMSM { elements: vec![] }.find_max_power('x'), 0);
    let negative = OptimizedMSM { elements: vec![ElementMSM::ElementNegatedG1(power('x', -3))] };
    assert_eq!(negative.find_max_power('x'), -3);
    assert_eq!(
        OptimizedMSM::find_max_power_in_scalar(
            &ScalarOperation::Mul(Box::new(power('x', -2)), Evaluations(0)),
            'x'
        ),
        -2
    );
    assert_eq!(
        OptimizedMSM::find_max_power_in_scalar(
            &ScalarOperation::MulS(Box::new(power('x', -4)), Box::new(power('x', -1))),
            'x'
        ),
        -1
    );
    assert_eq!(OptimizedMSM::find_max_power_in_scalar(&power('y', 5), 'x'), 0);
}

#[test]
fn optimising_twice_is_optimising_once() {
    let msm = OptimizedMSM {
        elements: vec![
            ElementMSM::Element(power('x', 1), Commitments(1)),
            ElementMSM::ElementW(ScalarOperation::Zero, 2),
            ElementMSM::Element(power('x', 3), Commitments(1)),
            ElementMSM::ElementNegatedG1(power('y', 1)),
            ElementMSM::ElementW(power('x', 2), 2),
        ],
    };
    let once = msm.optimize_msm();
    let once_text = format!("{:?}", once.elements);
    let twice = once.optimize_msm();
    assert_eq!(format!("{:?}", twice.elements), once_text);
}
