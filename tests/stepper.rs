use examen_parcial::simulation::{next_step_action, StepAction};

#[test]
fn arrival_needs_both_thresholds() {
    assert_eq!(next_step_action(false, true, true), StepAction::Arrive);
    assert_eq!(next_step_action(false, true, false), StepAction::Advance);
    assert_eq!(next_step_action(false, false, true), StepAction::Advance);
    assert_eq!(next_step_action(false, false, false), StepAction::Advance);
}

#[test]
fn arrived_vehicle_holds() {
    for d in [false, true] {
        for a in [false, true] {
            assert_eq!(next_step_action(true, d, a), StepAction::Hold);
        }
    }
}
