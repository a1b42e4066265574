use vstd::prelude::*;

verus! {

/// What one call of the simulation stepper does.
#[derive(Clone, Copy, Debug, PartialEq, Eq, Structural)]
pub enum StepAction {
    /// The vehicle has already arrived: nothing changes.
    Hold,
    /// Both arrival thresholds are met: the vehicle is marked as arrived and a
    /// final point is recorded, without moving.
    Arrive,
    /// Steer, move, advance the clock and record a point.
    Advance,
}

/// The stepper's decision. Arrival is absorbing, and it is checked before any
/// movement: it needs the distance and the heading error both under their thresholds.
pub open spec fn step_action(has_arrived: bool, within_distance: bool, within_angle: bool) -> StepAction {
    if has_arrived {
        StepAction::Hold
    } else if within_distance && within_angle {
        StepAction::Arrive
    } else {
        StepAction::Advance
    }
}

/// Whether the vehicle has arrived after a step that took `action`.
pub open spec fn arrived_after(has_arrived: bool, action: StepAction) -> bool {
    has_arrived || action == StepAction::Arrive
}

/// Decides one step from the arrival flag and the two threshold tests
/// (distance under its threshold, heading error under its threshold).
pub fn next_step_action(has_arrived: bool, within_distance: bool, within_angle: bool) -> (r: StepAction)
    ensures
        r == step_action(has_arrived, within_distance, within_angle),
{
    if has_arrived {
        StepAction::Hold
    } else if within_distance && within_angle {
        StepAction::Arrive
    } else {
        StepAction::Advance
    }
}

/// A running vehicle arrives on a step exactly when both thresholds hold:
/// meeting either one alone leaves it running.
pub proof fn lemma_arrival_needs_both_thresholds(within_distance: bool, within_angle: bool)
    ensures
        arrived_after(false, step_action(false, within_distance, within_angle)) <==> (within_distance
            && within_angle),
{
}

/// Once arrived, a vehicle stays arrived and every further step holds.
pub proof fn lemma_arrival_is_absorbing(within_distance: bool, within_angle: bool)
    ensures
        step_action(true, within_distance, within_angle) == StepAction::Hold,
        arrived_after(true, step_action(true, within_distance, within_angle)),
{
}

} // verus!
