//! What each kind of assignment does with a reading.

use crate::action_sequencer::ActionSequencerAction;
use crate::config_defs::controller_profile::{
    ControllerProfileControlAssignment, ControllerProfileControlAssignmentAction,
    ControllerProfileControlLinearAssignment, ControllerProfileControlLinearAssignmentThreshold,
    ControllerProfileControlMomentaryAssignment, ControllerProfileControlToggleAssignment,
    ControllerProfileDirectControlAssignment,
};
use crate::config_defs::profile_model::{exceeded_count, on_side_of, ThresholdModel};
use crate::controller_manager::ControllerManagerControllerControlState;
use crate::direct_controller::DirectControlCommand;
use crate::profile_runner::{ProfileRunnerAssignmentCall, ProfileRunnerAssignmentCallAction};
use crate::runner_model::{cascade, deactivation, optional_action};
use crate::text::str_equal;
use crate::views::{lemma_seq_view_push, option_view, seq_view};
use vstd::prelude::*;

verus! {

impl ControllerProfileControlAssignmentAction {
    /// The call that performs this action.
    pub fn pressed(&self) -> (call: ProfileRunnerAssignmentCallAction)
        ensures
            call@ == self@.pressed(),
    {
        match self {
            ControllerProfileControlAssignmentAction::Keys(action) => {
                ProfileRunnerAssignmentCallAction::SequencerAction(
                    ActionSequencerAction {
                        keys: action.keys.clone(),
                        press_time: action.press_time,
                        wait_time: action.wait_time,
                        release: Some(false),
                    },
                )
            },
            ControllerProfileControlAssignmentAction::DirectControl(action) => {
                ProfileRunnerAssignmentCallAction::DirectControlAction(
                    DirectControlCommand {
                        controls: action.controls.clone(),
                        input_value: action.value,
                    },
                )
            },
        }
    }

    /// The call that undoes this action, where it can be undone.
    pub fn released(&self) -> (call: Option<ProfileRunnerAssignmentCallAction>)
        ensures
            option_view(call) == self@.released(),
    {
        match self {
            ControllerProfileControlAssignmentAction::Keys(action) => Some(
                ProfileRunnerAssignmentCallAction::SequencerAction(
                    ActionSequencerAction {
                        keys: action.keys.clone(),
                        press_time: action.press_time,
                        wait_time: action.wait_time,
                        release: Some(true),
                    },
                ),
            ),
            ControllerProfileControlAssignmentAction::DirectControl(_) => None,
        }
    }
}

/// The call that ends an activation.
fn deactivating_call(
    activate: &ControllerProfileControlAssignmentAction,
    deactivate: &Option<ControllerProfileControlAssignmentAction>,
) -> (call: Option<ProfileRunnerAssignmentCallAction>)
    ensures
        option_view(call) == deactivation(activate@, option_view(*deactivate)),
{
    match deactivate {
        Some(action) => Some(action.pressed()),
        None => activate.released(),
    }
}

impl ControllerProfileControlMomentaryAssignment {
    /// The call that a reading causes, given the call last made for the
    /// control.
    pub fn action_for(
        &self,
        last: Option<&ProfileRunnerAssignmentCall>,
        state: &ControllerManagerControllerControlState,
    ) -> (call: Option<ProfileRunnerAssignmentCallAction>)
        ensures
            option_view(call) == self@.action_for(option_view(last), state@),
    {
        if state.value >= self.threshold {
            let rising = match last {
                Some(call) => call.control_state.value < self.threshold,
                None => true,
            };
            if rising {
                Some(self.action_activate.pressed())
            } else {
                None
            }
        } else {
            let falling = match last {
                Some(call) => call.control_state.value >= self.threshold,
                None => false,
            };
            if falling {
                deactivating_call(&self.action_activate, &self.action_deactivate)
            } else {
                None
            }
        }
    }
}

impl ControllerProfileControlToggleAssignment {
    /// The call that a reading causes, given the call last made for the
    /// control.
    pub fn action_for(
        &self,
        last: Option<&ProfileRunnerAssignmentCall>,
        state: &ControllerManagerControllerControlState,
    ) -> (call: Option<ProfileRunnerAssignmentCallAction>)
        ensures
            option_view(call) == self@.action_for(option_view(last), state@),
    {
        if state.value >= self.threshold {
            match last {
                Some(call) => {
                    let made = call.action.get_compare_value();
                    let activating = self.action_activate.get_compare_value();
                    if str_equal(made.as_str(), activating.as_str()) {
                        Some(self.action_deactivate.pressed())
                    } else {
                        Some(self.action_activate.pressed())
                    }
                },
                None => Some(self.action_activate.pressed()),
            }
        } else {
            match last {
                Some(call) => {
                    if call.control_state.value >= self.threshold {
                        call.action.released()
                    } else {
                        None
                    }
                },
                None => None,
            }
        }
    }
}

impl ControllerProfileDirectControlAssignment {
    /// The call that a reading causes.
    pub fn action_for(&self, state: &ControllerManagerControllerControlState) -> (call:
        ProfileRunnerAssignmentCallAction)
        ensures
            call@ == self@.action_for(state@),
    {
        ProfileRunnerAssignmentCallAction::DirectControlAction(
            DirectControlCommand {
                controls: self.controls.clone(),
                input_value: self.input_value.calculate_normal_value(state.value),
            },
        )
    }
}

/// The thresholds on the side of zero that `value` is on, in their order.
fn thresholds_on_side(
    thresholds: &Vec<ControllerProfileControlLinearAssignmentThreshold>,
    value: i64,
) -> (side: Vec<&ControllerProfileControlLinearAssignmentThreshold>)
    ensures
        seq_view(side@) == on_side_of(seq_view(thresholds@), value as int),
{
    let ghost all = seq_view(thresholds@);
    let ghost wanted = |t: ThresholdModel| t.is_on_side_of(value as int);
    let mut side: Vec<&ControllerProfileControlLinearAssignmentThreshold> = Vec::new();
    let mut i: usize = 0;
    while i < thresholds.len()
        invariant
            i <= thresholds.len(),
            all == seq_view(thresholds@),
            wanted == |t: ThresholdModel| t.is_on_side_of(value as int),
            seq_view(side@) == all.take(i as int).filter(wanted),
        decreases thresholds.len() - i,
    {
        let threshold = &thresholds[i];
        proof {
            all.take(i as int).lemma_filter_push(threshold@, wanted);
            assert(all.take(i as int).push(threshold@) =~= all.take(i + 1));
        }
        let on_side = if value < 0 {
            threshold.value < 0
        } else {
            threshold.value >= 0
        };
        if on_side {
            side.push(threshold);
        }
        i += 1;
    }
    assert(all.take(thresholds.len() as int) =~= all);
    side
}

/// How many of the thresholds the reading `value` has crossed.
fn count_exceeding(side: &Vec<&ControllerProfileControlLinearAssignmentThreshold>, value: i64) -> (count:
    usize)
    ensures
        count == exceeded_count(seq_view(side@), value as int),
        count <= side.len(),
{
    let ghost all = seq_view(side@);
    let ghost wanted = |t: ThresholdModel| t.is_exceeding(value as int);
    let mut count: usize = 0;
    let mut i: usize = 0;
    while i < side.len()
        invariant
            i <= side.len(),
            count <= i,
            all == seq_view(side@),
            wanted == |t: ThresholdModel| t.is_exceeding(value as int),
            count == all.take(i as int).filter(wanted).len(),
        decreases side.len() - i,
    {
        proof {
            all.take(i as int).lemma_filter_push(side[i as int]@, wanted);
            assert(all.take(i as int).push(side[i as int]@) =~= all.take(i + 1));
        }
        if side[i].is_exceeding_threshold(value) {
            count += 1;
        }
        i += 1;
    }
    assert(all.take(side.len() as int) =~= all);
    count
}

impl ControllerProfileControlLinearAssignment {
    /// The calls that a reading causes, given the call last made for the
    /// control. With no call made yet the thresholds count as passed up to
    /// the reading that the control started from; `neutralize_initial` says
    /// whether that reading is measured from the neutral point.
    pub fn actions_for(
        &self,
        last: Option<&ProfileRunnerAssignmentCall>,
        state: &ControllerManagerControllerControlState,
        neutralize_initial: bool,
    ) -> (calls: Vec<ProfileRunnerAssignmentCallAction>)
        ensures
            seq_view(calls@) == self@.actions_for(option_view(last), state@, neutralize_initial),
    {
        let value = self.calculate_neutralized_value(state.value);
        let generated = self.generated_thresholds();
        let side = thresholds_on_side(&generated, value);
        let exceeding = count_exceeding(&side, value);
        let reference: i64 = match last {
            Some(call) => self.calculate_neutralized_value(call.control_state.value),
            None => {
                if neutralize_initial {
                    self.calculate_neutralized_value(state.initial_value)
                } else {
                    state.initial_value as i64
                }
            },
        };
        let passed = count_exceeding(&side, reference);
        let ghost all = seq_view(side@);
        let mut calls: Vec<ProfileRunnerAssignmentCallAction> = Vec::new();
        if exceeding > passed {
            let mut i: usize = passed;
            while i < exceeding
                invariant
                    passed <= i <= exceeding <= side.len(),
                    all == seq_view(side@),
                    seq_view(calls@) == cascade(all.subrange(passed as int, i as int)),
                decreases exceeding - i,
            {
                let call = side[i].action_activate.pressed();
                proof {
                    lemma_seq_view_push(calls@, call);
                }
                calls.push(call);
                i += 1;
            }
        } else if exceeding < passed {
            let ghost falling = all.subrange(exceeding as int, passed as int).reverse();
            let ghost ending = |t: ThresholdModel| t.deactivation();
            let mut i: usize = passed;
            while i > exceeding
                invariant
                    exceeding <= i <= passed <= side.len(),
                    all == seq_view(side@),
                    falling == all.subrange(exceeding as int, passed as int).reverse(),
                    ending == |t: ThresholdModel| t.deactivation(),
                    seq_view(calls@) == falling.take(passed - i).filter_map(ending),
                decreases i,
            {
                i -= 1;
                let threshold = side[i];
                let call = deactivating_call(&threshold.action_activate, &threshold.action_deactivate);
                proof {
                    falling.lemma_filter_map_take_succ(ending, passed - i - 1);
                }
                if let Some(call) = call {
                    calls.push(call);
                }
            }
            assert(falling.take(passed - exceeding) =~= falling);
        }
        calls
    }
}

impl ControllerProfileControlAssignment {
    /// The actions that a reading causes under this assignment, given the
    /// call last made for the control.
    pub fn actions_for(
        &self,
        last: Option<&ProfileRunnerAssignmentCall>,
        state: &ControllerManagerControllerControlState,
        neutralize_initial: bool,
    ) -> (calls: Vec<ProfileRunnerAssignmentCallAction>)
        ensures
            seq_view(calls@) == self@.actions_for(option_view(last), state@, neutralize_initial),
    {
        match self {
            ControllerProfileControlAssignment::Momentary(assignment) => optional_call(
                assignment.action_for(last, state),
            ),
            ControllerProfileControlAssignment::Linear(assignment) => assignment.actions_for(
                last,
                state,
                neutralize_initial,
            ),
            ControllerProfileControlAssignment::Toggle(assignment) => optional_call(
                assignment.action_for(last, state),
            ),
            ControllerProfileControlAssignment::DirectControl(assignment) => optional_call(
                Some(assignment.action_for(state)),
            ),
            ControllerProfileControlAssignment::SyncControl(_) => optional_call(None),
        }
    }
}

/// Zero or one call as a list.
fn optional_call(call: Option<ProfileRunnerAssignmentCallAction>) -> (calls: Vec<
    ProfileRunnerAssignmentCallAction,
>)
    ensures
        seq_view(calls@) == optional_action(option_view(call)),
{
    let mut calls: Vec<ProfileRunnerAssignmentCallAction> = Vec::new();
    if let Some(call) = call {
        calls.push(call);
    }
    calls
}

} // verus!
