//! The mathematical model of the runner: which calls a reading causes.

use crate::action_sequencer::SequencerActionModel;
use crate::config_defs::profile_model::{
    exceeded_count, expand, find_profile, on_side_of, ActionModel, AssignmentModel, ControlModel,
    DirectControlModel, LinearModel, MomentaryModel, ProfileModel, ThresholdModel, ToggleModel,
};
use crate::controller_manager::{ChangeEventModel, ControlStateModel};
use crate::direct_controller::DirectControlCommandModel;
use crate::fixed_point::decimal_text;
use vstd::prelude::*;

verus! {

/// An action as it is handed on: to the sequencer or to the direct-control
/// channel.
pub enum CallActionModel {
    SequencerAction(SequencerActionModel),
    DirectControlAction(DirectControlCommandModel),
}

impl CallActionModel {
    /// The text by which a call that was made is compared with an action of
    /// an assignment.
    pub open spec fn compare_value(self) -> Seq<char> {
        match self {
            CallActionModel::SequencerAction(action) => action.keys,
            CallActionModel::DirectControlAction(action) => action.controls + seq![':']
                + decimal_text(action.input_value),
        }
    }

    /// The same call as a release: the keys of a key action are let go, a
    /// direct-control action has nothing to let go.
    pub open spec fn released(self) -> Option<CallActionModel> {
        match self {
            CallActionModel::SequencerAction(action) => Some(
                CallActionModel::SequencerAction(
                    SequencerActionModel {
                        keys: action.keys,
                        press_time: action.press_time,
                        wait_time: action.wait_time,
                        release: Some(true),
                    },
                ),
            ),
            CallActionModel::DirectControlAction(_) => None,
        }
    }
}

impl ActionModel {
    /// The call that performs this action.
    pub open spec fn pressed(self) -> CallActionModel {
        match self {
            ActionModel::Keys(action) => CallActionModel::SequencerAction(
                SequencerActionModel {
                    keys: action.keys,
                    press_time: action.press_time,
                    wait_time: action.wait_time,
                    release: Some(false),
                },
            ),
            ActionModel::DirectControl(action) => CallActionModel::DirectControlAction(
                DirectControlCommandModel { controls: action.controls, input_value: action.value },
            ),
        }
    }

    /// The call that undoes this action: the keys of a key action are let
    /// go, a direct-control action cannot be undone.
    pub open spec fn released(self) -> Option<CallActionModel> {
        self.pressed().released()
    }
}

/// The call that ends an activation: the deactivating action where the
/// assignment names one, else the release of the activating action.
pub open spec fn deactivation(activate: ActionModel, deactivate: Option<ActionModel>) -> Option<
    CallActionModel,
> {
    match deactivate {
        Some(action) => Some(action.pressed()),
        None => activate.released(),
    }
}

/// A call that was made for a control.
pub struct CallModel {
    pub control_name: Seq<char>,
    pub control_state: ControlStateModel,
    pub assignment: AssignmentModel,
    pub action: CallActionModel,
}

/// How a reading lies to a threshold, given the reading of the last call.
pub enum Edge {
    /// The reading is at or above the threshold and the last call, if there
    /// was one, was made below it.
    Rising,
    /// The reading is below the threshold and the last call was made at or
    /// above it.
    Falling,
    /// The reading is on the side of the threshold where the last call was
    /// made, or below it with no call made yet.
    Held,
}

/// The edge that a reading makes at a threshold.
pub open spec fn edge(threshold: int, last: Option<CallModel>, value: int) -> Edge {
    if value >= threshold {
        if last is None || last->0.control_state.value < threshold {
            Edge::Rising
        } else {
            Edge::Held
        }
    } else if last is Some && last->0.control_state.value >= threshold {
        Edge::Falling
    } else {
        Edge::Held
    }
}

impl MomentaryModel {
    /// The call that a reading causes: the activation on a rising edge, the
    /// deactivation on a falling edge, none while the reading is held.
    pub open spec fn action_for(self, last: Option<CallModel>, state: ControlStateModel) -> Option<
        CallActionModel,
    > {
        match edge(self.threshold, last, state.value) {
            Edge::Rising => Some(self.action_activate.pressed()),
            Edge::Falling => deactivation(self.action_activate, self.action_deactivate),
            Edge::Held => None,
        }
    }
}

impl ToggleModel {
    /// The action that a reading at or above the threshold performs: the
    /// deactivating one where the last call compares equal to the
    /// activating one, else the activating one.
    pub open spec fn turn(self, last: Option<CallModel>) -> ActionModel {
        match last {
            Some(call) => if call.action.compare_value() == self.action_activate.compare_value() {
                self.action_deactivate
            } else {
                self.action_activate
            },
            None => self.action_activate,
        }
    }

    /// The call that a reading causes: at or above the threshold the action
    /// whose turn it is; on a falling edge the release of the last call;
    /// else none.
    pub open spec fn action_for(self, last: Option<CallModel>, state: ControlStateModel) -> Option<
        CallActionModel,
    > {
        if state.value >= self.threshold {
            Some(self.turn(last).pressed())
        } else if last is Some && last->0.control_state.value >= self.threshold {
            last->0.action.released()
        } else {
            None
        }
    }
}

impl ThresholdModel {
    /// The call made when a reading crosses this threshold.
    pub open spec fn activation(self) -> CallActionModel {
        self.action_activate.pressed()
    }

    /// The call made when a reading falls back behind this threshold.
    pub open spec fn deactivation(self) -> Option<CallActionModel> {
        deactivation(self.action_activate, self.action_deactivate)
    }
}

/// The activations of the thresholds, first to last.
pub open spec fn cascade(thresholds: Seq<ThresholdModel>) -> Seq<CallActionModel> {
    thresholds.map_values(|t: ThresholdModel| t.activation())
}

/// The deactivations of the thresholds, last to first, without those that
/// have none.
pub open spec fn unwinding(thresholds: Seq<ThresholdModel>) -> Seq<CallActionModel> {
    thresholds.reverse().filter_map(|t: ThresholdModel| t.deactivation())
}

impl LinearModel {
    /// The reading against which the thresholds count as already passed:
    /// that of the last call, measured from the neutral point; with no call
    /// made yet the reading that the control started from, measured from the
    /// neutral point only where `neutralize_initial` says so.
    pub open spec fn reference(
        self,
        last: Option<CallModel>,
        state: ControlStateModel,
        neutralize_initial: bool,
    ) -> int {
        match last {
            Some(call) => self.neutralized(call.control_state.value),
            None => if neutralize_initial {
                self.neutralized(state.initial_value)
            } else {
                state.initial_value
            },
        }
    }

    /// The thresholds that count for a reading: those on its side of zero.
    pub open spec fn side(self, state: ControlStateModel) -> Seq<ThresholdModel> {
        on_side_of(expand(self.thresholds), self.neutralized(state.value))
    }

    /// How many of the thresholds that count the reading has crossed.
    pub open spec fn exceeding(self, state: ControlStateModel) -> nat {
        exceeded_count(self.side(state), self.neutralized(state.value))
    }

    /// How many of the thresholds that count were crossed before.
    pub open spec fn passed(
        self,
        last: Option<CallModel>,
        state: ControlStateModel,
        neutralize_initial: bool,
    ) -> nat {
        exceeded_count(self.side(state), self.reference(last, state, neutralize_initial))
    }

    /// The calls that a reading causes. Where it has crossed more
    /// thresholds than were crossed before, the activations of the newly
    /// crossed ones, in rising order of position. Where it has crossed
    /// fewer, the deactivations of those no longer crossed, in falling
    /// order of position. Else none.
    pub open spec fn actions_for(
        self,
        last: Option<CallModel>,
        state: ControlStateModel,
        neutralize_initial: bool,
    ) -> Seq<CallActionModel> {
        let exceeding = self.exceeding(state) as int;
        let passed = self.passed(last, state, neutralize_initial) as int;
        if exceeding > passed {
            cascade(self.side(state).subrange(passed, exceeding))
        } else if exceeding < passed {
            unwinding(self.side(state).subrange(exceeding, passed))
        } else {
            Seq::empty()
        }
    }
}

impl DirectControlModel {
    /// The call that a reading causes: its value on the target range, sent
    /// to the control of the target.
    pub open spec fn action_for(self, state: ControlStateModel) -> CallActionModel {
        CallActionModel::DirectControlAction(
            DirectControlCommandModel {
                controls: self.controls,
                input_value: self.input_value.normal_value(state.value),
            },
        )
    }
}

/// Zero or one call as a sequence.
pub open spec fn optional_action(action: Option<CallActionModel>) -> Seq<CallActionModel> {
    match action {
        Some(action) => seq![action],
        None => Seq::empty(),
    }
}

impl AssignmentModel {
    /// The actions that a reading causes under this assignment.
    pub open spec fn actions_for(
        self,
        last: Option<CallModel>,
        state: ControlStateModel,
        neutralize_initial: bool,
    ) -> Seq<CallActionModel> {
        match self {
            AssignmentModel::Momentary(a) => optional_action(a.action_for(last, state)),
            AssignmentModel::Linear(a) => a.actions_for(last, state, neutralize_initial),
            AssignmentModel::Toggle(a) => optional_action(a.action_for(last, state)),
            AssignmentModel::DirectControl(a) => seq![a.action_for(state)],
            AssignmentModel::SyncControl(_) => Seq::empty(),
        }
    }

    /// The calls that a reading of the control `name` causes under this
    /// assignment.
    pub open spec fn calls_for(
        self,
        name: Seq<char>,
        last: Option<CallModel>,
        state: ControlStateModel,
        neutralize_initial: bool,
    ) -> Seq<CallModel> {
        self.actions_for(last, state, neutralize_initial).map_values(
            |action: CallActionModel|
                CallModel { control_name: name, control_state: state, assignment: self, action },
        )
    }
}

/// The calls that a reading of the control `name` causes under its rules:
/// those of the first rule, then those of the second, and so on, each rule
/// judged against the same last call.
pub open spec fn calls_for(
    rules: Seq<AssignmentModel>,
    name: Seq<char>,
    last: Option<CallModel>,
    state: ControlStateModel,
    neutralize_initial: bool,
) -> Seq<CallModel>
    decreases rules.len(),
{
    if rules.len() == 0 {
        Seq::empty()
    } else {
        calls_for(rules.drop_last(), name, last, state, neutralize_initial)
            + rules.last().calls_for(name, last, state, neutralize_initial)
    }
}

/// The state of a runner.
pub struct ProfileRunnerModel {
    /// The profiles to choose from.
    pub profiles: Seq<ProfileModel>,
    /// The name of the profile in use.
    pub profile_name: Option<Seq<char>>,
    /// For each control the call last made for it.
    pub last_calls: Map<Seq<char>, CallModel>,
    /// Whether a linear assignment measures the starting reading of a
    /// control from its neutral point.
    pub neutralize_initial_value: bool,
}

/// Every call that a reading of a control causes is a call for that
/// control.
pub proof fn lemma_calls_are_for_the_control(
    rules: Seq<AssignmentModel>,
    name: Seq<char>,
    last: Option<CallModel>,
    state: ControlStateModel,
    neutralize_initial: bool,
    i: int,
)
    requires
        0 <= i < calls_for(rules, name, last, state, neutralize_initial).len(),
    ensures
        calls_for(rules, name, last, state, neutralize_initial)[i].control_name == name,
        calls_for(rules, name, last, state, neutralize_initial)[i].control_state == state,
    decreases rules.len(),
{
    if rules.len() > 0 {
        let front = calls_for(rules.drop_last(), name, last, state, neutralize_initial);
        if i < front.len() {
            lemma_calls_are_for_the_control(
                rules.drop_last(),
                name,
                last,
                state,
                neutralize_initial,
                i,
            );
        }
    }
}

impl ProfileRunnerModel {
    /// The call last made for a control.
    pub open spec fn last_call(self, control_name: Seq<char>) -> Option<CallModel> {
        if self.last_calls.dom().contains(control_name) {
            Some(self.last_calls[control_name])
        } else {
            None
        }
    }

    /// The control that a reading is for: none where the reading has not
    /// changed, where no profile is in use, where no profile of that name
    /// answers for the controller, or where the profile has no control of
    /// that name.
    pub open spec fn control_for(self, event: ChangeEventModel) -> Option<ControlModel> {
        if !event.has_changed {
            None
        } else {
            match self.profile_name {
                Some(name) => match find_profile(
                    self.profiles,
                    name,
                    Some(event.joystick_guid),
                ) {
                    Some(profile) => profile.find_control(event.control_name),
                    None => None,
                },
                None => None,
            }
        }
    }

    /// The calls that a reading causes, in the order in which they are
    /// made.
    pub open spec fn calls(self, event: ChangeEventModel) -> Seq<CallModel> {
        match self.control_for(event) {
            Some(control) => calls_for(
                control.rules(),
                event.control_name,
                self.last_call(event.control_name),
                event.control_state,
                self.neutralize_initial_value,
            ),
            None => Seq::empty(),
        }
    }

    /// The state with a call recorded: it takes the place of the call last
    /// made for its control.
    pub open spec fn record(self, call: CallModel) -> ProfileRunnerModel {
        ProfileRunnerModel {
            profiles: self.profiles,
            profile_name: self.profile_name,
            last_calls: self.last_calls.insert(call.control_name, call),
            neutralize_initial_value: self.neutralize_initial_value,
        }
    }

    /// The state after a reading: the last of the calls that it causes is
    /// recorded; where it causes none, nothing changes.
    pub open spec fn after(self, event: ChangeEventModel) -> ProfileRunnerModel {
        let calls = self.calls(event);
        if calls.len() == 0 {
            self
        } else {
            self.record(calls.last())
        }
    }
}

} // verus!
