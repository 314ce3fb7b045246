//! The mathematical model of a profile and of what its parts compute.

use crate::fixed_point::{clamp, decimal_text, magnitude, quantize, round_div, SCALE};
use crate::search::first_position;
use vstd::prelude::*;

verus! {

/// A key sequence with its timing.
pub struct KeysActionModel {
    pub keys: Seq<char>,
    pub press_time: Option<int>,
    pub wait_time: Option<int>,
}

/// An absolute value for a control of the target.
pub struct DirectControlActionModel {
    pub controls: Seq<char>,
    pub value: int,
}

/// What an assignment triggers.
pub enum ActionModel {
    Keys(KeysActionModel),
    DirectControl(DirectControlActionModel),
}

impl ActionModel {
    /// The text by which two actions are compared: the keys of a key
    /// action, the control and the value of a direct-control action with a
    /// colon between them.
    pub open spec fn compare_value(self) -> Seq<char> {
        match self {
            ActionModel::Keys(action) => action.keys,
            ActionModel::DirectControl(action) => action.controls + seq![':'] + decimal_text(
                action.value,
            ),
        }
    }
}

/// Fires one action while the reading is at or above the threshold.
pub struct MomentaryModel {
    pub threshold: int,
    pub action_activate: ActionModel,
    pub action_deactivate: Option<ActionModel>,
}

/// Fires one of two actions in turn each time the reading reaches the
/// threshold.
pub struct ToggleModel {
    pub threshold: int,
    pub action_activate: ActionModel,
    pub action_deactivate: ActionModel,
}

/// One threshold of a linear assignment, or a ramp of them.
pub struct ThresholdModel {
    pub value: int,
    pub value_end: Option<int>,
    pub value_step: Option<int>,
    pub action_activate: ActionModel,
    pub action_deactivate: Option<ActionModel>,
}

impl ThresholdModel {
    /// A ramp names both an end and a step.
    pub open spec fn is_ramp(self) -> bool {
        self.value_end is Some && self.value_step is Some
    }

    /// A ramp that can be walked: the step is positive and the end is not
    /// below the start.
    pub open spec fn is_rising_ramp(self) -> bool {
        &&& self.is_ramp()
        &&& self.value_step->0 > 0
        &&& self.value <= self.value_end->0
    }

    /// How many points a rising ramp has.
    pub open spec fn ramp_len(self) -> nat
        recommends
            self.is_rising_ramp(),
    {
        ((self.value_end->0 - self.value) / self.value_step->0 + 1) as nat
    }

    /// The single threshold at `value` with the actions of this one.
    pub open spec fn point(self, value: int) -> ThresholdModel {
        ThresholdModel {
            value,
            value_end: None,
            value_step: None,
            action_activate: self.action_activate,
            action_deactivate: self.action_deactivate,
        }
    }

    /// The thresholds that this one stands for. A threshold that is no ramp
    /// stands for itself. A rising ramp stands for the points `value`,
    /// `value + step`, `value + 2 * step` and so on up to `value_end`. Any
    /// other ramp stands for its starting point alone.
    pub open spec fn expanded(self) -> Seq<ThresholdModel> {
        if !self.is_ramp() {
            seq![self]
        } else if self.is_rising_ramp() {
            Seq::new(self.ramp_len(), |k: int| self.point(self.value + k * self.value_step->0))
        } else {
            seq![self.point(self.value)]
        }
    }

    /// Whether a reading has crossed this threshold: at or above a
    /// threshold that is not negative, below a negative one.
    pub open spec fn is_exceeding(self, value: int) -> bool {
        if self.value < 0 {
            value < self.value
        } else {
            value >= self.value
        }
    }

    /// Whether this threshold lies on the side of zero that `value` is on.
    pub open spec fn is_on_side_of(self, value: int) -> bool {
        if value < 0 {
            self.value < 0
        } else {
            self.value >= 0
        }
    }
}

/// A rising ramp reaches its `k`-th point exactly while `k` is below its
/// number of points.
pub proof fn lemma_ramp_len(t: ThresholdModel, k: int)
    requires
        t.is_rising_ramp(),
        k >= 0,
    ensures
        t.ramp_len() >= 1,
        t.value + k * t.value_step->0 <= t.value_end->0 <==> k < t.ramp_len(),
{
    let d = t.value_end->0 - t.value;
    let s = t.value_step->0;
    assert(d / s >= 0 && (d / s) * s <= d < (d / s + 1) * s) by (nonlinear_arith)
        requires
            d >= 0,
            s > 0,
    ;
    assert(k * s <= d <==> k <= d / s) by (nonlinear_arith)
        requires
            (d / s) * s <= d < (d / s + 1) * s,
            s > 0,
    ;
}

/// The thresholds that a list of templates stands for, in the order of the
/// templates.
pub open spec fn expand(templates: Seq<ThresholdModel>) -> Seq<ThresholdModel>
    decreases templates.len(),
{
    if templates.len() == 0 {
        Seq::empty()
    } else {
        expand(templates.drop_last()) + templates.last().expanded()
    }
}

/// The thresholds of `thresholds` on the side of zero that `value` is on.
pub open spec fn on_side_of(thresholds: Seq<ThresholdModel>, value: int) -> Seq<ThresholdModel> {
    thresholds.filter(|t: ThresholdModel| t.is_on_side_of(value))
}

/// How many of `thresholds` the reading `value` has crossed.
pub open spec fn exceeded_count(thresholds: Seq<ThresholdModel>, value: int) -> nat {
    thresholds.filter(|t: ThresholdModel| t.is_exceeding(value)).len()
}

/// Fires the actions of every threshold that a reading crosses.
pub struct LinearModel {
    pub neutral: Option<int>,
    pub thresholds: Seq<ThresholdModel>,
}

impl LinearModel {
    /// A reading measured from the neutral point, in units of it, where a
    /// positive neutral point is set; else the reading itself.
    pub open spec fn neutralized(self, value: int) -> int {
        match self.neutral {
            Some(neutral) if neutral > 0 => round_div((value - neutral) * SCALE, neutral),
            _ => value,
        }
    }
}

/// The range of a target control and how a reading is laid onto it.
pub struct InputValueModel {
    pub min: int,
    pub max: int,
    pub step: Option<int>,
    pub invert: Option<bool>,
}

impl InputValueModel {
    /// A reading as the input range from minus one to one takes it: mirrored
    /// about the middle of that range where the assignment inverts.
    pub open spec fn oriented(self, raw: int) -> int {
        if self.invert == Some(true) {
            -raw
        } else {
            raw
        }
    }

    /// The reading laid onto the target range: minus one falls on `min`,
    /// one on `min` plus the width of the range.
    pub open spec fn mapped(self, raw: int) -> int {
        self.min + round_div(
            (self.oriented(raw) + SCALE) * magnitude(self.max - self.min),
            2 * SCALE,
        )
    }

    /// The value sent for a reading: the reading is oriented, laid onto the
    /// target range, moved to the nearest multiple of the step where one is
    /// set, and held to the range.
    pub open spec fn normal_value(self, raw: int) -> int {
        let stepped = match self.step {
            Some(step) => quantize(self.mapped(raw), step),
            None => self.mapped(raw),
        };
        clamp(stepped, self.min, self.max)
    }
}

/// Sends every reading to a control of the target.
pub struct DirectControlModel {
    pub controls: Seq<char>,
    pub input_value: InputValueModel,
}

/// Follows a control of the target with key presses.
pub struct SyncModeModel {
    pub identifier: Seq<char>,
    pub action_increase: KeysActionModel,
    pub action_decrease: KeysActionModel,
}

/// The rule bound to a control.
pub enum AssignmentModel {
    Momentary(MomentaryModel),
    Linear(LinearModel),
    Toggle(ToggleModel),
    DirectControl(DirectControlModel),
    SyncControl(SyncModeModel),
}

/// A named control with its rules.
pub struct ControlModel {
    pub name: Seq<char>,
    pub assignment: Option<AssignmentModel>,
    pub assignments: Option<Seq<AssignmentModel>>,
}

impl ControlModel {
    /// The rules of the control in the order in which they are evaluated:
    /// the list where there is one, else the single rule, else none.
    pub open spec fn rules(self) -> Seq<AssignmentModel> {
        match self.assignments {
            Some(list) => list,
            None => match self.assignment {
                Some(single) => seq![single],
                None => Seq::empty(),
            },
        }
    }
}

/// A named set of controls, for one controller or for any.
pub struct ProfileModel {
    pub name: Seq<char>,
    pub controls: Seq<ControlModel>,
    pub controller_id: Option<Seq<char>>,
}

/// The position of the first control of that name, if there is one.
pub open spec fn control_position(controls: Seq<ControlModel>, name: Seq<char>) -> Option<int> {
    first_position(controls, |control: ControlModel| control.name == name)
}

impl ProfileModel {
    /// The first control of that name.
    pub open spec fn find_control(self, name: Seq<char>) -> Option<ControlModel> {
        match control_position(self.controls, name) {
            Some(i) => Some(self.controls[i]),
            None => None,
        }
    }
}

impl ProfileModel {
    /// Whether this profile answers to `name` for the controller
    /// `controller`: the names agree, and where the profile is bound to a
    /// controller and one is asked for, these agree too.
    pub open spec fn answers_to(self, name: Seq<char>, controller: Option<Seq<char>>) -> bool {
        &&& self.name == name
        &&& (self.controller_id is None || controller is None || self.controller_id == controller)
    }
}

/// The position of the first profile that answers to `name` for
/// `controller`, if there is one.
pub open spec fn profile_position(
    profiles: Seq<ProfileModel>,
    name: Seq<char>,
    controller: Option<Seq<char>>,
) -> Option<int> {
    first_position(profiles, |profile: ProfileModel| profile.answers_to(name, controller))
}

/// The first profile that answers to `name` for `controller`.
pub open spec fn find_profile(
    profiles: Seq<ProfileModel>,
    name: Seq<char>,
    controller: Option<Seq<char>>,
) -> Option<ProfileModel> {
    match profile_position(profiles, name, controller) {
        Some(i) => Some(profiles[i]),
        None => None,
    }
}

} // verus!
