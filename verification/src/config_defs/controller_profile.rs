//! Profiles as they are held in memory.

use crate::config_defs::profile_model::{
    ActionModel, AssignmentModel, ControlModel, DirectControlActionModel, DirectControlModel,
    InputValueModel, KeysActionModel, LinearModel, MomentaryModel, ProfileModel, SyncModeModel,
    ThresholdModel, ToggleModel,
};
use crate::config_defs::profile_model::{expand, lemma_ramp_len};
use crate::search::{lemma_first_position_found, lemma_first_position_none};
use crate::fixed_point::{
    decimal_string, div_round, int_option, lemma_round_div_bound, SCALE, WIDE_SCALE,
};
use crate::text::str_equal;
use crate::views::{lemma_seq_view_push, option_view, seq_view};
use vstd::prelude::*;

verus! {

/// A key sequence with its timing.
#[derive(Debug, PartialEq, Eq)]
pub struct ControllerProfileControlAssignmentKeysAction {
    pub keys: String,
    pub press_time: Option<i32>,
    pub wait_time: Option<i32>,
}

impl View for ControllerProfileControlAssignmentKeysAction {
    type V = KeysActionModel;

    open spec fn view(&self) -> KeysActionModel {
        KeysActionModel {
            keys: self.keys@,
            press_time: int_option(self.press_time),
            wait_time: int_option(self.wait_time),
        }
    }
}

impl Clone for ControllerProfileControlAssignmentKeysAction {
    fn clone(&self) -> (copy: Self)
        ensures
            copy@ == self@,
    {
        ControllerProfileControlAssignmentKeysAction {
            keys: self.keys.clone(),
            press_time: self.press_time,
            wait_time: self.wait_time,
        }
    }
}

/// The range of a target control and how a reading is laid onto it.
#[derive(Debug, Clone, Copy, PartialEq, Eq)]
pub struct ControllerProfileDirectControlAssignmentInputValue {
    pub min: i32,
    pub max: i32,
    pub step: Option<i32>,
    pub invert: Option<bool>,
}

impl View for ControllerProfileDirectControlAssignmentInputValue {
    type V = InputValueModel;

    open spec fn view(&self) -> InputValueModel {
        InputValueModel {
            min: self.min as int,
            max: self.max as int,
            step: int_option(self.step),
            invert: self.invert,
        }
    }
}

/// Follows a control of the target with key presses.
#[derive(Debug, PartialEq, Eq)]
pub struct ControllerProfileDirectControAssignmentSyncMode {
    pub identifier: String,
    pub action_increase: ControllerProfileControlAssignmentKeysAction,
    pub action_decrease: ControllerProfileControlAssignmentKeysAction,
}

impl View for ControllerProfileDirectControAssignmentSyncMode {
    type V = SyncModeModel;

    open spec fn view(&self) -> SyncModeModel {
        SyncModeModel {
            identifier: self.identifier@,
            action_increase: self.action_increase@,
            action_decrease: self.action_decrease@,
        }
    }
}

impl Clone for ControllerProfileDirectControAssignmentSyncMode {
    fn clone(&self) -> (copy: Self)
        ensures
            copy@ == self@,
    {
        ControllerProfileDirectControAssignmentSyncMode {
            identifier: self.identifier.clone(),
            action_increase: self.action_increase.clone(),
            action_decrease: self.action_decrease.clone(),
        }
    }
}

/// Sends every reading to a control of the target.
#[derive(Debug, PartialEq, Eq)]
pub struct ControllerProfileDirectControlAssignment {
    pub controls: String,
    pub input_value: ControllerProfileDirectControlAssignmentInputValue,
}

impl View for ControllerProfileDirectControlAssignment {
    type V = DirectControlModel;

    open spec fn view(&self) -> DirectControlModel {
        DirectControlModel { controls: self.controls@, input_value: self.input_value@ }
    }
}

impl Clone for ControllerProfileDirectControlAssignment {
    fn clone(&self) -> (copy: Self)
        ensures
            copy@ == self@,
    {
        ControllerProfileDirectControlAssignment {
            controls: self.controls.clone(),
            input_value: self.input_value,
        }
    }
}

/// An absolute value for a control of the target.
#[derive(Debug, PartialEq, Eq)]
pub struct ControllerProfileControlAssignmentDirectControlAction {
    pub controls: String,
    pub value: i32,
}

impl View for ControllerProfileControlAssignmentDirectControlAction {
    type V = DirectControlActionModel;

    open spec fn view(&self) -> DirectControlActionModel {
        DirectControlActionModel { controls: self.controls@, value: self.value as int }
    }
}

impl Clone for ControllerProfileControlAssignmentDirectControlAction {
    fn clone(&self) -> (copy: Self)
        ensures
            copy@ == self@,
    {
        ControllerProfileControlAssignmentDirectControlAction {
            controls: self.controls.clone(),
            value: self.value,
        }
    }
}

/// What an assignment triggers.
#[derive(Debug, PartialEq, Eq)]
pub enum ControllerProfileControlAssignmentAction {
    Keys(ControllerProfileControlAssignmentKeysAction),
    DirectControl(ControllerProfileControlAssignmentDirectControlAction),
}

impl View for ControllerProfileControlAssignmentAction {
    type V = ActionModel;

    open spec fn view(&self) -> ActionModel {
        match self {
            ControllerProfileControlAssignmentAction::Keys(action) => ActionModel::Keys(action@),
            ControllerProfileControlAssignmentAction::DirectControl(action) => {
                ActionModel::DirectControl(action@)
            },
        }
    }
}

impl Clone for ControllerProfileControlAssignmentAction {
    fn clone(&self) -> (copy: Self)
        ensures
            copy@ == self@,
    {
        match self {
            ControllerProfileControlAssignmentAction::Keys(action) => {
                ControllerProfileControlAssignmentAction::Keys(action.clone())
            },
            ControllerProfileControlAssignmentAction::DirectControl(action) => {
                ControllerProfileControlAssignmentAction::DirectControl(action.clone())
            },
        }
    }
}

fn clone_optional_action(action: &Option<ControllerProfileControlAssignmentAction>) -> (copy:
    Option<ControllerProfileControlAssignmentAction>)
    ensures
        option_view(copy) == option_view(*action),
{
    match action {
        Some(action) => Some(action.clone()),
        None => None,
    }
}

/// Fires one of two actions in turn each time the reading reaches the
/// threshold.
#[derive(Debug, PartialEq, Eq)]
pub struct ControllerProfileControlToggleAssignment {
    pub threshold: i32,
    pub action_activate: ControllerProfileControlAssignmentAction,
    pub action_deactivate: ControllerProfileControlAssignmentAction,
}

impl View for ControllerProfileControlToggleAssignment {
    type V = ToggleModel;

    open spec fn view(&self) -> ToggleModel {
        ToggleModel {
            threshold: self.threshold as int,
            action_activate: self.action_activate@,
            action_deactivate: self.action_deactivate@,
        }
    }
}

impl Clone for ControllerProfileControlToggleAssignment {
    fn clone(&self) -> (copy: Self)
        ensures
            copy@ == self@,
    {
        ControllerProfileControlToggleAssignment {
            threshold: self.threshold,
            action_activate: self.action_activate.clone(),
            action_deactivate: self.action_deactivate.clone(),
        }
    }
}

/// Fires one action while the reading is at or above the threshold.
#[derive(Debug, PartialEq, Eq)]
pub struct ControllerProfileControlMomentaryAssignment {
    pub threshold: i32,
    pub action_activate: ControllerProfileControlAssignmentAction,
    pub action_deactivate: Option<ControllerProfileControlAssignmentAction>,
}

impl View for ControllerProfileControlMomentaryAssignment {
    type V = MomentaryModel;

    open spec fn view(&self) -> MomentaryModel {
        MomentaryModel {
            threshold: self.threshold as int,
            action_activate: self.action_activate@,
            action_deactivate: option_view(self.action_deactivate),
        }
    }
}

impl Clone for ControllerProfileControlMomentaryAssignment {
    fn clone(&self) -> (copy: Self)
        ensures
            copy@ == self@,
    {
        ControllerProfileControlMomentaryAssignment {
            threshold: self.threshold,
            action_activate: self.action_activate.clone(),
            action_deactivate: clone_optional_action(&self.action_deactivate),
        }
    }
}

/// One threshold of a linear assignment, or a ramp of them.
#[derive(Debug, PartialEq, Eq)]
pub struct ControllerProfileControlLinearAssignmentThreshold {
    pub value: i32,
    pub value_end: Option<i32>,
    pub value_step: Option<i32>,
    pub action_activate: ControllerProfileControlAssignmentAction,
    pub action_deactivate: Option<ControllerProfileControlAssignmentAction>,
}

impl View for ControllerProfileControlLinearAssignmentThreshold {
    type V = ThresholdModel;

    open spec fn view(&self) -> ThresholdModel {
        ThresholdModel {
            value: self.value as int,
            value_end: int_option(self.value_end),
            value_step: int_option(self.value_step),
            action_activate: self.action_activate@,
            action_deactivate: option_view(self.action_deactivate),
        }
    }
}

impl Clone for ControllerProfileControlLinearAssignmentThreshold {
    fn clone(&self) -> (copy: Self)
        ensures
            copy@ == self@,
    {
        ControllerProfileControlLinearAssignmentThreshold {
            value: self.value,
            value_end: self.value_end,
            value_step: self.value_step,
            action_activate: self.action_activate.clone(),
            action_deactivate: clone_optional_action(&self.action_deactivate),
        }
    }
}

/// Fires the actions of every threshold that a reading crosses.
#[derive(Debug, PartialEq, Eq)]
pub struct ControllerProfileControlLinearAssignment {
    pub neutral: Option<i32>,
    pub thresholds: Vec<ControllerProfileControlLinearAssignmentThreshold>,
}

impl View for ControllerProfileControlLinearAssignment {
    type V = LinearModel;

    open spec fn view(&self) -> LinearModel {
        LinearModel { neutral: int_option(self.neutral), thresholds: seq_view(self.thresholds@) }
    }
}

impl Clone for ControllerProfileControlLinearAssignment {
    fn clone(&self) -> (copy: Self)
        ensures
            copy@ == self@,
    {
        let thresholds = self.thresholds.clone();
        assert(seq_view(thresholds@) =~= seq_view(self.thresholds@));
        ControllerProfileControlLinearAssignment { neutral: self.neutral, thresholds }
    }
}

/// The rule bound to a control.
#[derive(Debug, PartialEq, Eq)]
pub enum ControllerProfileControlAssignment {
    Momentary(ControllerProfileControlMomentaryAssignment),
    Linear(ControllerProfileControlLinearAssignment),
    Toggle(ControllerProfileControlToggleAssignment),
    DirectControl(ControllerProfileDirectControlAssignment),
    SyncControl(ControllerProfileDirectControAssignmentSyncMode),
}

impl View for ControllerProfileControlAssignment {
    type V = AssignmentModel;

    open spec fn view(&self) -> AssignmentModel {
        match self {
            ControllerProfileControlAssignment::Momentary(a) => AssignmentModel::Momentary(a@),
            ControllerProfileControlAssignment::Linear(a) => AssignmentModel::Linear(a@),
            ControllerProfileControlAssignment::Toggle(a) => AssignmentModel::Toggle(a@),
            ControllerProfileControlAssignment::DirectControl(a) => AssignmentModel::DirectControl(
                a@,
            ),
            ControllerProfileControlAssignment::SyncControl(a) => AssignmentModel::SyncControl(a@),
        }
    }
}

impl Clone for ControllerProfileControlAssignment {
    fn clone(&self) -> (copy: Self)
        ensures
            copy@ == self@,
    {
        match self {
            ControllerProfileControlAssignment::Momentary(a) => {
                ControllerProfileControlAssignment::Momentary(a.clone())
            },
            ControllerProfileControlAssignment::Linear(a) => {
                ControllerProfileControlAssignment::Linear(a.clone())
            },
            ControllerProfileControlAssignment::Toggle(a) => {
                ControllerProfileControlAssignment::Toggle(a.clone())
            },
            ControllerProfileControlAssignment::DirectControl(a) => {
                ControllerProfileControlAssignment::DirectControl(a.clone())
            },
            ControllerProfileControlAssignment::SyncControl(a) => {
                ControllerProfileControlAssignment::SyncControl(a.clone())
            },
        }
    }
}

/// A named control with its rules.
#[derive(Debug, PartialEq, Eq)]
pub struct ControllerProfileControl {
    pub name: String,
    pub assignment: Option<ControllerProfileControlAssignment>,
    pub assignments: Option<Vec<ControllerProfileControlAssignment>>,
}

impl View for ControllerProfileControl {
    type V = ControlModel;

    open spec fn view(&self) -> ControlModel {
        ControlModel {
            name: self.name@,
            assignment: option_view(self.assignment),
            assignments: match self.assignments {
                Some(list) => Some(seq_view(list@)),
                None => None,
            },
        }
    }
}

impl ControllerProfileControl {
    /// The rules of the control in the order in which they are evaluated.
    pub fn rules(&self) -> (rules: Vec<&ControllerProfileControlAssignment>)
        ensures
            seq_view(rules@) == self@.rules(),
    {
        let mut rules: Vec<&ControllerProfileControlAssignment> = Vec::new();
        match &self.assignments {
            Some(list) => {
                let mut i: usize = 0;
                while i < list.len()
                    invariant
                        i <= list.len(),
                        seq_view(rules@) == seq_view(list@).take(i as int),
                    decreases list.len() - i,
                {
                    proof {
                        lemma_seq_view_push(rules@, &list[i as int]);
                    }
                    rules.push(&list[i]);
                    assert(seq_view(rules@) =~= seq_view(list@).take(i + 1));
                    i += 1;
                }
                assert(seq_view(list@).take(list.len() as int) =~= seq_view(list@));
            },
            None => {
                match &self.assignment {
                    Some(single) => {
                        rules.push(single);
                        assert(seq_view(rules@) =~= seq![single@]);
                    },
                    None => {
                        assert(seq_view(rules@) =~= Seq::empty());
                    },
                }
            },
        }
        rules
    }
}

/// A named set of controls, for one controller or for any.
#[derive(Debug, PartialEq, Eq)]
pub struct ControllerProfile {
    pub name: String,
    pub controls: Vec<ControllerProfileControl>,
    pub controller_id: Option<String>,
}

impl View for ControllerProfile {
    type V = ProfileModel;

    open spec fn view(&self) -> ProfileModel {
        ProfileModel {
            name: self.name@,
            controls: seq_view(self.controls@),
            controller_id: option_view(self.controller_id),
        }
    }
}

impl ControllerProfileControlAssignmentAction {
    /// The text by which this action is compared with another.
    pub fn get_compare_value(&self) -> (text: String)
        ensures
            text@ == self@.compare_value(),
    {
        match self {
            ControllerProfileControlAssignmentAction::Keys(action) => action.keys.clone(),
            ControllerProfileControlAssignmentAction::DirectControl(action) => {
                proof {
                    reveal_strlit(":");
                }
                let mut text = action.controls.clone();
                text.append(":");
                let value = decimal_string(action.value);
                text.append(value.as_str());
                text
            },
        }
    }
}

impl ControllerProfileControlLinearAssignmentThreshold {
    /// Whether the reading `value` has crossed this threshold.
    pub fn is_exceeding_threshold(&self, value: i64) -> (exceeding: bool)
        ensures
            exceeding == self@.is_exceeding(value as int),
    {
        if self.value < 0 {
            value < self.value as i64
        } else {
            value >= self.value as i64
        }
    }

    /// The single threshold at `value` with the actions of this one.
    pub fn point(&self, value: i32) -> (single: Self)
        ensures
            single@ == self@.point(value as int),
    {
        ControllerProfileControlLinearAssignmentThreshold {
            value,
            value_end: None,
            value_step: None,
            action_activate: self.action_activate.clone(),
            action_deactivate: clone_optional_action(&self.action_deactivate),
        }
    }

    /// Appends the thresholds that this one stands for.
    fn push_expanded(&self, thresholds: &mut Vec<ControllerProfileControlLinearAssignmentThreshold>)
        ensures
            seq_view(final(thresholds)@) == seq_view(old(thresholds)@) + self@.expanded(),
    {
        let ghost before = seq_view(thresholds@);
        match (self.value_end, self.value_step) {
            (Some(end), Some(step)) => {
                if step > 0 && self.value <= end {
                    let ghost model = self@;
                    let mut current: i64 = self.value as i64;
                    let ghost mut k: int = 0;
                    while current <= end as i64
                        invariant
                            model == self@,
                            model.is_rising_ramp(),
                            model.value_end == Some(end as int),
                            model.value_step == Some(step as int),
                            0 <= k <= model.ramp_len(),
                            current == model.value + k * step,
                            seq_view(thresholds@) == before + Seq::new(
                                k as nat,
                                |j: int| model.point(model.value + j * step),
                            ),
                        decreases model.ramp_len() - k,
                    {
                        proof {
                            lemma_ramp_len(model, k);
                            assert((k + 1) * step == k * step + step) by (nonlinear_arith);
                        }
                        let single = self.point(current as i32);
                        proof {
                            lemma_seq_view_push(thresholds@, single);
                        }
                        thresholds.push(single);
                        proof {
                            k = k + 1;
                        }
                        current = current + step as i64;
                    }
                    proof {
                        lemma_ramp_len(model, k);
                    }
                } else {
                    let single = self.point(self.value);
                    thresholds.push(single);
                }
            },
            _ => {
                let copy = self.clone();
                thresholds.push(copy);
            },
        }
    }
}

impl ControllerProfileControlLinearAssignment {
    /// The thresholds that the templates of this assignment stand for.
    pub fn generated_thresholds(&self) -> (thresholds: Vec<
        ControllerProfileControlLinearAssignmentThreshold,
    >)
        ensures
            seq_view(thresholds@) == expand(self@.thresholds),
    {
        let mut thresholds: Vec<ControllerProfileControlLinearAssignmentThreshold> = Vec::new();
        let mut i: usize = 0;
        while i < self.thresholds.len()
            invariant
                i <= self.thresholds.len(),
                seq_view(thresholds@) == expand(self@.thresholds.take(i as int)),
            decreases self.thresholds.len() - i,
        {
            proof {
                let templates = self@.thresholds;
                assert(templates.take(i + 1).drop_last() =~= templates.take(i as int));
            }
            self.thresholds[i].push_expanded(&mut thresholds);
            i += 1;
        }
        assert(self@.thresholds.take(self.thresholds.len() as int) =~= self@.thresholds);
        thresholds
    }

    /// A reading measured from the neutral point of this assignment.
    pub fn calculate_neutralized_value(&self, value: i32) -> (neutralized: i64)
        ensures
            neutralized == self@.neutralized(value as int),
    {
        match self.neutral {
            Some(neutral) => {
                if neutral > 0 {
                    let offset: i128 = value as i128 - neutral as i128;
                    let scaled: i128 = offset * WIDE_SCALE;
                    let quotient = div_round(scaled, neutral as i128);
                    quotient as i64
                } else {
                    value as i64
                }
            },
            None => value as i64,
        }
    }
}

impl ControllerProfileDirectControlAssignmentInputValue {
    /// The value sent to the target for the reading `value`.
    pub fn calculate_normal_value(&self, value: i32) -> (normal: i32)
        ensures
            normal == self@.normal_value(value as int),
    {
        let oriented: i128 = match self.invert {
            Some(true) => -(value as i128),
            _ => value as i128,
        };
        let width: i128 = if self.max >= self.min {
            self.max as i128 - self.min as i128
        } else {
            self.min as i128 - self.max as i128
        };
        let lifted: i128 = oriented + WIDE_SCALE;
        assert(-0x1_0000_0000_0000_0000 <= lifted * width <= 0x1_0000_0000_0000_0000)
            by (nonlinear_arith)
            requires
                -0x1_0000_0000 <= lifted <= 0x1_0000_0000,
                0 <= width <= 0x1_0000_0000,
        ;
        let share = div_round(lifted * width, 2 * WIDE_SCALE);
        let mapped: i128 = self.min as i128 + share;
        let stepped: i128 = match self.step {
            Some(step) => {
                if step == 0 {
                    mapped
                } else {
                    let size: i128 = if step > 0 {
                        step as i128
                    } else {
                        -(step as i128)
                    };
                    let count = div_round(mapped, size);
                    proof {
                        lemma_round_div_bound(mapped as int, size as int);
                    }
                    count * size
                }
            },
            None => mapped,
        };
        if stepped < self.min as i128 {
            self.min
        } else if stepped > self.max as i128 {
            self.max
        } else {
            stepped as i32
        }
    }
}

impl ControllerProfile {
    /// The first control of that name.
    pub fn find_control(&self, name: &str) -> (found: Option<&ControllerProfileControl>)
        ensures
            option_view(found) == self@.find_control(name@),
    {
        let ghost wanted = |control: ControlModel| control.name == name@;
        let mut i: usize = 0;
        while i < self.controls.len()
            invariant
                i <= self.controls.len(),
                wanted == |control: ControlModel| control.name == name@,
                forall|j: int| 0 <= j < i ==> !wanted(#[trigger] self@.controls[j]),
            decreases self.controls.len() - i,
        {
            if str_equal(self.controls[i].name.as_str(), name) {
                proof {
                    lemma_first_position_found(self@.controls, wanted, i as int);
                }
                return Some(&self.controls[i]);
            }
            i += 1;
        }
        proof {
            lemma_first_position_none(self@.controls, wanted);
        }
        None
    }
}

} // verus!
