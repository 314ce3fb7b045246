//! What is wrong with a profile, as far as it can be told when the profile
//! is loaded. Nothing of this stops a runner: a threshold that cannot be
//! walked counts as its starting point, an empty range sends one of its
//! bounds, a step of zero is left out and a negative step counts by its
//! size.

use crate::config_defs::controller_profile::{
    ControllerProfile, ControllerProfileControl, ControllerProfileControlAssignment,
    ControllerProfileControlLinearAssignmentThreshold,
    ControllerProfileDirectControlAssignmentInputValue,
};
use crate::config_defs::profile_model::{
    AssignmentModel, ControlModel, InputValueModel, ProfileModel, ThresholdModel,
};
use crate::views::{lemma_seq_view_push, seq_view};
use vstd::prelude::*;

verus! {

/// Something in a profile that cannot have been meant.
#[derive(Debug, PartialEq, Eq)]
pub enum ProfileWarning {
    /// A threshold names an end and a step, but its step is zero or
    /// negative, or its end lies below its value.
    MalformedRamp { control: String, assignment: usize, threshold: usize },
    /// The minimum of a target range lies above its maximum.
    EmptyRange { control: String, assignment: usize },
    /// The step of a target range is zero or negative.
    StepNotPositive { control: String, assignment: usize },
}

/// What a [`ProfileWarning`] holds: the control, the position of the
/// assignment among the rules of the control and, for a threshold, its
/// position among the thresholds of the assignment.
pub enum WarningModel {
    MalformedRamp { control: Seq<char>, assignment: int, threshold: int },
    EmptyRange { control: Seq<char>, assignment: int },
    StepNotPositive { control: Seq<char>, assignment: int },
}

impl View for ProfileWarning {
    type V = WarningModel;

    open spec fn view(&self) -> WarningModel {
        match self {
            ProfileWarning::MalformedRamp { control, assignment, threshold } => {
                WarningModel::MalformedRamp {
                    control: control@,
                    assignment: *assignment as int,
                    threshold: *threshold as int,
                }
            },
            ProfileWarning::EmptyRange { control, assignment } => WarningModel::EmptyRange {
                control: control@,
                assignment: *assignment as int,
            },
            ProfileWarning::StepNotPositive { control, assignment } => {
                WarningModel::StepNotPositive { control: control@, assignment: *assignment as int }
            },
        }
    }
}

impl ThresholdModel {
    /// A ramp that cannot be walked.
    pub open spec fn is_malformed_ramp(self) -> bool {
        self.is_ramp() && !self.is_rising_ramp()
    }
}

/// One warning for each threshold that is a malformed ramp, in the order
/// of the thresholds.
pub open spec fn ramp_warnings(
    control: Seq<char>,
    assignment: int,
    thresholds: Seq<ThresholdModel>,
) -> Seq<WarningModel>
    decreases thresholds.len(),
{
    if thresholds.len() == 0 {
        Seq::empty()
    } else {
        ramp_warnings(control, assignment, thresholds.drop_last()) + if thresholds.last().is_malformed_ramp() {
            seq![
                WarningModel::MalformedRamp { control, assignment, threshold: thresholds.len() - 1 },
            ]
        } else {
            Seq::empty()
        }
    }
}

/// The warnings for a target range: one where it is empty, then one where
/// its step is not positive.
pub open spec fn range_warnings(control: Seq<char>, assignment: int, input: InputValueModel) -> Seq<
    WarningModel,
> {
    (if input.min > input.max {
        seq![WarningModel::EmptyRange { control, assignment }]
    } else {
        Seq::empty()
    }) + (if input.step is Some && input.step->0 <= 0 {
        seq![WarningModel::StepNotPositive { control, assignment }]
    } else {
        Seq::empty()
    })
}

impl AssignmentModel {
    /// The warnings for this assignment, which is the rule at `position`
    /// of the control `control`.
    pub open spec fn warnings(self, control: Seq<char>, position: int) -> Seq<WarningModel> {
        match self {
            AssignmentModel::Linear(linear) => ramp_warnings(control, position, linear.thresholds),
            AssignmentModel::DirectControl(direct) => range_warnings(
                control,
                position,
                direct.input_value,
            ),
            _ => Seq::empty(),
        }
    }
}

/// The warnings for the rules of a control, in the order of the rules.
pub open spec fn rule_warnings(control: Seq<char>, rules: Seq<AssignmentModel>) -> Seq<WarningModel>
    decreases rules.len(),
{
    if rules.len() == 0 {
        Seq::empty()
    } else {
        rule_warnings(control, rules.drop_last()) + rules.last().warnings(control, rules.len() - 1)
    }
}

impl ControlModel {
    /// The warnings for this control.
    pub open spec fn warnings(self) -> Seq<WarningModel> {
        rule_warnings(self.name, self.rules())
    }
}

/// The warnings for the controls, in the order of the controls.
pub open spec fn control_warnings(controls: Seq<ControlModel>) -> Seq<WarningModel>
    decreases controls.len(),
{
    if controls.len() == 0 {
        Seq::empty()
    } else {
        control_warnings(controls.drop_last()) + controls.last().warnings()
    }
}

impl ProfileModel {
    /// The warnings for this profile.
    pub open spec fn warnings(self) -> Seq<WarningModel> {
        control_warnings(self.controls)
    }
}

/// Thresholds give no warning exactly where none of them is a malformed
/// ramp.
pub proof fn lemma_ramps_without_warning(
    control: Seq<char>,
    assignment: int,
    thresholds: Seq<ThresholdModel>,
)
    ensures
        ramp_warnings(control, assignment, thresholds).len() == 0 <==> forall|i: int|
            0 <= i < thresholds.len() ==> !(#[trigger] thresholds[i]).is_malformed_ramp(),
    decreases thresholds.len(),
{
    if thresholds.len() > 0 {
        let front = thresholds.drop_last();
        lemma_ramps_without_warning(control, assignment, front);
        assert forall|i: int| 0 <= i < front.len() implies front[i] == thresholds[i] by {}
    }
}

impl ControllerProfileControlLinearAssignmentThreshold {
    /// Whether this threshold is a ramp that cannot be walked.
    pub fn is_malformed_ramp(&self) -> (malformed: bool)
        ensures
            malformed == self@.is_malformed_ramp(),
    {
        match (self.value_end, self.value_step) {
            (Some(end), Some(step)) => !(step > 0 && self.value <= end),
            _ => false,
        }
    }
}

/// Appends the warnings for the thresholds of a linear assignment.
fn push_ramp_warnings(
    warnings: &mut Vec<ProfileWarning>,
    control: &String,
    assignment: usize,
    thresholds: &Vec<ControllerProfileControlLinearAssignmentThreshold>,
)
    ensures
        seq_view(final(warnings)@) == seq_view(old(warnings)@) + ramp_warnings(
            control@,
            assignment as int,
            seq_view(thresholds@),
        ),
{
    let ghost before = seq_view(warnings@);
    let ghost all = seq_view(thresholds@);
    let mut i: usize = 0;
    while i < thresholds.len()
        invariant
            i <= thresholds.len(),
            all == seq_view(thresholds@),
            seq_view(warnings@) == before + ramp_warnings(
                control@,
                assignment as int,
                all.take(i as int),
            ),
        decreases thresholds.len() - i,
    {
        proof {
            assert(all.take(i + 1).drop_last() =~= all.take(i as int));
        }
        if thresholds[i].is_malformed_ramp() {
            let warning = ProfileWarning::MalformedRamp {
                control: control.clone(),
                assignment,
                threshold: i,
            };
            proof {
                lemma_seq_view_push(warnings@, warning);
            }
            warnings.push(warning);
        }
        i += 1;
    }
    assert(all.take(thresholds.len() as int) =~= all);
}

/// Appends the warnings for a target range.
fn push_range_warnings(
    warnings: &mut Vec<ProfileWarning>,
    control: &String,
    assignment: usize,
    input: &ControllerProfileDirectControlAssignmentInputValue,
)
    ensures
        seq_view(final(warnings)@) == seq_view(old(warnings)@) + range_warnings(
            control@,
            assignment as int,
            input@,
        ),
{
    if input.min > input.max {
        warnings.push(ProfileWarning::EmptyRange { control: control.clone(), assignment });
    }
    match input.step {
        Some(step) => {
            if step <= 0 {
                warnings.push(
                    ProfileWarning::StepNotPositive { control: control.clone(), assignment },
                );
            }
        },
        None => {},
    }
}

impl ControllerProfileControl {
    /// Appends the warnings for this control.
    fn push_warnings(&self, warnings: &mut Vec<ProfileWarning>)
        ensures
            seq_view(final(warnings)@) == seq_view(old(warnings)@) + self@.warnings(),
    {
        let ghost before = seq_view(warnings@);
        let rules = self.rules();
        let ghost all = seq_view(rules@);
        let mut i: usize = 0;
        while i < rules.len()
            invariant
                i <= rules.len(),
                all == seq_view(rules@),
                seq_view(warnings@) == before + rule_warnings(self.name@, all.take(i as int)),
            decreases rules.len() - i,
        {
            proof {
                assert(all.take(i + 1).drop_last() =~= all.take(i as int));
            }
            match rules[i] {
                ControllerProfileControlAssignment::Linear(linear) => {
                    push_ramp_warnings(warnings, &self.name, i, &linear.thresholds);
                },
                ControllerProfileControlAssignment::DirectControl(direct) => {
                    push_range_warnings(warnings, &self.name, i, &direct.input_value);
                },
                _ => {},
            }
            i += 1;
        }
        assert(all.take(rules.len() as int) =~= all);
    }
}

impl ControllerProfile {
    /// What is wrong with this profile. The warnings come in the order of
    /// the controls, of their rules and of the thresholds of a rule.
    pub fn warnings(&self) -> (warnings: Vec<ProfileWarning>)
        ensures
            seq_view(warnings@) == self@.warnings(),
    {
        let mut warnings: Vec<ProfileWarning> = Vec::new();
        let ghost all = self@.controls;
        let mut i: usize = 0;
        while i < self.controls.len()
            invariant
                i <= self.controls.len(),
                all == self@.controls,
                seq_view(warnings@) == control_warnings(all.take(i as int)),
            decreases self.controls.len() - i,
        {
            proof {
                assert(all.take(i + 1).drop_last() =~= all.take(i as int));
            }
            self.controls[i].push_warnings(&mut warnings);
            i += 1;
        }
        assert(all.take(self.controls.len() as int) =~= all);
        warnings
    }
}

} // verus!
