//! What holds of every profile: laws of expansion, of the value sent to a
//! target control, and of finding a control by name.

use crate::config_defs::profile_model::{
    control_position, expand, lemma_ramp_len, profile_position, ControlModel, InputValueModel,
    LinearModel, ProfileModel, ThresholdModel,
};
use crate::search::lemma_first_position;
use crate::fixed_point::{
    clamp, lemma_round_div_exact, lemma_round_div_nearest, magnitude, round_div, SCALE,
};
use vstd::prelude::*;

verus! {

/// Expansion depends on the templates alone: the same templates give the
/// same thresholds.
pub proof fn lemma_expand_is_a_function(a: Seq<ThresholdModel>, b: Seq<ThresholdModel>)
    requires
        a =~= b,
    ensures
        expand(a) == expand(b),
{
}

/// A rising ramp stands for `ramp_len` points. The point at position `k`
/// lies `k` steps after the start and not beyond the end; one step after
/// the last point lies beyond the end.
pub proof fn lemma_rising_ramp_points(t: ThresholdModel, k: int)
    requires
        t.is_rising_ramp(),
        0 <= k < t.ramp_len(),
    ensures
        t.expanded().len() == t.ramp_len(),
        t.expanded()[k] == t.point(t.value + k * t.value_step->0),
        t.value <= t.expanded()[k].value <= t.value_end->0,
        t.value + t.ramp_len() * t.value_step->0 > t.value_end->0,
{
    lemma_ramp_len(t, k);
    lemma_ramp_len(t, t.ramp_len() as int);
}

/// A ramp that cannot be walked, because its step is zero or negative or
/// its end lies below its start, stands for its starting point alone.
pub proof fn lemma_malformed_ramp_is_one_point(t: ThresholdModel)
    requires
        t.is_ramp(),
        t.value_step->0 <= 0 || t.value_end->0 < t.value,
    ensures
        t.expanded() == seq![t.point(t.value)],
{
}

/// The thresholds of two lists in a row are those of the first list and
/// then those of the second.
pub proof fn lemma_expand_concat(a: Seq<ThresholdModel>, b: Seq<ThresholdModel>)
    ensures
        expand(a + b) == expand(a) + expand(b),
    decreases b.len(),
{
    if b.len() > 0 {
        assert((a + b).drop_last() =~= a + b.drop_last());
        lemma_expand_concat(a, b.drop_last());
    }
}

/// No threshold that comes out of an expansion is a ramp.
pub proof fn lemma_expand_leaves_no_ramp(templates: Seq<ThresholdModel>, i: int)
    requires
        0 <= i < expand(templates).len(),
    ensures
        !expand(templates)[i].is_ramp(),
    decreases templates.len(),
{
    if templates.len() > 0 {
        let front = expand(templates.drop_last());
        if i < front.len() {
            lemma_expand_leaves_no_ramp(templates.drop_last(), i);
        }
    }
}

/// A list without ramps is its own expansion.
pub proof fn lemma_expand_without_ramps(templates: Seq<ThresholdModel>)
    requires
        forall|i: int| 0 <= i < templates.len() ==> !(#[trigger] templates[i]).is_ramp(),
    ensures
        expand(templates) == templates,
    decreases templates.len(),
{
    if templates.len() > 0 {
        lemma_expand_without_ramps(templates.drop_last());
    }
}

/// Expanding what was expanded changes nothing.
pub proof fn lemma_expand_idempotent(templates: Seq<ThresholdModel>)
    ensures
        expand(expand(templates)) == expand(templates),
{
    let once = expand(templates);
    assert forall|i: int| 0 <= i < once.len() implies !(#[trigger] once[i]).is_ramp() by {
        lemma_expand_leaves_no_ramp(templates, i);
    }
    lemma_expand_without_ramps(once);
}

/// Without a positive neutral point a reading is taken as it is; with one,
/// the neutral point itself reads as zero and twice the neutral point as
/// one.
pub proof fn lemma_neutralized_marks(linear: LinearModel)
    ensures
        linear.neutral is None || linear.neutral->0 <= 0 ==> forall|value: int|
            #[trigger] linear.neutralized(value) == value,
        linear.neutral is Some && linear.neutral->0 > 0 ==> {
            &&& linear.neutralized(linear.neutral->0) == 0
            &&& linear.neutralized(2 * linear.neutral->0) == SCALE
        },
{
    if linear.neutral is Some && linear.neutral->0 > 0 {
        let n = linear.neutral->0;
        lemma_round_div_exact(0, n);
        lemma_round_div_exact(SCALE as int, n);
    }
}

/// On a range that is not empty the value sent lies in the range. Where a
/// positive step is set, the value sent is an end of the range or the
/// multiple of the step that is nearest to where the reading falls on the
/// range.
pub proof fn lemma_normal_value_in_range(input: InputValueModel, raw: int)
    requires
        input.min <= input.max,
    ensures
        input.min <= input.normal_value(raw) <= input.max,
        input.step is Some && input.step->0 > 0 ==> {
            ||| input.normal_value(raw) == input.min
            ||| input.normal_value(raw) == input.max
            ||| {
                &&& input.normal_value(raw) == round_div(input.mapped(raw), input.step->0)
                    * input.step->0
                &&& 2 * magnitude(input.normal_value(raw) - input.mapped(raw)) <= input.step->0
            }
        },
        input.step is None ==> input.normal_value(raw) == clamp(
            input.mapped(raw),
            input.min,
            input.max,
        ),
{
    if input.step is Some && input.step->0 > 0 {
        lemma_round_div_nearest(input.mapped(raw), input.step->0);
    }
}

/// On a range whose bounds are multiples of its step, every value sent is
/// a multiple of the step.
pub proof fn lemma_normal_value_is_a_multiple(input: InputValueModel, raw: int)
    requires
        input.min <= input.max,
        input.step is Some,
        input.step->0 > 0,
        input.min % input.step->0 == 0,
        input.max % input.step->0 == 0,
    ensures
        input.normal_value(raw) % input.step->0 == 0,
{
    let step = input.step->0;
    vstd::arithmetic::div_mod::lemma_mod_multiples_basic(
        round_div(input.mapped(raw), step),
        step,
    );
}

/// A reading at the low end of the input range falls on the low end of the
/// target range, one at the high end on the high end; where the assignment
/// inverts, the other way round.
pub proof fn lemma_mapped_ends(input: InputValueModel)
    requires
        input.min <= input.max,
    ensures
        input.invert == Some(true) ==> input.mapped(SCALE as int) == input.min && input.mapped(
            -SCALE,
        ) == input.max,
        input.invert != Some(true) ==> input.mapped(-SCALE) == input.min && input.mapped(
            SCALE as int,
        ) == input.max,
{
    let width = input.max - input.min;
    lemma_round_div_exact(0, 2 * SCALE);
    lemma_round_div_exact(width, 2 * SCALE);
    assert((SCALE + SCALE) * width == width * (2 * SCALE)) by (nonlinear_arith);
    assert((-SCALE + SCALE) * width == 0 * (2 * SCALE)) by (nonlinear_arith);
}

/// The range from minus one to one, not inverted and without a step, sends
/// every reading of the input range as it is.
pub proof fn lemma_normal_value_round_trip(input: InputValueModel, raw: int)
    requires
        input.min == -SCALE,
        input.max == SCALE,
        input.invert != Some(true),
        input.step is None,
        -SCALE <= raw <= SCALE,
    ensures
        input.normal_value(raw) == raw,
{
    lemma_round_div_exact(raw + SCALE, 2 * SCALE);
}

/// The control that is found is the first of that name: it has the name
/// and no control before it has. None is found only where no control has
/// the name.
pub proof fn lemma_control_position_is_first(controls: Seq<ControlModel>, name: Seq<char>)
    ensures
        match control_position(controls, name) {
            Some(i) => {
                &&& 0 <= i < controls.len()
                &&& controls[i].name == name
                &&& forall|j: int| 0 <= j < i ==> (#[trigger] controls[j]).name != name
            },
            None => forall|j: int| 0 <= j < controls.len() ==> (#[trigger] controls[j]).name != name,
        },
{
    lemma_first_position(controls, |control: ControlModel| control.name == name);
}

/// The profile that is found is the first that answers to the name for the
/// controller. None is found only where no profile answers.
pub proof fn lemma_profile_position_is_first(
    profiles: Seq<ProfileModel>,
    name: Seq<char>,
    controller: Option<Seq<char>>,
)
    ensures
        match profile_position(profiles, name, controller) {
            Some(i) => {
                &&& 0 <= i < profiles.len()
                &&& profiles[i].answers_to(name, controller)
                &&& forall|j: int|
                    0 <= j < i ==> !(#[trigger] profiles[j]).answers_to(name, controller)
            },
            None => forall|j: int|
                0 <= j < profiles.len() ==> !(#[trigger] profiles[j]).answers_to(name, controller),
        },
{
    lemma_first_position(profiles, |profile: ProfileModel| profile.answers_to(name, controller));
}

} // verus!
