//! What holds of every runner: laws of the edges, of the toggle, of the
//! linear cascade and of a reading taken twice.

use crate::config_defs::profile_model::{
    ActionModel, AssignmentModel, LinearModel, MomentaryModel, ThresholdModel, ToggleModel,
};
use crate::controller_manager::{ChangeEventModel, ControlStateModel};
use crate::runner_model::{
    calls_for, cascade, deactivation, edge, unwinding, CallActionModel, CallModel, Edge,
    ProfileRunnerModel,
};
use vstd::prelude::*;

verus! {

/// A call compares as the action that it performs, and a release compares
/// as the call that it lets go.
pub proof fn lemma_compare_value_of_calls(action: ActionModel, call: CallActionModel)
    ensures
        action.pressed().compare_value() == action.compare_value(),
        call.released() is Some ==> call.released()->0.compare_value() == call.compare_value(),
{
}

/// After a call made at or above a threshold no reading makes a rising
/// edge; after a call made below it no reading makes a falling edge.
pub proof fn lemma_edges_take_turns(threshold: int, last: CallModel, value: int)
    ensures
        last.control_state.value >= threshold ==> edge(threshold, Some(last), value)
            != Edge::Rising,
        last.control_state.value < threshold ==> edge(threshold, Some(last), value)
            != Edge::Falling,
{
}

/// A momentary assignment activates on a rising edge only: once a call was
/// made at or above the threshold, a reading causes the deactivation where
/// it lies below the threshold and nothing else.
pub proof fn lemma_momentary_activates_once(
    momentary: MomentaryModel,
    last: CallModel,
    state: ControlStateModel,
)
    requires
        last.control_state.value >= momentary.threshold,
    ensures
        momentary.action_for(Some(last), state) == if state.value < momentary.threshold {
            deactivation(momentary.action_activate, momentary.action_deactivate)
        } else {
            None
        },
{
}

/// A momentary assignment is silent for a reading for which a call is on
/// record already.
pub proof fn lemma_momentary_reading_repeated(
    momentary: MomentaryModel,
    last: CallModel,
    state: ControlStateModel,
)
    requires
        last.control_state.value == state.value,
    ensures
        momentary.action_for(Some(last), state) is None,
{
}

/// A toggle is silent for a reading below its threshold for which a call
/// is on record already.
pub proof fn lemma_toggle_reading_repeated(
    toggle: ToggleModel,
    last: CallModel,
    state: ControlStateModel,
)
    requires
        last.control_state.value == state.value,
        state.value < toggle.threshold,
    ensures
        toggle.action_for(Some(last), state) is None,
{
}

/// A toggle never passes over a reading at or above its threshold: each of
/// them causes the call of the action whose turn it is.
pub proof fn lemma_toggle_always_fires(
    toggle: ToggleModel,
    last: Option<CallModel>,
    state: ControlStateModel,
)
    requires
        state.value >= toggle.threshold,
    ensures
        toggle.action_for(last, state) == Some(toggle.turn(last).pressed()),
        toggle.turn(last) == toggle.action_activate || toggle.turn(last)
            == toggle.action_deactivate,
{
}

/// A toggle whose two actions compare differently takes turns: the first
/// reading at or above the threshold performs the activating action; after a
/// call of one action, or of its release, the next such reading performs
/// the other.
pub proof fn lemma_toggle_takes_turns(toggle: ToggleModel, last: CallModel)
    requires
        toggle.action_activate.compare_value() != toggle.action_deactivate.compare_value(),
    ensures
        toggle.turn(None) == toggle.action_activate,
        last.action == toggle.action_activate.pressed() || Some(last.action)
            == toggle.action_activate.released() ==> toggle.turn(Some(last))
            == toggle.action_deactivate,
        last.action == toggle.action_deactivate.pressed() || Some(last.action)
            == toggle.action_deactivate.released() ==> toggle.turn(Some(last))
            == toggle.action_activate,
{
}

/// The counts of a linear assignment do not exceed the number of
/// thresholds that count.
pub proof fn lemma_linear_counts(
    linear: LinearModel,
    last: Option<CallModel>,
    state: ControlStateModel,
    neutralize_initial: bool,
)
    ensures
        linear.exceeding(state) <= linear.side(state).len(),
        linear.passed(last, state, neutralize_initial) <= linear.side(state).len(),
{
}

/// A reading that has crossed more thresholds than were crossed before
/// causes one activation for each threshold newly crossed, in rising order
/// of position.
pub proof fn lemma_linear_cascade(
    linear: LinearModel,
    last: Option<CallModel>,
    state: ControlStateModel,
    neutralize_initial: bool,
    k: int,
)
    requires
        linear.exceeding(state) > linear.passed(last, state, neutralize_initial),
        0 <= k < linear.exceeding(state) - linear.passed(last, state, neutralize_initial),
    ensures
        linear.actions_for(last, state, neutralize_initial).len() == linear.exceeding(state)
            - linear.passed(last, state, neutralize_initial),
        linear.actions_for(last, state, neutralize_initial)[k] == linear.side(state)[linear.passed(
            last,
            state,
            neutralize_initial,
        ) + k].activation(),
{
}

/// The deactivations of thresholds that all have one are as many as the
/// thresholds, last to first.
pub proof fn lemma_unwinding_order(thresholds: Seq<ThresholdModel>, k: int)
    requires
        forall|i: int| 0 <= i < thresholds.len() ==> (#[trigger] thresholds[i]).deactivation() is Some,
        0 <= k < thresholds.len(),
    ensures
        unwinding(thresholds).len() == thresholds.len(),
        unwinding(thresholds)[k] == thresholds[thresholds.len() - 1 - k].deactivation()->0,
{
    let falling = thresholds.reverse();
    let ending = |t: ThresholdModel| t.deactivation();
    assert forall|n: int| 0 <= n <= falling.len() implies {
        &&& (#[trigger] falling.take(n)).filter_map(ending).len() == n
        &&& forall|j: int|
            0 <= j < n ==> falling.take(n).filter_map(ending)[j] == ending(falling[j])->0
    } by {
        lemma_filter_map_of_some(falling, ending, n);
    }
}

/// Where `f` gives a value for each of the first `n` items, `filter_map`
/// keeps them all.
proof fn lemma_filter_map_of_some(
    items: Seq<ThresholdModel>,
    f: spec_fn(ThresholdModel) -> Option<CallActionModel>,
    n: int,
)
    requires
        0 <= n <= items.len(),
        forall|i: int| 0 <= i < items.len() ==> f(#[trigger] items[i]) is Some,
    ensures
        items.take(n).filter_map(f).len() == n,
        forall|j: int| 0 <= j < n ==> items.take(n).filter_map(f)[j] == f(items[j])->0,
    decreases n,
{
    if n > 0 {
        lemma_filter_map_of_some(items, f, n - 1);
        items.lemma_filter_map_take_succ(f, n - 1);
    }
}

/// A reading that has crossed fewer thresholds than were crossed before
/// causes, where each of them has a deactivation, one deactivation for each
/// threshold no longer crossed, in falling order of position.
pub proof fn lemma_linear_unwinding(
    linear: LinearModel,
    last: Option<CallModel>,
    state: ControlStateModel,
    neutralize_initial: bool,
    k: int,
)
    requires
        linear.exceeding(state) < linear.passed(last, state, neutralize_initial),
        0 <= k < linear.passed(last, state, neutralize_initial) - linear.exceeding(state),
        forall|i: int|
            linear.exceeding(state) <= i < linear.passed(last, state, neutralize_initial) ==> (
            #[trigger] linear.side(state)[i]).deactivation() is Some,
    ensures
        linear.actions_for(last, state, neutralize_initial).len() == linear.passed(
            last,
            state,
            neutralize_initial,
        ) - linear.exceeding(state),
        linear.actions_for(last, state, neutralize_initial)[k] == linear.side(state)[linear.passed(
            last,
            state,
            neutralize_initial,
        ) - 1 - k].deactivation()->0,
{
    let exceeding = linear.exceeding(state) as int;
    let passed = linear.passed(last, state, neutralize_initial) as int;
    let part = linear.side(state).subrange(exceeding, passed);
    lemma_unwinding_order(part, k);
}

/// A linear assignment is silent for a reading for which a call is on
/// record already.
pub proof fn lemma_linear_reading_repeated(
    linear: LinearModel,
    last: CallModel,
    state: ControlStateModel,
    neutralize_initial: bool,
)
    requires
        last.control_state.value == state.value,
    ensures
        linear.actions_for(Some(last), state, neutralize_initial) == Seq::<
            CallActionModel,
        >::empty(),
{
}

/// Whether an assignment comes to rest at a reading: it causes nothing for
/// a reading for which a call is on record already. A momentary and a
/// linear assignment always do, a toggle does below its threshold, a
/// direct-control assignment never does.
pub open spec fn comes_to_rest(assignment: AssignmentModel, state: ControlStateModel) -> bool {
    match assignment {
        AssignmentModel::Momentary(_) => true,
        AssignmentModel::Linear(_) => true,
        AssignmentModel::Toggle(toggle) => state.value < toggle.threshold,
        AssignmentModel::DirectControl(_) => false,
        AssignmentModel::SyncControl(_) => true,
    }
}

/// Rules that come to rest at a reading cause nothing for it once a call
/// for that reading is on record.
pub proof fn lemma_rules_at_rest(
    rules: Seq<AssignmentModel>,
    name: Seq<char>,
    last: CallModel,
    state: ControlStateModel,
    neutralize_initial: bool,
)
    requires
        last.control_state.value == state.value,
        forall|i: int| 0 <= i < rules.len() ==> comes_to_rest(#[trigger] rules[i], state),
    ensures
        calls_for(rules, name, Some(last), state, neutralize_initial) == Seq::<CallModel>::empty(),
    decreases rules.len(),
{
    if rules.len() > 0 {
        lemma_rules_at_rest(rules.drop_last(), name, last, state, neutralize_initial);
    }
}

/// Every call that a reading causes is a call for the control and the
/// reading of the event.
pub proof fn lemma_calls_carry_the_event(runner: ProfileRunnerModel, event: ChangeEventModel, i: int)
    requires
        0 <= i < runner.calls(event).len(),
    ensures
        runner.calls(event)[i].control_name == event.control_name,
        runner.calls(event)[i].control_state == event.control_state,
{
    crate::runner_model::lemma_calls_are_for_the_control(
        runner.control_for(event)->0.rules(),
        event.control_name,
        runner.last_call(event.control_name),
        event.control_state,
        runner.neutralize_initial_value,
        i,
    );
}

/// A reading taken twice causes nothing the second time, where the rules
/// of its control all come to rest at it. This holds of every momentary
/// and linear assignment, and of a toggle for a reading below its
/// threshold.
pub proof fn lemma_reading_repeated(runner: ProfileRunnerModel, event: ChangeEventModel)
    requires
        runner.control_for(event) is Some ==> forall|i: int|
            0 <= i < runner.control_for(event)->0.rules().len() ==> comes_to_rest(
                #[trigger] runner.control_for(event)->0.rules()[i],
                event.control_state,
            ),
    ensures
        runner.after(event).calls(event) == Seq::<CallModel>::empty(),
        runner.after(event).after(event) == runner.after(event),
{
    let calls = runner.calls(event);
    if calls.len() > 0 {
        lemma_calls_carry_the_event(runner, event, calls.len() - 1);
        lemma_rules_at_rest(
            runner.control_for(event)->0.rules(),
            event.control_name,
            calls.last(),
            event.control_state,
            runner.neutralize_initial_value,
        );
    }
}

/// A reading that has not changed, a reading with no profile in use, and a
/// reading of a control that the profile in use does not hold cause no call
/// and leave the state as it is.
pub proof fn lemma_nothing_to_do(runner: ProfileRunnerModel, event: ChangeEventModel)
    requires
        !event.has_changed || runner.profile_name is None || runner.control_for(event) is None,
    ensures
        runner.calls(event) == Seq::<CallModel>::empty(),
        runner.after(event) == runner,
{
}

/// A reading changes what is on record for its own control at most: the
/// call last made for any other control stays, and so do the profiles, the
/// profile in use and the way the starting reading is taken.
pub proof fn lemma_reading_touches_one_control(
    runner: ProfileRunnerModel,
    event: ChangeEventModel,
    other: Seq<char>,
)
    requires
        other != event.control_name,
    ensures
        runner.after(event).last_call(other) == runner.last_call(other),
        runner.after(event).profiles == runner.profiles,
        runner.after(event).profile_name == runner.profile_name,
        runner.after(event).neutralize_initial_value == runner.neutralize_initial_value,
{
    if runner.calls(event).len() > 0 {
        lemma_calls_carry_the_event(runner, event, runner.calls(event).len() - 1);
    }
}

/// After a reading that causes calls, the last of them is on record for
/// its control.
pub proof fn lemma_last_call_is_on_record(runner: ProfileRunnerModel, event: ChangeEventModel)
    requires
        runner.calls(event).len() > 0,
    ensures
        runner.after(event).last_call(event.control_name) == Some(runner.calls(event).last()),
{
    lemma_calls_carry_the_event(runner, event, runner.calls(event).len() - 1);
}

} // verus!
