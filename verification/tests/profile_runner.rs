use tsw_controller::action_sequencer::ActionSequencerAction;
use tsw_controller::config_defs::controller_profile::{
    ControllerProfile, ControllerProfileControl, ControllerProfileControlAssignment,
    ControllerProfileControlAssignmentAction,
    ControllerProfileControlAssignmentDirectControlAction,
    ControllerProfileControlAssignmentKeysAction, ControllerProfileControlLinearAssignment,
    ControllerProfileControlLinearAssignmentThreshold,
    ControllerProfileControlMomentaryAssignment, ControllerProfileControlToggleAssignment,
    ControllerProfileDirectControAssignmentSyncMode, ControllerProfileDirectControlAssignment,
    ControllerProfileDirectControlAssignmentInputValue,
};
use tsw_controller::config_loader::ConfigLoader;
use tsw_controller::controller_manager::{
    ControllerManagerChangeEvent, ControllerManagerControllerControlState,
};
use tsw_controller::direct_controller::DirectControlCommand;
use tsw_controller::profile_runner::{
    ProfileRunner, ProfileRunnerAssignmentCall, ProfileRunnerAssignmentCallAction,
};

const GUID: &str = "030000004c050000c405000011010000";

fn keys_action(keys: &str) -> ControllerProfileControlAssignmentKeysAction {
    ControllerProfileControlAssignmentKeysAction {
        keys: keys.to_string(),
        press_time: Some(1_000),
        wait_time: None,
    }
}

fn keys(keys: &str) -> ControllerProfileControlAssignmentAction {
    ControllerProfileControlAssignmentAction::Keys(keys_action(keys))
}

fn direct(controls: &str, value: i32) -> ControllerProfileControlAssignmentAction {
    ControllerProfileControlAssignmentAction::DirectControl(
        ControllerProfileControlAssignmentDirectControlAction {
            controls: controls.to_string(),
            value,
        },
    )
}

fn press(keys: &str) -> ProfileRunnerAssignmentCallAction {
    ProfileRunnerAssignmentCallAction::SequencerAction(ActionSequencerAction {
        keys: keys.to_string(),
        press_time: Some(1_000),
        wait_time: None,
        release: Some(false),
    })
}

fn release(keys: &str) -> ProfileRunnerAssignmentCallAction {
    ProfileRunnerAssignmentCallAction::SequencerAction(ActionSequencerAction {
        keys: keys.to_string(),
        press_time: Some(1_000),
        wait_time: None,
        release: Some(true),
    })
}

fn command(controls: &str, input_value: i32) -> ProfileRunnerAssignmentCallAction {
    ProfileRunnerAssignmentCallAction::DirectControlAction(DirectControlCommand {
        controls: controls.to_string(),
        input_value,
    })
}

fn momentary(
    threshold: i32,
    on: ControllerProfileControlAssignmentAction,
    off: Option<ControllerProfileControlAssignmentAction>,
) -> ControllerProfileControlAssignment {
    ControllerProfileControlAssignment::Momentary(ControllerProfileControlMomentaryAssignment {
        threshold,
        action_activate: on,
        action_deactivate: off,
    })
}

fn toggle(
    threshold: i32,
    on: ControllerProfileControlAssignmentAction,
    off: ControllerProfileControlAssignmentAction,
) -> ControllerProfileControlAssignment {
    ControllerProfileControlAssignment::Toggle(ControllerProfileControlToggleAssignment {
        threshold,
        action_activate: on,
        action_deactivate: off,
    })
}

fn step(value: i32, on: &str, off: Option<&str>) -> ControllerProfileControlLinearAssignmentThreshold {
    ControllerProfileControlLinearAssignmentThreshold {
        value,
        value_end: None,
        value_step: None,
        action_activate: keys(on),
        action_deactivate: off.map(keys),
    }
}

fn linear(
    neutral: Option<i32>,
    thresholds: Vec<ControllerProfileControlLinearAssignmentThreshold>,
) -> ControllerProfileControlAssignment {
    ControllerProfileControlAssignment::Linear(ControllerProfileControlLinearAssignment {
        neutral,
        thresholds,
    })
}

fn direct_control(
    controls: &str,
    min: i32,
    max: i32,
    step: Option<i32>,
) -> ControllerProfileControlAssignment {
    ControllerProfileControlAssignment::DirectControl(ControllerProfileDirectControlAssignment {
        controls: controls.to_string(),
        input_value: ControllerProfileDirectControlAssignmentInputValue {
            min,
            max,
            step,
            invert: None,
        },
    })
}

fn one(name: &str, assignment: ControllerProfileControlAssignment) -> ControllerProfileControl {
    ControllerProfileControl {
        name: name.to_string(),
        assignment: Some(assignment),
        assignments: None,
    }
}

fn many(
    name: &str,
    assignments: Vec<ControllerProfileControlAssignment>,
) -> ControllerProfileControl {
    ControllerProfileControl {
        name: name.to_string(),
        assignment: None,
        assignments: Some(assignments),
    }
}

fn profile(name: &str, controls: Vec<ControllerProfileControl>) -> ControllerProfile {
    ControllerProfile { name: name.to_string(), controls, controller_id: None }
}

fn runner_of(controls: Vec<ControllerProfileControl>) -> ProfileRunner {
    let mut runner =
        ProfileRunner::new(ConfigLoader { controller_profiles: vec![profile("loco", controls)] });
    runner.set_profile("loco").unwrap();
    runner
}

fn reading_from(control: &str, value: i32, initial_value: i32) -> ControllerManagerChangeEvent {
    ControllerManagerChangeEvent {
        joystick_guid: GUID.to_string(),
        control_name: control.to_string(),
        control_state: ControllerManagerControllerControlState { value, initial_value },
        has_changed: true,
    }
}

fn reading(control: &str, value: i32) -> ControllerManagerChangeEvent {
    reading_from(control, value, 0)
}

fn actions(calls: Vec<ProfileRunnerAssignmentCall>) -> Vec<ProfileRunnerAssignmentCallAction> {
    calls.into_iter().map(|call| call.action).collect()
}

fn feed(runner: &mut ProfileRunner, control: &str, values: &[i32]) -> Vec<Vec<ProfileRunnerAssignmentCallAction>> {
    values.iter().map(|value| actions(runner.run(reading(control, *value)))).collect()
}

#[test]
fn momentary_fires_on_then_off() {
    let mut runner = runner_of(vec![one("horn", momentary(5_000, keys("h"), Some(keys("j"))))]);
    let fired = feed(&mut runner, "horn", &[4_000, 5_000, 4_000]);
    assert_eq!(fired, vec![vec![], vec![press("h")], vec![press("j")]]);
}

#[test]
fn momentary_without_deactivation_releases_its_keys() {
    let mut runner = runner_of(vec![one("horn", momentary(5_000, keys("h"), None))]);
    let fired = feed(&mut runner, "horn", &[-5_000, 5_000, -5_000]);
    assert_eq!(fired, vec![vec![], vec![press("h")], vec![release("h")]]);
}

#[test]
fn momentary_does_not_fire_while_held() {
    let mut runner = runner_of(vec![one("horn", momentary(5_000, keys("h"), None))]);
    let fired = feed(&mut runner, "horn", &[6_000, 7_000, 10_000, 5_000, 6_000]);
    assert_eq!(fired, vec![vec![press("h")], vec![], vec![], vec![], vec![]]);
    let fired = feed(&mut runner, "horn", &[4_000, 3_000, 0, 4_999]);
    assert_eq!(fired, vec![vec![release("h")], vec![], vec![], vec![]]);
}

#[test]
fn momentary_never_fires_on_twice_in_a_row() {
    let mut runner = runner_of(vec![one("horn", momentary(5_000, keys("h"), Some(keys("j"))))]);
    let fired = feed(&mut runner, "horn", &[5_000, 9_000, 1_000, 2_000, 8_000, 8_500, 0]);
    assert_eq!(
        fired,
        vec![
            vec![press("h")],
            vec![],
            vec![press("j")],
            vec![],
            vec![press("h")],
            vec![],
            vec![press("j")]
        ]
    );
}

#[test]
fn momentary_same_reading_again_fires_nothing() {
    let mut runner = runner_of(vec![one("horn", momentary(5_000, keys("h"), None))]);
    assert_eq!(feed(&mut runner, "horn", &[7_000, 7_000, 7_000]), vec![vec![press("h")], vec![], vec![]]);
    assert_eq!(feed(&mut runner, "horn", &[2_000, 2_000, 2_000]), vec![vec![release("h")], vec![], vec![]]);
}

#[test]
fn momentary_below_threshold_at_first_fires_nothing_and_records_nothing() {
    let mut runner = runner_of(vec![one("horn", momentary(5_000, keys("h"), None))]);
    assert!(runner.run(reading("horn", 1_000)).is_empty());
    assert_eq!(runner.last_call("horn"), None);
}

#[test]
fn momentary_direct_control_fires_its_value_and_cannot_be_released() {
    let mut runner =
        runner_of(vec![one("door", momentary(5_000, direct("Door", 10_000), None))]);
    let fired = feed(&mut runner, "door", &[6_000, 1_000, 6_000]);
    // Nothing is fired on the way down, so nothing is recorded there, and the
    // next reading above the threshold finds the first call still on record.
    assert_eq!(fired, vec![vec![command("Door", 10_000)], vec![], vec![]]);
    assert_eq!(runner.last_call("door").unwrap().control_state.value, 6_000);
}

#[test]
fn momentary_direct_control_with_deactivation_fires_both() {
    let mut runner = runner_of(vec![one(
        "door",
        momentary(5_000, direct("Door", 10_000), Some(direct("Door", 0))),
    )]);
    let fired = feed(&mut runner, "door", &[6_000, 1_000, 6_000]);
    assert_eq!(
        fired,
        vec![vec![command("Door", 10_000)], vec![command("Door", 0)], vec![command("Door", 10_000)]]
    );
}

#[test]
fn toggle_alternates_between_its_two_actions() {
    let mut runner = runner_of(vec![one("lights", toggle(5_000, keys("on"), keys("off")))]);
    let fired = feed(&mut runner, "lights", &[0, 6_000, 0, 6_000, 0, 6_000]);
    assert_eq!(
        fired,
        vec![
            vec![],
            vec![press("on")],
            vec![release("on")],
            vec![press("off")],
            vec![release("off")],
            vec![press("on")]
        ]
    );
}

#[test]
fn toggle_fires_at_every_reading_at_or_above_the_threshold() {
    let mut runner = runner_of(vec![one("lights", toggle(5_000, keys("on"), keys("off")))]);
    let fired = feed(&mut runner, "lights", &[5_000, 6_000, 7_000]);
    assert_eq!(fired, vec![vec![press("on")], vec![press("off")], vec![press("on")]]);
}

#[test]
fn toggle_below_threshold_same_reading_again_fires_nothing() {
    let mut runner = runner_of(vec![one("lights", toggle(5_000, keys("on"), keys("off")))]);
    let fired = feed(&mut runner, "lights", &[6_000, 1_000, 1_000, 1_000]);
    assert_eq!(fired, vec![vec![press("on")], vec![release("on")], vec![], vec![]]);
}

#[test]
fn toggle_with_direct_control_actions_has_nothing_to_release() {
    let mut runner = runner_of(vec![one(
        "pantograph",
        toggle(5_000, direct("Pantograph", 10_000), direct("Pantograph", 0)),
    )]);
    let fired = feed(&mut runner, "pantograph", &[6_000, 0, 6_000, 0, 6_000]);
    assert_eq!(
        fired,
        vec![
            vec![command("Pantograph", 10_000)],
            vec![],
            vec![command("Pantograph", 0)],
            vec![],
            vec![command("Pantograph", 10_000)]
        ]
    );
}

#[test]
fn toggle_with_equal_actions_fires_the_same_action_each_time() {
    let mut runner = runner_of(vec![one("bell", toggle(5_000, keys("b"), keys("b")))]);
    let fired = feed(&mut runner, "bell", &[6_000, 0, 6_000]);
    assert_eq!(fired, vec![vec![press("b")], vec![release("b")], vec![press("b")]]);
}

#[test]
fn toggle_compares_a_direct_control_call_by_control_and_value() {
    // The key action "Door:1" compares equal to the direct-control action
    // that sets Door to one.
    let mut runner =
        runner_of(vec![one("door", toggle(5_000, keys("Door:1"), direct("Door", 10_000)))]);
    let fired = feed(&mut runner, "door", &[6_000, 7_000, 8_000, 9_000]);
    assert_eq!(
        fired,
        vec![
            vec![press("Door:1")],
            vec![command("Door", 10_000)],
            vec![command("Door", 10_000)],
            vec![command("Door", 10_000)]
        ]
    );
}

fn notches() -> ControllerProfileControlAssignment {
    linear(
        None,
        vec![step(0, "a", Some("A")), step(5_000, "b", Some("B")), step(10_000, "c", Some("C"))],
    )
}

#[test]
fn linear_jump_fires_every_threshold_on_the_way_in_rising_order() {
    let mut runner = runner_of(vec![one("throttle", notches())]);
    let fired = actions(runner.run(reading_from("throttle", 10_000, -10_000)));
    assert_eq!(fired, vec![press("a"), press("b"), press("c")]);
}

#[test]
fn linear_counts_thresholds_up_to_the_starting_reading_as_passed() {
    let mut runner = runner_of(vec![one("throttle", notches())]);
    let fired = actions(runner.run(reading_from("throttle", 10_000, 0)));
    assert_eq!(fired, vec![press("b"), press("c")]);
    let mut runner = runner_of(vec![one("throttle", notches())]);
    let fired = actions(runner.run(reading_from("throttle", 10_000, 5_000)));
    assert_eq!(fired, vec![press("c")]);
    let mut runner = runner_of(vec![one("throttle", notches())]);
    assert!(runner.run(reading_from("throttle", 10_000, 10_000)).is_empty());
}

#[test]
fn linear_ramp_fires_once_for_each_point_crossed() {
    let ramp = ControllerProfileControlLinearAssignmentThreshold {
        value: 0,
        value_end: Some(10_000),
        value_step: Some(5_000),
        action_activate: keys("up"),
        action_deactivate: Some(keys("down")),
    };
    let mut runner = runner_of(vec![one("throttle", linear(None, vec![ramp]))]);
    let fired = actions(runner.run(reading_from("throttle", 10_000, -10_000)));
    assert_eq!(fired, vec![press("up"), press("up"), press("up")]);
    let fired = actions(runner.run(reading("throttle", 4_000)));
    assert_eq!(fired, vec![press("down"), press("down")]);
}

#[test]
fn linear_fall_unwinds_in_falling_order() {
    let mut runner = runner_of(vec![one("throttle", notches())]);
    runner.run(reading_from("throttle", 10_000, -10_000));
    let fired = actions(runner.run(reading("throttle", 0)));
    // A reading of zero still meets the threshold at zero.
    assert_eq!(fired, vec![press("C"), press("B")]);
}

#[test]
fn linear_fall_behind_every_threshold_unwinds_them_all() {
    let assignment = linear(
        None,
        vec![step(2_500, "a", Some("A")), step(5_000, "b", Some("B")), step(10_000, "c", Some("C"))],
    );
    let mut runner = runner_of(vec![one("throttle", assignment)]);
    assert_eq!(
        actions(runner.run(reading("throttle", 10_000))),
        vec![press("a"), press("b"), press("c")]
    );
    assert_eq!(
        actions(runner.run(reading("throttle", 0))),
        vec![press("C"), press("B"), press("A")]
    );
}

#[test]
fn linear_without_deactivation_releases_the_keys_of_the_threshold() {
    let assignment =
        linear(None, vec![step(2_500, "a", None), step(5_000, "b", Some("B")), step(7_500, "c", None)]);
    let mut runner = runner_of(vec![one("throttle", assignment)]);
    runner.run(reading("throttle", 10_000));
    assert_eq!(
        actions(runner.run(reading("throttle", 1_000))),
        vec![release("c"), press("B"), release("a")]
    );
}

#[test]
fn linear_direct_control_threshold_without_deactivation_is_skipped_on_the_way_down() {
    let set = |value: i32, level: i32| ControllerProfileControlLinearAssignmentThreshold {
        value,
        value_end: None,
        value_step: None,
        action_activate: direct("Reverser", level),
        action_deactivate: None,
    };
    let assignment = linear(None, vec![set(2_500, 10_000), step(5_000, "b", None), set(7_500, 20_000)]);
    let mut runner = runner_of(vec![one("reverser", assignment)]);
    assert_eq!(
        actions(runner.run(reading("reverser", 10_000))),
        vec![command("Reverser", 10_000), press("b"), command("Reverser", 20_000)]
    );
    assert_eq!(actions(runner.run(reading("reverser", 1_000))), vec![release("b")]);
}

#[test]
fn linear_same_count_fires_nothing() {
    let mut runner = runner_of(vec![one("throttle", notches())]);
    runner.run(reading("throttle", 6_000));
    assert!(runner.run(reading("throttle", 7_000)).is_empty());
    assert!(runner.run(reading("throttle", 5_000)).is_empty());
    // Nothing was fired, so the reading on record is still the first one.
    assert_eq!(runner.last_call("throttle").unwrap().control_state.value, 6_000);
}

#[test]
fn linear_same_reading_again_fires_nothing() {
    let mut runner = runner_of(vec![one("throttle", notches())]);
    let fired = feed(&mut runner, "throttle", &[10_000, 10_000, 10_000]);
    assert_eq!(fired, vec![vec![press("b"), press("c")], vec![], vec![]]);
    let fired = feed(&mut runner, "throttle", &[2_000, 2_000]);
    assert_eq!(fired, vec![vec![press("C"), press("B")], vec![]]);
}

#[test]
fn linear_steps_one_threshold_at_a_time() {
    let mut runner = runner_of(vec![one("throttle", notches())]);
    let fired = feed(&mut runner, "throttle", &[4_000, 5_000, 9_999, 10_000, 9_999, 4_999]);
    assert_eq!(
        fired,
        vec![vec![], vec![press("b")], vec![], vec![press("c")], vec![press("C")], vec![press("B")]]
    );
}

#[test]
fn linear_negative_side_counts_readings_below_the_thresholds() {
    let assignment = linear(
        None,
        vec![
            step(5_000, "up", Some("UP")),
            step(-2_500, "x", Some("X")),
            step(-5_000, "y", Some("Y")),
            step(-7_500, "z", Some("Z")),
        ],
    );
    let mut runner = runner_of(vec![one("brake", assignment)]);
    assert_eq!(actions(runner.run(reading("brake", -6_000))), vec![press("x"), press("y")]);
    assert_eq!(actions(runner.run(reading("brake", -10_000))), vec![press("z")]);
    assert_eq!(actions(runner.run(reading("brake", -2_600))), vec![press("Z"), press("Y")]);
    // At the threshold itself a negative threshold is not crossed.
    assert_eq!(actions(runner.run(reading("brake", -2_500))), vec![press("X")]);
}

#[test]
fn linear_changing_sides_looks_at_the_thresholds_of_the_new_side_only() {
    let assignment =
        linear(None, vec![step(5_000, "up", Some("UP")), step(-5_000, "down", Some("DOWN"))]);
    let mut runner = runner_of(vec![one("lever", assignment)]);
    assert_eq!(actions(runner.run(reading("lever", 6_000))), vec![press("up")]);
    // On the negative side the last reading has crossed nothing, so the
    // threshold above zero is not unwound.
    assert_eq!(actions(runner.run(reading("lever", -6_000))), vec![press("down")]);
    assert_eq!(actions(runner.run(reading("lever", 6_000))), vec![press("up")]);
}

#[test]
fn linear_measures_readings_from_the_neutral_point() {
    let assignment =
        linear(Some(5_000), vec![step(5_000, "half", Some("HALF")), step(10_000, "full", Some("FULL"))]);
    let mut runner = runner_of(vec![one("throttle", assignment)]);
    // 7_500 is half way from the neutral point to twice the neutral point.
    assert_eq!(actions(runner.run(reading_from("throttle", 7_500, 0))), vec![press("half")]);
    assert_eq!(actions(runner.run(reading("throttle", 10_000))), vec![press("full")]);
    assert_eq!(actions(runner.run(reading("throttle", 5_000))), vec![press("FULL"), press("HALF")]);
}

#[test]
fn linear_starting_reading_is_taken_as_reported_unless_told_otherwise() {
    let assignment = || {
        linear(Some(5_000), vec![step(2_500, "a", Some("A")), step(7_500, "b", Some("B"))])
    };
    // The reading 10_000 is one when measured from the neutral point: both
    // thresholds are crossed. The starting reading 5_000 as reported has
    // crossed the first of them.
    let mut raw = runner_of(vec![one("throttle", assignment())]);
    assert_eq!(actions(raw.run(reading_from("throttle", 10_000, 5_000))), vec![press("b")]);
    // Measured from the neutral point the starting reading is zero and has
    // crossed none.
    let mut neutralized = runner_of(vec![one("throttle", assignment())]);
    neutralized.set_neutralize_initial_value(true);
    assert_eq!(
        actions(neutralized.run(reading_from("throttle", 10_000, 5_000))),
        vec![press("a"), press("b")]
    );
}

#[test]
fn direct_control_sends_every_reading() {
    let mut runner = runner_of(vec![one("throttle", direct_control("Throttle", 0, 10_000, None))]);
    let fired = feed(&mut runner, "throttle", &[0, 0, 10_000, -10_000, 5_000]);
    assert_eq!(
        fired,
        vec![
            vec![command("Throttle", 5_000)],
            vec![command("Throttle", 5_000)],
            vec![command("Throttle", 10_000)],
            vec![command("Throttle", 0)],
            vec![command("Throttle", 7_500)]
        ]
    );
}

#[test]
fn direct_control_records_its_calls() {
    let mut runner = runner_of(vec![one("throttle", direct_control("Throttle", 0, 10_000, None))]);
    runner.run(reading("throttle", 10_000));
    assert_eq!(runner.last_call("throttle").unwrap().action, command("Throttle", 10_000));
    runner.run(reading("throttle", -10_000));
    assert_eq!(runner.last_call("throttle").unwrap().action, command("Throttle", 0));
    assert_eq!(runner.last_call("throttle").unwrap().control_state.value, -10_000);
}

#[test]
fn direct_control_sends_multiples_of_its_step() {
    let mut runner =
        runner_of(vec![one("throttle", direct_control("Throttle", -10_000, 10_000, Some(2_500)))]);
    let fired = feed(&mut runner, "throttle", &[1_000, 1_250, 9_000]);
    assert_eq!(
        fired,
        vec![vec![command("Throttle", 0)], vec![command("Throttle", 2_500)], vec![command("Throttle", 10_000)]]
    );
}

#[test]
fn sync_control_fires_nothing() {
    let sync = ControllerProfileControlAssignment::SyncControl(
        ControllerProfileDirectControAssignmentSyncMode {
            identifier: "Throttle".to_string(),
            action_increase: keys_action("a"),
            action_decrease: keys_action("d"),
        },
    );
    let mut runner = runner_of(vec![one("throttle", sync)]);
    assert!(runner.run(reading("throttle", 10_000)).is_empty());
    assert_eq!(runner.last_call("throttle"), None);
}

#[test]
fn run_records_the_call_with_its_reading_and_assignment() {
    let mut runner = runner_of(vec![one("horn", momentary(5_000, keys("h"), None))]);
    let calls = runner.run(reading_from("horn", 6_000, 1_000));
    let expected = ProfileRunnerAssignmentCall {
        control_name: "horn".to_string(),
        control_state: ControllerManagerControllerControlState { value: 6_000, initial_value: 1_000 },
        assignment: momentary(5_000, keys("h"), None),
        action: press("h"),
    };
    assert_eq!(calls, vec![expected.clone()]);
    assert_eq!(runner.last_call("horn"), Some(&expected));
}

#[test]
fn run_keeps_the_last_call_of_a_cascade_only() {
    let mut runner = runner_of(vec![one("throttle", notches())]);
    let calls = runner.run(reading_from("throttle", 10_000, -10_000));
    assert_eq!(calls.len(), 3);
    assert_eq!(runner.last_call("throttle"), calls.last());
    assert_eq!(runner.last_call("throttle").unwrap().action, press("c"));
}

#[test]
fn run_evaluates_every_assignment_of_a_control_in_order() {
    let mut runner = runner_of(vec![many(
        "lever",
        vec![
            momentary(5_000, keys("m"), None),
            direct_control("Lever", 0, 10_000, None),
            toggle(2_000, keys("on"), keys("off")),
        ],
    )]);
    let calls = runner.run(reading("lever", 6_000));
    assert_eq!(
        actions(calls.clone()),
        vec![press("m"), command("Lever", 8_000), press("on")]
    );
    assert_eq!(calls[1].assignment, direct_control("Lever", 0, 10_000, None));
    assert_eq!(runner.last_call("lever"), calls.last());
}

#[test]
fn run_judges_every_assignment_against_the_call_before_the_reading() {
    // The first assignment fires a call that compares equal to the second
    // one's activation. The second is judged against the state before the
    // reading, where no call is on record, and so activates too.
    let mut runner = runner_of(vec![many(
        "lever",
        vec![momentary(5_000, keys("on"), None), toggle(5_000, keys("on"), keys("off"))],
    )]);
    assert_eq!(actions(runner.run(reading("lever", 6_000))), vec![press("on"), press("on")]);
    assert_eq!(actions(runner.run(reading("lever", 7_000))), vec![press("off")]);
}

#[test]
fn run_prefers_the_list_of_assignments_to_the_single_one() {
    let control = ControllerProfileControl {
        name: "horn".to_string(),
        assignment: Some(momentary(5_000, keys("single"), None)),
        assignments: Some(vec![momentary(5_000, keys("listed"), None)]),
    };
    let mut runner = runner_of(vec![control]);
    assert_eq!(actions(runner.run(reading("horn", 6_000))), vec![press("listed")]);
}

#[test]
fn run_with_an_empty_list_of_assignments_fires_nothing() {
    let control = ControllerProfileControl {
        name: "horn".to_string(),
        assignment: Some(momentary(5_000, keys("single"), None)),
        assignments: Some(vec![]),
    };
    let mut runner = runner_of(vec![control]);
    assert!(runner.run(reading("horn", 6_000)).is_empty());
    let bare = ControllerProfileControl { name: "horn".to_string(), assignment: None, assignments: None };
    let mut runner = runner_of(vec![bare]);
    assert!(runner.run(reading("horn", 6_000)).is_empty());
}

#[test]
fn new_runner_has_no_profile_and_no_calls() {
    let runner = ProfileRunner::new(ConfigLoader { controller_profiles: vec![profile("loco", vec![])] });
    assert_eq!(runner.profile_name(), None);
    assert_eq!(runner.last_call("horn"), None);
    assert!(runner.calls_for(&reading("horn", 10_000)).is_empty());
}

#[test]
fn run_without_profile_does_nothing() {
    let config =
        ConfigLoader { controller_profiles: vec![profile("loco", vec![one("horn", momentary(5_000, keys("h"), None))])] };
    let mut runner = ProfileRunner::new(config);
    assert_eq!(runner.profile_name(), None);
    assert!(runner.run(reading("horn", 6_000)).is_empty());
    assert_eq!(runner.last_call("horn"), None);
    // Once a profile is in use the same reading is a rising edge.
    runner.set_profile("loco").unwrap();
    assert_eq!(actions(runner.run(reading("horn", 6_000))), vec![press("h")]);
}

#[test]
fn run_ignores_a_reading_that_has_not_changed() {
    let mut runner = runner_of(vec![one("throttle", direct_control("Throttle", 0, 10_000, None))]);
    let mut unchanged = reading("throttle", 6_000);
    unchanged.has_changed = false;
    assert!(runner.run(unchanged).is_empty());
    assert_eq!(runner.last_call("throttle"), None);
}

#[test]
fn run_ignores_a_control_that_the_profile_does_not_hold() {
    let mut runner = runner_of(vec![one("horn", momentary(5_000, keys("h"), None))]);
    assert!(runner.run(reading("bell", 6_000)).is_empty());
    assert_eq!(runner.last_call("bell"), None);
    assert_eq!(runner.last_call("horn"), None);
}

#[test]
fn run_keeps_the_calls_of_other_controls() {
    let mut runner = runner_of(vec![
        one("horn", momentary(5_000, keys("h"), None)),
        one("bell", momentary(5_000, keys("b"), None)),
    ]);
    runner.run(reading("horn", 6_000));
    runner.run(reading("bell", 7_000));
    assert_eq!(runner.last_call("horn").unwrap().action, press("h"));
    assert_eq!(runner.last_call("bell").unwrap().action, press("b"));
    runner.run(reading("horn", 1_000));
    assert_eq!(runner.last_call("horn").unwrap().action, release("h"));
    assert_eq!(runner.last_call("bell").unwrap().control_state.value, 7_000);
}

#[test]
fn run_looks_for_the_profile_of_the_controller() {
    let mine = ControllerProfile {
        name: "loco".to_string(),
        controls: vec![one("horn", momentary(5_000, keys("mine"), None))],
        controller_id: Some(GUID.to_string()),
    };
    let other = ControllerProfile {
        name: "loco".to_string(),
        controls: vec![one("horn", momentary(5_000, keys("other"), None))],
        controller_id: Some("00000000000000000000000000000000".to_string()),
    };
    let mut runner = ProfileRunner::new(ConfigLoader { controller_profiles: vec![other, mine] });
    runner.set_profile("loco").unwrap();
    assert_eq!(actions(runner.run(reading("horn", 6_000))), vec![press("mine")]);
    let mut elsewhere = reading("horn", 1_000);
    elsewhere.joystick_guid = "ffffffffffffffffffffffffffffffff".to_string();
    assert!(runner.run(elsewhere).is_empty());
}

#[test]
fn set_profile_reports_an_unknown_profile() {
    let mut runner = ProfileRunner::new(ConfigLoader { controller_profiles: vec![profile("loco", vec![])] });
    assert_eq!(runner.set_profile("wagon"), Err("Profile wagon not found".to_string()));
    assert_eq!(runner.profile_name(), None);
    assert_eq!(runner.set_profile(""), Err("Profile  not found".to_string()));
}

#[test]
fn set_profile_leaves_the_state_as_it_is_on_failure() {
    let mut runner = runner_of(vec![one("horn", momentary(5_000, keys("h"), None))]);
    runner.run(reading("horn", 6_000));
    assert!(runner.set_profile("wagon").is_err());
    assert_eq!(runner.profile_name(), Some(&"loco".to_string()));
    assert_eq!(runner.last_call("horn").unwrap().action, press("h"));
}

#[test]
fn set_profile_takes_a_known_profile() {
    let config = ConfigLoader { controller_profiles: vec![profile("loco", vec![]), profile("wagon", vec![])] };
    let mut runner = ProfileRunner::new(config);
    assert_eq!(runner.set_profile("wagon"), Ok(()));
    assert_eq!(runner.profile_name(), Some(&"wagon".to_string()));
    assert_eq!(runner.set_profile("wagon"), Ok(()));
    assert_eq!(runner.set_profile("loco"), Ok(()));
    assert_eq!(runner.profile_name(), Some(&"loco".to_string()));
}

#[test]
fn set_profile_keeps_the_calls_on_record() {
    let config = ConfigLoader {
        controller_profiles: vec![
            profile("loco", vec![one("horn", momentary(5_000, keys("h"), None))]),
            profile("wagon", vec![one("horn", momentary(5_000, keys("w"), None))]),
        ],
    };
    let mut runner = ProfileRunner::new(config);
    runner.set_profile("loco").unwrap();
    runner.run(reading("horn", 6_000));
    runner.set_profile("wagon").unwrap();
    // The call made under the first profile was made above the threshold.
    assert!(runner.run(reading("horn", 7_000)).is_empty());
    assert_eq!(actions(runner.run(reading("horn", 0))), vec![release("w")]);
}

#[test]
fn reset_profile_forgets_the_profile_and_the_calls() {
    let mut runner = runner_of(vec![one("horn", momentary(5_000, keys("h"), None))]);
    runner.run(reading("horn", 6_000));
    assert_eq!(runner.reset_profile(), Ok(()));
    assert_eq!(runner.profile_name(), None);
    assert_eq!(runner.last_call("horn"), None);
    assert!(runner.run(reading("horn", 7_000)).is_empty());
    runner.set_profile("loco").unwrap();
    assert_eq!(actions(runner.run(reading("horn", 7_000))), vec![press("h")]);
}

#[test]
fn reset_profile_without_profile_is_fine() {
    let mut runner = ProfileRunner::new(ConfigLoader::new());
    assert_eq!(runner.reset_profile(), Ok(()));
    assert_eq!(runner.profile_name(), None);
}

#[test]
fn calls_for_decides_without_recording() {
    let runner = runner_of(vec![one("horn", momentary(5_000, keys("h"), None))]);
    let event = reading("horn", 6_000);
    assert_eq!(actions(runner.calls_for(&event)), vec![press("h")]);
    assert_eq!(actions(runner.calls_for(&event)), vec![press("h")]);
    assert_eq!(runner.last_call("horn"), None);
}

#[test]
fn call_assignment_action_for_control_records_the_call() {
    let mut runner = ProfileRunner::new(ConfigLoader::new());
    let state = ControllerManagerControllerControlState { value: 6_000, initial_value: 0 };
    let assignment = momentary(5_000, keys("h"), None);
    runner.call_assignment_action_for_control("horn", &state, &assignment, None);
    assert_eq!(runner.last_call("horn"), None);
    runner.call_assignment_action_for_control("horn", &state, &assignment, Some(press("h")));
    assert_eq!(
        runner.last_call("horn"),
        Some(&ProfileRunnerAssignmentCall {
            control_name: "horn".to_string(),
            control_state: state,
            assignment: momentary(5_000, keys("h"), None),
            action: press("h"),
        })
    );
    let later = ControllerManagerControllerControlState { value: 1_000, initial_value: 0 };
    runner.call_assignment_action_for_control("horn", &later, &assignment, Some(release("h")));
    assert_eq!(runner.last_call("horn").unwrap().action, release("h"));
    assert_eq!(runner.last_call("horn").unwrap().control_state, later);
    runner.call_assignment_action_for_control("bell", &state, &assignment, Some(press("b")));
    assert_eq!(runner.last_call("horn").unwrap().action, release("h"));
    assert_eq!(runner.last_call("bell").unwrap().action, press("b"));
}

#[test]
fn call_action_compare_value_matches_the_action_it_performs() {
    assert_eq!(press("ctrl+a").get_compare_value(), "ctrl+a");
    assert_eq!(release("ctrl+a").get_compare_value(), "ctrl+a");
    assert_eq!(command("Throttle", 7_500).get_compare_value(), "Throttle:0.75");
    assert_eq!(command("Throttle", -10_000).get_compare_value(), "Throttle:-1");
    assert_eq!(keys("w").pressed().get_compare_value(), keys("w").get_compare_value());
    assert_eq!(
        direct("Brake", 2_500).pressed().get_compare_value(),
        direct("Brake", 2_500).get_compare_value()
    );
}

#[test]
fn released_call_lets_go_of_keys_only() {
    assert_eq!(press("w").released(), Some(release("w")));
    assert_eq!(release("w").released(), Some(release("w")));
    assert_eq!(command("Throttle", 1).released(), None);
    assert_eq!(keys("w").released(), Some(release("w")));
    assert_eq!(direct("Throttle", 1).released(), None);
    assert_eq!(keys("w").pressed(), press("w"));
    assert_eq!(direct("Throttle", 1).pressed(), command("Throttle", 1));
}
