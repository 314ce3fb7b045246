use tsw_controller::action_sequencer::ActionSequencerAction;
use tsw_controller::call_log::CallLog;
use tsw_controller::config_defs::controller_profile::{
    ControllerProfileControlAssignment, ControllerProfileControlAssignmentAction,
    ControllerProfileControlAssignmentKeysAction, ControllerProfileControlMomentaryAssignment,
};
use tsw_controller::controller_manager::ControllerManagerControllerControlState;
use tsw_controller::profile_runner::{ProfileRunnerAssignmentCall, ProfileRunnerAssignmentCallAction};

fn call(control_name: &str, value: i32, keys: &str) -> ProfileRunnerAssignmentCall {
    ProfileRunnerAssignmentCall {
        control_name: control_name.to_string(),
        control_state: ControllerManagerControllerControlState { value, initial_value: 0 },
        assignment: ControllerProfileControlAssignment::Momentary(
            ControllerProfileControlMomentaryAssignment {
                threshold: 5_000,
                action_activate: ControllerProfileControlAssignmentAction::Keys(
                    ControllerProfileControlAssignmentKeysAction {
                        keys: keys.to_string(),
                        press_time: None,
                        wait_time: None,
                    },
                ),
                action_deactivate: None,
            },
        ),
        action: ProfileRunnerAssignmentCallAction::SequencerAction(ActionSequencerAction {
            keys: keys.to_string(),
            press_time: None,
            wait_time: None,
            release: Some(false),
        }),
    }
}

#[test]
fn call_log_starts_empty() {
    let log = CallLog::new();
    assert!(log.is_empty());
    assert_eq!(log.get("horn"), None);
    assert_eq!(log.get(""), None);
}

#[test]
fn call_log_holds_the_call_that_was_put_in() {
    let mut log = CallLog::new();
    log.insert(call("horn", 6_000, "h"));
    assert!(!log.is_empty());
    assert_eq!(log.get("horn"), Some(&call("horn", 6_000, "h")));
    assert_eq!(log.get("bell"), None);
    assert_eq!(log.get("Horn"), None);
}

#[test]
fn call_log_keeps_one_call_for_each_control() {
    let mut log = CallLog::new();
    log.insert(call("horn", 6_000, "h"));
    log.insert(call("bell", 7_000, "b"));
    log.insert(call("horn", 1_000, "j"));
    assert_eq!(log.get("horn"), Some(&call("horn", 1_000, "j")));
    assert_eq!(log.get("bell"), Some(&call("bell", 7_000, "b")));
    log.insert(call("bell", 0, "c"));
    assert_eq!(log.get("horn"), Some(&call("horn", 1_000, "j")));
    assert_eq!(log.get("bell"), Some(&call("bell", 0, "c")));
}

#[test]
fn call_log_forgets_everything_when_cleared() {
    let mut log = CallLog::new();
    log.insert(call("horn", 6_000, "h"));
    log.insert(call("bell", 7_000, "b"));
    log.clear();
    assert!(log.is_empty());
    assert_eq!(log.get("horn"), None);
    assert_eq!(log.get("bell"), None);
    log.insert(call("horn", 1, "x"));
    assert_eq!(log.get("horn"), Some(&call("horn", 1, "x")));
}
