use tsw_controller::sync_controller::SyncControllerControlState;

#[test]
fn first_report_puts_the_control_at_rest_at_the_value() {
    let state = SyncControllerControlState::reported(None, "Throttle", 2_500);
    assert_eq!(
        state,
        SyncControllerControlState {
            identifier: "Throttle".to_string(),
            current_value: 2_500,
            target_value: 2_500,
            moving: 0,
        }
    );
}

#[test]
fn later_report_changes_the_current_value_only() {
    let known = SyncControllerControlState {
        identifier: "Throttle".to_string(),
        current_value: 2_500,
        target_value: 7_500,
        moving: 1,
    };
    let state = SyncControllerControlState::reported(Some(known), "Throttle", 5_000);
    assert_eq!(
        state,
        SyncControllerControlState {
            identifier: "Throttle".to_string(),
            current_value: 5_000,
            target_value: 7_500,
            moving: 1,
        }
    );
}

#[test]
fn later_report_keeps_the_identifier_that_was_known() {
    let known = SyncControllerControlState {
        identifier: "Brake".to_string(),
        current_value: 0,
        target_value: 0,
        moving: -1,
    };
    let state = SyncControllerControlState::reported(Some(known), "Throttle", -10_000);
    assert_eq!(state.identifier, "Brake");
    assert_eq!(state.current_value, -10_000);
    assert_eq!(state.moving, -1);
}
