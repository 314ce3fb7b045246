//! Where the controls of the target stand, as the target reports them.

use crate::views::option_view;
use vstd::prelude::*;

verus! {

/// Where one control of the target stands and where it is meant to go.
#[derive(Debug, PartialEq, Eq)]
pub struct SyncControllerControlState {
    pub identifier: String,
    pub current_value: i32,
    pub target_value: i32,
    /// Minus one while the control moves down, one while it moves up, zero
    /// while it is at rest.
    pub moving: i8,
}

/// What a [`SyncControllerControlState`] holds.
pub struct SyncStateModel {
    pub identifier: Seq<char>,
    pub current_value: int,
    pub target_value: int,
    pub moving: int,
}

impl SyncStateModel {
    /// The state of a control after the target has reported its value. A
    /// control that is known takes the value as its current one; one that
    /// is not is at rest at that value.
    pub open spec fn reported(
        previous: Option<SyncStateModel>,
        identifier: Seq<char>,
        value: int,
    ) -> SyncStateModel {
        match previous {
            Some(state) => SyncStateModel {
                identifier: state.identifier,
                current_value: value,
                target_value: state.target_value,
                moving: state.moving,
            },
            None => SyncStateModel {
                identifier,
                current_value: value,
                target_value: value,
                moving: 0,
            },
        }
    }
}

impl View for SyncControllerControlState {
    type V = SyncStateModel;

    open spec fn view(&self) -> SyncStateModel {
        SyncStateModel {
            identifier: self.identifier@,
            current_value: self.current_value as int,
            target_value: self.target_value as int,
            moving: self.moving as int,
        }
    }
}

impl Clone for SyncControllerControlState {
    fn clone(&self) -> (copy: Self)
        ensures
            copy@ == self@,
    {
        SyncControllerControlState {
            identifier: self.identifier.clone(),
            current_value: self.current_value,
            target_value: self.target_value,
            moving: self.moving,
        }
    }
}

impl SyncControllerControlState {
    /// The state of the control `identifier` after the target has reported
    /// its value, given the state that was known of it.
    pub fn reported(
        previous: Option<SyncControllerControlState>,
        identifier: &str,
        value: i32,
    ) -> (state: SyncControllerControlState)
        ensures
            state@ == SyncStateModel::reported(option_view(previous), identifier@, value as int),
    {
        match previous {
            Some(state) => SyncControllerControlState {
                identifier: state.identifier,
                current_value: value,
                target_value: state.target_value,
                moving: state.moving,
            },
            None => SyncControllerControlState {
                identifier: String::from_str(identifier),
                current_value: value,
                target_value: value,
                moving: 0,
            },
        }
    }
}

} // verus!
