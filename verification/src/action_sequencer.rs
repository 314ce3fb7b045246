//! The key action that is handed to the sequencer.

use crate::fixed_point::int_option;
use vstd::prelude::*;

verus! {

/// A key sequence to press or to release, with its timing.
#[derive(Debug, PartialEq, Eq)]
pub struct ActionSequencerAction {
    pub keys: String,
    pub press_time: Option<i32>,
    pub wait_time: Option<i32>,
    pub release: Option<bool>,
}

/// What an [`ActionSequencerAction`] holds.
pub struct SequencerActionModel {
    pub keys: Seq<char>,
    pub press_time: Option<int>,
    pub wait_time: Option<int>,
    pub release: Option<bool>,
}

impl View for ActionSequencerAction {
    type V = SequencerActionModel;

    open spec fn view(&self) -> SequencerActionModel {
        SequencerActionModel {
            keys: self.keys@,
            press_time: int_option(self.press_time),
            wait_time: int_option(self.wait_time),
            release: self.release,
        }
    }
}

impl Clone for ActionSequencerAction {
    fn clone(&self) -> (copy: Self)
        ensures
            copy@ == self@,
    {
        ActionSequencerAction {
            keys: self.keys.clone(),
            press_time: self.press_time,
            wait_time: self.wait_time,
            release: self.release,
        }
    }
}

} // verus!
