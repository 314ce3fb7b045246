//! The command that is handed to the direct-control channel.

use crate::fixed_point::{decimal_string, decimal_text};
use crate::messages::{tagged_line, tagged_line_of, DIRECT_CONTROL_TAG};
use vstd::prelude::*;

verus! {

/// An absolute value to set on a control of the target.
#[derive(Debug, PartialEq, Eq)]
pub struct DirectControlCommand {
    pub controls: String,
    pub input_value: i32,
}

/// What a [`DirectControlCommand`] holds.
pub struct DirectControlCommandModel {
    pub controls: Seq<char>,
    pub input_value: int,
}

impl View for DirectControlCommand {
    type V = DirectControlCommandModel;

    open spec fn view(&self) -> DirectControlCommandModel {
        DirectControlCommandModel { controls: self.controls@, input_value: self.input_value as int }
    }
}

impl Clone for DirectControlCommand {
    fn clone(&self) -> (copy: Self)
        ensures
            copy@ == self@,
    {
        DirectControlCommand { controls: self.controls.clone(), input_value: self.input_value }
    }
}

impl DirectControlCommandModel {
    /// The line that carries the command to a client: the tag of such
    /// lines, the control and the value.
    pub open spec fn message(self) -> Seq<char> {
        tagged_line(DIRECT_CONTROL_TAG@, self.controls, decimal_text(self.input_value))
    }
}

impl DirectControlCommand {
    /// The line that carries this command to a client.
    pub fn message(&self) -> (line: String)
        ensures
            line@ == self@.message(),
    {
        let value = decimal_string(self.input_value);
        tagged_line_of(DIRECT_CONTROL_TAG, self.controls.as_str(), value.as_str())
    }
}

} // verus!
