//! The readings that the device layer reports.

use crate::keyed::{
    by_key, distinct_keys, is_entry, lemma_appended, lemma_entry, lemma_no_entry, lemma_replaced,
};
use crate::text::str_equal;
use vstd::prelude::*;

verus! {

/// Where a control stands: its reading now and the reading it started from.
#[derive(Debug, Clone, Copy, PartialEq, Eq)]
pub struct ControllerManagerControllerControlState {
    pub value: i32,
    pub initial_value: i32,
}

/// What a [`ControllerManagerControllerControlState`] holds.
pub struct ControlStateModel {
    pub value: int,
    pub initial_value: int,
}

impl View for ControllerManagerControllerControlState {
    type V = ControlStateModel;

    open spec fn view(&self) -> ControlStateModel {
        ControlStateModel { value: self.value as int, initial_value: self.initial_value as int }
    }
}

/// One observed reading of one control of one controller.
#[derive(Debug, PartialEq, Eq)]
pub struct ControllerManagerChangeEvent {
    pub joystick_guid: String,
    pub control_name: String,
    pub control_state: ControllerManagerControllerControlState,
    pub has_changed: bool,
}

/// What a [`ControllerManagerChangeEvent`] holds.
pub struct ChangeEventModel {
    pub joystick_guid: Seq<char>,
    pub control_name: Seq<char>,
    pub control_state: ControlStateModel,
    pub has_changed: bool,
}

impl View for ControllerManagerChangeEvent {
    type V = ChangeEventModel;

    open spec fn view(&self) -> ChangeEventModel {
        ChangeEventModel {
            joystick_guid: self.joystick_guid@,
            control_name: self.control_name@,
            control_state: self.control_state@,
            has_changed: self.has_changed,
        }
    }
}

impl Clone for ControllerManagerChangeEvent {
    fn clone(&self) -> (copy: Self)
        ensures
            copy@ == self@,
    {
        ControllerManagerChangeEvent {
            joystick_guid: self.joystick_guid.clone(),
            control_name: self.control_name.clone(),
            control_state: self.control_state,
            has_changed: self.has_changed,
        }
    }
}

/// The reading last reported for each control of each controller.
pub struct ControllerManagerControlStates {
    entries: Vec<ControlStateEntry>,
}

/// The state of one control of one controller.
struct ControlStateEntry {
    joystick_guid: String,
    control_name: String,
    control_state: ControllerManagerControllerControlState,
}

/// The controller and the control that an entry is of.
spec fn control_of() -> spec_fn(ControlStateEntry) -> (Seq<char>, Seq<char>) {
    |entry: ControlStateEntry| (entry.joystick_guid@, entry.control_name@)
}

/// The state that an entry holds.
spec fn state_of() -> spec_fn(ControlStateEntry) -> ControlStateModel {
    |entry: ControlStateEntry| entry.control_state@
}

/// The readings last reported, by controller and control.
pub struct ControlStatesModel {
    pub states: Map<(Seq<char>, Seq<char>), ControlStateModel>,
}

impl ControlStatesModel {
    /// The state of a control after a reading of `value`: the reading that
    /// the control started from is the first that was reported for it.
    pub open spec fn state_for(
        self,
        joystick_guid: Seq<char>,
        control_name: Seq<char>,
        value: int,
    ) -> ControlStateModel {
        if self.states.dom().contains((joystick_guid, control_name)) {
            ControlStateModel {
                value,
                initial_value: self.states[(joystick_guid, control_name)].initial_value,
            }
        } else {
            ControlStateModel { value, initial_value: value }
        }
    }

    /// The event that reports a reading of `value`. The reading has changed
    /// where it is the first for its control, or differs from the one
    /// reported before.
    pub open spec fn event_for(
        self,
        joystick_guid: Seq<char>,
        control_name: Seq<char>,
        value: int,
    ) -> ChangeEventModel {
        ChangeEventModel {
            joystick_guid,
            control_name,
            control_state: self.state_for(joystick_guid, control_name, value),
            has_changed: !self.states.dom().contains((joystick_guid, control_name))
                || self.states[(joystick_guid, control_name)].value != value,
        }
    }

    /// The states after a reading of `value` was reported.
    pub open spec fn observed(
        self,
        joystick_guid: Seq<char>,
        control_name: Seq<char>,
        value: int,
    ) -> ControlStatesModel {
        ControlStatesModel {
            states: self.states.insert(
                (joystick_guid, control_name),
                self.state_for(joystick_guid, control_name, value),
            ),
        }
    }
}

impl View for ControllerManagerControlStates {
    type V = ControlStatesModel;

    closed spec fn view(&self) -> ControlStatesModel {
        ControlStatesModel { states: by_key(self.entries@, control_of(), state_of()) }
    }
}

impl ControllerManagerControlStates {
    #[verifier::type_invariant]
    spec fn well_formed(self) -> bool {
        distinct_keys(self.entries@, control_of())
    }

    /// No reading was reported yet.
    pub fn new() -> (states: ControllerManagerControlStates)
        ensures
            states@.states == Map::<(Seq<char>, Seq<char>), ControlStateModel>::empty(),
    {
        let states = ControllerManagerControlStates { entries: Vec::new() };
        assert(states@.states =~= Map::<(Seq<char>, Seq<char>), ControlStateModel>::empty());
        states
    }

    /// Where the state of a control stands, if there is one.
    fn position(&self, joystick_guid: &str, control_name: &str) -> (found: Option<usize>)
        ensures
            match found {
                Some(i) => is_entry(
                    self.entries@,
                    control_of(),
                    (joystick_guid@, control_name@),
                    i as int,
                ),
                None => forall|i: int|
                    !(#[trigger] is_entry(
                        self.entries@,
                        control_of(),
                        (joystick_guid@, control_name@),
                        i,
                    )),
            },
    {
        let mut i: usize = 0;
        while i < self.entries.len()
            invariant
                i <= self.entries.len(),
                forall|j: int|
                    0 <= j < i ==> !(#[trigger] is_entry(
                        self.entries@,
                        control_of(),
                        (joystick_guid@, control_name@),
                        j,
                    )),
            decreases self.entries.len() - i,
        {
            if str_equal(self.entries[i].joystick_guid.as_str(), joystick_guid) && str_equal(
                self.entries[i].control_name.as_str(),
                control_name,
            ) {
                return Some(i);
            }
            i += 1;
        }
        None
    }

    /// Takes note of a reading and gives the event that reports it.
    pub fn observe(&mut self, joystick_guid: &str, control_name: &str, value: i32) -> (event:
        ControllerManagerChangeEvent)
        ensures
            event@ == old(self)@.event_for(joystick_guid@, control_name@, value as int),
            final(self)@ == old(self)@.observed(joystick_guid@, control_name@, value as int),
    {
        proof {
            use_type_invariant(&*self);
        }
        let found = self.position(joystick_guid, control_name);
        let mut entries: Vec<ControlStateEntry> = Vec::new();
        core::mem::swap(&mut self.entries, &mut entries);
        let (control_state, has_changed) = match found {
            Some(i) => {
                proof {
                    lemma_entry(entries@, control_of(), state_of(), i as int);
                }
                (
                    ControllerManagerControllerControlState {
                        value,
                        initial_value: entries[i].control_state.initial_value,
                    },
                    entries[i].control_state.value != value,
                )
            },
            None => {
                proof {
                    lemma_no_entry(
                        entries@,
                        control_of(),
                        state_of(),
                        (joystick_guid@, control_name@),
                    );
                }
                (ControllerManagerControllerControlState { value, initial_value: value }, true)
            },
        };
        let entry = ControlStateEntry {
            joystick_guid: String::from_str(joystick_guid),
            control_name: String::from_str(control_name),
            control_state,
        };
        match found {
            Some(i) => {
                proof {
                    lemma_replaced(entries@, control_of(), state_of(), i as int, entry);
                }
                entries.set(i, entry);
            },
            None => {
                proof {
                    lemma_appended(entries@, control_of(), state_of(), entry);
                }
                entries.push(entry);
            },
        }
        core::mem::swap(&mut self.entries, &mut entries);
        ControllerManagerChangeEvent {
            joystick_guid: String::from_str(joystick_guid),
            control_name: String::from_str(control_name),
            control_state,
            has_changed,
        }
    }
}

} // verus!
