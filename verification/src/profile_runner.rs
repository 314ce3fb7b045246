//! The runner: it holds the call last made for each control and decides
//! which calls a reading causes.

use crate::action_sequencer::ActionSequencerAction;
use crate::call_log::CallLog;
use crate::config_defs::controller_profile::ControllerProfileControlAssignment;
use crate::config_loader::ConfigLoader;
use crate::controller_manager::{
    ControllerManagerChangeEvent, ControllerManagerControllerControlState,
};
use crate::direct_controller::DirectControlCommand;
use crate::fixed_point::decimal_string;
use crate::config_defs::profile_model::find_profile;
use crate::runner_model::{
    calls_for, lemma_calls_are_for_the_control, CallActionModel, CallModel, ProfileRunnerModel,
};
use crate::views::{lemma_seq_view_push, option_view, seq_view};
use vstd::prelude::*;

verus! {

/// An action as it is handed on: to the sequencer or to the direct-control
/// channel.
#[derive(Debug, PartialEq, Eq)]
pub enum ProfileRunnerAssignmentCallAction {
    SequencerAction(ActionSequencerAction),
    DirectControlAction(DirectControlCommand),
}

impl View for ProfileRunnerAssignmentCallAction {
    type V = CallActionModel;

    open spec fn view(&self) -> CallActionModel {
        match self {
            ProfileRunnerAssignmentCallAction::SequencerAction(action) => {
                CallActionModel::SequencerAction(action@)
            },
            ProfileRunnerAssignmentCallAction::DirectControlAction(action) => {
                CallActionModel::DirectControlAction(action@)
            },
        }
    }
}

impl Clone for ProfileRunnerAssignmentCallAction {
    fn clone(&self) -> (copy: Self)
        ensures
            copy@ == self@,
    {
        match self {
            ProfileRunnerAssignmentCallAction::SequencerAction(action) => {
                ProfileRunnerAssignmentCallAction::SequencerAction(action.clone())
            },
            ProfileRunnerAssignmentCallAction::DirectControlAction(action) => {
                ProfileRunnerAssignmentCallAction::DirectControlAction(action.clone())
            },
        }
    }
}

impl ProfileRunnerAssignmentCallAction {
    /// The text by which this call is compared with an action of an
    /// assignment.
    pub fn get_compare_value(&self) -> (text: String)
        ensures
            text@ == self@.compare_value(),
    {
        match self {
            ProfileRunnerAssignmentCallAction::SequencerAction(action) => action.keys.clone(),
            ProfileRunnerAssignmentCallAction::DirectControlAction(action) => {
                proof {
                    reveal_strlit(":");
                }
                let mut text = action.controls.clone();
                text.append(":");
                let value = decimal_string(action.input_value);
                text.append(value.as_str());
                text
            },
        }
    }

    /// The same call as a release, where there is something to let go.
    pub fn released(&self) -> (release: Option<ProfileRunnerAssignmentCallAction>)
        ensures
            option_view(release) == self@.released(),
    {
        match self {
            ProfileRunnerAssignmentCallAction::SequencerAction(action) => Some(
                ProfileRunnerAssignmentCallAction::SequencerAction(
                    ActionSequencerAction {
                        keys: action.keys.clone(),
                        press_time: action.press_time,
                        wait_time: action.wait_time,
                        release: Some(true),
                    },
                ),
            ),
            ProfileRunnerAssignmentCallAction::DirectControlAction(_) => None,
        }
    }
}

/// A call that was made for a control.
#[derive(Debug, PartialEq, Eq)]
pub struct ProfileRunnerAssignmentCall {
    pub control_name: String,
    pub control_state: ControllerManagerControllerControlState,
    pub assignment: ControllerProfileControlAssignment,
    pub action: ProfileRunnerAssignmentCallAction,
}

impl View for ProfileRunnerAssignmentCall {
    type V = CallModel;

    open spec fn view(&self) -> CallModel {
        CallModel {
            control_name: self.control_name@,
            control_state: self.control_state@,
            assignment: self.assignment@,
            action: self.action@,
        }
    }
}

impl Clone for ProfileRunnerAssignmentCall {
    fn clone(&self) -> (copy: Self)
        ensures
            copy@ == self@,
    {
        ProfileRunnerAssignmentCall {
            control_name: self.control_name.clone(),
            control_state: self.control_state,
            assignment: self.assignment.clone(),
            action: self.action.clone(),
        }
    }
}

/// The runner of one configuration.
pub struct ProfileRunner {
    config: ConfigLoader,
    profile_name: Option<String>,
    /// The call last made for each control.
    control_calls: CallLog,
    neutralize_initial_value: bool,
}

impl View for ProfileRunner {
    type V = ProfileRunnerModel;

    closed spec fn view(&self) -> ProfileRunnerModel {
        ProfileRunnerModel {
            profiles: self.config@,
            profile_name: option_view(self.profile_name),
            last_calls: self.control_calls@,
            neutralize_initial_value: self.neutralize_initial_value,
        }
    }
}

/// Appends the calls that a reading causes under one assignment.
fn push_calls(
    calls: &mut Vec<ProfileRunnerAssignmentCall>,
    assignment: &ControllerProfileControlAssignment,
    control_name: &String,
    last: Option<&ProfileRunnerAssignmentCall>,
    state: &ControllerManagerControllerControlState,
    neutralize_initial: bool,
)
    ensures
        seq_view(final(calls)@) == seq_view(old(calls)@) + assignment@.calls_for(
            control_name@,
            option_view(last),
            state@,
            neutralize_initial,
        ),
{
    let ghost before = seq_view(calls@);
    let ghost caused = assignment@.calls_for(
        control_name@,
        option_view(last),
        state@,
        neutralize_initial,
    );
    let actions = assignment.actions_for(last, state, neutralize_initial);
    let mut i: usize = 0;
    while i < actions.len()
        invariant
            i <= actions.len(),
            seq_view(actions@) == assignment@.actions_for(
                option_view(last),
                state@,
                neutralize_initial,
            ),
            caused == assignment@.calls_for(
                control_name@,
                option_view(last),
                state@,
                neutralize_initial,
            ),
            seq_view(calls@) == before + caused.take(i as int),
        decreases actions.len() - i,
    {
        let call = ProfileRunnerAssignmentCall {
            control_name: control_name.clone(),
            control_state: *state,
            assignment: assignment.clone(),
            action: actions[i].clone(),
        };
        proof {
            lemma_seq_view_push(calls@, call);
        }
        calls.push(call);
        i += 1;
    }
}

impl ProfileRunner {
    /// A runner of the configuration `config` with no profile in use and no
    /// call on record. It takes the starting reading of a control as it is
    /// reported.
    pub fn new(config: ConfigLoader) -> (runner: ProfileRunner)
        ensures
            runner@ == (ProfileRunnerModel {
                profiles: config@,
                profile_name: None,
                last_calls: Map::empty(),
                neutralize_initial_value: false,
            }),
    {
        ProfileRunner {
            config,
            profile_name: None,
            control_calls: CallLog::new(),
            neutralize_initial_value: false,
        }
    }

    /// Says whether a linear assignment measures the starting reading of a
    /// control from its neutral point.
    pub fn set_neutralize_initial_value(&mut self, enabled: bool)
        ensures
            final(self)@ == (ProfileRunnerModel {
                neutralize_initial_value: enabled,
                ..old(self)@
            }),
    {
        self.neutralize_initial_value = enabled;
    }

    /// Stops using a profile and forgets every call.
    pub fn reset_profile(&mut self) -> (result: Result<(), String>)
        ensures
            result is Ok,
            final(self)@ == (ProfileRunnerModel {
                profile_name: None,
                last_calls: Map::empty(),
                ..old(self)@
            }),
    {
        self.profile_name = None;
        self.control_calls.clear();
        Ok(())
    }

    /// Takes the profile `name` into use. The profile has to be in the
    /// configuration, unless it is the one in use already.
    pub fn set_profile(&mut self, name: &str) -> (result: Result<(), String>)
        ensures
            result is Ok <==> old(self)@.profile_name == Some(name@) || find_profile(
                old(self)@.profiles,
                name@,
                None,
            ) is Some,
            result is Ok ==> final(self)@ == (ProfileRunnerModel {
                profile_name: Some(name@),
                ..old(self)@
            }),
            result matches Err(message) ==> final(self)@ == old(self)@ && message@ == "Profile "@
                + name@ + " not found"@,
    {
        let in_use = match &self.profile_name {
            Some(current) => crate::text::str_equal(current.as_str(), name),
            None => false,
        };
        if in_use {
            return Ok(());
        }
        match self.config.find_controller_profile(name, None) {
            Some(_) => {
                self.profile_name = Some(String::from_str(name));
                Ok(())
            },
            None => {
                let mut message = String::from_str("Profile ");
                message.append(name);
                message.append(" not found");
                Err(message)
            },
        }
    }

    /// The name of the profile in use.
    pub fn profile_name(&self) -> (name: Option<&String>)
        ensures
            option_view(name) == self@.profile_name,
    {
        self.profile_name.as_ref()
    }

    /// The call last made for a control.
    pub fn last_call(&self, control_name: &str) -> (call: Option<&ProfileRunnerAssignmentCall>)
        ensures
            option_view(call) == self@.last_call(control_name@),
    {
        self.control_calls.get(control_name)
    }

    /// Records the call of `action` for a control, in place of the call
    /// last made for it. Without an action nothing is recorded.
    pub fn call_assignment_action_for_control(
        &mut self,
        control_name: &str,
        control_state: &ControllerManagerControllerControlState,
        assignment: &ControllerProfileControlAssignment,
        action: Option<ProfileRunnerAssignmentCallAction>,
    )
        ensures
            final(self)@ == match action {
                Some(action) => old(self)@.record(
                    CallModel {
                        control_name: control_name@,
                        control_state: control_state@,
                        assignment: assignment@,
                        action: action@,
                    },
                ),
                None => old(self)@,
            },
    {
        match action {
            Some(action) => {
                self.control_calls.insert(
                    ProfileRunnerAssignmentCall {
                        control_name: String::from_str(control_name),
                        control_state: *control_state,
                        assignment: assignment.clone(),
                        action,
                    },
                );
            },
            None => {},
        }
    }

    /// The calls that a reading causes, in the order in which they are to
    /// be made. Nothing is recorded.
    pub fn calls_for(&self, event: &ControllerManagerChangeEvent) -> (calls: Vec<
        ProfileRunnerAssignmentCall,
    >)
        ensures
            seq_view(calls@) == self@.calls(event@),
    {
        let mut calls: Vec<ProfileRunnerAssignmentCall> = Vec::new();
        if !event.has_changed {
            return calls;
        }
        let profile_name = match &self.profile_name {
            Some(name) => name,
            None => {
                return calls;
            },
        };
        let profile = match self.config.find_controller_profile(
            profile_name.as_str(),
            Some(event.joystick_guid.as_str()),
        ) {
            Some(profile) => profile,
            None => {
                return calls;
            },
        };
        let control = match profile.find_control(event.control_name.as_str()) {
            Some(control) => control,
            None => {
                return calls;
            },
        };
        let last = self.control_calls.get(event.control_name.as_str());
        let rules = control.rules();
        let ghost all = control@.rules();
        let mut i: usize = 0;
        while i < rules.len()
            invariant
                i <= rules.len(),
                all == seq_view(rules@),
                seq_view(calls@) == calls_for(
                    all.take(i as int),
                    event@.control_name,
                    option_view(last),
                    event@.control_state,
                    self.neutralize_initial_value,
                ),
            decreases rules.len() - i,
        {
            proof {
                assert(all.take(i + 1).drop_last() =~= all.take(i as int));
            }
            push_calls(
                &mut calls,
                rules[i],
                &event.control_name,
                last,
                &event.control_state,
                self.neutralize_initial_value,
            );
            i += 1;
        }
        assert(all.take(rules.len() as int) =~= all);
        calls
    }

    /// Takes a reading: decides which calls it causes, records them and
    /// returns them in the order in which they are to be made.
    pub fn run(&mut self, event: ControllerManagerChangeEvent) -> (calls: Vec<
        ProfileRunnerAssignmentCall,
    >)
        ensures
            seq_view(calls@) == old(self)@.calls(event@),
            final(self)@ == old(self)@.after(event@),
            !event.has_changed || old(self)@.profile_name is None ==> calls@.len() == 0,
            !event.has_changed || old(self)@.profile_name is None ==> final(self)@ == old(self)@,
    {
        let calls = self.calls_for(&event);
        let ghost before = self@;
        let ghost caused = seq_view(calls@);
        let mut i: usize = 0;
        while i < calls.len()
            invariant
                i <= calls.len(),
                caused == seq_view(calls@),
                caused == before.calls(event@),
                self@ == if i == 0 {
                    before
                } else {
                    before.record(caused[i - 1])
                },
            decreases calls.len() - i,
        {
            let call = &calls[i];
            proof {
                assert(caused.len() == calls.len());
                let control = before.control_for(event@)->0;
                lemma_calls_are_for_the_control(
                    control.rules(),
                    event@.control_name,
                    before.last_call(event@.control_name),
                    event@.control_state,
                    before.neutralize_initial_value,
                    i as int,
                );
                if i > 0 {
                    lemma_calls_are_for_the_control(
                        control.rules(),
                        event@.control_name,
                        before.last_call(event@.control_name),
                        event@.control_state,
                        before.neutralize_initial_value,
                        i - 1,
                    );
                }
            }
            self.call_assignment_action_for_control(
                call.control_name.as_str(),
                &call.control_state,
                &call.assignment,
                Some(call.action.clone()),
            );
            proof {
                let name = event@.control_name;
                assert(before.last_calls.insert(name, caused[i as int]) =~= if i == 0 {
                    before.last_calls
                } else {
                    before.last_calls.insert(name, caused[i - 1])
                }.insert(name, caused[i as int]));
            }
            i += 1;
        }
        calls
    }
}

} // verus!
