//! The calls last made, one for each control.

use crate::keyed::{
    by_key, distinct_keys, is_entry, lemma_appended, lemma_entry, lemma_no_entry, lemma_replaced,
};
use crate::profile_runner::ProfileRunnerAssignmentCall;
use crate::runner_model::CallModel;
use crate::text::str_equal;
use vstd::prelude::*;

verus! {

/// For each control at most one call: the one last made for it.
pub struct CallLog {
    calls: Vec<ProfileRunnerAssignmentCall>,
}

/// The control that a call is for.
spec fn control_of() -> spec_fn(ProfileRunnerAssignmentCall) -> Seq<char> {
    |call: ProfileRunnerAssignmentCall| call.control_name@
}

/// What a call holds.
spec fn model_of() -> spec_fn(ProfileRunnerAssignmentCall) -> CallModel {
    |call: ProfileRunnerAssignmentCall| call@
}

impl View for CallLog {
    type V = Map<Seq<char>, CallModel>;

    closed spec fn view(&self) -> Map<Seq<char>, CallModel> {
        by_key(self.calls@, control_of(), model_of())
    }
}

impl CallLog {
    #[verifier::type_invariant]
    spec fn well_formed(self) -> bool {
        distinct_keys(self.calls@, control_of())
    }

    /// A log without calls.
    pub fn new() -> (log: CallLog)
        ensures
            log@ == Map::<Seq<char>, CallModel>::empty(),
    {
        let log = CallLog { calls: Vec::new() };
        assert(log@ =~= Map::<Seq<char>, CallModel>::empty());
        log
    }

    /// Where the call for a control stands, if there is one.
    fn position(&self, control_name: &str) -> (found: Option<usize>)
        ensures
            match found {
                Some(i) => is_entry(self.calls@, control_of(), control_name@, i as int),
                None => forall|i: int|
                    !(#[trigger] is_entry(self.calls@, control_of(), control_name@, i)),
            },
    {
        let mut i: usize = 0;
        while i < self.calls.len()
            invariant
                i <= self.calls.len(),
                forall|j: int|
                    0 <= j < i ==> !(#[trigger] is_entry(
                        self.calls@,
                        control_of(),
                        control_name@,
                        j,
                    )),
            decreases self.calls.len() - i,
        {
            if str_equal(self.calls[i].control_name.as_str(), control_name) {
                return Some(i);
            }
            i += 1;
        }
        None
    }

    /// The call last made for a control.
    pub fn get(&self, control_name: &str) -> (call: Option<&ProfileRunnerAssignmentCall>)
        ensures
            call is Some <==> self@.dom().contains(control_name@),
            call is Some ==> call->0@ == self@[control_name@],
    {
        proof {
            use_type_invariant(self);
        }
        match self.position(control_name) {
            Some(i) => {
                proof {
                    lemma_entry(self.calls@, control_of(), model_of(), i as int);
                }
                Some(&self.calls[i])
            },
            None => {
                proof {
                    lemma_no_entry(self.calls@, control_of(), model_of(), control_name@);
                }
                None
            },
        }
    }

    /// Records a call: it takes the place of the call last made for its
    /// control.
    pub fn insert(&mut self, call: ProfileRunnerAssignmentCall)
        ensures
            final(self)@ == old(self)@.insert(call.control_name@, call@),
    {
        proof {
            use_type_invariant(&*self);
        }
        let found = self.position(call.control_name.as_str());
        let mut calls: Vec<ProfileRunnerAssignmentCall> = Vec::new();
        core::mem::swap(&mut self.calls, &mut calls);
        match found {
            Some(i) => {
                proof {
                    lemma_replaced(calls@, control_of(), model_of(), i as int, call);
                }
                calls.set(i, call);
            },
            None => {
                proof {
                    lemma_appended(calls@, control_of(), model_of(), call);
                }
                calls.push(call);
            },
        }
        core::mem::swap(&mut self.calls, &mut calls);
    }

    /// Forgets every call.
    pub fn clear(&mut self)
        ensures
            final(self)@ == Map::<Seq<char>, CallModel>::empty(),
    {
        let mut calls: Vec<ProfileRunnerAssignmentCall> = Vec::new();
        core::mem::swap(&mut self.calls, &mut calls);
        assert(self@ =~= Map::<Seq<char>, CallModel>::empty());
    }

    /// Whether no call is on record.
    pub fn is_empty(&self) -> (empty: bool)
        ensures
            empty == (self@ == Map::<Seq<char>, CallModel>::empty()),
    {
        proof {
            use_type_invariant(self);
            if self.calls.len() > 0 {
                lemma_entry(self.calls@, control_of(), model_of(), 0);
            } else {
                assert(self@ =~= Map::<Seq<char>, CallModel>::empty());
            }
        }
        self.calls.len() == 0
    }
}

} // verus!
