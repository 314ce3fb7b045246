//! The profiles that a runner can choose from.

use crate::config_defs::controller_profile::ControllerProfile;
use crate::config_defs::profile_model::{find_profile, ProfileModel};
use crate::search::{lemma_first_position_found, lemma_first_position_none};
use crate::text::str_equal;
use crate::views::{option_view, seq_view};
use vstd::prelude::*;

verus! {

/// The profiles of a configuration, in the order in which they were loaded.
#[derive(Debug, PartialEq, Eq)]
pub struct ConfigLoader {
    pub controller_profiles: Vec<ControllerProfile>,
}

impl View for ConfigLoader {
    type V = Seq<ProfileModel>;

    open spec fn view(&self) -> Seq<ProfileModel> {
        seq_view(self.controller_profiles@)
    }
}

impl ControllerProfile {
    /// Whether this profile answers to `name` for the controller
    /// `controller`.
    pub fn answers_to(&self, name: &str, controller: Option<&str>) -> (answers: bool)
        ensures
            answers == self@.answers_to(name@, option_view(controller)),
    {
        if !str_equal(self.name.as_str(), name) {
            return false;
        }
        match (&self.controller_id, controller) {
            (Some(bound), Some(asked)) => str_equal(bound.as_str(), asked),
            _ => true,
        }
    }
}

impl ConfigLoader {
    /// A configuration without profiles.
    pub fn new() -> (config: ConfigLoader)
        ensures
            config@ == Seq::<ProfileModel>::empty(),
    {
        let config = ConfigLoader { controller_profiles: Vec::new() };
        config
    }

    /// The first profile that answers to `name` for the controller
    /// `controller`.
    pub fn find_controller_profile(&self, name: &str, controller: Option<&str>) -> (found: Option<
        &ControllerProfile,
    >)
        ensures
            option_view(found) == find_profile(self@, name@, option_view(controller)),
    {
        let ghost wanted = |profile: ProfileModel|
            profile.answers_to(name@, option_view(controller));
        let mut i: usize = 0;
        while i < self.controller_profiles.len()
            invariant
                i <= self.controller_profiles.len(),
                wanted == |profile: ProfileModel|
                    profile.answers_to(name@, option_view(controller)),
                forall|j: int| 0 <= j < i ==> !wanted(#[trigger] self@[j]),
            decreases self.controller_profiles.len() - i,
        {
            if self.controller_profiles[i].answers_to(name, controller) {
                proof {
                    lemma_first_position_found(self@, wanted, i as int);
                }
                return Some(&self.controller_profiles[i]);
            }
            i += 1;
        }
        proof {
            lemma_first_position_none(self@, wanted);
        }
        None
    }
}

} // verus!
