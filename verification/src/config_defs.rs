//! What a configuration holds: profiles and their assignments.

pub mod controller_calibration;
pub mod controller_profile;
pub mod controller_sdl_map;
pub mod profile_laws;
pub mod profile_model;
pub mod validation;
