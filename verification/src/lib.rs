//! Decision logic that maps controller readings onto named actions.
//!
//! A profile binds each named control of a controller to one or more
//! assignments. The [`profile_runner::ProfileRunner`] takes one reading of a
//! control at a time and decides which actions fire, from the reading, the
//! assignment and the call it last made for that control. Nothing here
//! performs an action: the calls that a reading causes are returned to the
//! caller, who hands them to the key sequencer or to the direct-control
//! channel.
//!
//! All quantities are fixed-point numbers, see [`fixed_point`]. Each type
//! has a mathematical model, its view, and every function says in terms of
//! these models what it returns. What holds of the models in general is
//! proved in [`config_defs::profile_laws`] and [`runner_laws`].
//!
//! Beside the runner stand the parts that feed it and that it feeds:
//! [`config_defs`] holds what a configuration says, [`config_loader`] the
//! profiles to choose from, [`controller_manager`] the readings as the
//! device layer reports them, and [`messages`] the lines that carry commands
//! to and from the target.

pub mod action_sequencer;
pub mod call_log;
pub mod config_defs;
pub mod config_loader;
pub mod controller_manager;
pub mod direct_controller;
pub mod evaluation;
pub mod fixed_point;
pub mod keyed;
pub mod messages;
pub mod profile_runner;
pub mod runner_laws;
pub mod runner_model;
pub mod search;
pub mod sync_controller;
pub mod text;
pub mod views;
