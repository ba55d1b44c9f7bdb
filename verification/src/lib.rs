//! Core targeting and input-synthesis pipeline.
//!
//! The library turns per-tick entity snapshots into ranked target
//! candidates, threads the chosen target through a timed engagement
//! state machine, and converts it into clamped pointer deltas via
//! smoothed trajectories with humanized timing.  All geometry is
//! fixed-point: world coordinates in milli-units, screen coordinates
//! in milli-pixels, time in milliseconds.
//!
//! Reading the host process and emitting device input are external
//! concerns: the library only consumes plain snapshot values and
//! returns plain command values.

pub mod bones;
pub mod config;
pub mod context;
pub mod estimator;
pub mod evaluator;
pub mod humanize;
pub mod machine;
pub mod planner;
pub mod risk;
mod rng;
pub mod vecmath;
pub mod weapons;
