//! A verified daily task planner: a registry of tasks anchored to one
//! calendar date, the parsers that validate every field a user types, the
//! single-field edit dispatcher and the schedule renderer.

pub mod text;
pub mod digits;
pub mod error;
pub mod calendar;
pub mod fields;
pub mod registry;
pub mod laws;
pub mod render;
