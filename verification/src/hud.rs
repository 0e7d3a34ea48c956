//! The race: its clock, its state, and the lines that start and finish it.

pub mod components;
pub mod constants;
pub mod helpers;
pub mod systems;
