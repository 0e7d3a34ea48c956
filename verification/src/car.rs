//! The car: its size, its corners, and how it moves.

pub mod components;
pub mod constants;
pub mod helpers;
pub mod systems;
