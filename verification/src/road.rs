//! The track: its segments, the directional algebra of a layout, the walk that a
//! layout describes on the grid, and the generator of random closed circuits.

pub mod cell_set;
pub mod components;
pub mod constants;
pub mod helpers;
pub mod layout;
pub mod rng;
pub mod search;
pub mod systems;
pub mod track_generator;
