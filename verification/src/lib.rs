//! Track generation, track geometry and race rules for a top-down driving game.
//!
//! Everything here works on integers: grid cells for the generator, fixed-point
//! world coordinates for the geometry, and microseconds for the race clock.

pub mod car;
pub mod collision;
pub mod constants;
pub mod hud;
pub mod math;
pub mod props;
pub mod race;
pub mod road;
pub mod save;
