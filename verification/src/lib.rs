//! Gameplay core of a whack-a-mole style arcade round.
//!
//! The crate tracks a player-controlled striker, a fixed pool of holes and a
//! set of spawners that pop up and hide on randomized countdowns. It consumes
//! plain per-frame input (elapsed time, cursor, button, collision events) and
//! hands back plain display records, sound requests and text; drawing, audio
//! and input polling are left to the host.

pub mod chance;
pub mod collision;
pub mod countdown;
pub mod display;
pub mod holes;
pub mod label;
pub mod occupancy;
pub mod point;
pub mod round;
pub mod rules;
pub mod spawner;
pub mod striker;
