//! Core simulation logic for a grid-based snake arcade game.
//!
//! The library models the per-tick update loop: snake locomotion,
//! wall- and self-collision detection, food placement that avoids the
//! cells the snake occupies, and score / game-state bookkeeping.
//! Window management, rendering and input polling are left to the
//! surrounding application.

pub mod entities;
pub mod enums;
pub mod game;
pub mod tick;

use vstd::prelude::*;

verus! {

} // verus!
