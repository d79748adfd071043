//! A tile-based dungeon: procedural map generation, field-of-view bookkeeping
//! and movement validation.
use vstd::prelude::*;

pub mod geometry;
pub mod grid;
pub mod carve;
pub mod generator;
pub mod random;
pub mod lemmas;
pub mod visibility;
pub mod movement;
pub mod shade;

verus! {

/// Width of the standard map, in tiles.
pub const MAP_WIDTH: i32 = 80;

/// Height of the standard map, in tiles.
pub const MAP_HEIGHT: i32 = 45;

} // verus!
