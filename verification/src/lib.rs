//! Simulation core of a grid-based dungeon crawler.
//!
//! The library builds a level out of non-overlapping rooms joined by
//! tunnels, tracks which tiles the player can currently see, and resolves
//! one discrete turn of player and monster action: movement, melee combat,
//! status effects and targeted item effects.  Rendering, input polling and
//! the window live outside the library; they exchange plain values with it.

pub mod ai;
pub mod entity;
pub mod fov;
pub mod geometry;
pub mod items;
pub mod log;
pub mod mapgen;
pub mod path;
pub mod registry;
mod rng;
pub mod targeting;
pub mod tile;
pub mod turn;

use vstd::prelude::*;

verus! {

/// Width of the generated map, in tiles.
pub const MAP_WIDTH: i32 = 80;

/// Height of the generated map, in tiles.
pub const MAP_HEIGHT: i32 = 43;

/// Smallest side (including the one-tile border) a generated room may have.
pub const ROOM_MIN_SIZE: i32 = 6;

/// Largest side (including the one-tile border) a generated room may have.
pub const ROOM_MAX_SIZE: i32 = 10;

/// Number of placement attempts the generator makes.
pub const MAX_ROOMS: i32 = 30;

/// Most monsters a single room is seeded with.
pub const MAX_ROOM_MONSTERS: i32 = 3;

/// Most items a single room is seeded with.
pub const MAX_ROOM_ITEMS: i32 = 2;

/// Index of the player in the entity registry, by convention.
pub const PLAYER: usize = 0;

/// Hit points restored by a healing potion.
pub const HEAL_AMOUNT: i32 = 4;

/// How far a lightning bolt reaches, in tiles.
pub const LIGHTNING_RANGE: i32 = 5;

/// Damage a lightning bolt deals.
pub const LIGHTNING_DAMAGE: i32 = 40;

/// How far a confusion scroll reaches, in tiles.
pub const CONFUSE_RANGE: i32 = 4;

/// Turns a confused monster spends wandering before it recovers.
pub const CONFUSE_NUM_TURNS: i32 = 10;

/// Damage a fireball deals to everything it catches.
pub const FIREBALL_DAMAGE: i32 = 12;

/// Radius of a fireball blast, in tiles.
pub const FIREBALL_RADIUS: i32 = 3;

/// Radius of the player's light, in tiles.
pub const TORCH_RADIUS: i32 = 10;

/// Largest number of items the inventory holds: one per selection letter.
pub const INVENTORY_CAPACITY: usize = 26;

} // verus!
