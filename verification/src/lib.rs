//! Simulation core of a turn-based dungeon crawler: procedural level
//! generation, an entity model with optional combat/AI/item capabilities,
//! a combat resolver, an enemy decision process, and an inventory system.
//! Rendering, input and field-of-view computation are external collaborators;
//! the library only consumes a visibility grid supplied by the caller.
use vstd::prelude::*;

pub mod color;
pub mod tile;
pub mod rect;
pub mod text;
pub mod messages;
pub mod object;
pub mod world;
pub mod combat;
pub mod fov;
pub mod rng;
pub mod mapgen;
pub mod items;
pub mod ai;
pub mod engine;

verus! {

/// Width of the playing field, in tiles.
pub const MAP_WIDTH: i32 = 80;

/// Height of the playing field, in tiles.
pub const MAP_HEIGHT: i32 = 43;

/// Index of the player entity in the world sequence; reserved for the
/// session's lifetime.
pub const PLAYER: usize = 0;

/// Largest width/height of a generated room (inclusive).
pub const ROOM_MAX_SIZE: i32 = 10;

/// Smallest width/height of a generated room.
pub const ROOM_MIN_SIZE: i32 = 5;

/// Number of room placements attempted per level.
pub const MAX_ROOMS: i32 = 10;

/// Largest number of monsters spawned per room.
pub const MAX_ROOM_MONSTERS: i32 = 3;

/// Largest number of items spawned per room.
pub const MAX_ROOM_ITEMS: i32 = 3;

/// Hit points restored by a healing potion.
pub const HEAL_AMOUNT: i32 = 4;

/// Largest distance at which a lightning bolt can strike.
pub const LIGHTNING_RANGE: i32 = 5;

/// Damage dealt by a lightning bolt.
pub const LIGHTNING_DAMAGE: i32 = 40;

/// Largest distance at which a confusion scroll can strike.
pub const CONFUSION_RANGE: i32 = 5;

/// Number of turns a confused monster wanders before recovering.
pub const CONFUSE_TURN_COUNT: i32 = 10;

/// Number of items the inventory can hold.
pub const INVENTORY_CAPACITY: usize = 9;

/// Bound on the combat statistics of a well-formed fighter; keeps all
/// damage arithmetic far away from the `i32` limits.
pub const STAT_LIMIT: i32 = 1000000;

} // verus!
