//! The entity model: a game object with position, display data and three
//! optional capability slots (combat, autonomous behavior, item effect).
use vstd::prelude::*;

use crate::color::Color;
use crate::tile::Grid;
use crate::tile::in_bounds;
use crate::tile::tile_at;
use crate::MAP_HEIGHT;
use crate::MAP_WIDTH;
use crate::STAT_LIMIT;

verus! {

/// Which death-handling routine runs when a fighter's hit points drop to
/// zero; selected at creation, not by dynamic dispatch.
#[derive(Clone, Copy, Debug, PartialEq, Eq, Structural)]
pub enum DeathCallback {
    Player,
    Monster,
}

/// The combat capability.
#[derive(Clone, Copy, Debug, PartialEq, Eq, Structural)]
pub struct Fighter {
    pub max_hp: i32,
    pub hp: i32,
    pub defense: i32,
    pub power: i32,
    pub on_death: DeathCallback,
}

/// The autonomous-behavior capability. `Confused` owns a complete
/// snapshot of the prior value, so arbitrary nesting is representable and
/// the pre-confusion behavior is exactly restorable.
#[derive(Debug, PartialEq)]
pub enum Ai {
    Basic,
    Confused { previous_ai: Box<Ai>, num_turns: i32 },
}

/// The item capability: which effect runs when the item is used.
#[derive(Clone, Copy, Debug, PartialEq, Eq, Structural)]
pub enum Item {
    Heal,
    ScrollOfLightning,
    ScrollOfConfusion,
}

/// An entity of the world: position, display glyph and color, name,
/// whether it occupies its tile, whether it is alive, and the three
/// optional capability slots.
#[derive(Debug)]
pub struct GameObject {
    pub x: i32,
    pub y: i32,
    pub glyph: char,
    pub color: Color,
    pub name: String,
    pub blocks: bool,
    pub is_alive: bool,
    pub fighter: Option<Fighter>,
    pub ai: Option<Ai>,
    pub item: Option<Item>,
}

/// A behavior value is well-formed: every confusion counter in it is at
/// least -1 (a counter reaches -1 for one turn and is then unwrapped).
pub open spec fn ai_wf(ai: Ai) -> bool
    decreases ai,
{
    match ai {
        Ai::Basic => true,
        Ai::Confused { previous_ai, num_turns } => num_turns >= -1 && ai_wf(*previous_ai),
    }
}

/// A fighter's statistics are non-negative, bounded, and its hit points
/// never exceed its maximum.
pub open spec fn fighter_wf(f: Fighter) -> bool {
    &&& 0 <= f.defense <= STAT_LIMIT
    &&& 0 <= f.power <= STAT_LIMIT
    &&& 0 <= f.max_hp <= STAT_LIMIT
    &&& f.hp <= f.max_hp
}

/// State invariant of a single entity, independent of the map:
/// a living fighter has positive hit points, a dead monster has lost its
/// fighter capability, and autonomous behavior is carried only by living
/// monsters.
pub open spec fn obj_state_wf(o: GameObject) -> bool {
    &&& o.fighter is Some ==> fighter_wf(o.fighter->0)
    &&& o.is_alive && o.fighter is Some ==> o.fighter->0.hp > 0
    &&& o.fighter is Some && o.fighter->0.on_death is Monster ==> o.is_alive
    &&& o.ai is Some ==> o.is_alive && o.fighter is Some && o.fighter->0.on_death
        is Monster && ai_wf(o.ai->0)
}

/// Full invariant of an entity on a given map: its state invariant, and
/// it stands on a walkable tile of the grid.
pub open spec fn obj_wf(g: &Grid, o: GameObject) -> bool {
    &&& obj_state_wf(o)
    &&& in_bounds(o.x as int, o.y as int)
    &&& !tile_at(g, o.x as int, o.y as int).blocked
}

impl GameObject {
    /// A new entity at `(x, y)`: not alive and with no capabilities until
    /// the caller grants them.
    pub fn new(x: i32, y: i32, glyph: char, color: Color, name: &str, blocks: bool) -> (o:
        GameObject)
        ensures
            o.x == x,
            o.y == y,
            o.glyph == glyph,
            o.color == color,
            o.name@ == name@,
            o.blocks == blocks,
            !o.is_alive,
            o.fighter is None,
            o.ai is None,
            o.item is None,
    {
        GameObject {
            x,
            y,
            glyph,
            color,
            name: name.to_owned(),
            blocks,
            is_alive: false,
            fighter: None,
            ai: None,
            item: None,
        }
    }

    /// The entity's current position.
    pub fn position(&self) -> (p: (i32, i32))
        ensures
            p.0 == self.x,
            p.1 == self.y,
    {
        (self.x, self.y)
    }

    /// Moves the entity to `(x, y)` unconditionally; everything else is
    /// unchanged.
    pub fn set_position(&mut self, x: i32, y: i32)
        ensures
            *final(self) == (GameObject { x, y, ..*old(self) }),
    {
        self.x = x;
        self.y = y;
    }

    /// The squared Euclidean distance to the other entity. Distances are
    /// compared through their squares, which is exact for grid
    /// coordinates.
    pub fn distance_squared_to(&self, other: &GameObject) -> (d2: i32)
        requires
            in_bounds(self.x as int, self.y as int),
            in_bounds(other.x as int, other.y as int),
        ensures
            d2 == (other.x - self.x) * (other.x - self.x) + (other.y - self.y) * (other.y
                - self.y),
            0 <= d2 < 4 * (MAP_WIDTH * MAP_WIDTH + MAP_HEIGHT * MAP_HEIGHT),
    {
        let dx = other.x - self.x;
        let dy = other.y - self.y;
        proof {
            assert(dx * dx <= MAP_WIDTH * MAP_WIDTH && dy * dy <= MAP_HEIGHT * MAP_HEIGHT)
                by (nonlinear_arith)
                requires
                    -MAP_WIDTH < dx < MAP_WIDTH,
                    -MAP_HEIGHT < dy < MAP_HEIGHT,
            ;
            assert(dx * dx >= 0 && dy * dy >= 0) by (nonlinear_arith);
        }
        dx * dx + dy * dy
    }
}

} // verus!
