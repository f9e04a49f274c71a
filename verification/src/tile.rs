//! The tile grid: a fixed-size rectangular array of tile states.
use vstd::prelude::*;

use crate::MAP_HEIGHT;
use crate::MAP_WIDTH;

verus! {

/// One cell of the map: whether it blocks movement, whether it blocks
/// sight, and whether the player has ever seen it.
#[derive(Clone, Copy, Debug, PartialEq, Eq, Structural)]
pub struct Tile {
    pub blocked: bool,
    pub explored: bool,
    pub block_sight: bool,
}

pub open spec fn empty_tile() -> Tile {
    Tile { blocked: false, explored: false, block_sight: false }
}

pub open spec fn wall_tile() -> Tile {
    Tile { blocked: true, explored: false, block_sight: true }
}

impl Tile {
    /// A walkable, see-through floor tile.
    pub fn empty() -> (t: Tile)
        ensures
            t == empty_tile(),
    {
        Tile { blocked: false, explored: false, block_sight: false }
    }

    /// A solid, sight-blocking wall tile.
    pub fn wall() -> (t: Tile)
        ensures
            t == wall_tile(),
    {
        Tile { blocked: true, explored: false, block_sight: true }
    }
}

/// The map: a column-major grid of tiles, indexed `grid[x][y]`.
pub type Grid = Vec<Vec<Tile>>;

/// The grid has exactly the fixed level dimensions.
pub open spec fn grid_wf(g: &Grid) -> bool {
    &&& g@.len() == MAP_WIDTH
    &&& forall|x: int| 0 <= x < MAP_WIDTH ==> (#[trigger] g@[x])@.len() == MAP_HEIGHT
}

/// The tile at column `x`, row `y`.
pub open spec fn tile_at(g: &Grid, x: int, y: int) -> Tile {
    g@[x]@[y]
}

/// `(x, y)` lies on the grid.
pub open spec fn in_bounds(x: int, y: int) -> bool {
    0 <= x < MAP_WIDTH && 0 <= y < MAP_HEIGHT
}

/// `(x, y)` lies strictly inside the grid's outermost ring of tiles.
pub open spec fn in_interior(x: int, y: int) -> bool {
    0 < x < MAP_WIDTH - 1 && 0 < y < MAP_HEIGHT - 1
}

/// Every tile on the outermost ring of the grid blocks movement, so a
/// walkable tile always lies in the interior.
pub open spec fn walled_border(g: &Grid) -> bool {
    forall|x: int, y: int|
        in_bounds(x, y) && !in_interior(x, y) ==> (#[trigger] tile_at(g, x, y)).blocked
}

/// Replaces the tile at `(x, y)`, leaving every other tile as it was.
pub fn set_tile(g: &mut Grid, x: i32, y: i32, t: Tile)
    requires
        grid_wf(old(g)),
        in_bounds(x as int, y as int),
    ensures
        grid_wf(final(g)),
        forall|a: int, b: int|
            in_bounds(a, b) ==> #[trigger] tile_at(final(g), a, b) == (if a == x && b == y {
                t
            } else {
                tile_at(old(g), a, b)
            }),
{
    let column = &mut g[x as usize];
    column.set(y as usize, t);
}

/// Marks the tile at `(x, y)` as explored, leaving everything else as it
/// was. Exploration is monotonic: no operation of the core resets it.
pub fn explore(g: &mut Grid, x: i32, y: i32)
    requires
        grid_wf(old(g)),
        in_bounds(x as int, y as int),
    ensures
        grid_wf(final(g)),
        forall|a: int, b: int|
            in_bounds(a, b) ==> #[trigger] tile_at(final(g), a, b) == (if a == x && b == y {
                (Tile { explored: true, ..tile_at(old(g), x as int, y as int) })
            } else {
                tile_at(old(g), a, b)
            }),
{
    let t = g[x as usize][y as usize];
    set_tile(g, x, y, Tile { explored: true, ..t });
}

} // verus!
