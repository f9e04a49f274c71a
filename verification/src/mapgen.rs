//! The dungeon generator: non-overlapping rectangular rooms connected by
//! L-shaped corridors, carved out of a fully walled grid, with monsters
//! and items placed in each accepted room.
use vstd::prelude::*;

use crate::color::desaturated_green;
use crate::color::darker_green;
use crate::color::light_yellow;
use crate::color::violet;
use crate::color::Color;
use crate::object::Ai;
use crate::object::DeathCallback;
use crate::object::Fighter;
use crate::object::GameObject;
use crate::object::Item;
use crate::object::obj_state_wf;
use crate::object::obj_wf;
use crate::rect::interior_contains;
use crate::rect::spec_intersect;
use crate::rect::Rectangle;
use crate::rng::RandomSource;
use crate::tile::grid_wf;
use crate::tile::in_bounds;
use crate::tile::in_interior;
use crate::tile::empty_tile;
use crate::tile::set_tile;
use crate::tile::tile_at;
use crate::tile::wall_tile;
use crate::tile::walled_border;
use crate::tile::Grid;
use crate::tile::Tile;
use crate::world::is_blocked;
use crate::world::spec_blocked;
use crate::world::world_wf;
use crate::MAP_HEIGHT;
use crate::MAP_WIDTH;
use crate::MAX_ROOMS;
use crate::MAX_ROOM_ITEMS;
use crate::MAX_ROOM_MONSTERS;
use crate::ROOM_MAX_SIZE;
use crate::ROOM_MIN_SIZE;
use crate::PLAYER;

verus! {

/// One straight leg of an L-shaped corridor: a one-tile-wide line at row
/// (horizontal) or column (vertical) `at`, spanning from `a` to `b` on
/// the other axis, both ends inclusive, in either order.
#[derive(Clone, Copy, Debug, PartialEq, Eq, Structural)]
pub struct Tunnel {
    pub horizontal: bool,
    pub a: i32,
    pub b: i32,
    pub at: i32,
}

/// `(x, y)` lies on the tunnel.
pub open spec fn tunnel_contains(t: Tunnel, x: int, y: int) -> bool {
    if t.horizontal {
        y == t.at && (if t.a <= t.b {
            t.a <= x <= t.b
        } else {
            t.b <= x <= t.a
        })
    } else {
        x == t.at && (if t.a <= t.b {
            t.a <= y <= t.b
        } else {
            t.b <= y <= t.a
        })
    }
}

/// An accepted room fits the grid with a one-tile wall margin and its
/// width and height lie within the configured size range.
pub open spec fn room_ok(r: Rectangle) -> bool {
    &&& 0 <= r.x1 && r.x1 + 2 <= r.x2 <= MAP_WIDTH - 1
    &&& 0 <= r.y1 && r.y1 + 2 <= r.y2 <= MAP_HEIGHT - 1
    &&& ROOM_MIN_SIZE <= r.x2 - r.x1 <= ROOM_MAX_SIZE
    &&& ROOM_MIN_SIZE <= r.y2 - r.y1 <= ROOM_MAX_SIZE
}

/// A tunnel runs strictly inside the grid's border.
pub open spec fn tunnel_ok(t: Tunnel) -> bool {
    if t.horizontal {
        &&& 1 <= t.a <= MAP_WIDTH - 2 && 1 <= t.b <= MAP_WIDTH - 2
        &&& 1 <= t.at <= MAP_HEIGHT - 2
    } else {
        &&& 1 <= t.a <= MAP_HEIGHT - 2 && 1 <= t.b <= MAP_HEIGHT - 2
        &&& 1 <= t.at <= MAP_WIDTH - 2
    }
}

/// `(x, y)` lies in the carved interior of some accepted room.
pub open spec fn in_some_room(rooms: Seq<Rectangle>, x: int, y: int) -> bool {
    exists|i: int| 0 <= i < rooms.len() && interior_contains(#[trigger] rooms[i], x, y)
}

/// `(x, y)` lies on some carved corridor leg.
pub open spec fn in_some_tunnel(tunnels: Seq<Tunnel>, x: int, y: int) -> bool {
    exists|i: int| 0 <= i < tunnels.len() && tunnel_contains(#[trigger] tunnels[i], x, y)
}

/// The grid is exactly the carving of the given rooms and tunnels out of
/// solid wall: a tile is floor when some accepted room's interior or
/// some corridor covers it, and untouched wall everywhere else.
pub open spec fn gen_tiles_exact(g: &Grid, rooms: Seq<Rectangle>, tunnels: Seq<Tunnel>) -> bool {
    forall|x: int, y: int|
        in_bounds(x, y) ==> #[trigger] tile_at(g, x, y) == (if in_some_room(rooms, x, y)
            || in_some_tunnel(tunnels, x, y) {
            empty_tile()
        } else {
            wall_tile()
        })
}

/// No two accepted rooms intersect.
pub open spec fn rooms_disjoint(rooms: Seq<Rectangle>) -> bool {
    forall|i: int, j: int|
        0 <= i < j < rooms.len() ==> !spec_intersect(#[trigger] rooms[i], #[trigger] rooms[j])
}

/// Extending the room list by one room extends its carved area by
/// exactly that room's interior.
pub proof fn lemma_in_some_room_push(rooms: Seq<Rectangle>, r: Rectangle, x: int, y: int)
    ensures
        in_some_room(rooms.push(r), x, y) <==> (in_some_room(rooms, x, y) || interior_contains(
            r,
            x,
            y,
        )),
{
    if in_some_room(rooms.push(r), x, y) {
        let i = choose|i: int|
            0 <= i < rooms.push(r).len() && interior_contains(rooms.push(r)[i], x, y);
        if i < rooms.len() {
            assert(rooms.push(r)[i] == rooms[i]);
        } else {
            assert(rooms.push(r)[i] == r);
        }
    }
    if in_some_room(rooms, x, y) {
        let i = choose|i: int| 0 <= i < rooms.len() && interior_contains(rooms[i], x, y);
        assert(rooms.push(r)[i] == rooms[i]);
        assert(interior_contains(rooms.push(r)[i], x, y));
    }
    if interior_contains(r, x, y) {
        assert(rooms.push(r)[rooms.len() as int] == r);
        assert(interior_contains(rooms.push(r)[rooms.len() as int], x, y));
    }
}

/// Extending the tunnel list by one leg extends its carved area by
/// exactly that leg.
pub proof fn lemma_in_some_tunnel_push(tunnels: Seq<Tunnel>, t: Tunnel, x: int, y: int)
    ensures
        in_some_tunnel(tunnels.push(t), x, y) <==> (in_some_tunnel(tunnels, x, y)
            || tunnel_contains(t, x, y)),
{
    if in_some_tunnel(tunnels.push(t), x, y) {
        let i = choose|i: int|
            0 <= i < tunnels.push(t).len() && tunnel_contains(tunnels.push(t)[i], x, y);
        if i < tunnels.len() {
            assert(tunnels.push(t)[i] == tunnels[i]);
        } else {
            assert(tunnels.push(t)[i] == t);
        }
    }
    if in_some_tunnel(tunnels, x, y) {
        let i = choose|i: int| 0 <= i < tunnels.len() && tunnel_contains(tunnels[i], x, y);
        assert(tunnels.push(t)[i] == tunnels[i]);
        assert(tunnel_contains(tunnels.push(t)[i], x, y));
    }
    if tunnel_contains(t, x, y) {
        assert(tunnels.push(t)[tunnels.len() as int] == t);
        assert(tunnel_contains(tunnels.push(t)[tunnels.len() as int], x, y));
    }
}

/// The center of a room, rounded toward the top-left.
pub open spec fn room_center_x(r: Rectangle) -> int {
    (r.x1 + r.x2) / 2
}

/// The center of a room, rounded toward the top-left.
pub open spec fn room_center_y(r: Rectangle) -> int {
    (r.y1 + r.y2) / 2
}

/// The two legs form one L-shaped corridor joining `(ax, ay)` to
/// `(bx, by)`: either a horizontal leg at the first point's row followed
/// by a vertical leg at the second point's column, or the vertical leg
/// at the first point's column followed by the horizontal leg at the
/// second point's row.
pub open spec fn l_connects(t1: Tunnel, t2: Tunnel, ax: int, ay: int, bx: int, by: int) -> bool {
    ||| {
        &&& t1.horizontal && t1.at == ay && t1.a == ax && t1.b == bx
        &&& !t2.horizontal && t2.at == bx && t2.a == ay && t2.b == by
    }
    ||| {
        &&& !t1.horizontal && t1.at == ax && t1.a == ay && t1.b == by
        &&& t2.horizontal && t2.at == by && t2.a == ax && t2.b == bx
    }
}

/// The tunnel list holds exactly one L-shaped corridor for every
/// accepted room after the first, joining the centers of consecutive
/// rooms in acceptance order.
pub open spec fn tunnels_connect_rooms(rooms: Seq<Rectangle>, tunnels: Seq<Tunnel>) -> bool {
    &&& rooms.len() >= 1 ==> tunnels.len() == 2 * (rooms.len() - 1)
    &&& forall|i: int|
        1 <= i < rooms.len() ==> l_connects(
            #[trigger] tunnels[2 * (i - 1)],
            tunnels[2 * (i - 1) + 1],
            room_center_x(rooms[i - 1]),
            room_center_y(rooms[i - 1]),
            room_center_x(rooms[i]),
            room_center_y(rooms[i]),
        )
}

/// A grid of solid wall with the fixed level dimensions.
pub fn walled_grid() -> (g: Grid)
    ensures
        grid_wf(&g),
        forall|x: int, y: int| in_bounds(x, y) ==> #[trigger] tile_at(&g, x, y) == wall_tile(),
{
    let mut columns: Grid = Vec::new();
    let mut x: usize = 0;
    while x < MAP_WIDTH as usize
        invariant
            0 <= x <= MAP_WIDTH,
            columns@.len() == x,
            forall|i: int|
                0 <= i < x ==> (#[trigger] columns@[i])@ == Seq::new(
                    MAP_HEIGHT as nat,
                    |j: int| wall_tile(),
                ),
        decreases MAP_WIDTH - x,
    {
        let mut column: Vec<Tile> = Vec::new();
        let mut y: usize = 0;
        while y < MAP_HEIGHT as usize
            invariant
                0 <= y <= MAP_HEIGHT,
                column@.len() == y,
                forall|j: int| 0 <= j < y ==> column@[j] == wall_tile(),
            decreases MAP_HEIGHT - y,
        {
            column.push(Tile::wall());
            y += 1;
        }
        proof {
            assert(column@ =~= Seq::new(MAP_HEIGHT as nat, |j: int| wall_tile()));
        }
        columns.push(column);
        x += 1;
    }
    columns
}

/// Carves the interior of `room` to floor, leaving every other tile as
/// it was: the room keeps a one-tile border of wall.
pub fn make_room(room: Rectangle, map: &mut Grid)
    requires
        grid_wf(old(map)),
        room_ok(room),
    ensures
        grid_wf(final(map)),
        forall|a: int, b: int|
            in_bounds(a, b) ==> #[trigger] tile_at(final(map), a, b) == (if interior_contains(
                room,
                a,
                b,
            ) {
                empty_tile()
            } else {
                tile_at(old(map), a, b)
            }),
{
    let mut x = room.x1 + 1;
    while x < room.x2
        invariant
            grid_wf(map),
            room_ok(room),
            room.x1 + 1 <= x <= room.x2,
            forall|a: int, b: int|
                in_bounds(a, b) ==> #[trigger] tile_at(map, a, b) == (if room.x1 < a < x
                    && room.y1 < b < room.y2 {
                    empty_tile()
                } else {
                    tile_at(old(map), a, b)
                }),
        decreases room.x2 - x,
    {
        let mut y = room.y1 + 1;
        while y < room.y2
            invariant
                grid_wf(map),
                room_ok(room),
                room.x1 + 1 <= x < room.x2,
                room.y1 + 1 <= y <= room.y2,
                forall|a: int, b: int|
                    in_bounds(a, b) ==> #[trigger] tile_at(map, a, b) == (if (room.x1 < a < x
                        && room.y1 < b < room.y2) || (a == x && room.y1 < b < y) {
                        empty_tile()
                    } else {
                        tile_at(old(map), a, b)
                    }),
            decreases room.y2 - y,
        {
            set_tile(map, x, y, Tile::empty());
            y += 1;
        }
        x += 1;
    }
}

/// Carves a horizontal one-tile corridor at row `y`, spanning from
/// `x1` to `x2` inclusive, in either order.
pub fn make_horizontal_tunnel(x1: i32, x2: i32, y: i32, map: &mut Grid)
    requires
        grid_wf(old(map)),
        in_bounds(x1 as int, y as int),
        in_bounds(x2 as int, y as int),
    ensures
        grid_wf(final(map)),
        forall|a: int, b: int|
            in_bounds(a, b) ==> #[trigger] tile_at(final(map), a, b) == (if tunnel_contains(
                (Tunnel { horizontal: true, a: x1, b: x2, at: y }),
                a,
                b,
            ) {
                empty_tile()
            } else {
                tile_at(old(map), a, b)
            }),
{
    let lo = if x1 < x2 {
        x1
    } else {
        x2
    };
    let hi = if x1 < x2 {
        x2
    } else {
        x1
    };
    let mut x = lo;
    while x <= hi
        invariant
            grid_wf(map),
            in_bounds(lo as int, y as int),
            in_bounds(hi as int, y as int),
            lo <= x <= hi + 1,
            forall|a: int, b: int|
                in_bounds(a, b) ==> #[trigger] tile_at(map, a, b) == (if b == y && lo <= a < x {
                    empty_tile()
                } else {
                    tile_at(old(map), a, b)
                }),
        decreases hi + 1 - x,
    {
        set_tile(map, x, y, Tile::empty());
        x += 1;
    }
}

/// Carves a vertical one-tile corridor at column `x`, spanning from
/// `y1` to `y2` inclusive, in either order.
pub fn make_vertical_tunnel(y1: i32, y2: i32, x: i32, map: &mut Grid)
    requires
        grid_wf(old(map)),
        in_bounds(x as int, y1 as int),
        in_bounds(x as int, y2 as int),
    ensures
        grid_wf(final(map)),
        forall|a: int, b: int|
            in_bounds(a, b) ==> #[trigger] tile_at(final(map), a, b) == (if tunnel_contains(
                (Tunnel { horizontal: false, a: y1, b: y2, at: x }),
                a,
                b,
            ) {
                empty_tile()
            } else {
                tile_at(old(map), a, b)
            }),
{
    let lo = if y1 < y2 {
        y1
    } else {
        y2
    };
    let hi = if y1 < y2 {
        y2
    } else {
        y1
    };
    let mut y = lo;
    while y <= hi
        invariant
            grid_wf(map),
            in_bounds(x as int, lo as int),
            in_bounds(x as int, hi as int),
            lo <= y <= hi + 1,
            forall|a: int, b: int|
                in_bounds(a, b) ==> #[trigger] tile_at(map, a, b) == (if a == x && lo <= b < y {
                    empty_tile()
                } else {
                    tile_at(old(map), a, b)
                }),
        decreases hi + 1 - y,
    {
        set_tile(map, x, y, Tile::empty());
        y += 1;
    }
}

} // verus!

verus! {

/// A freshly spawned orc: low hit points and power, basic behavior.
pub open spec fn is_orc(o: GameObject) -> bool {
    &&& o.glyph == 'o'
    &&& o.color == desaturated_green()
    &&& o.name@ == "orc"@
    &&& o.blocks
    &&& o.is_alive
    &&& o.fighter == Some(
        Fighter { max_hp: 10, hp: 10, defense: 0, power: 3, on_death: DeathCallback::Monster },
    )
    &&& o.ai == Some(Ai::Basic)
    &&& o.item is None
}

/// A freshly spawned troll: higher hit points and power, basic behavior.
pub open spec fn is_troll(o: GameObject) -> bool {
    &&& o.glyph == 't'
    &&& o.color == darker_green()
    &&& o.name@ == "troll"@
    &&& o.blocks
    &&& o.is_alive
    &&& o.fighter == Some(
        Fighter { max_hp: 16, hp: 16, defense: 1, power: 4, on_death: DeathCallback::Monster },
    )
    &&& o.ai == Some(Ai::Basic)
    &&& o.item is None
}

/// A healing potion lying on the floor.
pub open spec fn is_healing_potion(o: GameObject) -> bool {
    &&& o.glyph == '!'
    &&& o.color == violet()
    &&& o.name@ == "healing potion"@
    &&& !o.blocks
    &&& !o.is_alive
    &&& o.fighter is None
    &&& o.ai is None
    &&& o.item == Some(Item::Heal)
}

/// A lightning-bolt scroll lying on the floor.
pub open spec fn is_lightning_scroll(o: GameObject) -> bool {
    &&& o.glyph == '~'
    &&& o.color == light_yellow()
    &&& o.name@ == "scroll of lightning bolt"@
    &&& !o.blocks
    &&& !o.is_alive
    &&& o.fighter is None
    &&& o.ai is None
    &&& o.item == Some(Item::ScrollOfLightning)
}

/// A confusion scroll lying on the floor.
pub open spec fn is_confusion_scroll(o: GameObject) -> bool {
    &&& o.glyph == 'c'
    &&& o.color == light_yellow()
    &&& o.name@ == "scroll of confusion"@
    &&& !o.blocks
    &&& !o.is_alive
    &&& o.fighter is None
    &&& o.ai is None
    &&& o.item == Some(Item::ScrollOfConfusion)
}

/// Anything the generator may spawn in a room.
pub open spec fn is_spawned(o: GameObject) -> bool {
    ||| is_orc(o)
    ||| is_troll(o)
    ||| is_healing_potion(o)
    ||| is_lightning_scroll(o)
    ||| is_confusion_scroll(o)
}

/// No `blocks` entity earlier in the sequence stands on entity `i`'s
/// tile: the entity's sampled position was unoccupied when it was
/// inserted, and since nothing moves during population, that stays
/// visible in the final sequence.
pub open spec fn free_of_blockers_before(objs: Seq<GameObject>, i: int) -> bool {
    forall|j: int|
        0 <= j < i && (#[trigger] objs[j]).blocks ==> !(objs[j].x == objs[i].x && objs[j].y
            == objs[i].y)
}

/// The entities appended by one population call, split at `k`: at most
/// `MAX_ROOM_MONSTERS` monsters first, then at most `MAX_ROOM_ITEMS`
/// items.
pub open spec fn spawn_split(objs: Seq<GameObject>, base: int, k: int, top: int) -> bool {
    &&& base <= k <= top
    &&& k - base <= MAX_ROOM_MONSTERS
    &&& top - k <= MAX_ROOM_ITEMS
    &&& forall|i: int| base <= i < k ==> is_orc(#[trigger] objs[i]) || is_troll(objs[i])
    &&& forall|i: int|
        k <= i < top ==> is_healing_potion(#[trigger] objs[i]) || is_lightning_scroll(objs[i])
            || is_confusion_scroll(objs[i])
}

/// Populates an accepted, already carved room: up to `MAX_ROOM_MONSTERS`
/// monsters (orc with probability 8/10, troll otherwise) and up to
/// `MAX_ROOM_ITEMS` items (healing potion 70%, lightning scroll 10%,
/// confusion scroll 20%), each at a sampled position inside the room
/// that was free of blocking entities at insertion time; a slot whose
/// sampled position is blocked is skipped, not retried.
pub fn place_game_objects(
    room: Rectangle,
    map: &Grid,
    game_objects: &mut Vec<GameObject>,
    rng: &mut RandomSource,
)
    requires
        grid_wf(map),
        room_ok(room),
        forall|x: int, y: int|
            interior_contains(room, x, y) ==> !(#[trigger] tile_at(map, x, y)).blocked,
    ensures
        final(game_objects)@.len() >= old(game_objects)@.len(),
        final(game_objects)@.subrange(0, old(game_objects)@.len() as int) == old(
            game_objects,
        )@,
        forall|i: int|
            old(game_objects)@.len() <= i < final(game_objects)@.len() ==> {
                let o = #[trigger] final(game_objects)@[i];
                &&& is_spawned(o)
                &&& interior_contains(room, o.x as int, o.y as int)
                &&& obj_wf(map, o)
            },
        final(game_objects)@.len() <= old(game_objects)@.len() + MAX_ROOM_MONSTERS
            + MAX_ROOM_ITEMS,
        exists|k: int|
            #[trigger] spawn_split(
                final(game_objects)@,
                old(game_objects)@.len() as int,
                k,
                final(game_objects)@.len() as int,
            ),
        forall|i: int|
            old(game_objects)@.len() <= i < final(game_objects)@.len()
                ==> #[trigger] free_of_blockers_before(final(game_objects)@, i),
{
    let ghost base = game_objects@;
    let monster_count = rng.range(0, MAX_ROOM_MONSTERS + 1);
    let mut m: i32 = 0;
    while m < monster_count
        invariant
            0 <= m <= monster_count,
            monster_count <= MAX_ROOM_MONSTERS,
            grid_wf(map),
            room_ok(room),
            forall|x: int, y: int|
                interior_contains(room, x, y) ==> !(#[trigger] tile_at(map, x, y)).blocked,
            game_objects@.len() >= base.len(),
            game_objects@.len() <= base.len() + m,
            game_objects@.subrange(0, base.len() as int) == base,
            forall|i: int|
                base.len() <= i < game_objects@.len() ==> {
                    let o = #[trigger] game_objects@[i];
                    &&& is_spawned(o)
                    &&& interior_contains(room, o.x as int, o.y as int)
                    &&& obj_wf(map, o)
                },
            forall|i: int|
                base.len() <= i < game_objects@.len() ==> is_orc(#[trigger] game_objects@[i])
                    || is_troll(game_objects@[i]),
            forall|i: int|
                base.len() <= i < game_objects@.len() ==> #[trigger] free_of_blockers_before(
                    game_objects@,
                    i,
                ),
        decreases monster_count - m,
    {
        let x = rng.range(room.x1 + 1, room.x2);
        let y = rng.range(room.y1 + 1, room.y2);
        if !is_blocked(x, y, map, game_objects) {
            let ghost before = game_objects@;
            let mut monster = if rng.range(0, 10) < 8 {
                let mut orc = GameObject::new(x, y, 'o', Color::rgb(63, 127, 63), "orc", true);
                orc.fighter = Some(
                    Fighter {
                        max_hp: 10,
                        hp: 10,
                        defense: 0,
                        power: 3,
                        on_death: DeathCallback::Monster,
                    },
                );
                orc
            } else {
                let mut troll = GameObject::new(x, y, 't', Color::rgb(0, 127, 0), "troll", true);
                troll.fighter = Some(
                    Fighter {
                        max_hp: 16,
                        hp: 16,
                        defense: 1,
                        power: 4,
                        on_death: DeathCallback::Monster,
                    },
                );
                troll
            };
            monster.is_alive = true;
            monster.ai = Some(Ai::Basic);
            game_objects.push(monster);
            proof {
                assert(game_objects@.subrange(0, base.len() as int) =~= base);
                lemma_push_keeps_free_of_blockers(
                    before,
                    game_objects@,
                    map,
                    base.len() as int,
                    x as int,
                    y as int,
                );
            }
        }
        m += 1;
    }
    let ghost mid = game_objects@;
    let item_count = rng.range(0, MAX_ROOM_ITEMS + 1);
    let mut k: i32 = 0;
    while k < item_count
        invariant
            0 <= k <= item_count,
            item_count <= MAX_ROOM_ITEMS,
            grid_wf(map),
            room_ok(room),
            forall|x: int, y: int|
                interior_contains(room, x, y) ==> !(#[trigger] tile_at(map, x, y)).blocked,
            base.len() <= mid.len() <= base.len() + MAX_ROOM_MONSTERS,
            game_objects@.len() >= mid.len(),
            game_objects@.len() <= mid.len() + k,
            game_objects@.subrange(0, base.len() as int) == base,
            game_objects@.subrange(0, mid.len() as int) == mid,
            forall|i: int|
                base.len() <= i < game_objects@.len() ==> {
                    let o = #[trigger] game_objects@[i];
                    &&& is_spawned(o)
                    &&& interior_contains(room, o.x as int, o.y as int)
                    &&& obj_wf(map, o)
                },
            forall|i: int|
                base.len() <= i < mid.len() ==> is_orc(#[trigger] game_objects@[i]) || is_troll(
                    game_objects@[i],
                ),
            forall|i: int|
                mid.len() <= i < game_objects@.len() ==> is_healing_potion(
                    #[trigger] game_objects@[i],
                ) || is_lightning_scroll(game_objects@[i]) || is_confusion_scroll(
                    game_objects@[i],
                ),
            forall|i: int|
                base.len() <= i < game_objects@.len() ==> #[trigger] free_of_blockers_before(
                    game_objects@,
                    i,
                ),
        decreases item_count - k,
    {
        let x = rng.range(room.x1 + 1, room.x2);
        let y = rng.range(room.y1 + 1, room.y2);
        if !is_blocked(x, y, map, game_objects) {
            let ghost before = game_objects@;
            let dice = rng.range(0, 100);
            let item = if dice < 70 {
                let mut game_object = GameObject::new(
                    x,
                    y,
                    '!',
                    Color::rgb(127, 0, 255),
                    "healing potion",
                    false,
                );
                game_object.item = Some(Item::Heal);
                game_object
            } else if dice < 80 {
                let mut game_object = GameObject::new(
                    x,
                    y,
                    '~',
                    Color::rgb(255, 255, 115),
                    "scroll of lightning bolt",
                    false,
                );
                game_object.item = Some(Item::ScrollOfLightning);
                game_object
            } else {
                let mut game_object = GameObject::new(
                    x,
                    y,
                    'c',
                    Color::rgb(255, 255, 115),
                    "scroll of confusion",
                    false,
                );
                game_object.item = Some(Item::ScrollOfConfusion);
                game_object
            };
            game_objects.push(item);
            proof {
                assert(game_objects@.subrange(0, base.len() as int) =~= base);
                assert(game_objects@.subrange(0, mid.len() as int) =~= mid);
                lemma_push_keeps_free_of_blockers(
                    before,
                    game_objects@,
                    map,
                    base.len() as int,
                    x as int,
                    y as int,
                );
            }
        }
        k += 1;
    }
    proof {
        assert(spawn_split(
            game_objects@,
            base.len() as int,
            mid.len() as int,
            game_objects@.len() as int,
        ));
    }
}

/// Appending one entity to an unoccupied position keeps every appended
/// entity's position clear of earlier blockers.
proof fn lemma_push_keeps_free_of_blockers(
    before: Seq<GameObject>,
    after: Seq<GameObject>,
    map: &Grid,
    base: int,
    x: int,
    y: int,
)
    requires
        0 <= base <= before.len(),
        after.len() == before.len() + 1,
        forall|j: int| 0 <= j < before.len() ==> after[j] == #[trigger] before[j],
        after.last().x == x && after.last().y == y,
        !spec_blocked(map, before, x, y),
        forall|i: int| base <= i < before.len() ==> #[trigger] free_of_blockers_before(before, i),
    ensures
        forall|i: int| base <= i < after.len() ==> #[trigger] free_of_blockers_before(after, i),
{
    assert forall|i: int| base <= i < after.len() implies #[trigger] free_of_blockers_before(
        after,
        i,
    ) by {
        if i < after.len() - 1 {
            assert(free_of_blockers_before(before, i));
            assert forall|j: int|
                0 <= j < i && (#[trigger] after[j]).blocks implies !(after[j].x == after[i].x
                && after[j].y == after[i].y) by {
                assert(after[j] == before[j]);
                assert(after[i] == before[i]);
            }
        } else {
            assert forall|j: int|
                0 <= j < i && (#[trigger] after[j]).blocks implies !(after[j].x == after[i].x
                && after[j].y == after[i].y) by {
                assert(after[j] == before[j]);
                if before[j].blocks && before[j].x == x && before[j].y == y {
                    assert(spec_blocked(map, before, x, y));
                }
            }
        }
    }
}

} // verus!

verus! {

/// A generated level: the carved grid together with the accepted rooms
/// and the corridor legs that explain every floor tile.
#[derive(Debug)]
pub struct DungeonMap {
    pub grid: Grid,
    pub rooms: Vec<Rectangle>,
    pub tunnels: Vec<Tunnel>,
}

/// The center of a well-formed room lies in its carved interior.
pub proof fn lemma_center_in_interior(r: Rectangle)
    requires
        room_ok(r),
    ensures
        interior_contains(r, (r.x1 + r.x2) / 2, (r.y1 + r.y2) / 2),
{
    assert(r.x1 < (r.x1 + r.x2) / 2 < r.x2 && r.y1 < (r.y1 + r.y2) / 2 < r.y2)
        by (nonlinear_arith)
        requires
            0 <= r.x1 && r.x1 + 2 <= r.x2,
            0 <= r.y1 && r.y1 + 2 <= r.y2,
    ;
}

/// A grid carved exactly from well-formed rooms and tunnels keeps its
/// outermost ring of tiles solid.
pub proof fn lemma_gen_walled_border(g: &Grid, rooms: Seq<Rectangle>, tunnels: Seq<Tunnel>)
    requires
        gen_tiles_exact(g, rooms, tunnels),
        forall|i: int| 0 <= i < rooms.len() ==> room_ok(#[trigger] rooms[i]),
        forall|i: int| 0 <= i < tunnels.len() ==> tunnel_ok(#[trigger] tunnels[i]),
    ensures
        walled_border(g),
{
    assert forall|x: int, y: int|
        in_bounds(x, y) && !in_interior(x, y) implies (#[trigger] tile_at(g, x, y)).blocked by {
        if in_some_room(rooms, x, y) {
            let i = choose|i: int| 0 <= i < rooms.len() && interior_contains(rooms[i], x, y);
            assert(room_ok(rooms[i]));
        }
        if in_some_tunnel(tunnels, x, y) {
            let i = choose|i: int| 0 <= i < tunnels.len() && tunnel_contains(tunnels[i], x, y);
            assert(tunnel_ok(tunnels[i]));
        }
        assert(tile_at(g, x, y) == wall_tile());
    }
}

/// Generates one level. Starting from solid wall, up to `MAX_ROOMS`
/// random rooms are attempted; a candidate intersecting an accepted room
/// is discarded (a dense layout may therefore yield fewer rooms, which
/// is accepted behavior). Each accepted room is carved, populated, and
/// connected to the previous room's center by an L-shaped corridor with
/// a random leg order; the very first accepted room receives the player
/// at its center. The returned rooms and tunnels account exactly for
/// every floor tile, no two accepted rooms intersect, and the corridor
/// legs join the centers of consecutive accepted rooms.
pub fn make_map(game_objects: &mut Vec<GameObject>, rng: &mut RandomSource) -> (d: DungeonMap)
    requires
        old(game_objects)@.len() == 1,
        obj_state_wf(old(game_objects)@[0]),
        old(game_objects)@[0].ai is None,
        old(game_objects)@[0].item is None,
    ensures
        grid_wf(&d.grid),
        walled_border(&d.grid),
        gen_tiles_exact(&d.grid, d.rooms@, d.tunnels@),
        rooms_disjoint(d.rooms@),
        forall|i: int| 0 <= i < d.rooms@.len() ==> room_ok(#[trigger] d.rooms@[i]),
        forall|i: int| 0 <= i < d.tunnels@.len() ==> tunnel_ok(#[trigger] d.tunnels@[i]),
        tunnels_connect_rooms(d.rooms@, d.tunnels@),
        1 <= d.rooms@.len() <= MAX_ROOMS,
        final(game_objects)@.len() >= 1,
        final(game_objects)@[0] == (GameObject {
            x: ((d.rooms@[0].x1 + d.rooms@[0].x2) / 2) as i32,
            y: ((d.rooms@[0].y1 + d.rooms@[0].y2) / 2) as i32,
            ..old(game_objects)@[0]
        }),
        forall|i: int|
            1 <= i < final(game_objects)@.len() ==> is_spawned(#[trigger] final(game_objects)@[i]),
        world_wf(&d.grid, final(game_objects)@),
{
    let mut grid = walled_grid();
    let mut rooms: Vec<Rectangle> = Vec::new();
    let mut tunnels: Vec<Tunnel> = Vec::new();
    proof {
        assert forall|x: int, y: int| in_bounds(x, y) implies #[trigger] tile_at(&grid, x, y)
            == (if in_some_room(rooms@, x, y) || in_some_tunnel(tunnels@, x, y) {
            empty_tile()
        } else {
            wall_tile()
        }) by {
            assert(!in_some_room(rooms@, x, y));
            assert(!in_some_tunnel(tunnels@, x, y));
        }
    }
    let mut attempt: i32 = 0;
    while attempt < MAX_ROOMS
        invariant
            0 <= attempt <= MAX_ROOMS,
            grid_wf(&grid),
            gen_tiles_exact(&grid, rooms@, tunnels@),
            forall|i: int| 0 <= i < rooms@.len() ==> room_ok(#[trigger] rooms@[i]),
            forall|i: int| 0 <= i < tunnels@.len() ==> tunnel_ok(#[trigger] tunnels@[i]),
            rooms_disjoint(rooms@),
            rooms@.len() <= attempt,
            tunnels_connect_rooms(rooms@, tunnels@),
            game_objects@.len() >= 1,
            rooms@.len() == 0 ==> game_objects@ == old(game_objects)@ && tunnels@.len() == 0
                && attempt == 0,
            rooms@.len() >= 1 ==> game_objects@[0] == (GameObject {
                x: ((rooms@[0].x1 + rooms@[0].x2) / 2) as i32,
                y: ((rooms@[0].y1 + rooms@[0].y2) / 2) as i32,
                ..old(game_objects)@[0]
            }),
            forall|i: int|
                1 <= i < game_objects@.len() ==> is_spawned(#[trigger] game_objects@[i])
                    && in_some_room(rooms@, game_objects@[i].x as int, game_objects@[i].y as int),
        decreases MAX_ROOMS - attempt,
    {
        let w = rng.range(ROOM_MIN_SIZE, ROOM_MAX_SIZE + 1);
        let h = rng.range(ROOM_MIN_SIZE, ROOM_MAX_SIZE + 1);
        let x = rng.range(0, MAP_WIDTH - w);
        let y = rng.range(0, MAP_HEIGHT - h);
        let new_room = Rectangle::new(x, y, w, h);
        let n_rooms = rooms.len();
        let mut failed = false;
        let mut i: usize = 0;
        while i < n_rooms
            invariant
                0 <= i <= n_rooms,
                n_rooms == rooms@.len(),
                failed == exists|j: int|
                    0 <= j < i && spec_intersect(new_room, #[trigger] rooms@[j]),
            decreases n_rooms - i,
        {
            if new_room.is_intersecting(&rooms[i]) {
                failed = true;
                proof {
                    assert(spec_intersect(new_room, rooms@[i as int]));
                }
            }
            i += 1;
        }
        if !failed {
            let ghost rooms0 = rooms@;
            let ghost tunnels0 = tunnels@;
            let ghost objs0 = game_objects@;
            make_room(new_room, &mut grid);
            place_game_objects(new_room, &grid, game_objects, rng);
            proof {
                assert forall|i: int| 0 <= i < objs0.len() implies #[trigger] game_objects@[i]
                    == objs0[i] by {
                    assert(game_objects@.subrange(0, objs0.len() as int)[i] == game_objects@[i]);
                }
            }
            let ghost objs1 = game_objects@;
            let (new_x, new_y) = new_room.center();
            if rooms.len() == 0 {
                proof {
                    lemma_center_in_interior(new_room);
                }
                game_objects[PLAYER].set_position(new_x, new_y);
            } else {
                let prev = rooms[rooms.len() - 1];
                let (prev_x, prev_y) = prev.center();
                proof {
                    lemma_center_in_interior(new_room);
                    lemma_center_in_interior(prev);
                }
                if rng.coin() {
                    make_horizontal_tunnel(prev_x, new_x, prev_y, &mut grid);
                    make_vertical_tunnel(prev_y, new_y, new_x, &mut grid);
                    tunnels.push(Tunnel { horizontal: true, a: prev_x, b: new_x, at: prev_y });
                    tunnels.push(Tunnel { horizontal: false, a: prev_y, b: new_y, at: new_x });
                } else {
                    make_vertical_tunnel(prev_y, new_y, prev_x, &mut grid);
                    make_horizontal_tunnel(prev_x, new_x, new_y, &mut grid);
                    tunnels.push(Tunnel { horizontal: false, a: prev_y, b: new_y, at: prev_x });
                    tunnels.push(Tunnel { horizontal: true, a: prev_x, b: new_x, at: new_y });
                }
                proof {
                    assert(l_connects(
                        tunnels@[tunnels0.len() as int],
                        tunnels@[tunnels0.len() as int + 1],
                        room_center_x(rooms@[rooms@.len() - 1]),
                        room_center_y(rooms@[rooms@.len() - 1]),
                        room_center_x(new_room),
                        room_center_y(new_room),
                    ));
                }
            }
            rooms.push(new_room);
            proof {
                assert(rooms@ == rooms0.push(new_room));
                assert forall|a: int, b: int| in_bounds(a, b) implies #[trigger] tile_at(
                    &grid,
                    a,
                    b,
                ) == (if in_some_room(rooms@, a, b) || in_some_tunnel(tunnels@, a, b) {
                    empty_tile()
                } else {
                    wall_tile()
                }) by {
                    lemma_in_some_room_push(rooms0, new_room, a, b);
                    if tunnels@.len() == tunnels0.len() + 2 {
                        let t1 = tunnels@[tunnels0.len() as int];
                        let t2 = tunnels@[tunnels0.len() as int + 1];
                        assert(tunnels@ == tunnels0.push(t1).push(t2));
                        lemma_in_some_tunnel_push(tunnels0.push(t1), t2, a, b);
                        lemma_in_some_tunnel_push(tunnels0, t1, a, b);
                    }
                }
                assert forall|i: int, j: int| 0 <= i < j < rooms@.len() implies !spec_intersect(
                    #[trigger] rooms@[i],
                    #[trigger] rooms@[j],
                ) by {
                    if j == rooms@.len() - 1 {
                        assert(rooms@[j] == new_room);
                        assert(!spec_intersect(new_room, rooms0[i]));
                    }
                }
                assert forall|i: int| 1 <= i < rooms@.len() implies l_connects(
                    #[trigger] tunnels@[2 * (i - 1)],
                    tunnels@[2 * (i - 1) + 1],
                    room_center_x(rooms@[i - 1]),
                    room_center_y(rooms@[i - 1]),
                    room_center_x(rooms@[i]),
                    room_center_y(rooms@[i]),
                ) by {
                    if i < rooms0.len() {
                        assert(rooms@[i - 1] == rooms0[i - 1]);
                        assert(rooms@[i] == rooms0[i]);
                        assert(tunnels@[2 * (i - 1)] == tunnels0[2 * (i - 1)]);
                        assert(tunnels@[2 * (i - 1) + 1] == tunnels0[2 * (i - 1) + 1]);
                    } else {
                        assert(i == rooms0.len());
                        assert(rooms@[i] == new_room);
                        assert(rooms@[i - 1] == rooms0[i - 1]);
                    }
                }
                assert forall|i: int| 1 <= i < game_objects@.len() implies is_spawned(
                    #[trigger] game_objects@[i],
                ) && in_some_room(rooms@, game_objects@[i].x as int, game_objects@[i].y as int) by {
                    assert(game_objects@[i] == objs1[i]);
                    if i < objs0.len() {
                        assert(objs1[i] == objs0[i]);
                        assert(is_spawned(objs0[i]) && in_some_room(
                            rooms0,
                            objs0[i].x as int,
                            objs0[i].y as int,
                        ));
                    } else {
                        assert(is_spawned(objs1[i]) && interior_contains(
                            new_room,
                            objs1[i].x as int,
                            objs1[i].y as int,
                        ));
                    }
                    lemma_in_some_room_push(
                        rooms0,
                        new_room,
                        game_objects@[i].x as int,
                        game_objects@[i].y as int,
                    );
                }
            }
        }
        attempt += 1;
    }
    proof {
        lemma_gen_walled_border(&grid, rooms@, tunnels@);
        lemma_center_in_interior(rooms@[0]);
        assert forall|i: int| 0 <= i < game_objects@.len() implies obj_wf(
            &grid,
            #[trigger] game_objects@[i],
        ) by {
            if i == 0 {
                assert(interior_contains(
                    rooms@[0],
                    game_objects@[0].x as int,
                    game_objects@[0].y as int,
                ));
                assert(in_some_room(rooms@, game_objects@[0].x as int, game_objects@[0].y as int));
            } else {
                let o = game_objects@[i];
                let j = choose|j: int|
                    0 <= j < rooms@.len() && interior_contains(rooms@[j], o.x as int, o.y as int);
                assert(room_ok(rooms@[j]));
            }
        }
    }
    DungeonMap { grid, rooms, tunnels }
}

} // verus!
