//! The world: the game session state, blocking queries, the
//! disjoint-split mutable borrow, and entity movement.
use vstd::prelude::*;

use crate::messages::Messages;
use crate::object::obj_wf;
use crate::object::GameObject;
use crate::tile::grid_wf;
use crate::tile::in_bounds;
use crate::tile::tile_at;
use crate::tile::walled_border;
use crate::tile::Grid;

verus! {

/// The session state around the entity sequence: the current level's
/// grid, the message log, and the player's inventory.
#[derive(Debug)]
pub struct Game {
    pub map: Grid,
    pub messages: Messages,
    pub inventory: Vec<GameObject>,
}

/// Invariant of a running world: the grid has the fixed dimensions and a
/// solid border; the player entity exists at index 0, carries no
/// autonomous behavior and no item capability; every entity is
/// well-formed on the grid; and the player is the only entity whose
/// death would be handled as a player's.
pub open spec fn world_wf(g: &Grid, objects: Seq<GameObject>) -> bool {
    &&& grid_wf(g)
    &&& walled_border(g)
    &&& objects.len() >= 1
    &&& objects[0].ai is None
    &&& objects[0].item is None
    &&& forall|i: int| 0 <= i < objects.len() ==> obj_wf(g, #[trigger] objects[i])
    &&& forall|i: int|
        1 <= i < objects.len() ==> ((#[trigger] objects[i]).fighter is Some
            ==> objects[i].fighter->0.on_death is Monster)
}

/// The tile at `(x, y)` blocks movement, or some `blocks` entity
/// occupies it.
pub open spec fn spec_blocked(g: &Grid, objects: Seq<GameObject>, x: int, y: int) -> bool {
    ||| tile_at(g, x, y).blocked
    ||| exists|i: int|
        0 <= i < objects.len() && (#[trigger] objects[i]).blocks && objects[i].x == x
            && objects[i].y == y
}

/// Whether `(x, y)` is blocked, by its tile or by an entity standing on it.
pub fn is_blocked(x: i32, y: i32, map: &Grid, game_objects: &Vec<GameObject>) -> (r: bool)
    requires
        grid_wf(map),
        in_bounds(x as int, y as int),
    ensures
        r == spec_blocked(map, game_objects@, x as int, y as int),
{
    if map[x as usize][y as usize].blocked {
        return true;
    }
    let n = game_objects.len();
    let mut i: usize = 0;
    while i < n
        invariant
            0 <= i <= n,
            n == game_objects@.len(),
            grid_wf(map),
            in_bounds(x as int, y as int),
            forall|j: int|
                0 <= j < i ==> !((#[trigger] game_objects@[j]).blocks && game_objects@[j].x == x
                    && game_objects@[j].y == y),
        decreases n - i,
    {
        let o = &game_objects[i];
        if o.blocks && o.x == x && o.y == y {
            proof {
                assert(game_objects@[i as int].blocks && game_objects@[i as int].x == x
                    && game_objects@[i as int].y == y);
            }
            return true;
        }
        i += 1;
    }
    false
}

/// Two simultaneous mutable views of distinct entries of one sequence,
/// obtained by splitting the underlying storage at the larger index. The
/// indices are required to differ; combat must observe and mutate both
/// sides atomically without copying either.
pub fn mut_two<T>(first_index: usize, second_index: usize, items: &mut Vec<T>) -> (r: (
    &mut T,
    &mut T,
))
    requires
        first_index != second_index,
        first_index < old(items).len(),
        second_index < old(items).len(),
    ensures
        *r.0 == old(items)@[first_index as int],
        *r.1 == old(items)@[second_index as int],
        final(items)@ == old(items)@.update(first_index as int, *final(r.0)).update(
            second_index as int,
            *final(r.1),
        ),
{
    let ghost entries = items@;
    let split_at_index = if first_index < second_index {
        second_index
    } else {
        first_index
    };
    let slice = items.as_mut_slice();
    let (first_slice, second_slice) = slice.split_at_mut(split_at_index);
    if first_index < second_index {
        let a = &mut first_slice[first_index];
        let b = &mut second_slice[0];
        proof {
            assert(after_borrow(items)@ =~= entries.update(first_index as int, *final(a)).update(
                second_index as int,
                *final(b),
            ));
        }
        (a, b)
    } else {
        let b = &mut first_slice[second_index];
        let a = &mut second_slice[0];
        proof {
            assert(after_borrow(items)@ =~= entries.update(first_index as int, *final(a)).update(
                second_index as int,
                *final(b),
            ));
        }
        (a, b)
    }
}

/// Whether a tile is blocked never depends on any entity's behavior
/// slot: two worlds whose entities differ at most in their behavior
/// block the same tiles.
pub proof fn lemma_blocked_ignores_ai(
    g: &Grid,
    a: Seq<GameObject>,
    b: Seq<GameObject>,
    x: int,
    y: int,
)
    requires
        a.len() == b.len(),
        forall|i: int| 0 <= i < a.len() ==> #[trigger] b[i] == (GameObject { ai: b[i].ai, ..a[i] }),
    ensures
        spec_blocked(g, a, x, y) == spec_blocked(g, b, x, y),
{
    if !tile_at(g, x, y).blocked {
        if spec_blocked(g, a, x, y) {
            let i = choose|i: int|
                0 <= i < a.len() && (#[trigger] a[i]).blocks && a[i].x == x && a[i].y == y;
            assert(b[i].blocks && b[i].x == x && b[i].y == y);
        }
        if spec_blocked(g, b, x, y) {
            let i = choose|i: int|
                0 <= i < b.len() && (#[trigger] b[i]).blocks && b[i].x == x && b[i].y == y;
            assert(a[i].blocks && a[i].x == x && a[i].y == y);
        }
    }
}

/// The entity sequence after asking entity `id` to move by `(dx, dy)`:
/// the move happens only if the destination is not blocked; otherwise it
/// is silently dropped, with no partial effect.
pub open spec fn spec_move_by(
    g: &Grid,
    objects: Seq<GameObject>,
    id: int,
    dx: int,
    dy: int,
) -> Seq<GameObject> {
    let o = objects[id];
    if !spec_blocked(g, objects, o.x + dx, o.y + dy) {
        objects.update(
            id,
            GameObject { x: (o.x + dx) as i32, y: (o.y + dy) as i32, ..o },
        )
    } else {
        objects
    }
}

/// Moves entity `id` by `(dx, dy)` unless the destination is blocked.
pub fn move_game_object_by(id: usize, dx: i32, dy: i32, map: &Grid, game_objects: &mut Vec<
    GameObject,
>)
    requires
        grid_wf(map),
        id < old(game_objects).len(),
        in_bounds(
            old(game_objects)@[id as int].x + dx,
            old(game_objects)@[id as int].y + dy,
        ),
    ensures
        final(game_objects)@ == spec_move_by(
            map,
            old(game_objects)@,
            id as int,
            dx as int,
            dy as int,
        ),
{
    let (x, y) = game_objects[id].position();
    if !is_blocked(x + dx, y + dy, map, game_objects) {
        game_objects[id].set_position(x + dx, y + dy);
        proof {
            assert(final(game_objects)@ =~= spec_move_by(
                map,
                old(game_objects)@,
                id as int,
                dx as int,
                dy as int,
            ));
        }
    }
}

/// A move either leaves the world exactly as it was, or places the
/// entity on a tile that does not block movement and that no other
/// `blocks` entity occupies; nothing else changes either way.
pub proof fn lemma_move_by_never_onto_blocked(
    g: &Grid,
    objects: Seq<GameObject>,
    id: int,
    dx: int,
    dy: int,
)
    requires
        0 <= id < objects.len(),
    ensures
        ({
            let o = objects[id];
            let r = spec_move_by(g, objects, id, dx, dy);
            ||| r == objects
            ||| {
                &&& !tile_at(g, o.x + dx, o.y + dy).blocked
                &&& forall|j: int|
                    0 <= j < objects.len() && (#[trigger] objects[j]).blocks ==> !(objects[j].x
                        == o.x + dx && objects[j].y == o.y + dy)
                &&& r == objects.update(
                    id,
                    GameObject { x: (o.x + dx) as i32, y: (o.y + dy) as i32, ..o },
                )
            }
        }),
{
}

/// A move preserves the world invariant: the mover can only end on a
/// walkable in-bounds tile, and no other entity is touched.
pub proof fn lemma_move_by_preserves_wf(
    g: &Grid,
    objects: Seq<GameObject>,
    id: int,
    dx: int,
    dy: int,
)
    requires
        world_wf(g, objects),
        0 <= id < objects.len(),
        in_bounds(objects[id].x + dx, objects[id].y + dy),
    ensures
        world_wf(g, spec_move_by(g, objects, id, dx, dy)),
        spec_move_by(g, objects, id, dx, dy).len() == objects.len(),
{
    let r = spec_move_by(g, objects, id, dx, dy);
    if r != objects {
        assert(forall|i: int| 0 <= i < r.len() && i != id ==> r[i] == objects[i]);
        assert(obj_wf(g, r[id]));
    }
}

/// One axis of the unit step toward a target: the step is taken when the
/// axis covers at least half of the Euclidean distance, mirroring
/// division by the distance followed by rounding to the nearest integer.
pub open spec fn toward_step(delta: int, d2: int) -> int {
    if d2 <= 0 {
        0
    } else if 4 * delta * delta >= d2 {
        if delta > 0 {
            1
        } else if delta < 0 {
            -1
        } else {
            0
        }
    } else {
        0
    }
}

/// The entity sequence after asking entity `id` to take one approximate
/// step toward `(target_x, target_y)`.
pub open spec fn spec_move_toward(
    g: &Grid,
    objects: Seq<GameObject>,
    id: int,
    target_x: int,
    target_y: int,
) -> Seq<GameObject> {
    let o = objects[id];
    let dx = target_x - o.x;
    let dy = target_y - o.y;
    let d2 = dx * dx + dy * dy;
    spec_move_by(g, objects, id, toward_step(dx, d2), toward_step(dy, d2))
}

/// One axis of the executable unit step.
fn toward_step_exec(delta: i32, d2: i32) -> (s: i32)
    requires
        -200 <= delta <= 200,
        0 <= d2 <= 200000,
    ensures
        s == toward_step(delta as int, d2 as int),
{
    proof {
        assert(0 <= delta * delta <= 40000 && 4 * delta * delta == 4 * (delta * delta))
            by (nonlinear_arith)
            requires
                -200 <= delta <= 200,
        ;
    }
    let q = delta * delta;
    if d2 <= 0 {
        0
    } else if 4 * q >= d2 {
        if delta > 0 {
            1
        } else if delta < 0 {
            -1
        } else {
            0
        }
    } else {
        0
    }
}

/// Takes one approximate step toward the target: the vector to the
/// target is normalized to a unit step, each axis rounded independently;
/// the step is dropped if the destination is blocked. This is accepted
/// approximate pathing, not shortest-path search.
pub fn move_game_object_toward(
    id: usize,
    target_x: i32,
    target_y: i32,
    map: &Grid,
    game_objects: &mut Vec<GameObject>,
)
    requires
        grid_wf(map),
        id < old(game_objects).len(),
        in_bounds(old(game_objects)@[id as int].x as int, old(game_objects)@[id as int].y as int),
        in_bounds(target_x as int, target_y as int),
        ({
            let o = old(game_objects)@[id as int];
            let dx = target_x - o.x;
            let dy = target_y - o.y;
            let d2 = dx * dx + dy * dy;
            in_bounds(o.x + toward_step(dx, d2), o.y + toward_step(dy, d2))
        }),
    ensures
        final(game_objects)@ == spec_move_toward(
            map,
            old(game_objects)@,
            id as int,
            target_x as int,
            target_y as int,
        ),
{
    let (x, y) = game_objects[id].position();
    let dx = target_x - x;
    let dy = target_y - y;
    proof {
        assert(dx * dx + dy * dy <= 200000 && dx * dx >= 0 && dy * dy >= 0) by (nonlinear_arith)
            requires
                -200 <= dx <= 200,
                -200 <= dy <= 200,
        ;
    }
    let d2 = dx * dx + dy * dy;
    let step_x = toward_step_exec(dx, d2);
    let step_y = toward_step_exec(dy, d2);
    move_game_object_by(id, step_x, step_y, map, game_objects);
}

} // verus!
