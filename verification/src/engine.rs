//! The turn engine: the player's commands resolved against the world,
//! and the classification of which commands consume a turn.
use vstd::prelude::*;
use vstd::string::StringExecFns;

use crate::color::Color;
use crate::combat::attack_post;
use crate::combat::lemma_heal_preserves_state_wf;
use crate::combat::lemma_take_damage_preserves_state_wf;
use crate::combat::spec_attack_damage;
use crate::combat::spec_healed;
use crate::fov::fov_wf;
use crate::fov::spec_in_fov;
use crate::fov::Fov;
use crate::items::any_target_in_range;
use crate::items::cast_post;
use crate::items::confusion_applied;
use crate::items::is_closest_pick;
use crate::items::pick_item_up;
use crate::items::pick_up_post;
use crate::items::use_item;
use crate::items::use_item_post;
use crate::items::UseResult;
use crate::messages::log_extended;
use crate::object::obj_state_wf;
use crate::object::obj_wf;
use crate::object::GameObject;
use crate::object::Item;
use crate::tile::in_interior;
use crate::tile::tile_at;
use crate::world::lemma_move_by_preserves_wf;
use crate::world::mut_two;
use crate::world::move_game_object_by;
use crate::world::spec_move_by;
use crate::world::world_wf;
use crate::world::Game;
use crate::CONFUSION_RANGE;
use crate::HEAL_AMOUNT;
use crate::LIGHTNING_DAMAGE;
use crate::LIGHTNING_RANGE;
use crate::PLAYER;

verus! {

/// How the player's input was resolved: whether it consumed a turn, so
/// that the AI phase runs, or ended the session.
#[derive(Clone, Copy, Debug, PartialEq, Eq, Structural)]
pub enum PlayerAction {
    TookTurn,
    DidntTakeTurn,
    Exit,
}

/// A decoded player command, produced by the input collaborator.
#[derive(Clone, Copy, Debug, PartialEq, Eq, Structural)]
pub enum Command {
    MoveUp,
    MoveDown,
    MoveLeft,
    MoveRight,
    PickUp,
    UseItem(usize),
    Exit,
    Nothing,
}

/// Entity `id` carries a fighter and stands at `(x, y)`.
pub open spec fn fighter_at(objs: Seq<GameObject>, x: int, y: int, id: int) -> bool {
    &&& 0 <= id < objs.len()
    &&& objs[id].fighter is Some
    &&& objs[id].x == x
    &&& objs[id].y == y
}

/// Entity `id` is the first fighter found at `(x, y)` in scan order.
pub open spec fn is_first_fighter_at(objs: Seq<GameObject>, x: int, y: int, id: int) -> bool {
    &&& fighter_at(objs, x, y, id)
    &&& forall|j: int| 0 <= j < id ==> !fighter_at(objs, x, y, j)
}

/// Some fighter stands at `(x, y)`.
pub open spec fn any_fighter_at(objs: Seq<GameObject>, x: int, y: int) -> bool {
    exists|id: int| fighter_at(objs, x, y, id)
}

/// Entity `id` carries an item capability and stands at `(x, y)`.
pub open spec fn item_at(objs: Seq<GameObject>, x: int, y: int, id: int) -> bool {
    &&& 0 <= id < objs.len()
    &&& objs[id].item is Some
    &&& objs[id].x == x
    &&& objs[id].y == y
}

/// Entity `id` is the first item found at `(x, y)` in scan order.
pub open spec fn is_first_item_at(objs: Seq<GameObject>, x: int, y: int, id: int) -> bool {
    &&& item_at(objs, x, y, id)
    &&& forall|j: int| 0 <= j < id ==> !item_at(objs, x, y, j)
}

/// Some item-bearing entity stands at `(x, y)`.
pub open spec fn any_item_at(objs: Seq<GameObject>, x: int, y: int) -> bool {
    exists|id: int| item_at(objs, x, y, id)
}

/// What moving or attacking by `(dx, dy)` does: with a fighter on the
/// destination tile the player attacks the first one found there;
/// otherwise the player steps there, unless the destination is blocked.
pub open spec fn player_move_or_attack_post(
    g: &crate::tile::Grid,
    objs0: Seq<GameObject>,
    objs1: Seq<GameObject>,
    m0: Seq<(String, Color)>,
    m1: Seq<(String, Color)>,
    dx: int,
    dy: int,
) -> bool {
    let p = objs0[PLAYER as int];
    let tx = p.x + dx;
    let ty = p.y + dy;
    if any_fighter_at(objs0, tx, ty) {
        exists|id: int|
            {
                &&& #[trigger] is_first_fighter_at(objs0, tx, ty, id)
                &&& objs1 == objs0.update(id, objs1[id])
                &&& attack_post(p, objs0[id], objs1[id], m0, m1)
            }
    } else {
        objs1 == spec_move_by(g, objs0, PLAYER as int, dx, dy) && m1 == m0
    }
}

/// Resolves one step of the player by `(dx, dy)`: attack the first
/// fighter on the destination tile, or move there if it is free.
pub fn player_move_or_attack(dx: i32, dy: i32, game: &mut Game, game_objects: &mut Vec<
    GameObject,
>)
    requires
        world_wf(&old(game).map, old(game_objects)@),
        -1 <= dx <= 1,
        -1 <= dy <= 1,
        !(dx == 0 && dy == 0),
    ensures
        final(game).map == old(game).map,
        final(game).inventory == old(game).inventory,
        world_wf(&old(game).map, final(game_objects)@),
        log_extended(old(game).messages@, final(game).messages@),
        player_move_or_attack_post(
            &old(game).map,
            old(game_objects)@,
            final(game_objects)@,
            old(game).messages@,
            final(game).messages@,
            dx as int,
            dy as int,
        ),
{
    let ghost g = &old(game).map;
    proof {
        let p = old(game_objects)@[PLAYER as int];
        assert(in_interior(p.x as int, p.y as int)) by {
            assert(!tile_at(g, p.x as int, p.y as int).blocked);
        }
    }
    let x = game_objects[PLAYER].x + dx;
    let y = game_objects[PLAYER].y + dy;
    let n = game_objects.len();
    let mut target_id: Option<usize> = None;
    let mut i: usize = 0;
    while i < n
        invariant
            0 <= i <= n,
            n == game_objects@.len(),
            x == game_objects@[PLAYER as int].x + dx,
            y == game_objects@[PLAYER as int].y + dy,
            target_id is None ==> forall|j: int|
                0 <= j < i ==> !fighter_at(game_objects@, x as int, y as int, j),
            target_id matches Some(id) ==> is_first_fighter_at(
                game_objects@,
                x as int,
                y as int,
                id as int,
            ),
        decreases n - i,
    {
        if target_id.is_none() {
            let o = &game_objects[i];
            if o.fighter.is_some() && o.x == x && o.y == y {
                target_id = Some(i);
            }
        }
        i += 1;
    }
    match target_id {
        Some(target_id) => {
            let ghost objs0 = game_objects@;
            proof {
                assert(objs0[target_id as int].x != objs0[PLAYER as int].x || objs0[
                    target_id as int].y != objs0[PLAYER as int].y);
            }
            let (player, target) = mut_two(PLAYER, target_id, game_objects);
            player.attack(target, game);
            proof {
                assert(final(game_objects)@ =~= objs0.update(
                    target_id as int,
                    final(game_objects)@[target_id as int],
                ));
                lemma_take_damage_preserves_state_wf(
                    objs0[target_id as int],
                    spec_attack_damage(objs0[PLAYER as int], objs0[target_id as int]) as i32,
                    final(game_objects)@[target_id as int],
                );
                assert forall|j: int| 0 <= j < final(game_objects)@.len() implies obj_wf(
                    g,
                    #[trigger] final(game_objects)@[j],
                ) by {
                    if j != target_id {
                        assert(final(game_objects)@[j] == objs0[j]);
                    }
                }
            }
        },
        None => {
            move_game_object_by(PLAYER, dx, dy, &game.map, game_objects);
            proof {
                lemma_move_by_preserves_wf(
                    g,
                    old(game_objects)@,
                    PLAYER as int,
                    dx as int,
                    dy as int,
                );
            }
        },
    }
}

/// What resolving one command does, and whether it consumed a turn:
/// moves (by a living player) move or attack and take the turn, and so
/// does an item use that succeeds; pickup, a cancelled or impossible
/// use, and everything unrecognized never take the turn; quitting ends
/// the session. A dead player can only quit.
pub open spec fn handle_command_post(
    cmd: Command,
    fov: &Fov,
    g: &crate::tile::Grid,
    objs0: Seq<GameObject>,
    objs1: Seq<GameObject>,
    inv0: Seq<GameObject>,
    inv1: Seq<GameObject>,
    m0: Seq<(String, Color)>,
    m1: Seq<(String, Color)>,
    r: PlayerAction,
) -> bool {
    let alive = objs0[PLAYER as int].is_alive;
    let unchanged = objs1 == objs0 && inv1 == inv0 && m1 == m0;
    match cmd {
        Command::Exit => r == PlayerAction::Exit && unchanged,
        Command::Nothing => r == PlayerAction::DidntTakeTurn && unchanged,
        Command::MoveUp | Command::MoveDown | Command::MoveLeft | Command::MoveRight => if alive {
            let (dx, dy) = match cmd {
                Command::MoveUp => (0int, -1int),
                Command::MoveDown => (0int, 1int),
                Command::MoveLeft => (-1int, 0int),
                _ => (1int, 0int),
            };
            &&& r == PlayerAction::TookTurn
            &&& inv1 == inv0
            &&& player_move_or_attack_post(g, objs0, objs1, m0, m1, dx, dy)
        } else {
            r == PlayerAction::DidntTakeTurn && unchanged
        },
        Command::PickUp => r == PlayerAction::DidntTakeTurn && if alive {
            let px = objs0[PLAYER as int].x as int;
            let py = objs0[PLAYER as int].y as int;
            if any_item_at(objs0, px, py) {
                exists|id: int|
                    {
                        &&& #[trigger] is_first_item_at(objs0, px, py, id)
                        &&& pick_up_post(id, objs0, objs1, inv0, inv1, m0, m1)
                    }
            } else {
                unchanged
            }
        } else {
            unchanged
        },
        Command::UseItem(inventory_id) => if alive {
            let used = inv0[inventory_id as int].item is Some && crate::items::spec_cast_succeeds(
                inv0[inventory_id as int].item->0,
                fov,
                objs0,
            );
            &&& r == (if used {
                PlayerAction::TookTurn
            } else {
                PlayerAction::DidntTakeTurn
            })
            &&& use_item_post(
                inventory_id as int,
                fov,
                objs0,
                objs1,
                inv0,
                inv1,
                m0,
                m1,
                (if used {
                    UseResult::UsedUp
                } else {
                    UseResult::Cancelled
                }),
            )
        } else {
            r == PlayerAction::DidntTakeTurn && unchanged
        },
    }
}

/// Resolves one decoded player command against the world and classifies
/// it as turn-consuming or not.
pub fn handle_command(
    cmd: Command,
    fov: &Fov,
    game: &mut Game,
    game_objects: &mut Vec<GameObject>,
) -> (r: PlayerAction)
    requires
        fov_wf(fov),
        world_wf(&old(game).map, old(game_objects)@),
        cmd matches Command::UseItem(inventory_id) ==> inventory_id < old(game).inventory@.len(),
    ensures
        final(game).map == old(game).map,
        world_wf(&old(game).map, final(game_objects)@),
        log_extended(old(game).messages@, final(game).messages@),
        handle_command_post(
            cmd,
            fov,
            &old(game).map,
            old(game_objects)@,
            final(game_objects)@,
            old(game).inventory@,
            final(game).inventory@,
            old(game).messages@,
            final(game).messages@,
            r,
        ),
{
    let player_alive = game_objects[PLAYER].is_alive;
    match cmd {
        Command::Exit => PlayerAction::Exit,
        Command::Nothing => PlayerAction::DidntTakeTurn,
        Command::MoveUp | Command::MoveDown | Command::MoveLeft | Command::MoveRight => {
            if player_alive {
                let (dx, dy): (i32, i32) = match cmd {
                    Command::MoveUp => (0, -1),
                    Command::MoveDown => (0, 1),
                    Command::MoveLeft => (-1, 0),
                    _ => (1, 0),
                };
                player_move_or_attack(dx, dy, game, game_objects);
                PlayerAction::TookTurn
            } else {
                PlayerAction::DidntTakeTurn
            }
        },
        Command::PickUp => {
            if player_alive {
                let px = game_objects[PLAYER].x;
                let py = game_objects[PLAYER].y;
                let n = game_objects.len();
                let mut item_id: Option<usize> = None;
                let mut i: usize = 0;
                while i < n
                    invariant
                        0 <= i <= n,
                        n == game_objects@.len(),
                        item_id is None ==> forall|j: int|
                            0 <= j < i ==> !item_at(game_objects@, px as int, py as int, j),
                        item_id matches Some(id) ==> is_first_item_at(
                            game_objects@,
                            px as int,
                            py as int,
                            id as int,
                        ),
                    decreases n - i,
                {
                    if item_id.is_none() {
                        let o = &game_objects[i];
                        if o.item.is_some() && o.x == px && o.y == py {
                            item_id = Some(i);
                        }
                    }
                    i += 1;
                }
                match item_id {
                    Some(item_id) => {
                        let ghost objs0 = game_objects@;
                        proof {
                            assert(item_id != PLAYER);
                        }
                        pick_item_up(item_id, game, game_objects);
                        proof {
                            if old(game).inventory@.len() < crate::INVENTORY_CAPACITY {
                                let objs1 = final(game_objects)@;
                                assert(objs1 =~= objs0.update(
                                    item_id as int,
                                    objs0.last(),
                                ).drop_last());
                                assert forall|j: int| 0 <= j < objs1.len() implies obj_wf(
                                    &old(game).map,
                                    #[trigger] objs1[j],
                                ) by {
                                    assert(objs1[j] == objs0[j] || objs1[j] == objs0.last());
                                }
                                assert forall|j: int|
                                    1 <= j < objs1.len() && (#[trigger] objs1[j]).fighter
                                    is Some implies objs1[j].fighter->0.on_death is Monster by {
                                    assert(objs1[j] == objs0[j] || objs1[j] == objs0.last());
                                    assert(objs0.len() >= 2);
                                }
                            }
                        }
                    },
                    None => {},
                }
                PlayerAction::DidntTakeTurn
            } else {
                PlayerAction::DidntTakeTurn
            }
        },
        Command::UseItem(inventory_id) => {
            if player_alive {
                let ghost objs0 = game_objects@;
                let result = use_item(inventory_id, fov, game, game_objects);
                proof {
                    lemma_use_item_preserves_wf(
                        inventory_id as int,
                        fov,
                        &old(game).map,
                        objs0,
                        final(game_objects)@,
                        old(game).inventory@,
                        final(game).inventory@,
                        old(game).messages@,
                        final(game).messages@,
                        result,
                    );
                }
                match result {
                    UseResult::UsedUp => PlayerAction::TookTurn,
                    UseResult::Cancelled => PlayerAction::DidntTakeTurn,
                }
            } else {
                PlayerAction::DidntTakeTurn
            }
        },
    }
}

/// Whatever item effect ran, the world invariant survives it: healing
/// caps at the maximum, lightning's damage resolution keeps dead
/// monsters inert, and confusion wraps behavior reversibly.
pub proof fn lemma_use_item_preserves_wf(
    inventory_id: int,
    fov: &Fov,
    g: &crate::tile::Grid,
    objs0: Seq<GameObject>,
    objs1: Seq<GameObject>,
    inv0: Seq<GameObject>,
    inv1: Seq<GameObject>,
    m0: Seq<(String, Color)>,
    m1: Seq<(String, Color)>,
    r: UseResult,
)
    requires
        world_wf(g, objs0),
        fov_wf(fov),
        0 <= inventory_id < inv0.len(),
        use_item_post(inventory_id, fov, objs0, objs1, inv0, inv1, m0, m1, r),
    ensures
        world_wf(g, objs1),
        log_extended(m0, m1),
{
    let entry = inv0[inventory_id];
    if entry.item is Some {
        let m_mid = choose|m_mid: Seq<(String, Color)>|
            {
                &&& #[trigger] cast_post(entry.item->0, fov, objs0, objs1, m0, m_mid, r)
                &&& match r {
                    UseResult::UsedUp => inv1 == inv0.remove(inventory_id) && m1 == m_mid,
                    UseResult::Cancelled => inv1 == inv0 && crate::messages::appended(
                        m_mid,
                        m1,
                        "Cancelled"@,
                        crate::color::white(),
                    ),
                }
            };
        lemma_cast_preserves_wf(entry.item->0, fov, g, objs0, objs1, m0, m_mid, r);
        if r == UseResult::Cancelled {
            crate::messages::lemma_appended_extends(
                m_mid,
                m1,
                "Cancelled"@,
                crate::color::white(),
            );
            crate::messages::lemma_log_extended_trans(m0, m_mid, m1);
        }
    } else {
        crate::messages::lemma_appended_extends(
            m0,
            m1,
            crate::items::cannot_use_msg(entry.name@),
            crate::color::white(),
        );
    }
}

/// Each of the three item effects preserves the world invariant and only
/// appends to the log.
pub proof fn lemma_cast_preserves_wf(
    tag: Item,
    fov: &Fov,
    g: &crate::tile::Grid,
    objs0: Seq<GameObject>,
    objs1: Seq<GameObject>,
    m0: Seq<(String, Color)>,
    m1: Seq<(String, Color)>,
    r: UseResult,
)
    requires
        world_wf(g, objs0),
        fov_wf(fov),
        cast_post(tag, fov, objs0, objs1, m0, m1, r),
    ensures
        world_wf(g, objs1),
        log_extended(m0, m1),
{
    match tag {
        Item::Heal => {
            let p = objs0[PLAYER as int];
            if p.fighter is Some && p.fighter->0.hp != p.fighter->0.max_hp {
                lemma_heal_preserves_state_wf(p, HEAL_AMOUNT, spec_healed(p, HEAL_AMOUNT));
                assert forall|j: int| 0 <= j < objs1.len() implies obj_wf(
                    g,
                    #[trigger] objs1[j],
                ) by {
                    if j != PLAYER {
                        assert(objs1[j] == objs0[j]);
                    }
                }
                crate::messages::lemma_appended_extends(
                    m0,
                    m1,
                    "Your wounds start to feel better!"@,
                    crate::color::light_violet(),
                );
            } else if p.fighter is Some {
                crate::messages::lemma_appended_extends(
                    m0,
                    m1,
                    "You are already at full health."@,
                    crate::color::red(),
                );
            }
        },
        Item::ScrollOfLightning => {
            if !any_target_in_range(fov, objs0, LIGHTNING_RANGE as int) {
                crate::messages::lemma_appended_extends(
                    m0,
                    m1,
                    "There is no enemy to strike."@,
                    crate::color::red(),
                );
            } else {
                let id = choose|id: int|
                    {
                        &&& #[trigger] is_closest_pick(fov, objs0, LIGHTNING_RANGE as int, id)
                        &&& r == UseResult::UsedUp
                        &&& crate::combat::take_damage_rel(
                            objs0[id],
                            LIGHTNING_DAMAGE,
                            objs1[id],
                        )
                        &&& objs1 == objs0.update(id, objs1[id])
                        &&& if crate::combat::spec_dies(objs0[id], LIGHTNING_DAMAGE) {
                            crate::messages::appended2(
                                m0,
                                m1,
                                crate::items::lightning_msg(objs0[id].name@),
                                crate::color::light_blue(),
                                crate::combat::death_msg(
                                    crate::combat::spec_damaged(objs0[id], LIGHTNING_DAMAGE),
                                ),
                                crate::combat::death_msg_color(
                                    crate::combat::spec_damaged(objs0[id], LIGHTNING_DAMAGE),
                                ),
                            )
                        } else {
                            crate::messages::appended(
                                m0,
                                m1,
                                crate::items::lightning_msg(objs0[id].name@),
                                crate::color::light_blue(),
                            )
                        }
                    };
                lemma_take_damage_preserves_state_wf(objs0[id], LIGHTNING_DAMAGE, objs1[id]);
                assert forall|j: int| 0 <= j < objs1.len() implies obj_wf(
                    g,
                    #[trigger] objs1[j],
                ) by {
                    if j != id {
                        assert(objs1[j] == objs0[j]);
                    }
                }
                if crate::combat::spec_dies(objs0[id], LIGHTNING_DAMAGE) {
                    crate::messages::lemma_appended2_extends(
                        m0,
                        m1,
                        crate::items::lightning_msg(objs0[id].name@),
                        crate::color::light_blue(),
                        crate::combat::death_msg(
                            crate::combat::spec_damaged(objs0[id], LIGHTNING_DAMAGE),
                        ),
                        crate::combat::death_msg_color(
                            crate::combat::spec_damaged(objs0[id], LIGHTNING_DAMAGE),
                        ),
                    );
                } else {
                    crate::messages::lemma_appended_extends(
                        m0,
                        m1,
                        crate::items::lightning_msg(objs0[id].name@),
                        crate::color::light_blue(),
                    );
                }
            }
        },
        Item::ScrollOfConfusion => {
            if !any_target_in_range(fov, objs0, CONFUSION_RANGE as int) {
                crate::messages::lemma_appended_extends(
                    m0,
                    m1,
                    "There is no enemy to strike."@,
                    crate::color::red(),
                );
            } else {
                let id = choose|id: int|
                    {
                        &&& #[trigger] is_closest_pick(fov, objs0, CONFUSION_RANGE as int, id)
                        &&& r == UseResult::UsedUp
                        &&& confusion_applied(objs0[id], objs1[id])
                        &&& objs1 == objs0.update(id, objs1[id])
                        &&& crate::messages::appended(
                            m0,
                            m1,
                            crate::items::confusion_msg(objs0[id].name@),
                            crate::color::white(),
                        )
                    };
                assert(obj_state_wf(objs1[id]));
                assert forall|j: int| 0 <= j < objs1.len() implies obj_wf(
                    g,
                    #[trigger] objs1[j],
                ) by {
                    if j != id {
                        assert(objs1[j] == objs0[j]);
                    }
                }
                crate::messages::lemma_appended_extends(
                    m0,
                    m1,
                    crate::items::confusion_msg(objs0[id].name@),
                    crate::color::white(),
                );
            }
        },
    }
}

} // verus!

verus! {

/// The names of the entities standing at `(x, y)` and currently
/// visible, scanned from index 0 upward through the first `n` entities.
pub open spec fn visible_names_upto(
    fov: &Fov,
    objs: Seq<GameObject>,
    x: int,
    y: int,
    n: int,
) -> Seq<Seq<char>>
    decreases n,
{
    if n <= 0 {
        Seq::empty()
    } else {
        let rest = visible_names_upto(fov, objs, x, y, n - 1);
        let o = objs[n - 1];
        if o.x == x && o.y == y && spec_in_fov(fov, x, y) {
            rest.push(o.name@)
        } else {
            rest
        }
    }
}

/// The given names joined with a comma-and-space separator.
pub open spec fn join_commas(l: Seq<Seq<char>>) -> Seq<char>
    decreases l.len(),
{
    if l.len() == 0 {
        Seq::empty()
    } else if l.len() == 1 {
        l[0]
    } else {
        join_commas(l.drop_last()) + ", "@ + l.last()
    }
}

/// The names of all currently visible entities standing at `(x, y)`,
/// joined with commas, in collection order; what the presentation layer
/// shows for the tile under the mouse.
pub fn get_names_at(x: i32, y: i32, fov: &Fov, game_objects: &Vec<GameObject>) -> (s: String)
    requires
        fov_wf(fov),
        crate::tile::in_bounds(x as int, y as int),
    ensures
        s@ == join_commas(
            visible_names_upto(fov, game_objects@, x as int, y as int, game_objects@.len() as int),
        ),
{
    let mut s = String::new();
    let mut matched: usize = 0;
    let n = game_objects.len();
    let mut i: usize = 0;
    while i < n
        invariant
            0 <= i <= n,
            n == game_objects@.len(),
            fov_wf(fov),
            crate::tile::in_bounds(x as int, y as int),
            matched <= i,
            matched == visible_names_upto(fov, game_objects@, x as int, y as int, i as int).len(),
            s@ == join_commas(visible_names_upto(fov, game_objects@, x as int, y as int, i as int)),
        decreases n - i,
    {
        let o = &game_objects[i];
        let ghost l = visible_names_upto(fov, game_objects@, x as int, y as int, i as int);
        if o.x == x && o.y == y && fov.is_in_fov(x, y) {
            if matched == 0 {
                s = o.name.clone();
            } else {
                s = s.concat(", ").concat(o.name.as_str());
            }
            matched += 1;
            proof {
                let l1 = visible_names_upto(fov, game_objects@, x as int, y as int, i + 1);
                assert(l1 == l.push(game_objects@[i as int].name@));
                assert(l1.drop_last() =~= l);
                if l.len() == 0 {
                    assert(s@ =~= join_commas(l1));
                } else {
                    assert(s@ =~= join_commas(l1));
                }
            }
        }
        i += 1;
    }
    s
}

} // verus!

verus! {

/// One full turn of the session's state machine: the player's command
/// is resolved, and if the player is still alive and the command
/// consumed the turn, every behavior-bearing entity acts once.
pub fn advance_turn(
    cmd: Command,
    fov: &Fov,
    game: &mut Game,
    game_objects: &mut Vec<GameObject>,
    rng: &mut crate::rng::RandomSource,
) -> (r: PlayerAction)
    requires
        fov_wf(fov),
        world_wf(&old(game).map, old(game_objects)@),
        cmd matches Command::UseItem(inventory_id) ==> inventory_id < old(game).inventory@.len(),
    ensures
        final(game).map == old(game).map,
        world_wf(&old(game).map, final(game_objects)@),
        log_extended(old(game).messages@, final(game).messages@),
        exists|objs_mid: Seq<GameObject>, m_mid: Seq<(String, Color)>|
            {
                &&& #[trigger] handle_command_post(
                    cmd,
                    fov,
                    &old(game).map,
                    old(game_objects)@,
                    objs_mid,
                    old(game).inventory@,
                    final(game).inventory@,
                    old(game).messages@,
                    m_mid,
                    r,
                )
                &&& if objs_mid[PLAYER as int].is_alive && r == PlayerAction::TookTurn {
                    crate::ai::ai_phase_rel(
                        fov,
                        &old(game).map,
                        objs_mid,
                        final(game_objects)@,
                        m_mid,
                        final(game).messages@,
                    )
                } else {
                    final(game_objects)@ == objs_mid && final(game).messages@ == m_mid
                }
            },
{
    let action = handle_command(cmd, fov, game, game_objects);
    let ghost objs_mid = game_objects@;
    let ghost m_mid = game.messages@;
    let player_alive = game_objects[PLAYER].is_alive;
    if player_alive && action == PlayerAction::TookTurn {
        crate::ai::run_ai_turns(fov, game, game_objects, rng);
    }
    proof {
        crate::messages::lemma_log_extended_trans(
            old(game).messages@,
            m_mid,
            final(game).messages@,
        );
        assert(handle_command_post(
            cmd,
            fov,
            &old(game).map,
            old(game_objects)@,
            objs_mid,
            old(game).inventory@,
            final(game).inventory@,
            old(game).messages@,
            m_mid,
            action,
        ));
    }
    action
}

} // verus!
