//! The inventory and item effects: picking items up, and the three
//! targeted effects an item use can dispatch to.
use vstd::prelude::*;
use vstd::string::StringExecFns;

use crate::color::green;
use crate::color::light_blue;
use crate::color::light_violet;
use crate::color::red;
use crate::color::white;
use crate::color::Color;
use crate::combat::death_msg;
use crate::combat::death_msg_color;
use crate::combat::spec_damaged;
use crate::combat::spec_dies;
use crate::combat::spec_healed;
use crate::combat::take_damage_rel;
use crate::fov::fov_wf;
use crate::fov::spec_in_fov;
use crate::fov::Fov;
use crate::messages::appended;
use crate::messages::appended2;
use crate::messages::lemma_appended_twice;
use crate::object::obj_state_wf;
use crate::object::Ai;
use crate::object::GameObject;
use crate::object::Item;
use crate::tile::in_bounds;
use crate::world::Game;
use crate::CONFUSE_TURN_COUNT;
use crate::CONFUSION_RANGE;
use crate::HEAL_AMOUNT;
use crate::INVENTORY_CAPACITY;
use crate::LIGHTNING_DAMAGE;
use crate::LIGHTNING_RANGE;
use crate::PLAYER;

verus! {

/// Outcome of an item-use attempt: consumed, or aborted with no effect.
#[derive(Clone, Copy, Debug, PartialEq, Eq, Structural)]
pub enum UseResult {
    UsedUp,
    Cancelled,
}

/// Every entity's state invariant holds and every entity stands on the
/// grid; what the item effects need of the world.
pub open spec fn objects_ok(objects: Seq<GameObject>) -> bool {
    &&& objects.len() >= 1
    &&& forall|i: int|
        0 <= i < objects.len() ==> obj_state_wf(#[trigger] objects[i]) && in_bounds(
            objects[i].x as int,
            objects[i].y as int,
        )
}

/// The message emitted when the inventory is full.
pub open spec fn pickup_full_msg(name: Seq<char>) -> Seq<char> {
    "Cannot pickup "@ + name + ", inventory is full!"@
}

/// The message emitted when an item is picked up.
pub open spec fn pickup_msg(name: Seq<char>) -> Seq<char> {
    "You picked up "@ + name
}

/// Full effect of a pickup attempt: with the inventory at capacity the
/// world is unchanged and the failure is reported; otherwise the entity
/// moves from the world sequence into the inventory (the world sequence
/// closes the gap with its last entity) and the pickup is reported.
pub open spec fn pick_up_post(
    object_id: int,
    objs0: Seq<GameObject>,
    objs1: Seq<GameObject>,
    inv0: Seq<GameObject>,
    inv1: Seq<GameObject>,
    m0: Seq<(String, Color)>,
    m1: Seq<(String, Color)>,
) -> bool {
    if inv0.len() >= INVENTORY_CAPACITY {
        &&& objs1 == objs0
        &&& inv1 == inv0
        &&& appended(m0, m1, pickup_full_msg(objs0[object_id].name@), red())
    } else {
        &&& objs1 == objs0.update(object_id, objs0.last()).drop_last()
        &&& inv1 == inv0.push(objs0[object_id])
        &&& appended(m0, m1, pickup_msg(objs0[object_id].name@), green())
    }
}

/// Moves the item entity at `object_id` out of the world sequence into
/// the inventory, unless the inventory is at capacity; a full inventory
/// rejects the pickup with a message and no state change.
pub fn pick_item_up(object_id: usize, game: &mut Game, game_objects: &mut Vec<GameObject>)
    requires
        object_id < old(game_objects)@.len(),
    ensures
        final(game).map == old(game).map,
        pick_up_post(
            object_id as int,
            old(game_objects)@,
            final(game_objects)@,
            old(game).inventory@,
            final(game).inventory@,
            old(game).messages@,
            final(game).messages@,
        ),
{
    if game.inventory.len() >= INVENTORY_CAPACITY {
        let msg = String::from_str("Cannot pickup ").concat(
            game_objects[object_id].name.as_str(),
        ).concat(", inventory is full!");
        proof {
            assert(msg@ =~= pickup_full_msg(old(game_objects)@[object_id as int].name@));
        }
        game.messages.add(msg, Color::rgb(255, 0, 0));
    } else {
        let item = game_objects.swap_remove(object_id);
        let msg = String::from_str("You picked up ").concat(item.name.as_str());
        proof {
            assert(msg@ =~= pickup_msg(old(game_objects)@[object_id as int].name@));
        }
        game.messages.add(msg, Color::rgb(0, 255, 0));
        game.inventory.push(item);
    }
}

/// Entity `id` qualifies as a target: it is not the player, it carries
/// both a fighter and a behavior, and it is currently visible.
pub open spec fn target_ok(fov: &Fov, objects: Seq<GameObject>, id: int) -> bool {
    &&& 0 <= id < objects.len()
    &&& id != PLAYER
    &&& objects[id].fighter is Some
    &&& objects[id].ai is Some
    &&& spec_in_fov(fov, objects[id].x as int, objects[id].y as int)
}

/// The squared distance from the player to entity `id`.
pub open spec fn dist2_to_player(objects: Seq<GameObject>, id: int) -> int {
    let p = objects[PLAYER as int];
    let o = objects[id];
    (o.x - p.x) * (o.x - p.x) + (o.y - p.y) * (o.y - p.y)
}

/// Entity `id` qualifies and its distance to the player is strictly
/// below `max_range`: nothing at or beyond the range bound is ever
/// selected.
pub open spec fn in_striking_range(
    fov: &Fov,
    objects: Seq<GameObject>,
    max_range: int,
    id: int,
) -> bool {
    &&& target_ok(fov, objects, id)
    &&& dist2_to_player(objects, id) < max_range * max_range
}

/// Some entity qualifies within range.
pub open spec fn any_target_in_range(fov: &Fov, objects: Seq<GameObject>, max_range: int) -> bool {
    exists|id: int| in_striking_range(fov, objects, max_range, id)
}

/// Entity `id` is the one the closest-target scan picks: in range, no
/// earlier-scanned qualifying entity is as close (a tie keeps the
/// earlier entity), and no later one is closer.
pub open spec fn is_closest_pick(
    fov: &Fov,
    objects: Seq<GameObject>,
    max_range: int,
    id: int,
) -> bool {
    &&& in_striking_range(fov, objects, max_range, id)
    &&& forall|j: int|
        target_ok(fov, objects, j) ==> (j < id ==> #[trigger] dist2_to_player(objects, j)
            > dist2_to_player(objects, id)) && (j > id ==> dist2_to_player(objects, j)
            >= dist2_to_player(objects, id))
}

/// Finds the closest qualifying entity within `max_range` of the player:
/// a linear scan tracking the strictly smallest distance, so a tie keeps
/// the earlier-scanned entity and nothing at or beyond the bound is ever
/// selected.
pub fn closest_monster(fov: &Fov, game_objects: &Vec<GameObject>, max_range: i32) -> (r: Option<
    usize,
>)
    requires
        fov_wf(fov),
        objects_ok(game_objects@),
        0 <= max_range <= 1000,
    ensures
        match r {
            Some(id) => is_closest_pick(fov, game_objects@, max_range as int, id as int),
            None => !any_target_in_range(fov, game_objects@, max_range as int),
        },
{
    proof {
        assert(0 <= max_range * max_range <= 1000000) by (nonlinear_arith)
            requires
                0 <= max_range <= 1000,
        ;
    }
    let mut closest_enemy: Option<usize> = None;
    let mut closest_dist2: i32 = max_range * max_range;
    let ghost bound = (max_range * max_range) as int;
    let n = game_objects.len();
    let mut id: usize = 0;
    while id < n
        invariant
            0 <= id <= n,
            n == game_objects@.len(),
            fov_wf(fov),
            objects_ok(game_objects@),
            0 <= max_range <= 1000,
            bound == max_range * max_range,
            closest_dist2 <= bound,
            forall|j: int|
                0 <= j < id && target_ok(fov, game_objects@, j) ==> #[trigger] dist2_to_player(
                    game_objects@,
                    j,
                ) >= closest_dist2,
            match closest_enemy {
                Some(b) => {
                    &&& 0 <= b < id
                    &&& target_ok(fov, game_objects@, b as int)
                    &&& dist2_to_player(game_objects@, b as int) == closest_dist2
                    &&& closest_dist2 < bound
                    &&& forall|j: int|
                        0 <= j < b && target_ok(fov, game_objects@, j)
                            ==> #[trigger] dist2_to_player(game_objects@, j) > closest_dist2
                },
                None => closest_dist2 == bound,
            },
        decreases n - id,
    {
        let qualifies = id != PLAYER && game_objects[id].fighter.is_some()
            && game_objects[id].ai.is_some() && fov.is_in_fov(
            game_objects[id].x,
            game_objects[id].y,
        );
        if qualifies {
            let d2 = game_objects[PLAYER].distance_squared_to(&game_objects[id]);
            if d2 < closest_dist2 {
                closest_enemy = Some(id);
                closest_dist2 = d2;
            }
        }
        id += 1;
    }
    closest_enemy
}

/// Full effect of a heal cast: refused without a message when the
/// player has no fighter, refused with a message at full health, and
/// otherwise the fixed amount is restored, capped at the maximum.
pub open spec fn cast_heal_post(
    objs0: Seq<GameObject>,
    objs1: Seq<GameObject>,
    m0: Seq<(String, Color)>,
    m1: Seq<(String, Color)>,
    r: UseResult,
) -> bool {
    let p = objs0[PLAYER as int];
    if p.fighter is None {
        &&& r == UseResult::Cancelled
        &&& objs1 == objs0
        &&& m1 == m0
    } else if p.fighter->0.hp == p.fighter->0.max_hp {
        &&& r == UseResult::Cancelled
        &&& objs1 == objs0
        &&& appended(m0, m1, "You are already at full health."@, red())
    } else {
        &&& r == UseResult::UsedUp
        &&& objs1 == objs0.update(PLAYER as int, spec_healed(p, HEAL_AMOUNT))
        &&& appended(m0, m1, "Your wounds start to feel better!"@, light_violet())
    }
}

/// Heals the player by the fixed amount, capped at the maximum: a no-op
/// with a message at full health, a no-op without one when the player
/// has no fighter.
pub fn cast_heal(_inventory_id: usize, game: &mut Game, game_objects: &mut Vec<GameObject>) -> (r:
    UseResult)
    requires
        objects_ok(old(game_objects)@),
    ensures
        final(game).map == old(game).map,
        final(game).inventory == old(game).inventory,
        cast_heal_post(
            old(game_objects)@,
            final(game_objects)@,
            old(game).messages@,
            final(game).messages@,
            r,
        ),
{
    let has_fighter = game_objects[PLAYER].fighter.is_some();
    if has_fighter {
        let fighter = game_objects[PLAYER].fighter.unwrap();
        if fighter.hp == fighter.max_hp {
            game.messages.add(
                "You are already at full health.".to_owned(),
                Color::rgb(255, 0, 0),
            );
            return UseResult::Cancelled;
        } else {
            game.messages.add(
                "Your wounds start to feel better!".to_owned(),
                Color::rgb(185, 115, 255),
            );
            game_objects[PLAYER].heal(HEAL_AMOUNT);
            proof {
                assert(final(game_objects)@ =~= old(game_objects)@.update(
                    PLAYER as int,
                    spec_healed(old(game_objects)@[PLAYER as int], HEAL_AMOUNT),
                ));
            }
            return UseResult::UsedUp;
        }
    }
    UseResult::Cancelled
}

/// The message announcing a lightning strike.
pub open spec fn lightning_msg(name: Seq<char>) -> Seq<char> {
    "A lightning bolt strikes the "@ + name + " and damaged it "@ + crate::text::dec_digits(
        LIGHTNING_DAMAGE as int,
    ) + " hit points!"@
}

/// Full effect of a lightning cast: with no qualifying visible target in
/// range, the cast is cancelled and every entity is unchanged; otherwise
/// the closest target takes the fixed damage, with the announcement and
/// any death message logged in order.
pub open spec fn cast_lightning_post(
    fov: &Fov,
    objs0: Seq<GameObject>,
    objs1: Seq<GameObject>,
    m0: Seq<(String, Color)>,
    m1: Seq<(String, Color)>,
    r: UseResult,
) -> bool {
    if !any_target_in_range(fov, objs0, LIGHTNING_RANGE as int) {
        &&& r == UseResult::Cancelled
        &&& objs1 == objs0
        &&& appended(m0, m1, "There is no enemy to strike."@, red())
    } else {
        exists|id: int|
            {
                &&& #[trigger] is_closest_pick(fov, objs0, LIGHTNING_RANGE as int, id)
                &&& r == UseResult::UsedUp
                &&& take_damage_rel(objs0[id], LIGHTNING_DAMAGE, objs1[id])
                &&& objs1 == objs0.update(id, objs1[id])
                &&& if spec_dies(objs0[id], LIGHTNING_DAMAGE) {
                    appended2(
                        m0,
                        m1,
                        lightning_msg(objs0[id].name@),
                        light_blue(),
                        death_msg(spec_damaged(objs0[id], LIGHTNING_DAMAGE)),
                        death_msg_color(spec_damaged(objs0[id], LIGHTNING_DAMAGE)),
                    )
                } else {
                    appended(m0, m1, lightning_msg(objs0[id].name@), light_blue())
                }
            }
    }
}

/// Strikes the closest visible qualifying enemy within the lightning
/// range with the fixed damage; cancelled with a message when there is
/// none.
pub fn cast_lightning(
    _inventory_id: usize,
    fov: &Fov,
    game: &mut Game,
    game_objects: &mut Vec<GameObject>,
) -> (r: UseResult)
    requires
        fov_wf(fov),
        objects_ok(old(game_objects)@),
    ensures
        final(game).map == old(game).map,
        final(game).inventory == old(game).inventory,
        cast_lightning_post(
            fov,
            old(game_objects)@,
            final(game_objects)@,
            old(game).messages@,
            final(game).messages@,
            r,
        ),
{
    let monster_id = closest_monster(fov, game_objects, LIGHTNING_RANGE);
    match monster_id {
        Some(monster_id) => {
            let ghost m0 = game.messages@;
            let msg = String::from_str("A lightning bolt strikes the ").concat(
                game_objects[monster_id].name.as_str(),
            ).concat(" and damaged it ").concat(
                crate::text::dec_string(LIGHTNING_DAMAGE).as_str(),
            ).concat(" hit points!");
            proof {
                assert(msg@ =~= lightning_msg(old(game_objects)@[monster_id as int].name@));
            }
            game.messages.add(msg, Color::rgb(115, 115, 255));
            let ghost m1 = game.messages@;
            let target = &mut game_objects[monster_id];
            target.take_damage(LIGHTNING_DAMAGE, game);
            proof {
                let objs0 = old(game_objects)@;
                let id = monster_id as int;
                assert(final(game_objects)@ =~= objs0.update(id, final(game_objects)@[id]));
                if spec_dies(objs0[id], LIGHTNING_DAMAGE) {
                    lemma_appended_twice(
                        m0,
                        m1,
                        final(game).messages@,
                        lightning_msg(objs0[id].name@),
                        light_blue(),
                        death_msg(spec_damaged(objs0[id], LIGHTNING_DAMAGE)),
                        death_msg_color(spec_damaged(objs0[id], LIGHTNING_DAMAGE)),
                    );
                }
                assert(cast_lightning_post(
                    fov,
                    objs0,
                    final(game_objects)@,
                    m0,
                    final(game).messages@,
                    UseResult::UsedUp,
                ));
            }
            UseResult::UsedUp
        },
        None => {
            game.messages.add("There is no enemy to strike.".to_owned(), Color::rgb(255, 0, 0));
            UseResult::Cancelled
        },
    }
}

/// The message announcing a successful confusion.
pub open spec fn confusion_msg(name: Seq<char>) -> Seq<char> {
    name + " is confused !"@
}

/// The target's behavior was replaced by a confusion wrapper around its
/// prior behavior (defaulting to basic if it somehow had none), with the
/// fixed number of turns remaining; everything else about it unchanged.
pub open spec fn confusion_applied(o: GameObject, n: GameObject) -> bool {
    &&& n == (GameObject { ai: n.ai, ..o })
    &&& n.ai matches Some(c)
    &&& c matches Ai::Confused { previous_ai, num_turns } && num_turns == CONFUSE_TURN_COUNT
        && *previous_ai == (if o.ai is Some {
        o.ai->0
    } else {
        Ai::Basic
    })
}

/// Full effect of a confusion cast: with no qualifying visible target in
/// range, cancelled and unchanged; otherwise the closest target's
/// behavior is wrapped, reversibly, in a confusion state.
pub open spec fn cast_confusion_post(
    fov: &Fov,
    objs0: Seq<GameObject>,
    objs1: Seq<GameObject>,
    m0: Seq<(String, Color)>,
    m1: Seq<(String, Color)>,
    r: UseResult,
) -> bool {
    if !any_target_in_range(fov, objs0, CONFUSION_RANGE as int) {
        &&& r == UseResult::Cancelled
        &&& objs1 == objs0
        &&& appended(m0, m1, "There is no enemy to strike."@, red())
    } else {
        exists|id: int|
            {
                &&& #[trigger] is_closest_pick(fov, objs0, CONFUSION_RANGE as int, id)
                &&& r == UseResult::UsedUp
                &&& confusion_applied(objs0[id], objs1[id])
                &&& objs1 == objs0.update(id, objs1[id])
                &&& appended(m0, m1, confusion_msg(objs0[id].name@), white())
            }
    }
}

/// Replaces the closest visible qualifying enemy's behavior with a
/// confusion wrapper that snapshots its prior behavior; cancelled with a
/// message when there is none.
pub fn cast_confusion(
    _inventory_id: usize,
    fov: &Fov,
    game: &mut Game,
    game_objects: &mut Vec<GameObject>,
) -> (r: UseResult)
    requires
        fov_wf(fov),
        objects_ok(old(game_objects)@),
    ensures
        final(game).map == old(game).map,
        final(game).inventory == old(game).inventory,
        cast_confusion_post(
            fov,
            old(game_objects)@,
            final(game_objects)@,
            old(game).messages@,
            final(game).messages@,
            r,
        ),
{
    let monster_id = closest_monster(fov, game_objects, CONFUSION_RANGE);
    match monster_id {
        Some(monster_id) => {
            let old_ai = game_objects[monster_id].ai.take().unwrap_or(Ai::Basic);
            game_objects[monster_id].ai = Some(
                Ai::Confused { previous_ai: Box::new(old_ai), num_turns: CONFUSE_TURN_COUNT },
            );
            let msg = game_objects[monster_id].name.clone().concat(" is confused !");
            proof {
                assert(msg@ =~= confusion_msg(old(game_objects)@[monster_id as int].name@));
            }
            game.messages.add(msg, Color::rgb(255, 255, 255));
            proof {
                let objs0 = old(game_objects)@;
                let id = monster_id as int;
                assert(confusion_applied(objs0[id], final(game_objects)@[id]));
                assert(final(game_objects)@ =~= objs0.update(id, final(game_objects)@[id]));
                assert(cast_confusion_post(
                    fov,
                    objs0,
                    final(game_objects)@,
                    old(game).messages@,
                    final(game).messages@,
                    UseResult::UsedUp,
                ));
            }
            UseResult::UsedUp
        },
        None => {
            game.messages.add("There is no enemy to strike.".to_owned(), Color::rgb(255, 0, 0));
            UseResult::Cancelled
        },
    }
}

} // verus!

verus! {

/// The message emitted for an entity that is not usable.
pub open spec fn cannot_use_msg(name: Seq<char>) -> Seq<char> {
    "The "@ + name + " cannot be used"@
}

/// The effect of the item effect selected by `tag`.
pub open spec fn cast_post(
    tag: Item,
    fov: &Fov,
    objs0: Seq<GameObject>,
    objs1: Seq<GameObject>,
    m0: Seq<(String, Color)>,
    m1: Seq<(String, Color)>,
    r: UseResult,
) -> bool {
    match tag {
        Item::Heal => cast_heal_post(objs0, objs1, m0, m1, r),
        Item::ScrollOfLightning => cast_lightning_post(fov, objs0, objs1, m0, m1, r),
        Item::ScrollOfConfusion => cast_confusion_post(fov, objs0, objs1, m0, m1, r),
    }
}

/// The effect selected by `tag` will report success: the player can be
/// healed, or a qualifying visible target lies within the effect's
/// range. An item use succeeds exactly on these states.
pub open spec fn spec_cast_succeeds(tag: Item, fov: &Fov, objs: Seq<GameObject>) -> bool {
    match tag {
        Item::Heal => objs[PLAYER as int].fighter is Some && objs[PLAYER as int].fighter->0.hp
            != objs[PLAYER as int].fighter->0.max_hp,
        Item::ScrollOfLightning => any_target_in_range(fov, objs, LIGHTNING_RANGE as int),
        Item::ScrollOfConfusion => any_target_in_range(fov, objs, CONFUSION_RANGE as int),
    }
}

/// Full effect of using the inventory entry at `inventory_id`: its
/// effect runs and a used-up item leaves the inventory, a cancelled one
/// stays with a "Cancelled" message; an entry without an item capability
/// changes nothing and is reported as unusable.
pub open spec fn use_item_post(
    inventory_id: int,
    fov: &Fov,
    objs0: Seq<GameObject>,
    objs1: Seq<GameObject>,
    inv0: Seq<GameObject>,
    inv1: Seq<GameObject>,
    m0: Seq<(String, Color)>,
    m1: Seq<(String, Color)>,
    r: UseResult,
) -> bool {
    let entry = inv0[inventory_id];
    if entry.item is Some {
        &&& r == (if spec_cast_succeeds(entry.item->0, fov, objs0) {
            UseResult::UsedUp
        } else {
            UseResult::Cancelled
        })
        &&& exists|m_mid: Seq<(String, Color)>|
            {
                &&& #[trigger] cast_post(entry.item->0, fov, objs0, objs1, m0, m_mid, r)
                &&& match r {
                    UseResult::UsedUp => inv1 == inv0.remove(inventory_id) && m1 == m_mid,
                    UseResult::Cancelled => inv1 == inv0 && appended(
                        m_mid,
                        m1,
                        "Cancelled"@,
                        white(),
                    ),
                }
            }
    } else {
        &&& r == UseResult::Cancelled
        &&& objs1 == objs0
        &&& inv1 == inv0
        &&& appended(m0, m1, cannot_use_msg(entry.name@), white())
    }
}

/// Uses the inventory entry at `inventory_id`, dispatching on its item
/// tag; a used-up item is removed from the inventory, a cancelled use
/// leaves it and logs "Cancelled". The returned outcome is `UsedUp`
/// exactly when the effect reported success, so the caller can classify
/// the use as turn-consuming.
pub fn use_item(
    inventory_id: usize,
    fov: &Fov,
    game: &mut Game,
    game_objects: &mut Vec<GameObject>,
) -> (r: UseResult)
    requires
        fov_wf(fov),
        objects_ok(old(game_objects)@),
        inventory_id < old(game).inventory@.len(),
    ensures
        final(game).map == old(game).map,
        use_item_post(
            inventory_id as int,
            fov,
            old(game_objects)@,
            final(game_objects)@,
            old(game).inventory@,
            final(game).inventory@,
            old(game).messages@,
            final(game).messages@,
            r,
        ),
{
    let tag_opt = game.inventory[inventory_id].item;
    match tag_opt {
        Some(item) => {
            let result = match item {
                Item::Heal => cast_heal(inventory_id, game, game_objects),
                Item::ScrollOfLightning => cast_lightning(inventory_id, fov, game, game_objects),
                Item::ScrollOfConfusion => cast_confusion(inventory_id, fov, game, game_objects),
            };
            let ghost m_mid = game.messages@;
            match result {
                UseResult::UsedUp => {
                    game.inventory.remove(inventory_id);
                },
                UseResult::Cancelled => {
                    game.messages.add("Cancelled".to_owned(), Color::rgb(255, 255, 255));
                },
            }
            proof {
                assert(cast_post(
                    item,
                    fov,
                    old(game_objects)@,
                    final(game_objects)@,
                    old(game).messages@,
                    m_mid,
                    result,
                ));
            }
            result
        },
        None => {
            let msg = String::from_str("The ").concat(
                game.inventory[inventory_id].name.as_str(),
            ).concat(" cannot be used");
            proof {
                assert(msg@ =~= cannot_use_msg(old(game).inventory@[inventory_id as int].name@));
            }
            game.messages.add(msg, Color::rgb(255, 255, 255));
            UseResult::Cancelled
        },
    }
}

} // verus!
