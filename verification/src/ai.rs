//! The enemy decision process: a per-entity state machine invoked once
//! per turn for each behavior-bearing entity, consuming and replacing
//! its behavior value.
use vstd::prelude::*;
use vstd::string::StringExecFns;

use crate::color::white;
use crate::color::Color;
use crate::combat::attack_post;
use crate::combat::lemma_take_damage_preserves_state_wf;
use crate::combat::spec_attack_damage;
use crate::combat::spec_dies;
use crate::fov::fov_wf;
use crate::fov::spec_in_fov;
use crate::fov::Fov;
use crate::messages::appended;
use crate::messages::lemma_appended_extends;
use crate::messages::lemma_appended2_extends;
use crate::messages::lemma_log_extended_trans;
use crate::messages::log_contains_from;
use crate::messages::log_extended;
use crate::object::ai_wf;
use crate::object::obj_state_wf;
use crate::object::obj_wf;
use crate::object::Ai;
use crate::object::GameObject;
use crate::items::dist2_to_player;
use crate::rng::RandomSource;
use crate::tile::in_interior;
use crate::tile::tile_at;
use crate::world::lemma_move_by_preserves_wf;
use crate::world::mut_two;
use crate::world::move_game_object_by;
use crate::world::move_game_object_toward;
use crate::world::spec_blocked;
use crate::world::spec_move_by;
use crate::world::spec_move_toward;
use crate::world::toward_step;
use crate::world::world_wf;
use crate::world::Game;
use crate::PLAYER;

verus! {

/// One step of the behavior state machine, as far as the behavior value
/// itself is concerned: basic behavior stays basic; a confusion wrapper
/// counts its remaining turns down and, once they are spent, restores
/// the snapshotted prior behavior exactly.
pub open spec fn ai_next(ai: Ai) -> Ai {
    match ai {
        Ai::Basic => Ai::Basic,
        Ai::Confused { previous_ai, num_turns } => if num_turns >= 0 {
            Ai::Confused { previous_ai, num_turns: (num_turns - 1) as i32 }
        } else {
            *previous_ai
        },
    }
}

/// The behavior value after `k` steps of the state machine.
pub open spec fn ai_step_n(ai: Ai, k: nat) -> Ai
    decreases k,
{
    if k == 0 {
        ai
    } else {
        ai_step_n(ai_next(ai), (k - 1) as nat)
    }
}

/// Confusion round-trip: a confusion wrapper with `n` remaining turns is
/// unwrapped after exactly `n + 2` steps, restoring the snapshotted
/// behavior — including any nested confusion — without alteration. (The
/// wrapper moves for turns `n` down to `0`, stands at `-1` for one more
/// step, and the step after that removes it.)
pub proof fn lemma_confusion_round_trip(c: Ai)
    requires
        c is Confused,
        c->num_turns >= -1,
    ensures
        ai_step_n(c, (c->num_turns + 2) as nat) == *c->previous_ai,
    decreases c->num_turns + 2,
{
    let n = c->num_turns;
    let prev = c->previous_ai;
    if n >= 0 {
        let c1 = Ai::Confused { previous_ai: prev, num_turns: (n - 1) as i32 };
        assert(ai_next(c) == c1);
        lemma_confusion_round_trip(c1);
        assert(ai_step_n(c, (n + 2) as nat) == ai_step_n(c1, (n + 1) as nat));
    } else {
        assert(ai_next(c) == *prev);
        assert(ai_step_n(c, 1) == ai_step_n(*prev, 0));
    }
}

/// `n` differs from `o` at most in its position and behavior slot.
pub open spec fn same_but_moved(o: GameObject, n: GameObject) -> bool {
    n == (GameObject { x: n.x, y: n.y, ai: n.ai, ..o })
}

/// `objs` with entity `id`'s behavior slot replaced.
pub open spec fn with_ai(objs: Seq<GameObject>, id: int, ai: Option<Ai>) -> Seq<GameObject> {
    objs.update(id, GameObject { ai, ..objs[id] })
}

/// One confused turn moved entity `id` by one uniform random step
/// (standing still included) and nothing else: apart from the already
/// pinned behavior value, the world is exactly the outcome of one unit
/// move.
pub open spec fn confused_step_rel(
    g: &crate::tile::Grid,
    objs0: Seq<GameObject>,
    objs1: Seq<GameObject>,
    id: int,
) -> bool {
    exists|dx: int, dy: int|
        -1 <= dx <= 1 && -1 <= dy <= 1 && objs1 == with_ai(
            #[trigger] spec_move_by(g, objs0, id, dx, dy),
            id,
            objs1[id].ai,
        )
}

/// What one basic turn does to the world: an entity outside the
/// player's view stands still; a visible one two or more tiles away
/// steps toward the player; a visible adjacent one attacks a player
/// with positive hit points, and stands still over a dead player.
pub open spec fn ai_basic_post(
    fov: &Fov,
    g: &crate::tile::Grid,
    objs0: Seq<GameObject>,
    objs1: Seq<GameObject>,
    m0: Seq<(String, Color)>,
    m1: Seq<(String, Color)>,
    id: int,
) -> bool {
    let m = objs0[id];
    let p = objs0[PLAYER as int];
    if !spec_in_fov(fov, m.x as int, m.y as int) {
        objs1 == objs0 && m1 == m0
    } else if dist2_to_player(objs0, id) >= 4 {
        objs1 == spec_move_toward(g, objs0, id, p.x as int, p.y as int) && m1 == m0
    } else if p.fighter is Some && p.fighter->0.hp > 0 {
        objs1 == objs0.update(PLAYER as int, objs1[PLAYER as int]) && attack_post(
            m,
            p,
            objs1[PLAYER as int],
            m0,
            m1,
        )
    } else {
        objs1 == objs0 && m1 == m0
    }
}

/// Everything one dispatched turn does to the world. An entity without
/// behavior is left untouched, and the whole turn of one that has it is
/// pinned: the behavior value advances by exactly one step, basic
/// behavior acts exactly as `ai_basic_post` says (chase, attack, or
/// stand still), a confused turn with turns remaining is exactly one
/// random unit step, and an expiring one changes nothing but its
/// behavior slot while announcing the recovery.
pub open spec fn ai_turn_rel(
    fov: &Fov,
    g: &crate::tile::Grid,
    objs0: Seq<GameObject>,
    objs1: Seq<GameObject>,
    m0: Seq<(String, Color)>,
    m1: Seq<(String, Color)>,
    id: int,
) -> bool {
    if objs0[id].ai is None {
        objs1 == objs0 && m1 == m0
    } else {
        &&& objs1.len() == objs0.len()
        &&& objs1[id].ai == Some(ai_next(objs0[id].ai->0))
        &&& same_but_moved(objs0[id], objs1[id])
        &&& forall|j: int|
            0 <= j < objs0.len() && j != id && j != PLAYER ==> objs1[j] == objs0[j]
        &&& objs1[PLAYER as int].x == objs0[PLAYER as int].x
        &&& objs1[PLAYER as int].y == objs0[PLAYER as int].y
        &&& objs1[PLAYER as int].item == objs0[PLAYER as int].item
        &&& log_extended(m0, m1)
        &&& (objs0[id].ai->0 is Basic ==> ai_basic_post(fov, g, objs0, objs1, m0, m1, id))
        &&& (objs0[id].ai->0 is Confused && objs0[id].ai->0->num_turns >= 0
            ==> confused_step_rel(g, objs0, objs1, id) && m1 == m0)
        &&& (objs0[id].ai->0 is Confused && objs0[id].ai->0->num_turns < 0 ==> objs1 == with_ai(
            objs0,
            id,
            objs1[id].ai,
        ) && appended(m0, m1, objs0[id].name@ + " is no longer confused"@, white()))
    }
}

/// One turn of basic behavior: chase the player when visible but far,
/// attack when adjacent and the player still stands; always stays basic.
pub fn ai_basic(monster_id: usize, fov: &Fov, game: &mut Game, game_objects: &mut Vec<
    GameObject,
>) -> (r: Ai)
    requires
        fov_wf(fov),
        world_wf(&old(game).map, old(game_objects)@),
        monster_id < old(game_objects)@.len(),
        monster_id != PLAYER,
    ensures
        r == Ai::Basic,
        final(game).map == old(game).map,
        final(game).inventory == old(game).inventory,
        world_wf(&old(game).map, final(game_objects)@),
        final(game_objects)@.len() == old(game_objects)@.len(),
        ai_basic_post(
            fov,
            &old(game).map,
            old(game_objects)@,
            final(game_objects)@,
            old(game).messages@,
            final(game).messages@,
            monster_id as int,
        ),
        same_but_moved(old(game_objects)@[monster_id as int], final(game_objects)@[monster_id as int]),
        final(game_objects)@[monster_id as int].ai == old(game_objects)@[monster_id as int].ai,
        forall|j: int|
            0 <= j < old(game_objects)@.len() && j != monster_id && j != PLAYER
                ==> final(game_objects)@[j] == old(game_objects)@[j],
        final(game_objects)@[PLAYER as int].x == old(game_objects)@[PLAYER as int].x,
        final(game_objects)@[PLAYER as int].y == old(game_objects)@[PLAYER as int].y,
        final(game_objects)@[PLAYER as int].item == old(game_objects)@[PLAYER as int].item,
        log_extended(old(game).messages@, final(game).messages@),
{
    let ghost g = &old(game).map;
    let (monster_x, monster_y) = game_objects[monster_id].position();
    if fov.is_in_fov(monster_x, monster_y) {
        let d2 = game_objects[monster_id].distance_squared_to(&game_objects[PLAYER]);
        proof {
            let o = old(game_objects)@[monster_id as int];
            let p = old(game_objects)@[PLAYER as int];
            assert((p.x - o.x) * (p.x - o.x) + (p.y - o.y) * (p.y - o.y) == (o.x - p.x) * (o.x
                - p.x) + (o.y - p.y) * (o.y - p.y)) by (nonlinear_arith);
            assert(d2 == dist2_to_player(old(game_objects)@, monster_id as int));
        }
        if d2 >= 4 {
            let (player_x, player_y) = game_objects[PLAYER].position();
            proof {
                let o = old(game_objects)@[monster_id as int];
                assert(in_interior(o.x as int, o.y as int)) by {
                    assert(!tile_at(g, o.x as int, o.y as int).blocked);
                }
                let dx = player_x - o.x;
                let dy = player_y - o.y;
                let sd2 = dx * dx + dy * dy;
                assert(-1 <= toward_step(dx as int, sd2 as int) <= 1);
                assert(-1 <= toward_step(dy as int, sd2 as int) <= 1);
            }
            move_game_object_toward(monster_id, player_x, player_y, &game.map, game_objects);
            proof {
                let o = old(game_objects)@[monster_id as int];
                let dx = player_x - o.x;
                let dy = player_y - o.y;
                let sd2 = dx * dx + dy * dy;
                lemma_move_by_preserves_wf(
                    g,
                    old(game_objects)@,
                    monster_id as int,
                    toward_step(dx as int, sd2 as int),
                    toward_step(dy as int, sd2 as int),
                );
            }
        } else {
            let player_has_hp = match &game_objects[PLAYER].fighter {
                Some(f) => f.hp > 0,
                None => false,
            };
            if player_has_hp {
                let ghost objs0 = game_objects@;
                let (monster, player) = mut_two(monster_id, PLAYER, game_objects);
                monster.attack(player, game);
                proof {
                    assert(final(game_objects)@ =~= objs0.update(
                        PLAYER as int,
                        final(game_objects)@[PLAYER as int],
                    ));
                    lemma_take_damage_preserves_state_wf(
                        objs0[PLAYER as int],
                        spec_attack_damage(objs0[monster_id as int], objs0[PLAYER as int]) as i32,
                        final(game_objects)@[PLAYER as int],
                    );
                    assert forall|j: int| 0 <= j < final(game_objects)@.len() implies obj_wf(
                        g,
                        #[trigger] final(game_objects)@[j],
                    ) by {
                        if j != PLAYER {
                            assert(final(game_objects)@[j] == objs0[j]);
                        }
                    }
                    let d = spec_attack_damage(objs0[monster_id as int], objs0[PLAYER as int]);
                    if d > 0 {
                        if spec_dies(objs0[PLAYER as int], d as i32) {
                            lemma_appended2_extends(
                                old(game).messages@,
                                final(game).messages@,
                                crate::combat::attack_msg(
                                    objs0[monster_id as int].name@,
                                    objs0[PLAYER as int].name@,
                                    d,
                                ),
                                white(),
                                crate::combat::death_msg(
                                    crate::combat::spec_damaged(objs0[PLAYER as int], d as i32),
                                ),
                                crate::combat::death_msg_color(
                                    crate::combat::spec_damaged(objs0[PLAYER as int], d as i32),
                                ),
                            );
                        } else {
                            lemma_appended_extends(
                                old(game).messages@,
                                final(game).messages@,
                                crate::combat::attack_msg(
                                    objs0[monster_id as int].name@,
                                    objs0[PLAYER as int].name@,
                                    d,
                                ),
                                white(),
                            );
                        }
                    } else {
                        lemma_appended_extends(
                            old(game).messages@,
                            final(game).messages@,
                            crate::combat::no_effect_msg(
                                objs0[monster_id as int].name@,
                                objs0[PLAYER as int].name@,
                            ),
                            white(),
                        );
                    }
                }
            }
        }
    }
    Ai::Basic
}

/// One turn of confused behavior: while turns remain, take one uniform
/// random step (standing still is a legal outcome) and count down; once
/// they are spent, announce recovery and restore the prior behavior.
pub fn ai_confused(
    monster_id: usize,
    game: &mut Game,
    game_objects: &mut Vec<GameObject>,
    previous_ai: Box<Ai>,
    num_turns: i32,
    rng: &mut RandomSource,
) -> (r: Ai)
    requires
        world_wf(&old(game).map, old(game_objects)@),
        monster_id < old(game_objects)@.len(),
        num_turns > i32::MIN,
    ensures
        final(game).map == old(game).map,
        final(game).inventory == old(game).inventory,
        world_wf(&old(game).map, final(game_objects)@),
        final(game_objects)@.len() == old(game_objects)@.len(),
        forall|j: int|
            0 <= j < old(game_objects)@.len() && j != monster_id ==> final(game_objects)@[j]
                == old(game_objects)@[j],
        same_but_moved(old(game_objects)@[monster_id as int], final(game_objects)@[monster_id as int]),
        final(game_objects)@[monster_id as int].ai == old(game_objects)@[monster_id as int].ai,
        log_extended(old(game).messages@, final(game).messages@),
        if num_turns >= 0 {
            &&& r == (Ai::Confused { previous_ai, num_turns: (num_turns - 1) as i32 })
            &&& exists|dx: int, dy: int|
                -1 <= dx <= 1 && -1 <= dy <= 1 && final(game_objects)@ == spec_move_by(
                    &old(game).map,
                    old(game_objects)@,
                    monster_id as int,
                    dx,
                    dy,
                )
            &&& final(game).messages@ == old(game).messages@
        } else {
            &&& r == *previous_ai
            &&& final(game_objects)@ == old(game_objects)@
            &&& appended(
                old(game).messages@,
                final(game).messages@,
                old(game_objects)@[monster_id as int].name@ + " is no longer confused"@,
                white(),
            )
        },
{
    if num_turns >= 0 {
        let dx = rng.range(-1, 2);
        let dy = rng.range(-1, 2);
        proof {
            let o = old(game_objects)@[monster_id as int];
            assert(in_interior(o.x as int, o.y as int)) by {
                assert(!tile_at(&old(game).map, o.x as int, o.y as int).blocked);
            }
        }
        move_game_object_by(monster_id, dx, dy, &game.map, game_objects);
        proof {
            lemma_move_by_preserves_wf(
                &old(game).map,
                old(game_objects)@,
                monster_id as int,
                dx as int,
                dy as int,
            );
            assert(-1 <= dx as int <= 1 && -1 <= dy as int <= 1 && final(game_objects)@
                == spec_move_by(
                &old(game).map,
                old(game_objects)@,
                monster_id as int,
                dx as int,
                dy as int,
            ));
        }
        Ai::Confused { previous_ai, num_turns: num_turns - 1 }
    } else {
        let msg = game_objects[monster_id].name.clone().concat(" is no longer confused");
        proof {
            assert(msg@ =~= old(game_objects)@[monster_id as int].name@
                + " is no longer confused"@);
        }
        game.messages.add(msg, Color::rgb(255, 255, 255));
        proof {
            lemma_appended_extends(
                old(game).messages@,
                final(game).messages@,
                old(game_objects)@[monster_id as int].name@ + " is no longer confused"@,
                white(),
            );
        }
        *previous_ai
    }
}

/// One turn for the entity at `monster_id`: its behavior value is taken
/// out, dispatched on, and replaced by the value the behavior returned;
/// an entity without behavior is left untouched.
pub fn ai_take_turn(
    monster_id: usize,
    fov: &Fov,
    game: &mut Game,
    game_objects: &mut Vec<GameObject>,
    rng: &mut RandomSource,
)
    requires
        fov_wf(fov),
        world_wf(&old(game).map, old(game_objects)@),
        monster_id < old(game_objects)@.len(),
    ensures
        final(game).map == old(game).map,
        final(game).inventory == old(game).inventory,
        world_wf(&old(game).map, final(game_objects)@),
        final(game_objects)@.len() == old(game_objects)@.len(),
        log_extended(old(game).messages@, final(game).messages@),
        ai_turn_rel(
            fov,
            &old(game).map,
            old(game_objects)@,
            final(game_objects)@,
            old(game).messages@,
            final(game).messages@,
            monster_id as int,
        ),
{
    let ai_opt = game_objects[monster_id].ai.take();
    match ai_opt {
        Some(ai) => {
            proof {
                assert(monster_id != PLAYER);
                assert forall|j: int| 0 <= j < game_objects@.len() implies obj_wf(
                    &old(game).map,
                    #[trigger] game_objects@[j],
                ) by {
                    if j != monster_id {
                        assert(game_objects@[j] == old(game_objects)@[j]);
                    }
                }
            }
            let ghost objs1 = game_objects@;
            let new_ai = match ai {
                Ai::Basic => ai_basic(monster_id, fov, game, game_objects),
                Ai::Confused { previous_ai, num_turns } => ai_confused(
                    monster_id,
                    game,
                    game_objects,
                    previous_ai,
                    num_turns,
                    rng,
                ),
            };
            let ghost objs2 = game_objects@;
            let slot = &mut game_objects[monster_id];
            slot.ai = Some(new_ai);
            proof {
                let old_ai = old(game_objects)@[monster_id as int].ai->0;
                assert(ai_wf(old_ai));
                assert(final(game_objects)@[monster_id as int].ai == Some(ai_next(old_ai)));
                assert forall|j: int| 0 <= j < final(game_objects)@.len() implies obj_wf(
                    &old(game).map,
                    #[trigger] final(game_objects)@[j],
                ) by {
                    if j != monster_id {
                        assert(final(game_objects)@[j] == objs2[j]);
                    } else {
                        assert(obj_wf(&old(game).map, objs2[j]));
                        assert(obj_state_wf(final(game_objects)@[j]));
                    }
                }
                let g = &old(game).map;
                let objs0 = old(game_objects)@;
                let id = monster_id as int;
                let fin = final(game_objects)@;
                let m0 = old(game).messages@;
                let m1 = final(game).messages@;
                assert(objs1 =~= objs0.update(id, (GameObject { ai: None, ..objs0[id] })));
                assert(forall|i: int|
                    0 <= i < objs0.len() ==> #[trigger] objs1[i] == (GameObject {
                        ai: objs1[i].ai,
                        ..objs0[i]
                    }));
                let m = objs0[id];
                let p = objs0[PLAYER as int];
                match old_ai {
                    Ai::Basic => {
                        assert(fin[id].ai == Some(Ai::Basic));
                        if !spec_in_fov(fov, m.x as int, m.y as int) {
                            assert(objs2 == objs1);
                            assert(fin =~= objs0);
                        } else if dist2_to_player(objs1, id) >= 4 {
                            assert(dist2_to_player(objs0, id) == dist2_to_player(objs1, id));
                            let dx = p.x - m.x;
                            let dy = p.y - m.y;
                            let d2 = dx * dx + dy * dy;
                            let sx = toward_step(dx as int, d2 as int);
                            let sy = toward_step(dy as int, d2 as int);
                            crate::world::lemma_blocked_ignores_ai(
                                g,
                                objs0,
                                objs1,
                                m.x + sx,
                                m.y + sy,
                            );
                            if !spec_blocked(g, objs0, m.x + sx, m.y + sy) {
                                assert(fin =~= spec_move_toward(
                                    g,
                                    objs0,
                                    id,
                                    p.x as int,
                                    p.y as int,
                                ));
                            } else {
                                assert(objs2 == objs1);
                                assert(fin =~= objs0);
                                assert(spec_move_toward(g, objs0, id, p.x as int, p.y as int)
                                    == objs0);
                            }
                        } else if p.fighter is Some && p.fighter->0.hp > 0 {
                            assert(spec_attack_damage(objs1[id], p) == spec_attack_damage(m, p));
                            assert(objs1[id].name@ == m.name@);
                            assert(attack_post(m, p, objs2[PLAYER as int], m0, m1));
                            assert(fin[PLAYER as int] == objs2[PLAYER as int]);
                            assert(fin =~= objs0.update(PLAYER as int, fin[PLAYER as int]));
                        } else {
                            assert(objs2 == objs1);
                            assert(fin =~= objs0);
                        }
                        assert(ai_basic_post(fov, g, objs0, fin, m0, m1, id));
                    },
                    Ai::Confused { previous_ai: _, num_turns } => {
                        if num_turns >= 0 {
                            let (dx, dy) = choose|dx: int, dy: int|
                                -1 <= dx <= 1 && -1 <= dy <= 1 && objs2 == spec_move_by(
                                    g,
                                    objs1,
                                    id,
                                    dx,
                                    dy,
                                );
                            crate::world::lemma_blocked_ignores_ai(
                                g,
                                objs0,
                                objs1,
                                m.x + dx,
                                m.y + dy,
                            );
                            assert(objs1[id].x == m.x && objs1[id].y == m.y);
                            if !spec_blocked(g, objs0, m.x + dx, m.y + dy) {
                                assert(fin =~= with_ai(
                                    spec_move_by(g, objs0, id, dx, dy),
                                    id,
                                    fin[id].ai,
                                ));
                            } else {
                                assert(objs2 == objs1);
                                assert(spec_move_by(g, objs0, id, dx, dy) == objs0);
                                assert(fin =~= with_ai(
                                    spec_move_by(g, objs0, id, dx, dy),
                                    id,
                                    fin[id].ai,
                                ));
                            }
                            assert(confused_step_rel(g, objs0, fin, id));
                            assert(m1 == m0);
                        } else {
                            assert(objs2 == objs1);
                            assert(fin =~= with_ai(objs0, id, fin[id].ai));
                        }
                    },
                }
                assert(ai_turn_rel(fov, g, objs0, fin, m0, m1, id));
            }
        },
        None => {
            proof {
                assert(final(game_objects)@ =~= old(game_objects)@);
            }
        },
    }
}

/// What the AI phase leaves behind: entities without behavior are
/// untouched, every behavior-bearing entity has its behavior advanced by
/// exactly one step of the state machine and has at most moved, the
/// player may have lost hit points but never moves, the log only grows
/// and gains each expiring entity's recovery announcement — and, through
/// the turn-by-turn chain, every entity's whole turn is pinned by the
/// per-turn relation.
pub open spec fn ai_phase_rel(
    fov: &Fov,
    g: &crate::tile::Grid,
    objs0: Seq<GameObject>,
    objs1: Seq<GameObject>,
    m0: Seq<(String, Color)>,
    m1: Seq<(String, Color)>,
) -> bool {
    &&& objs1.len() == objs0.len()
    &&& log_extended(m0, m1)
    &&& forall|j: int| 1 <= j < objs0.len() && objs0[j].ai is None ==> objs1[j] == objs0[j]
    &&& forall|j: int|
        0 <= j < objs0.len() && objs0[j].ai is Some ==> {
            &&& (#[trigger] objs1[j]).ai == Some(ai_next(objs0[j].ai->0))
            &&& same_but_moved(objs0[j], objs1[j])
        }
    &&& objs1[PLAYER as int].x == objs0[PLAYER as int].x
    &&& objs1[PLAYER as int].y == objs0[PLAYER as int].y
    &&& objs1[PLAYER as int].item == objs0[PLAYER as int].item
    &&& forall|j: int|
        0 <= j < objs0.len() && (#[trigger] objs0[j]).ai is Some && objs0[j].ai->0 is Confused
            && objs0[j].ai->0->num_turns < 0 ==> log_contains_from(
            m1,
            m0.len() as int,
            objs0[j].name@ + " is no longer confused"@,
            white(),
        )
    &&& exists|ws: Seq<Seq<GameObject>>, ms: Seq<Seq<(String, Color)>>|
        #[trigger] ai_phase_chain(fov, g, objs0, objs1, m0, m1, ws, ms)
}

/// The phase decomposed turn by turn: a chain of intermediate worlds
/// and logs, starting at the entry state and ending at the final one,
/// in which entity `i`'s turn relates the `i`-th world to the next by
/// the full per-turn relation — so every behavior-bearing entity is
/// forced to act exactly once, in ascending index order, over the
/// entity set as it evolves.
pub open spec fn ai_phase_chain(
    fov: &Fov,
    g: &crate::tile::Grid,
    objs0: Seq<GameObject>,
    objs1: Seq<GameObject>,
    m0: Seq<(String, Color)>,
    m1: Seq<(String, Color)>,
    ws: Seq<Seq<GameObject>>,
    ms: Seq<Seq<(String, Color)>>,
) -> bool {
    &&& ws.len() == objs0.len() + 1
    &&& ms.len() == objs0.len() + 1
    &&& ws[0] == objs0
    &&& ms[0] == m0
    &&& ws[ws.len() - 1] == objs1
    &&& ms[ms.len() - 1] == m1
    &&& forall|i: int|
        0 <= i < objs0.len() ==> ai_turn_rel(fov, g, #[trigger] ws[i], ws[i + 1], ms[i], ms[i + 1], i)
}

/// The AI phase of one turn: every behavior-bearing entity acts once, in
/// ascending collection-index order, over the entity set as it evolves;
/// entities without behavior are untouched, and the player can lose hit
/// points but never moves.
pub fn run_ai_turns(fov: &Fov, game: &mut Game, game_objects: &mut Vec<GameObject>, rng: &mut
    RandomSource)
    requires
        fov_wf(fov),
        world_wf(&old(game).map, old(game_objects)@),
    ensures
        final(game).map == old(game).map,
        final(game).inventory == old(game).inventory,
        world_wf(&old(game).map, final(game_objects)@),
        ai_phase_rel(
            fov,
            &old(game).map,
            old(game_objects)@,
            final(game_objects)@,
            old(game).messages@,
            final(game).messages@,
        ),
{
    let n = game_objects.len();
    let ghost mut ws: Seq<Seq<GameObject>> = seq![old(game_objects)@];
    let ghost mut ms: Seq<Seq<(String, Color)>> = seq![old(game).messages@];
    let mut id: usize = 0;
    while id < n
        invariant
            0 <= id <= n,
            n == old(game_objects)@.len(),
            fov_wf(fov),
            game.map == old(game).map,
            game.inventory == old(game).inventory,
            world_wf(&old(game).map, game_objects@),
            game_objects@.len() == n,
            old(game_objects)@[PLAYER as int].ai is None,
            log_extended(old(game).messages@, game.messages@),
            forall|j: int|
                1 <= j < n && old(game_objects)@[j].ai is None && j >= id
                    ==> game_objects@[j] == old(game_objects)@[j],
            forall|j: int|
                1 <= j < n && old(game_objects)@[j].ai is None
                    ==> game_objects@[j] == old(game_objects)@[j],
            forall|j: int| id <= j < n && j >= 1 ==> game_objects@[j] == old(game_objects)@[j],
            forall|j: int|
                0 <= j < id && old(game_objects)@[j].ai is Some ==> {
                    &&& (#[trigger] game_objects@[j]).ai == Some(
                        ai_next(old(game_objects)@[j].ai->0),
                    )
                    &&& same_but_moved(old(game_objects)@[j], game_objects@[j])
                },
            game_objects@[PLAYER as int].x == old(game_objects)@[PLAYER as int].x,
            game_objects@[PLAYER as int].y == old(game_objects)@[PLAYER as int].y,
            game_objects@[PLAYER as int].item == old(game_objects)@[PLAYER as int].item,
            forall|j: int|
                0 <= j < id && (#[trigger] old(game_objects)@[j]).ai is Some && old(
                    game_objects,
                )@[j].ai->0 is Confused && old(game_objects)@[j].ai->0->num_turns < 0
                    ==> log_contains_from(
                    game.messages@,
                    old(game).messages@.len() as int,
                    old(game_objects)@[j].name@ + " is no longer confused"@,
                    white(),
                ),
            ws.len() == id + 1,
            ms.len() == id + 1,
            ws[0] == old(game_objects)@,
            ms[0] == old(game).messages@,
            ws[id as int] == game_objects@,
            ms[id as int] == game.messages@,
            forall|i: int|
                0 <= i < id ==> ai_turn_rel(
                    fov,
                    &old(game).map,
                    #[trigger] ws[i],
                    ws[i + 1],
                    ms[i],
                    ms[i + 1],
                    i,
                ),
        decreases n - id,
    {
        let ghost pre = game_objects@;
        let ghost m_pre = game.messages@;
        let has_ai = game_objects[id].ai.is_some();
        if has_ai {
            ai_take_turn(id, fov, game, game_objects, rng);
        }
        proof {
            if has_ai {
                lemma_log_extended_trans(old(game).messages@, m_pre, game.messages@);
            }
            assert forall|j: int| id + 1 <= j < n && j >= 1 implies game_objects@[j] == old(
                game_objects,
            )@[j] by {
                assert(game_objects@[j] == pre[j]);
            }
            assert forall|j: int| 1 <= j < id + 1 && j != id implies game_objects@[j] == pre[j] by {
            }
            if has_ai {
                assert(pre[id as int] == old(game_objects)@[id as int]);
                assert(pre[id as int].ai is Some);
                assert(game_objects@[id as int].ai == Some(
                    ai_next(old(game_objects)@[id as int].ai->0),
                ));
                assert(same_but_moved(old(game_objects)@[id as int], game_objects@[id as int]));
            }
            assert forall|j: int|
                0 <= j < id + 1 && (#[trigger] old(game_objects)@[j]).ai is Some && old(
                    game_objects,
                )@[j].ai->0 is Confused && old(game_objects)@[j].ai->0->num_turns < 0 implies
                log_contains_from(
                game.messages@,
                old(game).messages@.len() as int,
                old(game_objects)@[j].name@ + " is no longer confused"@,
                white(),
            ) by {
                let text = old(game_objects)@[j].name@ + " is no longer confused"@;
                if j < id {
                    let idx = choose|idx: int|
                        old(game).messages@.len() <= idx < m_pre.len() && m_pre[idx].0@ == text
                            && m_pre[idx].1 == white();
                    assert(game.messages@[idx] == m_pre[idx]);
                } else {
                    assert(pre[id as int] == old(game_objects)@[id as int]);
                    assert(game.messages@[m_pre.len() as int] == game.messages@.last());
                }
            }
            assert(ai_turn_rel(
                fov,
                &old(game).map,
                pre,
                game_objects@,
                m_pre,
                game.messages@,
                id as int,
            )) by {
                if !has_ai {
                    assert(game_objects@ =~= pre);
                }
            }
            ws = ws.push(game_objects@);
            ms = ms.push(game.messages@);
        }
        id += 1;
    }
    proof {
        assert(ai_phase_chain(
            fov,
            &old(game).map,
            old(game_objects)@,
            game_objects@,
            old(game).messages@,
            game.messages@,
            ws,
            ms,
        ));
    }
}

} // verus!
