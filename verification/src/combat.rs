//! The combat resolver: damage computation and application, and the
//! death behaviors it triggers.
use vstd::prelude::*;
use vstd::string::StringExecFns;

use crate::color::dark_red;
use crate::color::orange;
use crate::color::red;
use crate::color::white;
use crate::color::Color;
use crate::messages::appended;
use crate::messages::appended2;
use crate::messages::lemma_appended_twice;
use crate::object::DeathCallback;
use crate::object::Fighter;
use crate::object::GameObject;
use crate::object::obj_state_wf;
use crate::text::dec_digits;
use crate::text::dec_string;
use crate::world::Game;

verus! {

/// The entity after the raw hit-point subtraction: only a positive
/// amount is ever subtracted, and only from an entity with a fighter.
pub open spec fn spec_damaged(o: GameObject, damage: i32) -> GameObject {
    if o.fighter is Some && damage > 0 {
        GameObject {
            fighter: Some(
                Fighter { hp: (o.fighter->0.hp - damage) as i32, ..o.fighter->0 },
            ),
            ..o
        }
    } else {
        o
    }
}

/// Applying `damage` to `o` makes its death behavior fire: the entity is
/// still alive and the subtraction leaves its hit points at or below
/// zero. This is the hp-crossing-zero transition that guards the death
/// behavior, so it can fire at most once per entity.
pub open spec fn spec_dies(o: GameObject, damage: i32) -> bool {
    let m = spec_damaged(o, damage);
    m.is_alive && m.fighter is Some && m.fighter->0.hp <= 0
}

/// The player's death behavior: re-glyph to `'%'`, recolor dark red;
/// the fighter and name are kept.
pub open spec fn spec_player_death(o: GameObject) -> GameObject {
    GameObject { glyph: '%', color: dark_red(), ..o }
}

/// The monster's death behavior: re-glyph, recolor, stop blocking, drop
/// the fighter and behavior capabilities, and take a "remains of" name —
/// permanently inert scenery from here on.
pub open spec fn monster_death_rel(o: GameObject, n: GameObject) -> bool {
    &&& n.x == o.x && n.y == o.y
    &&& n.glyph == '%'
    &&& n.color == dark_red()
    &&& n.name@ == "remains of "@ + o.name@
    &&& !n.blocks
    &&& n.is_alive == o.is_alive
    &&& n.fighter is None
    &&& n.ai is None
    &&& n.item == o.item
}

/// The message a death behavior emits.
pub open spec fn death_msg(o: GameObject) -> Seq<char> {
    match o.fighter->0.on_death {
        DeathCallback::Player => "You died!"@,
        DeathCallback::Monster => o.name@ + " is dead !"@,
    }
}

/// The color of the message a death behavior emits.
pub open spec fn death_msg_color(o: GameObject) -> Color {
    match o.fighter->0.on_death {
        DeathCallback::Player => red(),
        DeathCallback::Monster => orange(),
    }
}

/// Full effect of one damage application on the entity: the subtraction,
/// followed by exactly one death behavior if this application crossed
/// zero.
pub open spec fn take_damage_rel(o: GameObject, damage: i32, n: GameObject) -> bool {
    let m = spec_damaged(o, damage);
    if spec_dies(o, damage) {
        match m.fighter->0.on_death {
            DeathCallback::Player => n == spec_player_death(
                GameObject { is_alive: false, ..m },
            ),
            DeathCallback::Monster => monster_death_rel(GameObject { is_alive: false, ..m }, n),
        }
    } else {
        n == m
    }
}

/// Effect of one damage application on the message log: exactly the
/// death message when the death behavior fires, nothing otherwise.
pub open spec fn take_damage_msgs_rel(
    o: GameObject,
    damage: i32,
    m1: Seq<(String, Color)>,
    m2: Seq<(String, Color)>,
) -> bool {
    if spec_dies(o, damage) {
        appended(m1, m2, death_msg(spec_damaged(o, damage)), death_msg_color(spec_damaged(o, damage)))
    } else {
        m2 == m1
    }
}

/// Handles the player's death: emit the message and turn the glyph into
/// a corpse.
pub fn player_death(player: &mut GameObject, game: &mut Game)
    ensures
        *final(player) == spec_player_death(*old(player)),
        appended(old(game).messages@, final(game).messages@, "You died!"@, red()),
        final(game).map == old(game).map,
        final(game).inventory == old(game).inventory,
{
    game.messages.add("You died!".to_owned(), Color::rgb(255, 0, 0));
    player.glyph = '%';
    player.color = Color::rgb(191, 0, 0);
}

/// Handles a monster's death: emit the message, then strip the monster
/// down to inert scenery under a "remains of" name.
pub fn monster_death(monster: &mut GameObject, game: &mut Game)
    ensures
        monster_death_rel(*old(monster), *final(monster)),
        appended(
            old(game).messages@,
            final(game).messages@,
            old(monster).name@ + " is dead !"@,
            orange(),
        ),
        final(game).map == old(game).map,
        final(game).inventory == old(game).inventory,
{
    let msg = monster.name.clone().concat(" is dead !");
    game.messages.add(msg, Color::rgb(255, 127, 0));
    monster.glyph = '%';
    monster.color = Color::rgb(191, 0, 0);
    monster.blocks = false;
    monster.fighter = None;
    monster.ai = None;
    let new_name = String::from_str("remains of ").concat(monster.name.as_str());
    monster.name = new_name;
}

impl DeathCallback {
    /// Runs the death behavior selected by this tag.
    pub fn callback(self, game_object: &mut GameObject, game: &mut Game)
        ensures
            final(game).map == old(game).map,
            final(game).inventory == old(game).inventory,
            match self {
                DeathCallback::Player => {
                    &&& *final(game_object) == spec_player_death(*old(game_object))
                    &&& appended(
                        old(game).messages@,
                        final(game).messages@,
                        "You died!"@,
                        red(),
                    )
                },
                DeathCallback::Monster => {
                    &&& monster_death_rel(*old(game_object), *final(game_object))
                    &&& appended(
                        old(game).messages@,
                        final(game).messages@,
                        old(game_object).name@ + " is dead !"@,
                        orange(),
                    )
                },
            },
    {
        match self {
            DeathCallback::Player => player_death(game_object, game),
            DeathCallback::Monster => monster_death(game_object, game),
        }
    }
}

impl GameObject {
    /// Applies `damage` to this entity: a positive amount is subtracted
    /// from its hit points, and if that drops them to zero or below
    /// while the entity is alive, it dies and its death behavior runs —
    /// exactly once, guarded by the hp-crossing-zero transition.
    pub fn take_damage(&mut self, damage: i32, game: &mut Game)
        requires
            old(self).fighter is Some && damage > 0 ==> old(self).fighter->0.hp - damage
                >= i32::MIN,
        ensures
            take_damage_rel(*old(self), damage, *final(self)),
            take_damage_msgs_rel(
                *old(self),
                damage,
                old(game).messages@,
                final(game).messages@,
            ),
            final(game).map == old(game).map,
            final(game).inventory == old(game).inventory,
    {
        match &mut self.fighter {
            Some(f) => {
                if damage > 0 {
                    f.hp = f.hp - damage;
                }
            },
            None => {},
        }
        let mut dies = false;
        match &self.fighter {
            Some(f) => {
                if f.hp <= 0 && self.is_alive {
                    dies = true;
                }
            },
            None => {},
        }
        if dies {
            self.is_alive = false;
            let cb = self.fighter.unwrap().on_death;
            cb.callback(self, game);
        }
    }

    /// Attacks the target: damage is the attacker's power minus the
    /// target's defense; a positive amount is announced and applied,
    /// anything else is announced as having no effect and applies
    /// nothing.
    pub fn attack(&mut self, target: &mut GameObject, game: &mut Game)
        requires
            i32::MIN <= spec_attack_damage(*old(self), *old(target)) <= i32::MAX,
            ({
                let d = spec_attack_damage(*old(self), *old(target));
                d > 0 && old(target).fighter is Some ==> old(target).fighter->0.hp - d
                    >= i32::MIN
            }),
        ensures
            *final(self) == *old(self),
            final(game).map == old(game).map,
            final(game).inventory == old(game).inventory,
            attack_post(
                *old(self),
                *old(target),
                *final(target),
                old(game).messages@,
                final(game).messages@,
            ),
    {
        let power = match &self.fighter {
            Some(f) => f.power,
            None => 0,
        };
        let defense = match &target.fighter {
            Some(f) => f.defense,
            None => 0,
        };
        let damage = power - defense;
        if damage > 0 {
            let ghost m1 = game.messages@;
            let msg = self.name.clone().concat(" attacks ").concat(target.name.as_str()).concat(
                " for ",
            ).concat(dec_string(damage).as_str()).concat(" hp.");
            proof {
                assert(msg@ =~= attack_msg(self.name@, target.name@, damage as int));
            }
            game.messages.add(msg, Color::rgb(255, 255, 255));
            let ghost m2 = game.messages@;
            target.take_damage(damage, game);
            proof {
                if spec_dies(*old(target), damage) {
                    lemma_appended_twice(
                        m1,
                        m2,
                        final(game).messages@,
                        attack_msg(old(self).name@, old(target).name@, damage as int),
                        white(),
                        death_msg(spec_damaged(*old(target), damage)),
                        death_msg_color(spec_damaged(*old(target), damage)),
                    );
                }
            }
        } else {
            let msg = self.name.clone().concat(" attacks ").concat(target.name.as_str()).concat(
                ", but it has no effect!",
            );
            proof {
                assert(msg@ =~= no_effect_msg(self.name@, target.name@));
            }
            game.messages.add(msg, Color::rgb(255, 255, 255));
        }
    }

    /// Restores `amount` hit points, capped at the maximum; an entity
    /// without a fighter is left unchanged.
    pub fn heal(&mut self, amount: i32)
        requires
            old(self).fighter is Some ==> i32::MIN <= old(self).fighter->0.hp + amount
                <= i32::MAX,
        ensures
            *final(self) == spec_healed(*old(self), amount),
    {
        match &mut self.fighter {
            Some(f) => {
                f.hp = f.hp + amount;
                if f.hp > f.max_hp {
                    f.hp = f.max_hp;
                }
            },
            None => {},
        }
    }
}

/// Full effect of `a` attacking `t` on the target and on the message
/// log: positive damage is announced and applied (with the death message
/// if the target dies of it); otherwise the attack is announced as
/// having no effect and nothing is applied.
pub open spec fn attack_post(
    a: GameObject,
    t: GameObject,
    t1: GameObject,
    m0: Seq<(String, Color)>,
    m1: Seq<(String, Color)>,
) -> bool {
    let d = spec_attack_damage(a, t);
    if d > 0 {
        &&& take_damage_rel(t, d as i32, t1)
        &&& if spec_dies(t, d as i32) {
            appended2(
                m0,
                m1,
                attack_msg(a.name@, t.name@, d),
                white(),
                death_msg(spec_damaged(t, d as i32)),
                death_msg_color(spec_damaged(t, d as i32)),
            )
        } else {
            appended(m0, m1, attack_msg(a.name@, t.name@, d), white())
        }
    } else {
        &&& t1 == t
        &&& appended(m0, m1, no_effect_msg(a.name@, t.name@), white())
    }
}

/// The damage an attack by `a` deals to `t`: attacker power minus target
/// defense, a missing fighter counting as zero on either side.
pub open spec fn spec_attack_damage(a: GameObject, t: GameObject) -> int {
    (if a.fighter is Some {
        a.fighter->0.power as int
    } else {
        0
    }) - (if t.fighter is Some {
        t.fighter->0.defense as int
    } else {
        0
    })
}

/// The message announcing a damaging attack.
pub open spec fn attack_msg(a_name: Seq<char>, t_name: Seq<char>, d: int) -> Seq<char> {
    a_name + " attacks "@ + t_name + " for "@ + dec_digits(d) + " hp."@
}

/// The message announcing an attack without effect.
pub open spec fn no_effect_msg(a_name: Seq<char>, t_name: Seq<char>) -> Seq<char> {
    a_name + " attacks "@ + t_name + ", but it has no effect!"@
}

/// The entity after healing: hit points rise by `amount`, capped at the
/// maximum.
pub open spec fn spec_healed(o: GameObject, amount: i32) -> GameObject {
    if o.fighter is Some {
        let raw = o.fighter->0.hp + amount;
        let hp = if raw > o.fighter->0.max_hp {
            o.fighter->0.max_hp as int
        } else {
            raw
        };
        GameObject { fighter: Some(Fighter { hp: hp as i32, ..o.fighter->0 }), ..o }
    } else {
        o
    }
}

/// One damage application preserves the entity's state invariant and
/// never moves it.
pub proof fn lemma_take_damage_preserves_state_wf(o: GameObject, d: i32, n: GameObject)
    requires
        obj_state_wf(o),
        take_damage_rel(o, d, n),
        o.fighter is Some && d > 0 ==> o.fighter->0.hp - d >= i32::MIN,
    ensures
        obj_state_wf(n),
        n.x == o.x,
        n.y == o.y,
        n.item == o.item,
{
    let m = spec_damaged(o, d);
    if spec_dies(o, d) {
        match m.fighter->0.on_death {
            DeathCallback::Player => {
                assert(o.ai is None);
                assert(n == spec_player_death(GameObject { is_alive: false, ..m }));
            },
            DeathCallback::Monster => {
                assert(monster_death_rel(GameObject { is_alive: false, ..m }, n));
            },
        }
    } else {
        assert(n == m);
    }
}

/// Healing preserves the entity's state invariant and never moves it.
pub proof fn lemma_heal_preserves_state_wf(o: GameObject, amount: i32, n: GameObject)
    requires
        obj_state_wf(o),
        amount >= 0,
        n == spec_healed(o, amount),
    ensures
        obj_state_wf(n),
        n.x == o.x,
        n.y == o.y,
{
}

/// Damage application is idempotent in sign: a non-positive amount
/// changes nothing at all on a well-formed entity — in particular it
/// never changes hit points.
pub proof fn lemma_nonpositive_damage_is_noop(o: GameObject, damage: i32, n: GameObject)
    requires
        damage <= 0,
        obj_state_wf(o),
        take_damage_rel(o, damage, n),
    ensures
        n == o,
{
}

/// A death behavior fires exactly once: once an application of damage
/// has made an entity die, no later damage application can make it die
/// again — repeated `take_damage` calls after its hit points dropped to
/// zero or below never re-trigger the behavior.
pub proof fn lemma_death_fires_once(o: GameObject, d1: i32, n: GameObject, d2: i32)
    requires
        take_damage_rel(o, d1, n),
        spec_dies(o, d1),
    ensures
        !spec_dies(n, d2),
{
}

} // verus!
