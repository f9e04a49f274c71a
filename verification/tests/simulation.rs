use rogue_core::color::Color;
use rogue_core::engine::{advance_turn, get_names_at, handle_command, player_move_or_attack, Command, PlayerAction};
use rogue_core::fov::Fov;
use rogue_core::items::{cast_heal, cast_lightning, cast_confusion, pick_item_up, use_item, UseResult};
use rogue_core::ai::run_ai_turns;
use rogue_core::messages::Messages;
use rogue_core::object::{Ai, DeathCallback, Fighter, GameObject, Item};
use rogue_core::rng::RandomSource;
use rogue_core::tile::{explore, Grid, Tile};
use rogue_core::world::{is_blocked, move_game_object_by, move_game_object_toward, mut_two, Game};
use rogue_core::{MAP_HEIGHT, MAP_WIDTH, PLAYER};

fn open_grid() -> Grid {
    let mut grid: Grid = Vec::new();
    for x in 0..MAP_WIDTH {
        let mut column = Vec::new();
        for y in 0..MAP_HEIGHT {
            let border = x == 0 || x == MAP_WIDTH - 1 || y == 0 || y == MAP_HEIGHT - 1;
            column.push(if border { Tile::wall() } else { Tile::empty() });
        }
        grid.push(column);
    }
    grid
}

fn game_with(grid: Grid) -> Game {
    Game { map: grid, messages: Messages::new(), inventory: Vec::new() }
}

fn player_at(x: i32, y: i32) -> GameObject {
    let mut player = GameObject::new(x, y, '@', Color::rgb(255, 255, 255), "player", true);
    player.is_alive = true;
    player.fighter = Some(Fighter {
        max_hp: 30,
        hp: 30,
        defense: 2,
        power: 5,
        on_death: DeathCallback::Player,
    });
    player
}

fn orc_at(x: i32, y: i32) -> GameObject {
    let mut orc = GameObject::new(x, y, 'o', Color::rgb(63, 127, 63), "orc", true);
    orc.is_alive = true;
    orc.fighter = Some(Fighter {
        max_hp: 10,
        hp: 10,
        defense: 0,
        power: 3,
        on_death: DeathCallback::Monster,
    });
    orc.ai = Some(Ai::Basic);
    orc
}

fn potion_at(x: i32, y: i32) -> GameObject {
    let mut potion =
        GameObject::new(x, y, '!', Color::rgb(127, 0, 255), "healing potion", false);
    potion.item = Some(Item::Heal);
    potion
}

#[test]
fn move_by_never_enters_a_wall() {
    let grid = open_grid();
    let mut objects = vec![player_at(1, 1)];
    // Up and left lead into the border wall: the move is silently dropped.
    move_game_object_by(0, 0, -1, &grid, &mut objects);
    assert_eq!((objects[0].x, objects[0].y), (1, 1));
    move_game_object_by(0, -1, 0, &grid, &mut objects);
    assert_eq!((objects[0].x, objects[0].y), (1, 1));
    // An open tile is entered.
    move_game_object_by(0, 1, 0, &grid, &mut objects);
    assert_eq!((objects[0].x, objects[0].y), (2, 1));
}

#[test]
fn move_by_never_enters_a_blocking_entity() {
    let grid = open_grid();
    let mut objects = vec![player_at(5, 5), orc_at(6, 5), potion_at(5, 6)];
    // The orc blocks its tile.
    move_game_object_by(0, 1, 0, &grid, &mut objects);
    assert_eq!((objects[0].x, objects[0].y), (5, 5));
    // The potion does not block: the player steps onto it.
    move_game_object_by(0, 0, 1, &grid, &mut objects);
    assert_eq!((objects[0].x, objects[0].y), (5, 6));
    assert!(is_blocked(6, 5, &grid, &objects));
    assert!(!is_blocked(7, 5, &grid, &objects));
}

#[test]
fn move_toward_takes_one_rounded_unit_step() {
    let grid = open_grid();
    let mut objects = vec![orc_at(1, 1)];
    // Toward (4, 5): the normalized step rounds to (1, 1).
    move_game_object_toward(0, 4, 5, &grid, &mut objects);
    assert_eq!((objects[0].x, objects[0].y), (2, 2));
    // Toward (12, 2): the vertical share of the distance rounds to 0.
    let mut objects = vec![orc_at(2, 2)];
    move_game_object_toward(0, 12, 2, &grid, &mut objects);
    assert_eq!((objects[0].x, objects[0].y), (3, 2));
    // Toward the entity's own position: it stays put.
    let mut objects = vec![orc_at(3, 3)];
    move_game_object_toward(0, 3, 3, &grid, &mut objects);
    assert_eq!((objects[0].x, objects[0].y), (3, 3));
}

#[test]
fn nonpositive_damage_never_changes_hp() {
    let mut game = game_with(open_grid());
    let mut orc = orc_at(4, 4);
    orc.take_damage(0, &mut game);
    assert_eq!(orc.fighter.unwrap().hp, 10);
    orc.take_damage(-7, &mut game);
    assert_eq!(orc.fighter.unwrap().hp, 10);
    assert!(orc.is_alive);
    assert_eq!(game.messages.iter().len(), 0);
}

#[test]
fn death_behavior_fires_exactly_once() {
    let mut game = game_with(open_grid());
    let mut orc = orc_at(4, 4);
    orc.take_damage(12, &mut game);
    assert!(!orc.is_alive);
    assert!(orc.fighter.is_none());
    assert!(orc.ai.is_none());
    assert!(!orc.blocks);
    assert_eq!(orc.name, "remains of orc");
    assert_eq!(orc.glyph, '%');
    let messages_after_death = game.messages.iter().len();
    assert_eq!(messages_after_death, 1);
    assert_eq!(game.messages.iter()[0].0, "orc is dead !");
    // Further damage finds no fighter: nothing re-triggers.
    orc.take_damage(12, &mut game);
    assert_eq!(orc.name, "remains of orc");
    assert_eq!(game.messages.iter().len(), messages_after_death);
}

#[test]
fn attack_applies_power_minus_defense() {
    let mut game = game_with(open_grid());
    let mut attacker = player_at(5, 5);
    let mut defender = player_at(6, 5);
    defender.name = "sparring partner".to_string();
    // power 5 against defense 2 costs exactly 3 of the 30 hit points.
    attacker.attack(&mut defender, &mut game);
    assert_eq!(defender.fighter.unwrap().hp, 27);
    assert!(defender.is_alive);
    let log = game.messages.iter();
    assert_eq!(log.len(), 1);
    assert_eq!(log[0].0, "player attacks sparring partner for 3 hp.");
}

#[test]
fn attack_without_net_damage_has_no_effect() {
    let mut game = game_with(open_grid());
    let mut attacker = orc_at(5, 5);
    let mut defender = player_at(6, 5);
    // power 3 against defense 5 has no effect.
    defender.fighter = Some(Fighter {
        max_hp: 30,
        hp: 30,
        defense: 5,
        power: 5,
        on_death: DeathCallback::Player,
    });
    attacker.attack(&mut defender, &mut game);
    assert_eq!(defender.fighter.unwrap().hp, 30);
    let log = game.messages.iter();
    assert_eq!(log[0].0, "orc attacks player, but it has no effect!");
}

#[test]
fn heal_is_refused_at_full_health_and_capped_below_it() {
    let mut game = game_with(open_grid());
    let mut objects = vec![player_at(5, 5)];
    // Full health: cancelled, unchanged.
    let r = cast_heal(0, &mut game, &mut objects);
    assert_eq!(r, UseResult::Cancelled);
    assert_eq!(objects[PLAYER].fighter.unwrap().hp, 30);
    assert_eq!(game.messages.iter().last().unwrap().0, "You are already at full health.");
    // 10 of 30: the fixed amount of 4 is restored.
    objects[PLAYER].fighter.as_mut().unwrap().hp = 10;
    let r = cast_heal(0, &mut game, &mut objects);
    assert_eq!(r, UseResult::UsedUp);
    assert_eq!(objects[PLAYER].fighter.unwrap().hp, 14);
    // 28 of 30: healing is capped at the maximum.
    objects[PLAYER].fighter.as_mut().unwrap().hp = 28;
    let r = cast_heal(0, &mut game, &mut objects);
    assert_eq!(r, UseResult::UsedUp);
    assert_eq!(objects[PLAYER].fighter.unwrap().hp, 30);
}

#[test]
fn lightning_without_visible_target_changes_nothing() {
    let mut game = game_with(open_grid());
    let mut objects = vec![player_at(5, 5), orc_at(7, 5)];
    let fov = Fov::uniform(false);
    let r = cast_lightning(0, &fov, &mut game, &mut objects);
    assert_eq!(r, UseResult::Cancelled);
    assert_eq!(objects[0].fighter.unwrap().hp, 30);
    assert_eq!(objects[1].fighter.unwrap().hp, 10);
    assert_eq!(game.messages.iter().last().unwrap().0, "There is no enemy to strike.");
}

#[test]
fn lightning_strikes_the_closest_visible_enemy() {
    let mut game = game_with(open_grid());
    let mut objects = vec![player_at(5, 5), orc_at(9, 5), orc_at(7, 5)];
    let fov = Fov::uniform(true);
    let r = cast_lightning(0, &fov, &mut game, &mut objects);
    assert_eq!(r, UseResult::UsedUp);
    // The closer orc (index 2) takes the full 40 damage and dies of it.
    assert_eq!(objects[2].name, "remains of orc");
    assert!(objects[2].fighter.is_none());
    // The farther orc is untouched.
    assert_eq!(objects[1].fighter.unwrap().hp, 10);
    let log = game.messages.iter();
    assert_eq!(
        log[0].0,
        "A lightning bolt strikes the orc and damaged it 40 hit points!"
    );
    assert_eq!(log[1].0, "orc is dead !");
}

#[test]
fn lightning_ignores_targets_at_or_beyond_its_range() {
    let mut game = game_with(open_grid());
    // Distance 7 exceeds the lightning range of 5.
    let mut objects = vec![player_at(5, 5), orc_at(12, 5)];
    let fov = Fov::uniform(true);
    let r = cast_lightning(0, &fov, &mut game, &mut objects);
    assert_eq!(r, UseResult::Cancelled);
    assert_eq!(objects[1].fighter.unwrap().hp, 10);
    // Distance exactly 5 is not strictly below the bound either:
    // nothing at or beyond max range is ever selected.
    let mut objects = vec![player_at(5, 5), orc_at(10, 5)];
    let r = cast_lightning(0, &fov, &mut game, &mut objects);
    assert_eq!(r, UseResult::Cancelled);
    assert_eq!(objects[1].fighter.unwrap().hp, 10);
    // One tile closer, the bolt lands.
    let mut objects = vec![player_at(5, 5), orc_at(9, 5)];
    let r = cast_lightning(0, &fov, &mut game, &mut objects);
    assert_eq!(r, UseResult::UsedUp);
    assert!(objects[1].fighter.is_none());
}

#[test]
fn confusion_round_trip_restores_the_prior_behavior() {
    let mut game = game_with(open_grid());
    let mut objects = vec![player_at(5, 5), orc_at(7, 5)];
    let all_visible = Fov::uniform(true);
    let r = cast_confusion(0, &all_visible, &mut game, &mut objects);
    assert_eq!(r, UseResult::UsedUp);
    match objects[1].ai.as_ref().unwrap() {
        Ai::Confused { previous_ai, num_turns } => {
            assert_eq!(**previous_ai, Ai::Basic);
            assert_eq!(*num_turns, rogue_core::CONFUSE_TURN_COUNT);
        }
        other => panic!("expected a confusion wrapper, found {:?}", other),
    }
    // The monster wanders while its counter runs from 10 down past 0; the
    // wrapper survives the eleventh AI phase and falls off on the twelfth.
    let none_visible = Fov::uniform(false);
    let mut rng = RandomSource::new();
    for _ in 0..11 {
        run_ai_turns(&none_visible, &mut game, &mut objects, &mut rng);
        assert!(matches!(objects[1].ai, Some(Ai::Confused { .. })));
    }
    run_ai_turns(&none_visible, &mut game, &mut objects, &mut rng);
    assert_eq!(objects[1].ai, Some(Ai::Basic));
    assert_eq!(game.messages.iter().last().unwrap().0, "orc is no longer confused");
}

#[test]
fn full_inventory_rejects_a_tenth_pickup() {
    let mut game = game_with(open_grid());
    for _ in 0..9 {
        game.inventory.push(potion_at(0, 0));
    }
    let mut objects = vec![player_at(5, 5), potion_at(5, 5)];
    pick_item_up(1, &mut game, &mut objects);
    // The item entity stays in the world and the inventory stays at 9.
    assert_eq!(objects.len(), 2);
    assert_eq!(objects[1].name, "healing potion");
    assert_eq!(game.inventory.len(), 9);
    assert_eq!(
        game.messages.iter().last().unwrap().0,
        "Cannot pickup healing potion, inventory is full!"
    );
}

#[test]
fn pickup_moves_the_item_into_the_inventory() {
    let mut game = game_with(open_grid());
    let mut objects = vec![player_at(5, 5), potion_at(5, 5)];
    pick_item_up(1, &mut game, &mut objects);
    assert_eq!(objects.len(), 1);
    assert_eq!(game.inventory.len(), 1);
    assert_eq!(game.inventory[0].name, "healing potion");
    assert_eq!(game.messages.iter().last().unwrap().0, "You picked up healing potion");
}

#[test]
fn used_up_item_leaves_the_inventory_and_cancelled_stays() {
    let mut game = game_with(open_grid());
    let mut objects = vec![player_at(5, 5)];
    game.inventory.push(potion_at(0, 0));
    let fov = Fov::uniform(true);
    // At full health the potion is not consumed.
    let r = use_item(0, &fov, &mut game, &mut objects);
    assert_eq!(r, UseResult::Cancelled);
    assert_eq!(game.inventory.len(), 1);
    assert_eq!(game.messages.iter().last().unwrap().0, "Cancelled");
    // Wounded, it is consumed.
    objects[PLAYER].fighter.as_mut().unwrap().hp = 10;
    let r = use_item(0, &fov, &mut game, &mut objects);
    assert_eq!(r, UseResult::UsedUp);
    assert_eq!(game.inventory.len(), 0);
    assert_eq!(objects[PLAYER].fighter.unwrap().hp, 14);
}

#[test]
fn successful_item_use_consumes_the_turn() {
    let mut game = game_with(open_grid());
    let mut objects = vec![player_at(5, 5), orc_at(10, 5)];
    game.inventory.push(potion_at(0, 0));
    let fov = Fov::uniform(true);
    // A cancelled use (full health) does not consume the turn: the orc
    // stands still.
    let r = handle_command(Command::UseItem(0), &fov, &mut game, &mut objects);
    assert_eq!(r, PlayerAction::DidntTakeTurn);
    assert_eq!((objects[1].x, objects[1].y), (10, 5));
    // A successful use consumes the turn; the AI phase then runs.
    objects[PLAYER].fighter.as_mut().unwrap().hp = 10;
    let mut rng = RandomSource::new();
    let r = advance_turn(Command::UseItem(0), &fov, &mut game, &mut objects, &mut rng);
    assert_eq!(r, PlayerAction::TookTurn);
    assert_eq!(objects[PLAYER].fighter.unwrap().hp, 14);
    assert_eq!(game.inventory.len(), 0);
    assert_eq!((objects[1].x, objects[1].y), (9, 5));
}

#[test]
fn unusable_inventory_entry_is_reported() {
    let mut game = game_with(open_grid());
    let mut objects = vec![player_at(5, 5)];
    let mut oddity = potion_at(0, 0);
    oddity.name = "rock".to_string();
    oddity.item = None;
    game.inventory.push(oddity);
    let fov = Fov::uniform(true);
    let r = use_item(0, &fov, &mut game, &mut objects);
    assert_eq!(r, UseResult::Cancelled);
    assert_eq!(game.inventory.len(), 1);
    assert_eq!(game.messages.iter().last().unwrap().0, "The rock cannot be used");
}

#[test]
fn commands_resolve_and_classify_turns() {
    let mut game = game_with(open_grid());
    let mut objects = vec![player_at(1, 1)];
    let fov = Fov::uniform(true);
    // A move into the border wall still consumes the turn; position holds.
    let r = handle_command(Command::MoveUp, &fov, &mut game, &mut objects);
    assert_eq!(r, PlayerAction::TookTurn);
    assert_eq!((objects[0].x, objects[0].y), (1, 1));
    // A move into the open succeeds.
    let r = handle_command(Command::MoveRight, &fov, &mut game, &mut objects);
    assert_eq!(r, PlayerAction::TookTurn);
    assert_eq!((objects[0].x, objects[0].y), (2, 1));
    // Quitting and idling never consume a turn.
    assert_eq!(handle_command(Command::Exit, &fov, &mut game, &mut objects), PlayerAction::Exit);
    assert_eq!(
        handle_command(Command::Nothing, &fov, &mut game, &mut objects),
        PlayerAction::DidntTakeTurn
    );
    // A dead player can no longer act.
    objects[0].is_alive = false;
    let r = handle_command(Command::MoveDown, &fov, &mut game, &mut objects);
    assert_eq!(r, PlayerAction::DidntTakeTurn);
    assert_eq!((objects[0].x, objects[0].y), (2, 1));
}

#[test]
fn pick_up_command_takes_the_first_item_under_the_player() {
    let mut game = game_with(open_grid());
    let mut objects = vec![player_at(5, 5), potion_at(5, 5)];
    let fov = Fov::uniform(true);
    let r = handle_command(Command::PickUp, &fov, &mut game, &mut objects);
    assert_eq!(r, PlayerAction::DidntTakeTurn);
    assert_eq!(objects.len(), 1);
    assert_eq!(game.inventory.len(), 1);
    // With nothing underfoot the command is a quiet no-op.
    let before = game.messages.iter().len();
    let r = handle_command(Command::PickUp, &fov, &mut game, &mut objects);
    assert_eq!(r, PlayerAction::DidntTakeTurn);
    assert_eq!(game.messages.iter().len(), before);
}

#[test]
fn player_attacks_the_adjacent_monster_by_moving_into_it() {
    let mut game = game_with(open_grid());
    let mut objects = vec![player_at(5, 5), orc_at(6, 5)];
    player_move_or_attack(1, 0, &mut game, &mut objects);
    // power 5 against defense 0: the orc loses exactly 5 hit points.
    assert_eq!(objects[1].fighter.unwrap().hp, 5);
    assert_eq!((objects[0].x, objects[0].y), (5, 5));
    assert_eq!(game.messages.iter().last().unwrap().0, "player attacks orc for 5 hp.");
}

#[test]
fn basic_monster_chases_and_attacks_the_player() {
    let mut game = game_with(open_grid());
    let mut objects = vec![player_at(5, 5), orc_at(9, 5)];
    let fov = Fov::uniform(true);
    let mut rng = RandomSource::new();
    // Distance 4: the orc steps toward the player.
    run_ai_turns(&fov, &mut game, &mut objects, &mut rng);
    assert_eq!((objects[1].x, objects[1].y), (8, 5));
    run_ai_turns(&fov, &mut game, &mut objects, &mut rng);
    run_ai_turns(&fov, &mut game, &mut objects, &mut rng);
    assert_eq!((objects[1].x, objects[1].y), (6, 5));
    // Adjacent now: the orc attacks for power 3 against defense 2.
    run_ai_turns(&fov, &mut game, &mut objects, &mut rng);
    assert_eq!((objects[1].x, objects[1].y), (6, 5));
    assert_eq!(objects[0].fighter.unwrap().hp, 29);
    assert_eq!(game.messages.iter().last().unwrap().0, "orc attacks player for 1 hp.");
}

#[test]
fn monsters_act_only_after_a_turn_consuming_command() {
    let mut game = game_with(open_grid());
    let mut objects = vec![player_at(5, 5), orc_at(9, 5)];
    let fov = Fov::uniform(true);
    let mut rng = RandomSource::new();
    // Picking up over an empty tile consumes no turn: the orc stays.
    let r = advance_turn(Command::PickUp, &fov, &mut game, &mut objects, &mut rng);
    assert_eq!(r, PlayerAction::DidntTakeTurn);
    assert_eq!((objects[1].x, objects[1].y), (9, 5));
    // A move consumes the turn: the orc steps toward the player.
    let r = advance_turn(Command::MoveLeft, &fov, &mut game, &mut objects, &mut rng);
    assert_eq!(r, PlayerAction::TookTurn);
    assert_eq!((objects[0].x, objects[0].y), (4, 5));
    assert_eq!((objects[1].x, objects[1].y), (8, 5));
}

#[test]
fn every_monster_acts_once_per_phase_in_index_order() {
    let mut game = game_with(open_grid());
    let mut objects = vec![player_at(5, 5), orc_at(9, 5), orc_at(5, 9)];
    let fov = Fov::uniform(true);
    let mut rng = RandomSource::new();
    // One phase: both distant orcs take exactly one step toward the player.
    run_ai_turns(&fov, &mut game, &mut objects, &mut rng);
    assert_eq!((objects[1].x, objects[1].y), (8, 5));
    assert_eq!((objects[2].x, objects[2].y), (5, 8));
    assert_eq!(objects[0].fighter.unwrap().hp, 30);
}

#[test]
fn invisible_monster_stands_still() {
    let mut game = game_with(open_grid());
    let mut objects = vec![player_at(5, 5), orc_at(9, 5)];
    let fov = Fov::uniform(false);
    let mut rng = RandomSource::new();
    run_ai_turns(&fov, &mut game, &mut objects, &mut rng);
    assert_eq!((objects[1].x, objects[1].y), (9, 5));
    assert_eq!(objects[0].fighter.unwrap().hp, 30);
}

#[test]
fn names_under_a_tile_are_joined_in_order() {
    let mut objects = vec![player_at(5, 5), potion_at(5, 5), orc_at(6, 5)];
    objects[1].name = "ring".to_string();
    let fov = Fov::uniform(true);
    assert_eq!(get_names_at(5, 5, &fov, &objects), "player, ring");
    assert_eq!(get_names_at(6, 5, &fov, &objects), "orc");
    assert_eq!(get_names_at(7, 7, &fov, &objects), "");
    let fov = Fov::uniform(false);
    assert_eq!(get_names_at(5, 5, &fov, &objects), "");
}

#[test]
fn message_log_keeps_insertion_order() {
    let mut messages = Messages::new();
    messages.add("first".to_string(), Color::rgb(255, 255, 255));
    messages.add("second".to_string(), Color::rgb(255, 0, 0));
    let log = messages.iter();
    assert_eq!(log.len(), 2);
    assert_eq!(log[0].0, "first");
    assert_eq!(log[0].1, Color::rgb(255, 255, 255));
    assert_eq!(log[1].0, "second");
    assert_eq!(log[1].1, Color::rgb(255, 0, 0));
}

#[test]
fn explored_flag_is_set_and_kept() {
    let mut grid = open_grid();
    assert!(!grid[5][5].explored);
    explore(&mut grid, 5, 5);
    assert!(grid[5][5].explored);
    assert!(!grid[5][5].blocked);
    explore(&mut grid, 5, 5);
    assert!(grid[5][5].explored);
}

#[test]
fn rectangles_report_centers_and_intersections() {
    let a = rogue_core::rect::Rectangle::new(0, 0, 6, 6);
    assert_eq!(a.center(), (3, 3));
    let b = rogue_core::rect::Rectangle::new(6, 6, 4, 4);
    // Inclusive bounds: touching edges count as intersecting.
    assert!(a.is_intersecting(&b));
    let c = rogue_core::rect::Rectangle::new(7, 7, 3, 3);
    assert!(!a.is_intersecting(&c));
    assert!(b.is_intersecting(&c));
}

#[test]
fn mut_two_hands_out_disjoint_views() {
    let mut values = vec![10, 20, 30];
    {
        let (a, b) = mut_two(0, 2, &mut values);
        std::mem::swap(a, b);
    }
    assert_eq!(values, vec![30, 20, 10]);
    {
        let (a, b) = mut_two(2, 1, &mut values);
        *a += 1;
        *b += 2;
    }
    assert_eq!(values, vec![30, 22, 11]);
}

#[test]
fn tiles_have_the_two_canonical_forms() {
    let floor = Tile::empty();
    assert!(!floor.blocked && !floor.block_sight && !floor.explored);
    let wall = Tile::wall();
    assert!(wall.blocked && wall.block_sight && !wall.explored);
}
