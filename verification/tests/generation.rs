use rogue_core::mapgen::{make_map, DungeonMap, Tunnel};
use rogue_core::object::{DeathCallback, Fighter, GameObject};
use rogue_core::rect::Rectangle;
use rogue_core::rng::RandomSource;
use rogue_core::{MAP_HEIGHT, MAP_WIDTH, ROOM_MAX_SIZE, ROOM_MIN_SIZE};

fn new_player() -> GameObject {
    let mut player = GameObject::new(
        25,
        23,
        '@',
        rogue_core::color::Color::rgb(255, 255, 255),
        "player",
        true,
    );
    player.is_alive = true;
    player.fighter = Some(Fighter {
        max_hp: 30,
        hp: 30,
        defense: 2,
        power: 5,
        on_death: DeathCallback::Player,
    });
    player
}

fn generate() -> (DungeonMap, Vec<GameObject>) {
    let mut objects = vec![new_player()];
    let mut rng = RandomSource::new();
    let dungeon = make_map(&mut objects, &mut rng);
    (dungeon, objects)
}

fn room_interior_contains(r: &Rectangle, x: i32, y: i32) -> bool {
    r.x1 < x && x < r.x2 && r.y1 < y && y < r.y2
}

fn tunnel_contains(t: &Tunnel, x: i32, y: i32) -> bool {
    let lo = t.a.min(t.b);
    let hi = t.a.max(t.b);
    if t.horizontal {
        y == t.at && lo <= x && x <= hi
    } else {
        x == t.at && lo <= y && y <= hi
    }
}

#[test]
fn generated_rooms_never_intersect() {
    for _ in 0..5 {
        let (dungeon, _) = generate();
        assert!(dungeon.rooms.len() >= 1);
        for i in 0..dungeon.rooms.len() {
            for j in 0..dungeon.rooms.len() {
                if i != j {
                    assert!(!dungeon.rooms[i].is_intersecting(&dungeon.rooms[j]));
                }
            }
        }
    }
}

#[test]
fn generated_tiles_are_exactly_the_carved_area() {
    for _ in 0..5 {
        let (dungeon, _) = generate();
        assert_eq!(dungeon.grid.len(), MAP_WIDTH as usize);
        for x in 0..MAP_WIDTH {
            assert_eq!(dungeon.grid[x as usize].len(), MAP_HEIGHT as usize);
            for y in 0..MAP_HEIGHT {
                let carved = dungeon
                    .rooms
                    .iter()
                    .any(|r| room_interior_contains(r, x, y))
                    || dungeon.tunnels.iter().any(|t| tunnel_contains(t, x, y));
                let tile = dungeon.grid[x as usize][y as usize];
                // Every room interior and corridor cell is walkable floor;
                // everything else is still solid wall.
                assert_eq!(tile.blocked, !carved);
                assert_eq!(tile.block_sight, !carved);
                assert!(!tile.explored);
            }
        }
    }
}

#[test]
fn generated_rooms_fit_the_grid_and_size_bounds() {
    let (dungeon, _) = generate();
    for r in dungeon.rooms.iter() {
        let w = r.x2 - r.x1;
        let h = r.y2 - r.y1;
        assert!(w >= ROOM_MIN_SIZE && w <= ROOM_MAX_SIZE);
        assert!(h >= ROOM_MIN_SIZE && h <= ROOM_MAX_SIZE);
        assert!(r.x1 >= 0 && r.x2 <= MAP_WIDTH - 1);
        assert!(r.y1 >= 0 && r.y2 <= MAP_HEIGHT - 1);
    }
}

#[test]
fn player_is_placed_at_the_first_room_center() {
    let (dungeon, objects) = generate();
    let first = dungeon.rooms[0];
    let (cx, cy) = first.center();
    assert_eq!(objects[rogue_core::PLAYER].x, cx);
    assert_eq!(objects[rogue_core::PLAYER].y, cy);
    assert!(!dungeon.grid[cx as usize][cy as usize].blocked);
}

#[test]
fn spawned_entities_are_known_kinds_on_walkable_tiles() {
    let (dungeon, objects) = generate();
    for o in objects.iter().skip(1) {
        assert!(!dungeon.grid[o.x as usize][o.y as usize].blocked);
        match o.name.as_str() {
            "orc" => {
                let f = o.fighter.unwrap();
                assert_eq!((f.max_hp, f.hp, f.defense, f.power), (10, 10, 0, 3));
                assert_eq!(f.on_death, DeathCallback::Monster);
                assert!(o.blocks && o.is_alive && o.ai.is_some());
            }
            "troll" => {
                let f = o.fighter.unwrap();
                assert_eq!((f.max_hp, f.hp, f.defense, f.power), (16, 16, 1, 4));
                assert_eq!(f.on_death, DeathCallback::Monster);
                assert!(o.blocks && o.is_alive && o.ai.is_some());
            }
            "healing potion" | "scroll of lightning bolt" | "scroll of confusion" => {
                assert!(o.item.is_some());
                assert!(!o.blocks && !o.is_alive);
                assert!(o.fighter.is_none() && o.ai.is_none());
            }
            other => panic!("unexpected spawned entity: {}", other),
        }
    }
}

#[test]
fn map_border_is_solid_wall() {
    let (dungeon, _) = generate();
    for x in 0..MAP_WIDTH {
        assert!(dungeon.grid[x as usize][0].blocked);
        assert!(dungeon.grid[x as usize][(MAP_HEIGHT - 1) as usize].blocked);
    }
    for y in 0..MAP_HEIGHT {
        assert!(dungeon.grid[0][y as usize].blocked);
        assert!(dungeon.grid[(MAP_WIDTH - 1) as usize][y as usize].blocked);
    }
}

#[test]
fn corridors_join_consecutive_room_centers() {
    let (dungeon, _) = generate();
    assert!(dungeon.rooms.len() >= 1);
    assert!(dungeon.rooms.len() <= rogue_core::MAX_ROOMS as usize);
    assert_eq!(dungeon.tunnels.len(), 2 * (dungeon.rooms.len() - 1));
    for i in 1..dungeon.rooms.len() {
        let (ax, ay) = dungeon.rooms[i - 1].center();
        let (bx, by) = dungeon.rooms[i].center();
        let t1 = dungeon.tunnels[2 * (i - 1)];
        let t2 = dungeon.tunnels[2 * (i - 1) + 1];
        let horizontal_first = t1.horizontal
            && t1.at == ay
            && t1.a == ax
            && t1.b == bx
            && !t2.horizontal
            && t2.at == bx
            && t2.a == ay
            && t2.b == by;
        let vertical_first = !t1.horizontal
            && t1.at == ax
            && t1.a == ay
            && t1.b == by
            && t2.horizontal
            && t2.at == by
            && t2.a == ax
            && t2.b == bx;
        assert!(horizontal_first || vertical_first);
    }
}

#[test]
fn spawned_blockers_never_share_a_tile() {
    // The player is repositioned to the first room's center after that
    // room is populated and may land on a monster there; but no two
    // spawned blockers ever share a tile.
    for _ in 0..5 {
        let (_, objects) = generate();
        for i in 1..objects.len() {
            for j in 1..i {
                if objects[j].blocks && objects[i].blocks {
                    assert!(
                        (objects[j].x, objects[j].y) != (objects[i].x, objects[i].y),
                        "two spawned blocking entities share a tile"
                    );
                }
            }
        }
    }
}
