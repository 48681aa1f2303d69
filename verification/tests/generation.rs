use dungeon_core::entity::DeathCallback;
use dungeon_core::entity::Fighter;
use dungeon_core::entity::Object;
use dungeon_core::geometry::Rect;
use dungeon_core::log::Color;
use dungeon_core::mapgen::make_map;
use dungeon_core::tile::GameMap;
use dungeon_core::MAP_HEIGHT;
use dungeon_core::MAP_WIDTH;
use dungeon_core::MAX_ROOMS;
use dungeon_core::MAX_ROOM_ITEMS;
use dungeon_core::MAX_ROOM_MONSTERS;
use dungeon_core::ROOM_MAX_SIZE;
use dungeon_core::ROOM_MIN_SIZE;

fn fresh_player() -> Object {
    let mut player = Object::new("Player", 0, 0, '@', Color::White, true);
    player.fighter = Some(Fighter {
        max_hp: 30,
        hp: 30,
        defence: 2,
        power: 5,
        on_death: DeathCallback::Player,
    });
    player.alive = true;
    player
}

fn generate() -> (GameMap, Vec<Rect>, Vec<Object>) {
    let mut objects = vec![fresh_player()];
    let (map, rooms) = make_map(&mut objects);
    (map, rooms, objects)
}

fn centre_of(r: &Rect) -> (i32, i32) {
    ((r.x1 + r.x2) / 2, (r.y1 + r.y2) / 2)
}

#[test]
fn rooms_are_within_bounds_and_sized_from_the_sampled_range() {
    let (_map, rooms, _objects) = generate();
    assert!(!rooms.is_empty());
    for r in &rooms {
        assert!(0 <= r.x1 && r.x2 <= MAP_WIDTH - 1);
        assert!(0 <= r.y1 && r.y2 <= MAP_HEIGHT - 1);
        let w = r.x2 - r.x1;
        let h = r.y2 - r.y1;
        assert!(ROOM_MIN_SIZE <= w && w <= ROOM_MAX_SIZE);
        assert!(ROOM_MIN_SIZE <= h && h <= ROOM_MAX_SIZE);
    }
}

#[test]
fn no_two_accepted_rooms_overlap_inclusive() {
    let (_map, rooms, _objects) = generate();
    for i in 0..rooms.len() {
        for j in 0..rooms.len() {
            if i != j {
                assert!(!rooms[i].intersects_with(&rooms[j]));
            }
        }
    }
}

#[test]
fn every_room_is_reachable_from_the_first_over_floor() {
    let (map, rooms, _objects) = generate();
    let (sx, sy) = centre_of(&rooms[0]);

    // breadth-first search over walkable tiles
    let mut seen = vec![vec![false; MAP_HEIGHT as usize]; MAP_WIDTH as usize];
    let mut queue = vec![(sx, sy)];
    assert!(!map.get(sx, sy).blocked);
    seen[sx as usize][sy as usize] = true;
    while let Some((x, y)) = queue.pop() {
        for (dx, dy) in [(1, 0), (-1, 0), (0, 1), (0, -1)] {
            let (nx, ny) = (x + dx, y + dy);
            if 0 <= nx && nx < MAP_WIDTH && 0 <= ny && ny < MAP_HEIGHT {
                if !map.get(nx, ny).blocked && !seen[nx as usize][ny as usize] {
                    seen[nx as usize][ny as usize] = true;
                    queue.push((nx, ny));
                }
            }
        }
    }

    for r in &rooms {
        let (cx, cy) = centre_of(r);
        assert!(seen[cx as usize][cy as usize], "room centre unreachable");
    }
}

#[test]
fn the_border_ring_is_solid_wall() {
    let (map, _rooms, _objects) = generate();
    for x in 0..MAP_WIDTH {
        for y in 0..MAP_HEIGHT {
            if x == 0 || x == MAP_WIDTH - 1 || y == 0 || y == MAP_HEIGHT - 1 {
                assert!(map.get(x, y).blocked);
                assert!(map.get(x, y).block_sight);
            }
        }
    }
}

#[test]
fn player_starts_at_the_first_room_centre_on_floor() {
    let (map, rooms, objects) = generate();
    let (cx, cy) = centre_of(&rooms[0]);
    assert_eq!((objects[0].x, objects[0].y), (cx, cy));
    assert!(!map.get(cx, cy).blocked);
    assert!(objects[0].alive);
}

#[test]
fn seeded_entities_are_monsters_or_items_inside_rooms() {
    let (map, _rooms, objects) = generate();
    for o in objects.iter().skip(1) {
        assert!(0 < o.x && o.x < MAP_WIDTH - 1);
        assert!(0 < o.y && o.y < MAP_HEIGHT - 1);
        assert!(!map.get(o.x, o.y).blocked);
        let monster = o.fighter.is_some() && o.ai.is_some() && o.alive && o.blocks;
        let item = o.item.is_some() && o.fighter.is_none() && o.ai.is_none() && !o.blocks;
        assert!(monster || item);
        if let Some(f) = o.fighter {
            assert_eq!(f.on_death, DeathCallback::Monster);
            assert!(f.hp >= 1 && f.hp <= f.max_hp);
        }
    }
}

#[test]
fn generated_maps_keep_explored_initially_false() {
    let (map, _rooms, _objects) = generate();
    for x in 0..MAP_WIDTH {
        for y in 0..MAP_HEIGHT {
            assert!(!map.get(x, y).explored);
        }
    }
}

#[test]
fn at_most_the_attempted_number_of_rooms_is_accepted() {
    let (_map, rooms, _objects) = generate();
    assert!(rooms.len() <= MAX_ROOMS as usize);
}

#[test]
fn every_tile_is_untouched_wall_or_carved_floor() {
    let (map, _rooms, _objects) = generate();
    for x in 0..MAP_WIDTH {
        for y in 0..MAP_HEIGHT {
            let t = map.get(x, y);
            let wall = t.blocked && t.block_sight && !t.explored;
            let floor = !t.blocked && !t.block_sight && !t.explored;
            assert!(wall || floor);
        }
    }
}

#[test]
fn each_room_seeds_a_bounded_handful_of_entities() {
    let (_map, rooms, objects) = generate();
    let per_room = (MAX_ROOM_MONSTERS + MAX_ROOM_ITEMS) as usize;
    assert!(objects.len() <= 1 + rooms.len() * per_room);
}
