use dungeon_core::entity::DeathCallback;
use dungeon_core::entity::Fighter;
use dungeon_core::entity::Object;
use dungeon_core::entity::AI;
use dungeon_core::log::Color;
use dungeon_core::log::Message;
use dungeon_core::log::Messages;
use dungeon_core::registry::is_blocked;
use dungeon_core::registry::move_by;
use dungeon_core::registry::player_move_or_attack;
use dungeon_core::tile::GameMap;
use dungeon_core::tile::Tile;

fn fighter(power: i32, defence: i32, hp: i32) -> Fighter {
    Fighter {
        max_hp: hp,
        hp,
        defence,
        power,
        on_death: DeathCallback::Monster,
    }
}

fn monster(name: &str, x: i32, y: i32, power: i32, defence: i32, hp: i32) -> Object {
    let mut m = Object::new(name, x, y, 'o', Color::DesaturatedGreen, true);
    m.fighter = Some(fighter(power, defence, hp));
    m.ai = Some(AI::Basic);
    m.alive = true;
    m
}

fn player_at(x: i32, y: i32) -> Object {
    let mut p = Object::new("Player", x, y, '@', Color::White, true);
    p.fighter = Some(Fighter {
        max_hp: 30,
        hp: 30,
        defence: 2,
        power: 5,
        on_death: DeathCallback::Player,
    });
    p.alive = true;
    p
}

/// An open chamber: everything floor but the outer ring.
fn open_map() -> GameMap {
    let mut map = GameMap::new_walls();
    for x in 1..79 {
        for y in 1..42 {
            map.set(x, y, Tile::empty());
        }
    }
    map
}

#[test]
fn attack_applies_power_minus_defence() {
    let mut attacker = monster("Orc", 5, 5, 5, 0, 10);
    let mut defender = monster("Troll", 6, 5, 1, 2, 16);
    let mut messages = Messages::new();
    attacker.attack(&mut defender, &mut messages);
    assert_eq!(defender.fighter.unwrap().hp, 13); // 16 - (5 - 2)
    assert_eq!(messages.len(), 1);
    assert_eq!(
        messages.iter()[0],
        (
            Message::Attack {
                attacker: "Orc".to_string(),
                defender: "Troll".to_string(),
                damage: 3,
            },
            Color::White,
        )
    );
}

#[test]
fn attack_with_no_net_damage_changes_nothing() {
    let mut attacker = monster("Orc", 5, 5, 2, 0, 10);
    let mut defender = monster("Troll", 6, 5, 1, 5, 16);
    let mut messages = Messages::new();
    attacker.attack(&mut defender, &mut messages);
    assert_eq!(defender.fighter.unwrap().hp, 16);
    assert!(defender.alive);
    assert_eq!(messages.len(), 1);
    assert_eq!(
        messages.iter()[0],
        (
            Message::AttackNoEffect {
                attacker: "Orc".to_string(),
                defender: "Troll".to_string(),
            },
            Color::White,
        )
    );
}

#[test]
fn monster_death_leaves_inert_remains() {
    let mut orc = monster("Orc", 5, 5, 3, 0, 10);
    let mut messages = Messages::new();
    orc.take_damage(10, &mut messages);
    assert!(!orc.alive);
    assert!(orc.fighter.is_none());
    assert!(orc.ai.is_none());
    assert!(!orc.blocks);
    assert_eq!(orc.name, "remains of Orc");
    assert_eq!(orc.chr, '%');
    assert_eq!(
        messages.iter()[0],
        (
            Message::MonsterDied {
                monster: "Orc".to_string()
            },
            Color::Orange,
        )
    );
}

#[test]
fn player_death_keeps_the_corpse_in_place() {
    let mut p = player_at(5, 5);
    let mut messages = Messages::new();
    p.take_damage(30, &mut messages);
    assert!(!p.alive);
    assert_eq!(p.chr, '%');
    assert_eq!(p.colour, Color::DarkRed);
    assert!(p.fighter.is_some());
    assert_eq!(p.fighter.unwrap().hp, 0);
    assert_eq!(p.name, "Player");
    assert_eq!(messages.iter()[0], (Message::PlayerDied, Color::Red));
}

#[test]
fn damage_is_only_applied_when_positive() {
    let mut orc = monster("Orc", 5, 5, 3, 0, 10);
    let mut messages = Messages::new();
    orc.take_damage(0, &mut messages);
    assert_eq!(orc.fighter.unwrap().hp, 10);
    assert!(orc.alive);
    assert_eq!(messages.len(), 0);
}

#[test]
fn heal_is_clamped_at_max_hp() {
    let mut p = player_at(5, 5);
    if let Some(f) = p.fighter.as_mut() {
        f.hp = 27;
    }
    p.heal(4);
    assert_eq!(p.fighter.unwrap().hp, 30);
}

#[test]
fn move_by_refuses_blocked_destinations() {
    let map = open_map();
    let mut objects = vec![player_at(5, 5), monster("Orc", 6, 5, 3, 0, 10)];
    // into the monster: refused
    move_by(0, 1, 0, &map, &mut objects);
    assert_eq!((objects[0].x, objects[0].y), (5, 5));
    // into open floor: taken
    move_by(0, 0, 1, &map, &mut objects);
    assert_eq!((objects[0].x, objects[0].y), (5, 6));
    // into the border wall from beside it
    let mut at_edge = vec![player_at(1, 1)];
    move_by(0, -1, 0, &map, &mut at_edge);
    assert_eq!((at_edge[0].x, at_edge[0].y), (1, 1));
}

#[test]
fn is_blocked_sees_tiles_and_blocking_entities() {
    let map = open_map();
    let objects = vec![player_at(5, 5)];
    assert!(is_blocked(0, 0, &map, &objects)); // wall
    assert!(is_blocked(5, 5, &map, &objects)); // the player blocks
    assert!(!is_blocked(6, 5, &map, &objects)); // open floor
}

#[test]
fn player_move_or_attack_attacks_the_first_fighter_in_the_way() {
    let map = open_map();
    let mut messages = Messages::new();
    let mut objects = vec![player_at(5, 5), monster("Orc", 6, 5, 3, 0, 10)];
    player_move_or_attack(1, 0, &map, &mut messages, &mut objects);
    // player power 5 less orc defence 0
    assert_eq!(objects[1].fighter.unwrap().hp, 5);
    assert_eq!((objects[0].x, objects[0].y), (5, 5));
    assert_eq!(
        messages.iter()[0],
        (
            Message::Attack {
                attacker: "Player".to_string(),
                defender: "Orc".to_string(),
                damage: 5,
            },
            Color::White,
        )
    );
}

#[test]
fn player_move_or_attack_moves_into_open_floor() {
    let map = open_map();
    let mut messages = Messages::new();
    let mut objects = vec![player_at(5, 5)];
    player_move_or_attack(0, -1, &map, &mut messages, &mut objects);
    assert_eq!((objects[0].x, objects[0].y), (5, 4));
    assert_eq!(messages.len(), 0);
}

#[test]
fn squared_distances_are_exact() {
    let a = player_at(0, 0);
    let b = monster("Orc", 3, 4, 3, 0, 10);
    assert_eq!(a.distance_to(&b), 25);
    assert_eq!(a.distance(10, 0), 100);
}
