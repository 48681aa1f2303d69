use dungeon_core::ai::ai_take_turn;
use dungeon_core::ai::run_ai_turns;
use dungeon_core::entity::DeathCallback;
use dungeon_core::entity::Fighter;
use dungeon_core::entity::Item;
use dungeon_core::entity::Object;
use dungeon_core::entity::UseResult;
use dungeon_core::entity::AI;
use dungeon_core::fov::tile_appearance;
use dungeon_core::fov::TileAppearance;
use dungeon_core::fov::VisibilityField;
use dungeon_core::geometry::Rect;
use dungeon_core::items::cast_confuse;
use dungeon_core::items::cast_fireball;
use dungeon_core::items::cast_heal;
use dungeon_core::items::cast_lightning;
use dungeon_core::items::drop_item;
use dungeon_core::items::pick_item_up;
use dungeon_core::items::use_item;
use dungeon_core::log::Color;
use dungeon_core::log::Message;
use dungeon_core::log::Messages;
use dungeon_core::targeting::evaluate_target;
use dungeon_core::targeting::monster_at;
use dungeon_core::targeting::names_under_pointer;
use dungeon_core::targeting::TargetDecision;
use dungeon_core::targeting::TargetSelection;
use dungeon_core::tile::GameMap;
use dungeon_core::tile::Tile;
use dungeon_core::turn::handle_command;
use dungeon_core::turn::new_game;
use dungeon_core::turn::Command;
use dungeon_core::turn::Game;
use dungeon_core::turn::PlayerAction;
use dungeon_core::MAP_HEIGHT;
use dungeon_core::MAP_WIDTH;

fn hero(x: i32, y: i32) -> Object {
    let mut p = Object::new("Player", x, y, '@', Color::White, true);
    p.fighter = Some(Fighter {
        max_hp: 30,
        hp: 30,
        defence: 2,
        power: 5,
        on_death: DeathCallback::Player,
    });
    p.alive = true;
    p
}

fn orc_at(x: i32, y: i32) -> Object {
    let mut m = Object::new("Orc", x, y, 'o', Color::DesaturatedGreen, true);
    m.fighter = Some(Fighter {
        max_hp: 10,
        hp: 10,
        defence: 0,
        power: 3,
        on_death: DeathCallback::Monster,
    });
    m.ai = Some(AI::Basic);
    m.alive = true;
    m
}

fn potion_at(x: i32, y: i32) -> Object {
    let mut p = Object::new("healing potion", x, y, '!', Color::Violet, false);
    p.item = Some(Item::Heal);
    p
}

fn chamber() -> GameMap {
    let mut map = GameMap::new_walls();
    for x in 1..79 {
        for y in 1..42 {
            map.set(x, y, Tile::empty());
        }
    }
    map
}

fn visibility(seen: bool) -> VisibilityField {
    VisibilityField {
        visible: vec![vec![seen; MAP_HEIGHT as usize]; MAP_WIDTH as usize],
        last_pos: None,
    }
}

fn grid(seen: bool) -> Vec<Vec<bool>> {
    vec![vec![seen; MAP_HEIGHT as usize]; MAP_WIDTH as usize]
}

#[test]
fn explored_is_monotonic_across_recomputes() {
    let mut map = chamber();
    let mut fov = VisibilityField::new();
    fov.refresh(&mut map, 5, 5, Some(grid(true)));
    assert!(map.get(10, 10).explored);
    // the player moves and nothing is visible any more
    fov.refresh(&mut map, 6, 5, Some(grid(false)));
    assert!(map.get(10, 10).explored);
    assert!(!fov.is_visible(10, 10));
}

#[test]
fn visibility_is_frozen_while_the_player_stands_still() {
    let mut map = chamber();
    let mut fov = VisibilityField::new();
    assert!(fov.needs_recompute(5, 5));
    fov.refresh(&mut map, 5, 5, Some(grid(true)));
    assert!(!fov.needs_recompute(5, 5));
    let before = map.get(9, 9);
    fov.refresh(&mut map, 5, 5, None);
    assert!(fov.is_visible(9, 9));
    assert_eq!(map.get(9, 9), before);
    assert!(fov.needs_recompute(6, 5));
}

#[test]
fn tile_appearance_follows_the_four_state_policy() {
    assert_eq!(tile_appearance(false, false, false), TileAppearance::NotExplored);
    assert_eq!(tile_appearance(false, true, true), TileAppearance::NotExplored);
    assert_eq!(tile_appearance(true, false, true), TileAppearance::DimWall);
    assert_eq!(tile_appearance(true, false, false), TileAppearance::DimGround);
    assert_eq!(tile_appearance(true, true, true), TileAppearance::LitWall);
    assert_eq!(tile_appearance(true, true, false), TileAppearance::LitGround);
}

#[test]
fn fireball_burns_every_fighter_in_radius_exactly_once() {
    let mut messages = Messages::new();
    let mut objects = vec![hero(5, 5), orc_at(6, 5), orc_at(20, 20)];
    let r = cast_fireball(Some((5, 5)), &mut messages, &mut objects);
    assert_eq!(r, UseResult::UsedUp);
    // the player stands at the centre and is caught too
    assert_eq!(objects[0].fighter.unwrap().hp, 18); // 30 - 12
    // the nearby orc dies of it
    assert!(objects[1].fighter.is_none());
    assert_eq!(objects[1].name, "remains of Orc");
    // the distant orc is untouched
    assert_eq!(objects[2].fighter.unwrap().hp, 10);
    let log = messages.iter();
    assert_eq!(log[0].0, Message::FireballPrompt);
    assert_eq!(log[1].0, Message::FireballExplodes { radius: 3 });
    assert_eq!(
        log[2].0,
        Message::Burned {
            target: "Player".to_string(),
            damage: 12
        }
    );
    assert_eq!(
        log[3].0,
        Message::Burned {
            target: "Orc".to_string(),
            damage: 12
        }
    );
    assert_eq!(
        log[4].0,
        Message::MonsterDied {
            monster: "Orc".to_string()
        }
    );
    assert_eq!(log.len(), 5);
}

#[test]
fn fireball_without_a_target_is_cancelled() {
    let mut messages = Messages::new();
    let mut objects = vec![hero(5, 5)];
    let r = cast_fireball(None, &mut messages, &mut objects);
    assert_eq!(r, UseResult::Cancelled);
    assert_eq!(objects[0].fighter.unwrap().hp, 30);
}

#[test]
fn lightning_strikes_the_closest_visible_monster() {
    let fov = visibility(true);
    let mut messages = Messages::new();
    let mut objects = vec![hero(5, 5), orc_at(5, 8), orc_at(7, 5)];
    let r = cast_lightning(&fov, &mut messages, &mut objects);
    assert_eq!(r, UseResult::UsedUp);
    // the orc two tiles east is nearer than the one three south
    assert!(objects[2].fighter.is_none());
    assert_eq!(objects[2].name, "remains of Orc");
    assert_eq!(objects[1].fighter.unwrap().hp, 10);
    assert_eq!(
        messages.iter()[0].0,
        Message::LightningStrikes {
            target: "Orc".to_string(),
            damage: 40
        }
    );
}

#[test]
fn lightning_without_a_target_in_range_is_cancelled() {
    let fov = visibility(true);
    let mut messages = Messages::new();
    // six tiles away: strictly outside the range of five
    let mut objects = vec![hero(5, 5), orc_at(11, 5)];
    let r = cast_lightning(&fov, &mut messages, &mut objects);
    assert_eq!(r, UseResult::Cancelled);
    assert_eq!(objects[1].fighter.unwrap().hp, 10);
    assert_eq!(messages.iter()[0], (Message::NoTargets, Color::Red));
}

#[test]
fn lightning_ignores_monsters_out_of_sight() {
    let fov = visibility(false);
    let mut messages = Messages::new();
    let mut objects = vec![hero(5, 5), orc_at(6, 5)];
    let r = cast_lightning(&fov, &mut messages, &mut objects);
    assert_eq!(r, UseResult::Cancelled);
    assert_eq!(objects[1].fighter.unwrap().hp, 10);
}

#[test]
fn heal_refuses_at_full_health_and_clamps_otherwise() {
    let mut messages = Messages::new();
    let mut objects = vec![hero(5, 5)];
    assert_eq!(cast_heal(&mut messages, &mut objects), UseResult::Cancelled);
    assert_eq!(messages.iter()[0], (Message::AlreadyFullHealth, Color::Orange));

    if let Some(f) = objects[0].fighter.as_mut() {
        f.hp = 27;
    }
    assert_eq!(cast_heal(&mut messages, &mut objects), UseResult::UsedUp);
    assert_eq!(objects[0].fighter.unwrap().hp, 30);
    assert_eq!(messages.iter()[1], (Message::HealingBegins, Color::LightViolet));
}

#[test]
fn confuse_wraps_the_current_state_for_ten_turns() {
    let mut messages = Messages::new();
    let mut objects = vec![hero(5, 5), orc_at(7, 5)];
    let r = cast_confuse(Some(1), &mut messages, &mut objects);
    assert_eq!(r, UseResult::UsedUp);
    assert_eq!(
        objects[1].ai,
        Some(AI::Confused {
            previous_ai: Box::new(AI::Basic),
            num_turns: 10
        })
    );
    assert_eq!(messages.iter()[0].0, Message::ConfusePrompt);
    assert_eq!(
        messages.iter()[1].0,
        Message::Confused {
            target: "Orc".to_string()
        }
    );
}

#[test]
fn confusion_runs_its_counter_down_then_reverts_with_one_message() {
    // a sealed cell: the monster cannot wander anywhere
    let map = GameMap::new_walls();
    let mut walled = map;
    walled.set(7, 5, Tile::empty());
    let fov = visibility(false);
    let mut messages = Messages::new();
    let mut objects = vec![hero(5, 5), orc_at(7, 5)];
    cast_confuse(Some(1), &mut messages, &mut objects);
    let casting_messages = messages.len();

    // the counter runs 10, 9, ..., 0 while the monster wanders, then
    // one further evaluation notices it has run out and reverts
    for _ in 0..11 {
        ai_take_turn(1, &fov, &walled, &mut messages, &mut objects);
        assert!(matches!(objects[1].ai, Some(AI::Confused { .. })));
    }
    assert_eq!(
        objects[1].ai,
        Some(AI::Confused {
            previous_ai: Box::new(AI::Basic),
            num_turns: -1
        })
    );
    ai_take_turn(1, &fov, &walled, &mut messages, &mut objects);
    assert_eq!(objects[1].ai, Some(AI::Basic));
    assert_eq!((objects[1].x, objects[1].y), (7, 5));

    let reversions = messages
        .iter()
        .iter()
        .filter(|(m, _)| {
            *m == Message::NoLongerConfused {
                monster: "Orc".to_string(),
            }
        })
        .count();
    assert_eq!(reversions, 1);
    assert_eq!(messages.len(), casting_messages + 1);
}

#[test]
fn inventory_refuses_the_twenty_seventh_item() {
    let mut inventory: Vec<Object> = (0..26).map(|_| potion_at(0, 0)).collect();
    let mut messages = Messages::new();
    let mut objects = vec![hero(5, 5), potion_at(5, 5)];
    pick_item_up(1, &mut inventory, &mut messages, &mut objects);
    assert_eq!(inventory.len(), 26);
    assert_eq!(objects.len(), 2);
    assert_eq!(
        messages.iter()[0],
        (
            Message::InventoryFull {
                item: "healing potion".to_string()
            },
            Color::Red,
        )
    );
}

#[test]
fn picking_up_moves_the_item_into_the_inventory() {
    let mut inventory: Vec<Object> = Vec::new();
    let mut messages = Messages::new();
    let mut objects = vec![hero(5, 5), potion_at(5, 5)];
    pick_item_up(1, &mut inventory, &mut messages, &mut objects);
    assert_eq!(inventory.len(), 1);
    assert_eq!(objects.len(), 1);
    assert_eq!(inventory[0].name, "healing potion");
    assert_eq!(
        messages.iter()[0],
        (
            Message::PickedUp {
                item: "healing potion".to_string()
            },
            Color::Green,
        )
    );
}

#[test]
fn dropping_puts_the_item_at_the_player_feet() {
    let mut inventory = vec![potion_at(0, 0)];
    let mut messages = Messages::new();
    let mut objects = vec![hero(9, 12)];
    drop_item(0, &mut inventory, &mut messages, &mut objects);
    assert!(inventory.is_empty());
    assert_eq!(objects.len(), 2);
    assert_eq!((objects[1].x, objects[1].y), (9, 12));
    assert_eq!(
        messages.iter()[0],
        (
            Message::Dropped {
                item: "healing potion".to_string()
            },
            Color::Yellow,
        )
    );
}

#[test]
fn used_up_items_leave_the_inventory_and_cancelled_ones_stay() {
    let fov = visibility(true);
    let mut messages = Messages::new();
    let mut inventory = vec![potion_at(0, 0)];
    let mut objects = vec![hero(5, 5)];
    // full health: the potion is not consumed and the use is announced
    use_item(
        0,
        TargetSelection::NoSelection,
        &fov,
        &mut messages,
        &mut inventory,
        &mut objects,
    );
    assert_eq!(inventory.len(), 1);
    assert_eq!(messages.iter()[1], (Message::Cancelled, Color::White));

    // wounded: the potion is consumed
    if let Some(f) = objects[0].fighter.as_mut() {
        f.hp = 20;
    }
    use_item(
        0,
        TargetSelection::NoSelection,
        &fov,
        &mut messages,
        &mut inventory,
        &mut objects,
    );
    assert!(inventory.is_empty());
    assert_eq!(objects[0].fighter.unwrap().hp, 24);
}

#[test]
fn targeting_never_selects_an_unseen_tile() {
    let fov = visibility(false);
    let objects = vec![hero(5, 5)];
    let d = evaluate_target(&fov, &objects, 6, 5, true, false, false, None);
    assert_eq!(d, TargetDecision::Pending);
}

#[test]
fn targeting_accepts_a_visible_tile_in_range() {
    let fov = visibility(true);
    let objects = vec![hero(5, 5)];
    let d = evaluate_target(&fov, &objects, 7, 5, true, false, false, Some(16));
    assert_eq!(d, TargetDecision::Select(7, 5));
}

#[test]
fn targeting_rejects_a_tile_beyond_the_range() {
    let fov = visibility(true);
    let objects = vec![hero(5, 5)];
    // five tiles away against a squared range of sixteen
    let d = evaluate_target(&fov, &objects, 10, 5, true, false, false, Some(16));
    assert_eq!(d, TargetDecision::Pending);
}

#[test]
fn targeting_cancels_on_secondary_press_or_escape() {
    let fov = visibility(true);
    let objects = vec![hero(5, 5)];
    let d = evaluate_target(&fov, &objects, 6, 5, false, true, false, None);
    assert_eq!(d, TargetDecision::Cancel);
    let d2 = evaluate_target(&fov, &objects, 6, 5, false, false, true, None);
    assert_eq!(d2, TargetDecision::Cancel);
}

#[test]
fn monster_targeting_skips_the_player_and_non_fighters() {
    let objects = vec![hero(5, 5), potion_at(7, 5), orc_at(7, 5)];
    assert_eq!(monster_at(&objects, 7, 5), Some(2));
    assert_eq!(monster_at(&objects, 5, 5), None);
    assert_eq!(monster_at(&objects, 9, 9), None);
}

#[test]
fn names_are_listed_for_visible_entities_on_a_cell() {
    let fov = visibility(true);
    let objects = vec![hero(5, 5), orc_at(7, 5), potion_at(7, 5)];
    assert_eq!(
        names_under_pointer(&objects, &fov, 7, 5),
        vec!["Orc".to_string(), "healing potion".to_string()]
    );
    let unseen = visibility(false);
    assert!(names_under_pointer(&objects, &unseen, 7, 5).is_empty());
}

#[test]
fn handle_command_reports_turns_and_exits() {
    let mut game = Game {
        map: chamber(),
        messages: Messages::new(),
        inventory: Vec::new(),
    };
    let fov = visibility(true);
    let mut objects = vec![hero(5, 5)];
    assert_eq!(
        handle_command(Command::Exit, &fov, &mut game, &mut objects),
        PlayerAction::Exit
    );
    assert_eq!(
        handle_command(Command::Other, &fov, &mut game, &mut objects),
        PlayerAction::DidntTakeTurn
    );
    assert_eq!(
        handle_command(Command::MoveRight, &fov, &mut game, &mut objects),
        PlayerAction::TookTurn
    );
    assert_eq!((objects[0].x, objects[0].y), (6, 5));
}

#[test]
fn a_dead_player_takes_no_more_turns() {
    let mut game = Game {
        map: chamber(),
        messages: Messages::new(),
        inventory: Vec::new(),
    };
    let fov = visibility(true);
    let mut dead = hero(5, 5);
    dead.alive = false;
    if let Some(f) = dead.fighter.as_mut() {
        f.hp = 0;
    }
    let mut objects = vec![dead];
    assert_eq!(
        handle_command(Command::MoveRight, &fov, &mut game, &mut objects),
        PlayerAction::DidntTakeTurn
    );
    assert_eq!((objects[0].x, objects[0].y), (5, 5));
    assert_eq!(
        handle_command(Command::Exit, &fov, &mut game, &mut objects),
        PlayerAction::Exit
    );
}

#[test]
fn pick_up_command_takes_the_item_under_the_player() {
    let mut game = Game {
        map: chamber(),
        messages: Messages::new(),
        inventory: Vec::new(),
    };
    let fov = visibility(true);
    let mut objects = vec![hero(5, 5), potion_at(5, 5)];
    assert_eq!(
        handle_command(Command::PickUp, &fov, &mut game, &mut objects),
        PlayerAction::DidntTakeTurn
    );
    assert_eq!(game.inventory.len(), 1);
    assert_eq!(objects.len(), 1);
}

#[test]
fn use_item_command_with_a_monster_target_confuses_it() {
    let mut scroll = Object::new("scroll of confusion", 0, 0, '#', Color::LightYellow, false);
    scroll.item = Some(Item::Confuse);
    let mut game = Game {
        map: chamber(),
        messages: Messages::new(),
        inventory: vec![scroll],
    };
    let fov = visibility(true);
    let mut objects = vec![hero(5, 5), orc_at(7, 5)];
    let action = handle_command(
        Command::UseItem {
            inventory_index: 0,
            target: TargetSelection::Monster(1),
        },
        &fov,
        &mut game,
        &mut objects,
    );
    assert_eq!(action, PlayerAction::TookTurn);
    assert!(game.inventory.is_empty());
    assert!(matches!(objects[1].ai, Some(AI::Confused { .. })));
}

#[test]
fn ai_pursues_the_player_when_visible() {
    let map = chamber();
    let fov = visibility(true);
    let mut messages = Messages::new();
    let mut objects = vec![hero(5, 5), orc_at(9, 5)];
    ai_take_turn(1, &fov, &map, &mut messages, &mut objects);
    assert_eq!((objects[1].x, objects[1].y), (8, 5));
    assert_eq!(objects[1].ai, Some(AI::Basic));
}

#[test]
fn ai_attacks_when_adjacent() {
    let map = chamber();
    let fov = visibility(true);
    let mut messages = Messages::new();
    let mut objects = vec![hero(5, 5), orc_at(6, 5)];
    ai_take_turn(1, &fov, &map, &mut messages, &mut objects);
    // orc power 3 less player defence 2
    assert_eq!(objects[0].fighter.unwrap().hp, 29);
    assert_eq!(
        messages.iter()[0].0,
        Message::Attack {
            attacker: "Orc".to_string(),
            defender: "Player".to_string(),
            damage: 1,
        }
    );
}

#[test]
fn ai_stands_still_out_of_sight() {
    let map = chamber();
    let fov = visibility(false);
    let mut messages = Messages::new();
    let mut objects = vec![hero(5, 5), orc_at(9, 5)];
    ai_take_turn(1, &fov, &map, &mut messages, &mut objects);
    assert_eq!((objects[1].x, objects[1].y), (9, 5));
    assert_eq!(messages.len(), 0);
}

#[test]
fn new_game_greets_a_living_player() {
    let (game, objects) = new_game();
    assert!(objects[0].alive);
    assert_eq!(objects[0].fighter.unwrap().hp, 30);
    assert_eq!(objects[0].name, "Player");
    assert!(game.inventory.is_empty());
    assert_eq!(game.messages.len(), 1);
    assert_eq!(game.messages.iter()[0], (Message::Welcome, Color::Red));
    assert!(!game.map.get(objects[0].x, objects[0].y).blocked);
}

#[test]
fn rect_centre_and_overlap_are_inclusive() {
    let a = Rect::new(0, 0, 6, 6);
    assert_eq!((a.x1, a.y1, a.x2, a.y2), (0, 0, 6, 6));
    assert_eq!(a.centre(), (3, 3));
    // merely touching counts as overlap
    let touching = Rect::new(6, 0, 4, 4);
    assert!(a.intersects_with(&touching));
    assert!(touching.intersects_with(&a));
    let apart = Rect::new(8, 0, 4, 4);
    assert!(!a.intersects_with(&apart));
}

#[test]
fn the_log_keeps_insertion_order() {
    let mut messages = Messages::new();
    assert_eq!(messages.len(), 0);
    messages.add(Message::Welcome, Color::Red);
    messages.add(Message::Cancelled, Color::White);
    assert_eq!(messages.len(), 2);
    assert_eq!(messages.iter()[0], (Message::Welcome, Color::Red));
    assert_eq!(messages.iter()[1], (Message::Cancelled, Color::White));
}

#[test]
fn tiles_are_built_walkable_or_walled() {
    let floor = Tile::empty();
    assert!(!floor.blocked && !floor.block_sight && !floor.explored);
    let wall = Tile::wall();
    assert!(wall.blocked && wall.block_sight && !wall.explored);
}

#[test]
fn a_full_ai_round_lets_every_monster_act_in_order() {
    let map = chamber();
    let fov = visibility(true);
    let mut messages = Messages::new();
    // one orc adjacent, one four tiles off: the first strikes, the
    // second closes in
    let mut objects = vec![hero(5, 5), orc_at(6, 5), orc_at(5, 9)];
    run_ai_turns(&fov, &map, &mut messages, &mut objects);
    assert_eq!(objects[0].fighter.unwrap().hp, 29);
    assert_eq!((objects[2].x, objects[2].y), (5, 8));
    assert_eq!(
        messages.iter()[0].0,
        Message::Attack {
            attacker: "Orc".to_string(),
            defender: "Player".to_string(),
            damage: 1,
        }
    );
}
