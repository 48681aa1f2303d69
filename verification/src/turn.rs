//! One turn of the game: the player's command, then every monster.
//!
//! The window shell decodes keys into [`Command`] values and hands them
//! to [`handle_command`]; when the answer says a turn was consumed it
//! lets every monster act through [`crate::ai::run_ai_turns`].  The
//! world itself — map, message log, inventory — lives in [`Game`]; the
//! entity registry travels alongside it, player first.

use vstd::prelude::*;
use crate::entity::DeathCallback;
use crate::entity::Fighter;
use crate::entity::Object;
use crate::fov::VisibilityField;
use crate::items::drop_item;
use crate::items::fighters_live;
use crate::items::pick_item_up;
use crate::items::pick_up_post;
use crate::items::use_item;
use crate::items::use_item_post;
use crate::log::Color;
use crate::log::Message;
use crate::log::Messages;
use crate::geometry::Rect;
use crate::mapgen::generated_map;
use crate::mapgen::make_map;
use crate::mapgen::room_centre;
use crate::mapgen::spawned_ok;
use crate::registry::border_walls;
use crate::registry::pmoa_post;
use crate::registry::player_move_or_attack;
use crate::registry::registry_wf;
use crate::targeting::TargetSelection;
use crate::tile::in_bounds;
use crate::tile::GameMap;
use crate::PLAYER;

verus! {

/// The world the turn logic mutates: the level, the log, and what the
/// player carries.  The entity registry travels beside it.
pub struct Game {
    pub map: GameMap,
    pub messages: Messages,
    pub inventory: Vec<Object>,
}

/// What the player's input amounted to this iteration.
#[derive(Debug, Clone, Copy, PartialEq, Eq, Structural)]
pub enum PlayerAction {
    TookTurn,
    DidntTakeTurn,
    Exit,
}

/// A decoded player command.  Key decoding, menus and the targeting
/// loop happen in the shell; what arrives here is already resolved to
/// indices and tiles.
#[derive(Debug, Clone, Copy, PartialEq, Eq, Structural)]
pub enum Command {
    MoveUp,
    MoveDown,
    MoveLeft,
    MoveRight,
    /// Pick up an item under the player, if any.
    PickUp,
    /// Use the inventory item at this index, with the target the
    /// targeting loop resolved for it.
    UseItem { inventory_index: usize, target: TargetSelection },
    /// Drop the inventory item at this index.
    DropItem { inventory_index: usize },
    /// The shell toggled its window; no turn passes.
    ToggleFullscreen,
    /// Leave the game.
    Exit,
    /// Any other key.
    Other,
}

/// Nothing in the inventory fights or thinks: only inert items are ever
/// picked up.
pub open spec fn inventory_inert(inv: Seq<Object>) -> bool {
    forall|k: int|
        0 <= k < inv.len() ==> (#[trigger] inv[k]).fighter is None && inv[k].ai is None
}

/// The whole-world invariant: a well-formed walled map and a sound
/// registry and inventory.  Established by [`new_game`] and preserved
/// by every turn.
pub open spec fn world_ok(game: Game, objs: Seq<Object>) -> bool {
    &&& game.map.wf()
    &&& border_walls(game.map)
    &&& registry_wf(objs)
    &&& inventory_inert(game.inventory@)
}

/// Nothing observable happened.
pub open spec fn world_unchanged(
    objs0: Seq<Object>,
    objs1: Seq<Object>,
    inv0: Seq<Object>,
    inv1: Seq<Object>,
    log0: Seq<(Message, Color)>,
    log1: Seq<(Message, Color)>,
) -> bool {
    objs1 == objs0 && inv1 == inv0 && log1 == log0
}

/// How the pick-up command resolves: the first registry entry with an
/// item tag standing on the player's cell is picked up; with none the
/// command does nothing at all.
pub open spec fn pick_cmd_post(
    objs0: Seq<Object>,
    objs1: Seq<Object>,
    inv0: Seq<Object>,
    inv1: Seq<Object>,
    log0: Seq<(Message, Color)>,
    log1: Seq<(Message, Color)>,
) -> bool {
    let p = objs0[PLAYER as int];
    if exists|k: int| 0 <= k < objs0.len() && item_at(#[trigger] objs0[k], p.x as int, p.y as int) {
        exists|j: int|
            {
                &&& 0 <= j < objs0.len()
                &&& #[trigger] item_at(objs0[j], p.x as int, p.y as int)
                &&& forall|k: int| 0 <= k < j ==> !item_at(#[trigger] objs0[k], p.x as int, p.y as int)
                &&& pick_up_post(j, objs0, objs1, inv0, inv1, log0, log1)
            }
    } else {
        world_unchanged(objs0, objs1, inv0, inv1, log0, log1)
    }
}

/// An entity with an item tag standing on `(x, y)`.
pub open spec fn item_at(o: Object, x: int, y: int) -> bool {
    o.item is Some && o.x == x && o.y == y
}

/// How the drop command resolves: the item leaves the inventory and
/// reappears on the floor at the player's feet.
pub open spec fn drop_cmd_post(
    inv_id: int,
    objs0: Seq<Object>,
    objs1: Seq<Object>,
    inv0: Seq<Object>,
    inv1: Seq<Object>,
    log0: Seq<(Message, Color)>,
    log1: Seq<(Message, Color)>,
) -> bool {
    &&& inv1 == inv0.remove(inv_id)
    &&& objs1 == objs0.push(
        Object { x: objs0[PLAYER as int].x, y: objs0[PLAYER as int].y, ..inv0[inv_id] },
    )
    &&& log1 == log0.push((Message::Dropped { item: inv0[inv_id].name }, Color::Yellow))
}

/// What one player command does to the world and which answer it
/// yields.  Dead players act no more: every command but leaving the
/// game degenerates to a no-op.  A consumed turn is reported exactly
/// for the directional actions and item use of a living player.
pub open spec fn command_post(
    cmd: Command,
    fov: VisibilityField,
    map: GameMap,
    objs0: Seq<Object>,
    objs1: Seq<Object>,
    inv0: Seq<Object>,
    inv1: Seq<Object>,
    log0: Seq<(Message, Color)>,
    log1: Seq<(Message, Color)>,
    action: PlayerAction,
) -> bool {
    let alive = objs0[PLAYER as int].alive;
    match cmd {
        Command::MoveUp => if alive {
            action is TookTurn && inv1 == inv0 && pmoa_post(map, objs0, objs1, log0, log1, 0, -1)
        } else {
            action is DidntTakeTurn && world_unchanged(objs0, objs1, inv0, inv1, log0, log1)
        },
        Command::MoveDown => if alive {
            action is TookTurn && inv1 == inv0 && pmoa_post(map, objs0, objs1, log0, log1, 0, 1)
        } else {
            action is DidntTakeTurn && world_unchanged(objs0, objs1, inv0, inv1, log0, log1)
        },
        Command::MoveLeft => if alive {
            action is TookTurn && inv1 == inv0 && pmoa_post(map, objs0, objs1, log0, log1, -1, 0)
        } else {
            action is DidntTakeTurn && world_unchanged(objs0, objs1, inv0, inv1, log0, log1)
        },
        Command::MoveRight => if alive {
            action is TookTurn && inv1 == inv0 && pmoa_post(map, objs0, objs1, log0, log1, 1, 0)
        } else {
            action is DidntTakeTurn && world_unchanged(objs0, objs1, inv0, inv1, log0, log1)
        },
        Command::PickUp => {
            action is DidntTakeTurn && if alive {
                pick_cmd_post(objs0, objs1, inv0, inv1, log0, log1)
            } else {
                world_unchanged(objs0, objs1, inv0, inv1, log0, log1)
            }
        },
        Command::UseItem { inventory_index, target } => if alive {
            action is TookTurn && use_item_post(
                inventory_index as int,
                target,
                fov,
                objs0,
                objs1,
                inv0,
                inv1,
                log0,
                log1,
            )
        } else {
            action is DidntTakeTurn && world_unchanged(objs0, objs1, inv0, inv1, log0, log1)
        },
        Command::DropItem { inventory_index } => {
            action is DidntTakeTurn && if alive {
                drop_cmd_post(inventory_index as int, objs0, objs1, inv0, inv1, log0, log1)
            } else {
                world_unchanged(objs0, objs1, inv0, inv1, log0, log1)
            }
        },
        Command::ToggleFullscreen => action is DidntTakeTurn && world_unchanged(
            objs0,
            objs1,
            inv0,
            inv1,
            log0,
            log1,
        ),
        Command::Exit => action is Exit && world_unchanged(objs0, objs1, inv0, inv1, log0, log1),
        Command::Other => action is DidntTakeTurn && world_unchanged(
            objs0,
            objs1,
            inv0,
            inv1,
            log0,
            log1,
        ),
    }
}

/// In a sound world whose player still stands, every fighter has a hit
/// point to lose: monsters because fighting monsters are alive, the
/// player by assumption.
proof fn lemma_fighters_live(objs: Seq<Object>)
    requires
        registry_wf(objs),
        objs[PLAYER as int].alive,
    ensures
        fighters_live(objs),
{
    assert forall|k: int|
        0 <= k < objs.len() && (#[trigger] objs[k]).fighter is Some implies objs[k].fighter->0.hp
        >= 1 by {
        if k != PLAYER {
            assert(objs[k].fighter->0.on_death is Monster);
        }
    }
}

/// Apply one player command to the world.
pub fn handle_command(
    cmd: Command,
    fov: &VisibilityField,
    game: &mut Game,
    objects: &mut Vec<Object>,
) -> (action: PlayerAction)
    requires
        fov.wf(),
        world_ok(*old(game), old(objects)@),
        cmd matches Command::UseItem { inventory_index, target } ==> {
            &&& inventory_index < old(game).inventory@.len()
            &&& (target matches TargetSelection::Monster(id) ==> id < old(objects)@.len() && id
                != PLAYER && old(objects)@[id as int].fighter is Some)
            &&& (target matches TargetSelection::Tile(x, y) ==> in_bounds(x as int, y as int))
        },
        cmd matches Command::DropItem { inventory_index } ==> inventory_index < old(
            game,
        ).inventory@.len(),
    ensures
        world_ok(*final(game), final(objects)@),
        final(game).map == old(game).map,
        command_post(
            cmd,
            *fov,
            old(game).map,
            old(objects)@,
            final(objects)@,
            old(game).inventory@,
            final(game).inventory@,
            old(game).messages@,
            final(game).messages@,
            action,
        ),
{
    let alive = objects[PLAYER].alive;
    match cmd {
        Command::MoveUp => {
            if alive {
                player_move_or_attack(0, -1, &game.map, &mut game.messages, objects);
                PlayerAction::TookTurn
            } else {
                PlayerAction::DidntTakeTurn
            }
        },
        Command::MoveDown => {
            if alive {
                player_move_or_attack(0, 1, &game.map, &mut game.messages, objects);
                PlayerAction::TookTurn
            } else {
                PlayerAction::DidntTakeTurn
            }
        },
        Command::MoveLeft => {
            if alive {
                player_move_or_attack(-1, 0, &game.map, &mut game.messages, objects);
                PlayerAction::TookTurn
            } else {
                PlayerAction::DidntTakeTurn
            }
        },
        Command::MoveRight => {
            if alive {
                player_move_or_attack(1, 0, &game.map, &mut game.messages, objects);
                PlayerAction::TookTurn
            } else {
                PlayerAction::DidntTakeTurn
            }
        },
        Command::PickUp => {
            if alive {
                let (px, py) = objects[PLAYER].pos();
                let mut found: Option<usize> = None;
                let n = objects.len();
                let mut i: usize = 0;
                while i < n
                    invariant
                        n == objects@.len(),
                        0 <= i <= n,
                        match found {
                            None => forall|k: int|
                                0 <= k < i ==> !item_at(#[trigger] objects@[k], px as int, py as int),
                            Some(j) => {
                                &&& 0 <= j < n
                                &&& item_at(objects@[j as int], px as int, py as int)
                                &&& forall|k: int|
                                    0 <= k < j ==> !item_at(
                                        #[trigger] objects@[k],
                                        px as int,
                                        py as int,
                                    )
                            },
                        },
                    decreases n - i,
                {
                    if found.is_none() {
                        let o = &objects[i];
                        if o.item.is_some() && o.x == px && o.y == py {
                            found = Some(i);
                        }
                    }
                    i = i + 1;
                }
                match found {
                    Some(item_id) => {
                        pick_item_up(item_id, &mut game.inventory, &mut game.messages, objects);
                    },
                    None => {},
                }
            }
            PlayerAction::DidntTakeTurn
        },
        Command::UseItem { inventory_index, target } => {
            if alive {
                proof {
                    lemma_fighters_live(objects@);
                }
                use_item(
                    inventory_index,
                    target,
                    fov,
                    &mut game.messages,
                    &mut game.inventory,
                    objects,
                );
                PlayerAction::TookTurn
            } else {
                PlayerAction::DidntTakeTurn
            }
        },
        Command::DropItem { inventory_index } => {
            if alive {
                drop_item(inventory_index, &mut game.inventory, &mut game.messages, objects);
            }
            PlayerAction::DidntTakeTurn
        },
        Command::ToggleFullscreen => PlayerAction::DidntTakeTurn,
        Command::Exit => PlayerAction::Exit,
        Command::Other => PlayerAction::DidntTakeTurn,
    }
}

/// Start a fresh run: a player with the standard stats, a freshly
/// generated level with all the generator's guarantees and the player
/// standing on open floor at the first room's centre, an empty
/// inventory, and a log holding only the greeting.
pub fn new_game() -> (r: (Game, Vec<Object>))
    ensures
        world_ok(r.0, r.1@),
        r.1@[PLAYER as int].alive,
        r.1@[PLAYER as int].blocks,
        r.1@[PLAYER as int].name@ == "Player"@,
        r.1@[PLAYER as int].fighter == Some(
            Fighter { max_hp: 30, hp: 30, defence: 2, power: 5, on_death: DeathCallback::Player },
        ),
        r.1@[PLAYER as int].ai is None,
        r.1@[PLAYER as int].item is None,
        // the map is a generator's product, with the player at the
        // centre of its first accepted room
        exists|rooms: Seq<Rect>|
            {
                &&& #[trigger] generated_map(r.0.map, rooms)
                &&& r.1@[PLAYER as int].x as int == room_centre(rooms[0]).0
                &&& r.1@[PLAYER as int].y as int == room_centre(rooms[0]).1
            },
        r.0.map.floor_at(r.1@[PLAYER as int].x as int, r.1@[PLAYER as int].y as int),
        forall|k: int| 1 <= k < r.1@.len() ==> spawned_ok(#[trigger] r.1@[k]),
        r.0.messages@ == seq![(Message::Welcome, Color::Red)],
        r.0.inventory@ == Seq::<Object>::empty(),
{
    let mut player = Object::new("Player", 0, 0, '@', Color::White, true);
    player.fighter = Some(
        Fighter { max_hp: 30, hp: 30, defence: 2, power: 5, on_death: DeathCallback::Player },
    );
    player.alive = true;

    let mut objects: Vec<Object> = Vec::new();
    objects.push(player);
    let (map, rooms) = make_map(&mut objects);
    proof {
        assert(generated_map(map, rooms@) && objects@[PLAYER as int].x as int == room_centre(
            rooms@[0],
        ).0 && objects@[PLAYER as int].y as int == room_centre(rooms@[0]).1);
    }

    let mut messages = Messages::new();
    messages.add(Message::Welcome, Color::Red);

    (Game { map, messages, inventory: Vec::new() }, objects)
}

} // verus!
