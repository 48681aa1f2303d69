//! The entity registry: collision queries, movement, and combat between
//! two entities of the same collection.
//!
//! Entities live in one ordered `Vec<Object>`; index [`crate::PLAYER`]
//! is the player.  Movement silently refuses a blocked destination.

use vstd::prelude::*;
use crate::entity::attack_log;
use crate::entity::attack_obj_post;
use crate::entity::DeathCallback;
use crate::entity::stats_ok;
use crate::entity::Object;
use crate::log::Color;
use crate::log::Message;
use crate::log::Messages;
use crate::tile::in_bounds;
use crate::tile::GameMap;
use crate::MAP_WIDTH;
use crate::MAP_HEIGHT;
use crate::PLAYER;

verus! {

/// Positions strictly inside the map's solid border.
pub open spec fn inner(x: int, y: int) -> bool {
    1 <= x < MAP_WIDTH - 1 && 1 <= y < MAP_HEIGHT - 1
}

/// Every cell of the map's outermost ring is a movement-blocking wall.
/// The generator never carves there, so everything that walks stays in
/// the inner region.
pub open spec fn border_walls(m: GameMap) -> bool {
    forall|x: int, y: int|
        in_bounds(x, y) && !inner(x, y) ==> (#[trigger] m.tile_at(x, y)).blocked
}

/// Every entity stands strictly inside the border.
pub open spec fn objects_inner(objs: Seq<Object>) -> bool {
    forall|k: int|
        0 <= k < objs.len() ==> inner((#[trigger] objs[k]).x as int, objs[k].y as int)
}

/// Every entity's combat statistics are within the world's bounds.
pub open spec fn objects_ok(objs: Seq<Object>) -> bool {
    forall|k: int| 0 <= k < objs.len() ==> stats_ok(#[trigger] objs[k])
}

/// A cell is blocked when its tile is, or when a movement-blocking
/// entity stands on it.
pub open spec fn blocked_at(m: GameMap, objs: Seq<Object>, x: int, y: int) -> bool {
    m.tile_at(x, y).blocked || exists|k: int|
        0 <= k < objs.len() && (#[trigger] objs[k]).blocks && objs[k].x == x && objs[k].y == y
}

/// Whether the cell at `(x, y)` refuses movement.
pub fn is_blocked(x: i32, y: i32, map: &GameMap, objects: &Vec<Object>) -> (r: bool)
    requires
        map.wf(),
        in_bounds(x as int, y as int),
    ensures
        r == blocked_at(*map, objects@, x as int, y as int),
{
    if map.get(x, y).blocked {
        return true;
    }
    let n = objects.len();
    let mut i: usize = 0;
    while i < n
        invariant
            n == objects@.len(),
            0 <= i <= n,
            forall|k: int|
                0 <= k < i ==> !((#[trigger] objects@[k]).blocks && objects@[k].x == x
                    && objects@[k].y == y),
        decreases n - i,
    {
        let o = &objects[i];
        if o.blocks && o.x == x && o.y == y {
            return true;
        }
        i = i + 1;
    }
    false
}

/// How `move_by` leaves the registry: entity `id` stands one delta
/// further unless the destination was blocked, and nobody else moved.
pub open spec fn moved_post(
    m: GameMap,
    objs0: Seq<Object>,
    objs1: Seq<Object>,
    id: int,
    dx: int,
    dy: int,
) -> bool {
    let nx = objs0[id].x + dx;
    let ny = objs0[id].y + dy;
    if blocked_at(m, objs0, nx, ny) {
        objs1 == objs0
    } else {
        objs1 == objs0.update(
            id,
            Object { x: nx as i32, y: ny as i32, ..objs0[id] },
        )
    }
}

/// Move entity `id` by a delta, unless the destination is blocked; a
/// blocked destination is a silent no-op, not an error.
pub fn move_by(id: usize, dx: i32, dy: i32, map: &GameMap, objects: &mut Vec<Object>)
    requires
        map.wf(),
        id < old(objects)@.len(),
        in_bounds(old(objects)@[id as int].x + dx, old(objects)@[id as int].y + dy),
    ensures
        moved_post(*map, old(objects)@, final(objects)@, id as int, dx as int, dy as int),
{
    let (x, y) = objects[id].pos();
    if !is_blocked(x + dx, y + dy, map, objects) {
        let o = &mut objects[id];
        o.set_pos(x + dx, y + dy);
    }
}

/// The unit step that walks one cell toward a target: the direction
/// vector, normalised and rounded to the nearest of the eight grid
/// directions (each axis moves when it carries at least half the
/// distance).
pub open spec fn step_toward(dx: int, dy: int) -> (int, int) {
    (
        if 4 * (dx * dx) >= dx * dx + dy * dy {
            sign(dx)
        } else {
            0
        },
        if 4 * (dy * dy) >= dx * dx + dy * dy {
            sign(dy)
        } else {
            0
        },
    )
}

pub open spec fn sign(d: int) -> int {
    if d > 0 {
        1
    } else if d < 0 {
        -1
    } else {
        0
    }
}

/// Walk entity `id` one step toward `(target_x, target_y)`, stopping
/// against anything in the way.
pub fn move_towards(id: usize, target_x: i32, target_y: i32, map: &GameMap, objects: &mut Vec<Object>)
    requires
        map.wf(),
        id < old(objects)@.len(),
        inner(old(objects)@[id as int].x as int, old(objects)@[id as int].y as int),
        in_bounds(target_x as int, target_y as int),
    ensures
        ({
            let (sx, sy) = step_toward(
                target_x - old(objects)@[id as int].x,
                target_y - old(objects)@[id as int].y,
            );
            moved_post(*map, old(objects)@, final(objects)@, id as int, sx, sy)
        }),
{
    let (x, y) = objects[id].pos();
    let dx: i64 = target_x as i64 - x as i64;
    let dy: i64 = target_y as i64 - y as i64;
    assert(0 <= dx * dx <= 0x100 * 0x100) by (nonlinear_arith)
        requires -0x100 <= dx <= 0x100;
    assert(0 <= dy * dy <= 0x100 * 0x100) by (nonlinear_arith)
        requires -0x100 <= dy <= 0x100;
    let d2: i64 = dx * dx + dy * dy;
    let step_x: i32 = if 4 * (dx * dx) >= d2 {
        if dx > 0 { 1 } else if dx < 0 { -1 } else { 0 }
    } else {
        0
    };
    let step_y: i32 = if 4 * (dy * dy) >= d2 {
        if dy > 0 { 1 } else if dy < 0 { -1 } else { 0 }
    } else {
        0
    };
    proof {
        let s = step_toward(dx as int, dy as int);
        assert(step_x as int == s.0);
        assert(step_y as int == s.1);
    }
    move_by(id, step_x, step_y, map, objects);
}

/// One melee attack between two distinct entities of the registry.
/// Asking for equal or out-of-range indices is a defect in the caller,
/// excluded by precondition rather than handled at run time.
pub fn attack_at(objects: &mut Vec<Object>, attacker: usize, defender: usize, messages: &mut Messages)
    requires
        attacker != defender,
        attacker < old(objects)@.len(),
        defender < old(objects)@.len(),
        stats_ok(old(objects)@[attacker as int]),
        stats_ok(old(objects)@[defender as int]),
        old(objects)@[defender as int].fighter is Some ==> old(objects)@[defender as int].fighter->0.hp
            >= 1,
    ensures
        final(objects)@ == old(objects)@.update(
            defender as int,
            final(objects)@[defender as int],
        ),
        attack_obj_post(
            old(objects)@[attacker as int],
            old(objects)@[defender as int],
            final(objects)@[defender as int],
        ),
        stats_ok(final(objects)@[defender as int]),
        final(messages)@ == old(messages)@ + attack_log(
            old(objects)@[attacker as int],
            old(objects)@[defender as int],
        ),
{
    let ghost objs0 = objects@;
    let mut att = objects.remove(attacker);
    let shifted = if defender > attacker {
        defender - 1
    } else {
        defender
    };
    att.attack(&mut objects[shifted], messages);
    objects.insert(attacker, att);
    proof {
        let d = defender as int;
        let a = attacker as int;
        let d1 = final(objects)@[d];
        assert(final(objects)@ =~= objs0.update(d, d1));
    }
}

/// Every fighter other than the player dies the monster way: only the
/// player carries the player death behaviour.
pub open spec fn monsters_monstrous(objs: Seq<Object>) -> bool {
    forall|k: int|
        1 <= k < objs.len() && (#[trigger] objs[k]).fighter is Some ==> objs[k].fighter->0.on_death
            is Monster
}

/// Entities carrying an item tag are inert: they neither fight nor act.
pub open spec fn items_inert(objs: Seq<Object>) -> bool {
    forall|k: int|
        0 <= k < objs.len() && (#[trigger] objs[k]).item is Some ==> objs[k].fighter is None
            && objs[k].ai is None
}


/// The registry invariant the whole library maintains: a non-empty
/// collection whose entities all have sound statistics and stand inside
/// the border, where only the player dies the player way, item-tagged
/// entities are inert, and the player neither thinks as a monster nor
/// is an item.
pub open spec fn registry_wf(objs: Seq<Object>) -> bool {
    &&& objs.len() >= 1
    &&& objects_ok(objs)
    &&& objects_inner(objs)
    &&& monsters_monstrous(objs)
    &&& items_inert(objs)
    &&& objs[PLAYER as int].ai is None
    &&& objs[PLAYER as int].item is None
}

/// In-place evolution of one entity that combat and item effects
/// perform: it stays put, keeps its item tag, keeps (or loses) its
/// fighter without changing how it dies, gains an AI state only if it
/// could (a fighter being confused, or it had one), and stays
/// statistically sound.
pub open spec fn obj_evolves(o0: Object, o1: Object) -> bool {
    &&& o1.x == o0.x
    &&& o1.y == o0.y
    &&& stats_ok(o1)
    &&& o1.item == o0.item
    &&& (o1.fighter is Some ==> o0.fighter is Some && o1.fighter->0.on_death
        == o0.fighter->0.on_death)
    &&& (o1.ai is Some ==> o0.fighter is Some || o0.ai is Some)
}

/// Pointwise in-place evolution preserves the registry invariant, as
/// long as the player's AI state (always absent) is untouched.
pub proof fn lemma_registry_evolves(objs0: Seq<Object>, objs1: Seq<Object>)
    requires
        registry_wf(objs0),
        objs1.len() == objs0.len(),
        objs1[PLAYER as int].ai == objs0[PLAYER as int].ai,
        forall|k: int| 0 <= k < objs1.len() ==> obj_evolves(objs0[k], #[trigger] objs1[k]),
    ensures
        registry_wf(objs1),
{
    assert forall|k: int| 0 <= k < objs1.len() implies inner(
        (#[trigger] objs1[k]).x as int,
        objs1[k].y as int,
    ) && stats_ok(objs1[k]) by {
        assert(obj_evolves(objs0[k], objs1[k]));
        assert(inner(objs0[k].x as int, objs0[k].y as int));
    }
    assert forall|k: int|
        1 <= k < objs1.len() && (#[trigger] objs1[k]).fighter is Some implies objs1[k].fighter->0.on_death
        is Monster by {
        assert(obj_evolves(objs0[k], objs1[k]));
    }
    assert forall|k: int|
        0 <= k < objs1.len() && (#[trigger] objs1[k]).item is Some implies objs1[k].fighter is None
        && objs1[k].ai is None by {
        assert(obj_evolves(objs0[k], objs1[k]));
        assert(objs0[k].item is Some);
    }
}

/// An entity with combat stats standing on `(x, y)`.
pub open spec fn fighter_at(o: Object, x: int, y: int) -> bool {
    o.fighter is Some && o.x == x && o.y == y
}

/// How the player's directional action resolves: against the first
/// fighter on the target cell it is a melee attack, otherwise a move
/// that a blocked cell silently refuses.
pub open spec fn pmoa_post(
    map: GameMap,
    objs0: Seq<Object>,
    objs1: Seq<Object>,
    log0: Seq<(Message, Color)>,
    log1: Seq<(Message, Color)>,
    dx: int,
    dy: int,
) -> bool {
    let p = objs0[PLAYER as int];
    let tx = p.x + dx;
    let ty = p.y + dy;
    if exists|k: int| 0 <= k < objs0.len() && fighter_at(#[trigger] objs0[k], tx, ty) {
        exists|t: int|
            {
                &&& 0 <= t < objs0.len()
                &&& #[trigger] fighter_at(objs0[t], tx, ty)
                &&& forall|j: int| 0 <= j < t ==> !fighter_at(#[trigger] objs0[j], tx, ty)
                &&& objs1 == objs0.update(t, objs1[t])
                &&& attack_obj_post(p, objs0[t], objs1[t])
                &&& stats_ok(objs1[t])
                &&& log1 == log0 + attack_log(p, objs0[t])
            }
    } else {
        moved_post(map, objs0, objs1, PLAYER as int, dx, dy) && log1 == log0
    }
}

/// Resolve the player's directional action: attack the first fighter on
/// the target cell, or step there.  A zero delta is a defect in the
/// caller (the player would attack itself), excluded by precondition.
pub fn player_move_or_attack(
    dx: i32,
    dy: i32,
    map: &GameMap,
    messages: &mut Messages,
    objects: &mut Vec<Object>,
)
    requires
        map.wf(),
        border_walls(*map),
        registry_wf(old(objects)@),
        -1 <= dx <= 1,
        -1 <= dy <= 1,
        !(dx == 0 && dy == 0),
    ensures
        pmoa_post(
            *map,
            old(objects)@,
            final(objects)@,
            old(messages)@,
            final(messages)@,
            dx as int,
            dy as int,
        ),
        final(objects)@.len() == old(objects)@.len(),
        registry_wf(final(objects)@),
{
    let ghost objs0 = objects@;
    let (px, py) = objects[PLAYER].pos();
    let tx = px + dx;
    let ty = py + dy;

    let mut target_id: Option<usize> = None;
    let n = objects.len();
    let mut i: usize = 0;
    while i < n
        invariant
            n == objects@.len(),
            0 <= i <= n,
            objects@ == objs0,
            match target_id {
                None => forall|j: int|
                    0 <= j < i ==> !fighter_at(#[trigger] objs0[j], tx as int, ty as int),
                Some(t) => {
                    &&& 0 <= t < n
                    &&& fighter_at(objs0[t as int], tx as int, ty as int)
                    &&& forall|j: int|
                        0 <= j < t ==> !fighter_at(#[trigger] objs0[j], tx as int, ty as int)
                },
            },
        decreases n - i,
    {
        if target_id.is_none() {
            let o = &objects[i];
            if o.fighter.is_some() && o.x == tx && o.y == ty {
                target_id = Some(i);
            }
        }
        i = i + 1;
    }

    match target_id {
        Some(t) => {
            attack_at(objects, PLAYER, t, messages);
            proof {
                assert(fighter_at(objs0[t as int], tx as int, ty as int));
                assert(objects@ =~= objs0.update(t as int, objects@[t as int]));
                assert forall|k: int| 0 <= k < objects@.len() implies obj_evolves(
                    objs0[k],
                    #[trigger] objects@[k],
                ) by {
                    if k != t {
                        assert(objects@[k] == objs0[k]);
                    }
                }
                lemma_registry_evolves(objs0, objects@);
            }
        },
        None => {
            move_by(PLAYER, dx, dy, map, objects);
        },
    }
}


} // verus!
