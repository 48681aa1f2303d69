//! The per-monster state machine, evaluated once per consumed turn.
//!
//! A `Basic` monster that the player can see walks toward the player
//! while far away and strikes once adjacent; out of sight it stands
//! still.  A `Confused` monster wanders at random (visibility is not
//! consulted) while its counter runs, then announces its recovery and
//! reverts to the state it was confused out of.

use vstd::prelude::*;
use crate::entity::attack_log;
use crate::entity::attack_obj_post;
use crate::entity::stats_ok;
use crate::entity::Object;
use crate::entity::AI;
use crate::fov::VisibilityField;
use crate::geometry::dist_sq;
use crate::log::Color;
use crate::log::Message;
use crate::log::Messages;
use crate::registry::attack_at;
use crate::registry::border_walls;
use crate::registry::inner;
use crate::registry::move_towards;
use crate::registry::move_by;
use crate::registry::moved_post;
use crate::registry::objects_inner;
use crate::registry::objects_ok;
use crate::registry::registry_wf;
use crate::registry::step_toward;
use crate::rng::rand_range;
use crate::tile::GameMap;
use crate::PLAYER;

verus! {

/// How one `Basic` evaluation leaves the world, per the transition
/// table: step toward the player when visible and at least two tiles
/// away, strike when adjacent and the player still stands, otherwise do
/// nothing.
pub open spec fn basic_post(
    fov: VisibilityField,
    map: GameMap,
    objs0: Seq<Object>,
    objs1: Seq<Object>,
    log0: Seq<(Message, Color)>,
    log1: Seq<(Message, Color)>,
    id: int,
) -> bool {
    let m = objs0[id];
    let p = objs0[PLAYER as int];
    if !fov.visible_at(m.x as int, m.y as int) {
        objs1 == objs0 && log1 == log0
    } else if dist_sq(m.x as int, m.y as int, p.x as int, p.y as int) >= 4 {
        let (sx, sy) = step_toward(p.x - m.x, p.y - m.y);
        moved_post(map, objs0, objs1, id, sx, sy) && log1 == log0
    } else if p.fighter is Some && p.fighter->0.hp > 0 {
        &&& objs1 == objs0.update(PLAYER as int, objs1[PLAYER as int])
        &&& attack_obj_post(m, p, objs1[PLAYER as int])
        &&& stats_ok(objs1[PLAYER as int])
        &&& log1 == log0 + attack_log(m, p)
    } else {
        objs1 == objs0 && log1 == log0
    }
}

/// One turn of plain pursuit for the monster at `id`.
pub fn ai_basic(
    monster_id: usize,
    fov: &VisibilityField,
    map: &GameMap,
    messages: &mut Messages,
    objects: &mut Vec<Object>,
)
    requires
        map.wf(),
        fov.wf(),
        monster_id != PLAYER,
        monster_id < old(objects)@.len(),
        old(objects)@.len() >= 1,
        objects_inner(old(objects)@),
        objects_ok(old(objects)@),
    ensures
        basic_post(
            *fov,
            *map,
            old(objects)@,
            final(objects)@,
            old(messages)@,
            final(messages)@,
            monster_id as int,
        ),
{
    let (monster_x, monster_y) = objects[monster_id].pos();
    if fov.is_visible(monster_x, monster_y) {
        if objects[monster_id].distance_to(&objects[PLAYER]) >= 4 {
            let (px, py) = objects[PLAYER].pos();
            move_towards(monster_id, px, py, map, objects);
        } else {
            let player_standing = match &objects[PLAYER].fighter {
                Some(f) => f.hp > 0,
                None => false,
            };
            if player_standing {
                attack_at(objects, monster_id, PLAYER, messages);
            }
        }
    }
}

/// How one AI evaluation leaves the world, over the whole transition
/// table.  An entity without an AI state does nothing.  `Basic` follows
/// [`basic_post`] and stays `Basic`.  A `Confused` entity with turns
/// remaining takes one random step (each axis off by at most one; a
/// blocked step is a no-op) and counts down, keeping its saved state; a
/// spent confusion announces itself once and reverts.
pub open spec fn ai_take_post(
    fov: VisibilityField,
    map: GameMap,
    objs0: Seq<Object>,
    objs1: Seq<Object>,
    log0: Seq<(Message, Color)>,
    log1: Seq<(Message, Color)>,
    id: int,
) -> bool {
    let m = objs0[id];
    match m.ai {
        None => objs1 == objs0 && log1 == log0,
        Some(a) => match a {
            AI::Basic => basic_post(fov, map, objs0, objs1, log0, log1, id),
            AI::Confused { previous_ai, num_turns } => {
                if num_turns >= 0 {
                    log1 == log0 && exists|dx: int, dy: int, mid: Seq<Object>|
                        {
                            &&& -1 <= dx <= 1
                            &&& -1 <= dy <= 1
                            &&& #[trigger] moved_post(map, objs0, mid, id, dx, dy)
                            &&& objs1 == mid.update(
                                id,
                                Object {
                                    ai: Some(
                                        AI::Confused {
                                            previous_ai: previous_ai,
                                            num_turns: (num_turns - 1) as i32,
                                        },
                                    ),
                                    ..mid[id]
                                },
                            )
                        }
                } else {
                    &&& objs1 == objs0.update(id, Object { ai: Some(*previous_ai), ..m })
                    &&& log1 == log0.push(
                        (Message::NoLongerConfused { monster: m.name }, Color::Red),
                    )
                }
            },
        },
    }
}

/// Evaluate the AI of the entity at `id` for one turn.
pub fn ai_take_turn(
    id: usize,
    fov: &VisibilityField,
    map: &GameMap,
    messages: &mut Messages,
    objects: &mut Vec<Object>,
)
    requires
        map.wf(),
        border_walls(*map),
        fov.wf(),
        id != PLAYER,
        id < old(objects)@.len(),
        registry_wf(old(objects)@),
    ensures
        ai_take_post(
            *fov,
            *map,
            old(objects)@,
            final(objects)@,
            old(messages)@,
            final(messages)@,
            id as int,
        ),
        final(objects)@.len() == old(objects)@.len(),
        registry_wf(final(objects)@),
{
    let ghost objs0 = objects@;
    let mut kind: i32 = 0;
    let mut turns: i32 = 0;
    match &objects[id].ai {
        None => {},
        Some(AI::Basic) => {
            kind = 1;
        },
        Some(AI::Confused { num_turns, .. }) => {
            kind = 2;
            turns = *num_turns;
        },
    }

    if kind == 1 {
        ai_basic(id, fov, map, messages, objects);
        proof {
            lemma_ai_preserves(*fov, *map, objs0, objects@, id as int);
        }
    } else if kind == 2 {
        if turns >= 0 {
            let dx = rand_range(-1, 2);
            let dy = rand_range(-1, 2);
            move_by(id, dx, dy, map, objects);
            let ghost mid = objects@;
            let o = &mut objects[id];
            match &mut o.ai {
                Some(AI::Confused { num_turns, .. }) => {
                    *num_turns = *num_turns - 1;
                },
                _ => {},
            }
            proof {
                assert(objects@ =~= mid.update(id as int, objects@[id as int]));
                assert(objects@[id as int] == (Object {
                    ai: objects@[id as int].ai,
                    ..mid[id as int]
                }));
                lemma_ai_preserves(*fov, *map, objs0, objects@, id as int);
            }
        } else {
            let name = objects[id].name.clone();
            messages.add(Message::NoLongerConfused { monster: name }, Color::Red);
            let o = &mut objects[id];
            let taken = o.ai.take();
            match taken {
                Some(AI::Confused { previous_ai, .. }) => {
                    o.ai = Some(*previous_ai);
                },
                _ => {},
            }
            proof {
                assert(objects@ =~= objs0.update(id as int, objects@[id as int]));
                lemma_ai_preserves(*fov, *map, objs0, objects@, id as int);
            }
        }
    }
}

/// Any single AI evaluation keeps the registry invariant: entities
/// either stand where they stood or on open floor, and evolve in place
/// the way combat and status effects do.
proof fn lemma_ai_preserves(
    fov: VisibilityField,
    map: GameMap,
    objs0: Seq<Object>,
    objs1: Seq<Object>,
    id: int,
)
    requires
        map.wf(),
        border_walls(map),
        0 <= id < objs0.len(),
        registry_wf(objs0),
        objs1.len() == objs0.len(),
        objs1[PLAYER as int].ai == objs0[PLAYER as int].ai,
        forall|k: int|
            0 <= k < objs1.len() ==> {
                let o0 = objs0[k];
                let o1 = #[trigger] objs1[k];
                &&& (o1.x == o0.x && o1.y == o0.y) || map.floor_at(o1.x as int, o1.y as int)
                &&& stats_ok(o1)
                &&& o1.item == o0.item
                &&& (o1.fighter is Some ==> o0.fighter is Some && o1.fighter->0.on_death
                    == o0.fighter->0.on_death)
                &&& (o1.ai is Some ==> o0.fighter is Some || o0.ai is Some)
            },
    ensures
        registry_wf(objs1),
{
    assert forall|k: int| 0 <= k < objs1.len() implies inner(
        (#[trigger] objs1[k]).x as int,
        objs1[k].y as int,
    ) && stats_ok(objs1[k]) by {
        assert(inner(objs0[k].x as int, objs0[k].y as int));
        if !(objs1[k].x == objs0[k].x && objs1[k].y == objs0[k].y) {
            assert(map.floor_at(objs1[k].x as int, objs1[k].y as int));
        }
    }
    assert forall|k: int|
        1 <= k < objs1.len() && (#[trigger] objs1[k]).fighter is Some implies objs1[k].fighter->0.on_death
        is Monster by {
        assert(objs0[k].fighter is Some);
    }
    assert forall|k: int|
        0 <= k < objs1.len() && (#[trigger] objs1[k]).item is Some implies objs1[k].fighter is None
        && objs1[k].ai is None by {
        assert(objs0[k].item is Some);
    }
}

/// How a whole round of AI turns leaves the world: a chain of
/// intermediate snapshots, one per registry entry in ascending index
/// order, each step being exactly the [`ai_take_post`] evaluation of
/// that entry on the state its predecessors left behind.  An entry
/// without an AI state contributes the identity step.
pub open spec fn run_ai_post(
    fov: VisibilityField,
    map: GameMap,
    objs0: Seq<Object>,
    objs1: Seq<Object>,
    log0: Seq<(Message, Color)>,
    log1: Seq<(Message, Color)>,
) -> bool {
    exists|trace: Seq<(Seq<Object>, Seq<(Message, Color)>)>|
        {
            &&& #[trigger] trace.len() == objs0.len() + 1
            &&& trace[0] == (objs0, log0)
            &&& trace[trace.len() - 1] == (objs1, log1)
            &&& forall|i: int|
                0 <= i < trace.len() - 1 ==> ai_take_post(
                    fov,
                    map,
                    (#[trigger] trace[i]).0,
                    trace[i + 1].0,
                    trace[i].1,
                    trace[i + 1].1,
                    i,
                )
        }
}

/// Run one AI turn for every entity that has an AI state, in registry
/// order, after the player's action has fully resolved.
pub fn run_ai_turns(
    fov: &VisibilityField,
    map: &GameMap,
    messages: &mut Messages,
    objects: &mut Vec<Object>,
)
    requires
        map.wf(),
        border_walls(*map),
        fov.wf(),
        registry_wf(old(objects)@),
    ensures
        run_ai_post(
            *fov,
            *map,
            old(objects)@,
            final(objects)@,
            old(messages)@,
            final(messages)@,
        ),
        final(objects)@.len() == old(objects)@.len(),
        registry_wf(final(objects)@),
{
    let ghost mut trace: Seq<(Seq<Object>, Seq<(Message, Color)>)> = seq![(objects@, messages@)];
    let n = objects.len();
    let mut id: usize = 0;
    while id < n
        invariant
            n == objects@.len(),
            0 <= id <= n,
            n >= 1,
            map.wf(),
            border_walls(*map),
            fov.wf(),
            registry_wf(objects@),
            trace.len() == id + 1,
            trace[0] == (old(objects)@, old(messages)@),
            trace[trace.len() - 1] == (objects@, messages@),
            forall|i: int|
                0 <= i < trace.len() - 1 ==> ai_take_post(
                    *fov,
                    *map,
                    (#[trigger] trace[i]).0,
                    trace[i + 1].0,
                    trace[i].1,
                    trace[i + 1].1,
                    i,
                ),
        decreases n - id,
    {
        let has_ai = objects[id].ai.is_some();
        if has_ai {
            ai_take_turn(id, fov, map, messages, objects);
        }
        proof {
            trace = trace.push((objects@, messages@));
        }
        id = id + 1;
    }
    proof {
        assert(trace.len() == old(objects)@.len() + 1);
        assert(trace[trace.len() - 1] == (objects@, messages@));
    }
}

} // verus!
