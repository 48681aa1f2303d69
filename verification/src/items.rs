//! Inventory handling and item effects.
//!
//! Picking an item up moves it from the registry into the inventory
//! (refused, with a message, at the capacity of one item per selection
//! letter); dropping reverses that at the player's feet.  Using an item
//! dispatches on its kind and either consumes it or reports the use
//! cancelled.  Each effect's outcome is captured by a spec relation so
//! that the turn logic can speak about it whole.

use vstd::prelude::*;
use crate::entity::take_damage_log;
use crate::entity::take_damage_obj_post;
use crate::entity::Fighter;
use crate::entity::Item;
use crate::entity::Object;
use crate::entity::UseResult;
use crate::entity::AI;
use crate::fov::VisibilityField;
use crate::geometry::dist_sq;
use crate::log::Color;
use crate::log::Message;
use crate::log::Messages;
use crate::registry::lemma_registry_evolves;
use crate::registry::obj_evolves;
use crate::registry::objects_inner;
use crate::registry::objects_ok;
use crate::registry::registry_wf;
use crate::targeting::TargetSelection;
use crate::FIREBALL_DAMAGE;
use crate::FIREBALL_RADIUS;
use crate::HEAL_AMOUNT;
use crate::INVENTORY_CAPACITY;
use crate::LIGHTNING_DAMAGE;
use crate::LIGHTNING_RANGE;
use crate::CONFUSE_NUM_TURNS;
use crate::PLAYER;

verus! {

/// Every fighter in the registry has a hit point to lose: the one
/// precondition damage-dealing items place on the world.
pub open spec fn fighters_live(objs: Seq<Object>) -> bool {
    forall|k: int|
        0 <= k < objs.len() && (#[trigger] objs[k]).fighter is Some ==> objs[k].fighter->0.hp >= 1
}

/// How picking up the registry entry `obj_id` resolves: refused with a
/// message at capacity, otherwise the object moves (by swap-removal)
/// from the registry to the end of the inventory.
pub open spec fn pick_up_post(
    obj_id: int,
    objs0: Seq<Object>,
    objs1: Seq<Object>,
    inv0: Seq<Object>,
    inv1: Seq<Object>,
    log0: Seq<(Message, Color)>,
    log1: Seq<(Message, Color)>,
) -> bool {
    if inv0.len() >= INVENTORY_CAPACITY {
        &&& objs1 == objs0
        &&& inv1 == inv0
        &&& log1 == log0.push(
            (Message::InventoryFull { item: objs0[obj_id].name }, Color::Red),
        )
    } else {
        &&& objs1 == objs0.update(obj_id, objs0.last()).drop_last()
        &&& inv1 == inv0.push(objs0[obj_id])
        &&& log1 == log0.push((Message::PickedUp { item: objs0[obj_id].name }, Color::Green))
    }
}

/// Move the registry entry `obj_id` into the inventory, unless the
/// inventory already holds its full 26 items, in which case nothing
/// changes but a refusal being logged.
pub fn pick_item_up(
    obj_id: usize,
    inventory: &mut Vec<Object>,
    messages: &mut Messages,
    objects: &mut Vec<Object>,
)
    requires
        obj_id < old(objects)@.len(),
        registry_wf(old(objects)@),
        old(objects)@[obj_id as int].item is Some,
    ensures
        registry_wf(final(objects)@),
        pick_up_post(
            obj_id as int,
            old(objects)@,
            final(objects)@,
            old(inventory)@,
            final(inventory)@,
            old(messages)@,
            final(messages)@,
        ),
{
    if inventory.len() >= INVENTORY_CAPACITY {
        let name = objects[obj_id].name.clone();
        messages.add(Message::InventoryFull { item: name }, Color::Red);
    } else {
        let ghost objs0 = objects@;
        let item = objects.swap_remove(obj_id);
        messages.add(Message::PickedUp { item: item.name.clone() }, Color::Green);
        inventory.push(item);
        proof {
            assert forall|k: int| 0 <= k < objects@.len() implies #[trigger] objects@[k]
                == objs0[k] || objects@[k] == objs0[objs0.len() - 1] by {}
            assert(objects@[PLAYER as int] == objs0[PLAYER as int]);
        }
    }
}

/// Take the item at `inv_id` out of the inventory and put it on the
/// floor at the player's feet.
pub fn drop_item(
    inv_id: usize,
    inventory: &mut Vec<Object>,
    messages: &mut Messages,
    objects: &mut Vec<Object>,
)
    requires
        inv_id < old(inventory)@.len(),
        registry_wf(old(objects)@),
        old(inventory)@[inv_id as int].fighter is None,
        old(inventory)@[inv_id as int].ai is None,
    ensures
        registry_wf(final(objects)@),
        final(inventory)@ == old(inventory)@.remove(inv_id as int),
        final(objects)@ == old(objects)@.push(
            Object {
                x: old(objects)@[PLAYER as int].x,
                y: old(objects)@[PLAYER as int].y,
                ..old(inventory)@[inv_id as int]
            },
        ),
        final(messages)@ == old(messages)@.push(
            (Message::Dropped { item: old(inventory)@[inv_id as int].name }, Color::Yellow),
        ),
{
    let mut item = inventory.remove(inv_id);
    let (px, py) = objects[PLAYER].pos();
    item.set_pos(px, py);
    messages.add(Message::Dropped { item: item.name.clone() }, Color::Yellow);
    objects.push(item);
}

/// How a healing potion resolves: cancelled at full health (or without
/// combat stats), otherwise the player recovers up to the fixed amount.
pub open spec fn heal_post(
    objs0: Seq<Object>,
    objs1: Seq<Object>,
    log0: Seq<(Message, Color)>,
    log1: Seq<(Message, Color)>,
    r: UseResult,
) -> bool {
    let p = objs0[PLAYER as int];
    if p.fighter is None {
        &&& r is Cancelled
        &&& objs1 == objs0
        &&& log1 == log0
    } else if p.fighter->0.hp == p.fighter->0.max_hp {
        &&& r is Cancelled
        &&& objs1 == objs0
        &&& log1 == log0.push((Message::AlreadyFullHealth, Color::Orange))
    } else {
        &&& r is UsedUp
        &&& objs1 == objs0.update(
            PLAYER as int,
            Object {
                fighter: Some(
                    Fighter {
                        hp: (if p.fighter->0.hp + HEAL_AMOUNT > p.fighter->0.max_hp {
                            p.fighter->0.max_hp as int
                        } else {
                            p.fighter->0.hp + HEAL_AMOUNT
                        }) as i32,
                        ..p.fighter->0
                    },
                ),
                ..p
            },
        )
        &&& log1 == log0.push((Message::HealingBegins, Color::LightViolet))
    }
}

/// Drink a healing potion: refuse at full health, otherwise restore up
/// to [`crate::HEAL_AMOUNT`] hit points, clamped at the maximum.
pub fn cast_heal(messages: &mut Messages, objects: &mut Vec<Object>) -> (r: UseResult)
    requires
        registry_wf(old(objects)@),
    ensures
        registry_wf(final(objects)@),
        heal_post(old(objects)@, final(objects)@, old(messages)@, final(messages)@, r),
{
    let ghost objs0 = objects@;
    let has_fighter = objects[PLAYER].fighter.is_some();
    if has_fighter {
        let (hp, max_hp) = match &objects[PLAYER].fighter {
            Some(f) => (f.hp, f.max_hp),
            None => (0, 0),
        };
        if hp == max_hp {
            messages.add(Message::AlreadyFullHealth, Color::Orange);
            return UseResult::Cancelled;
        } else {
            messages.add(Message::HealingBegins, Color::LightViolet);
            let p = &mut objects[PLAYER];
            p.heal(HEAL_AMOUNT);
            proof {
                assert(objects@ =~= objs0.update(PLAYER as int, objects@[PLAYER as int]));
                assert forall|k: int| 0 <= k < objects@.len() implies obj_evolves(
                    objs0[k],
                    #[trigger] objects@[k],
                ) by {}
                lemma_registry_evolves(objs0, objects@);
            }
            return UseResult::UsedUp;
        }
    }
    UseResult::Cancelled
}

/// A monster the lightning bolt may strike: it fights, it thinks, it is
/// not the player, and the player can currently see it.
pub open spec fn lightning_candidate(fov: VisibilityField, objs: Seq<Object>, k: int) -> bool {
    &&& 0 <= k < objs.len()
    &&& k != PLAYER
    &&& objs[k].fighter is Some
    &&& objs[k].ai is Some
    &&& fov.visible_at(objs[k].x as int, objs[k].y as int)
}

/// Squared distance from the player to registry entry `k`.
pub open spec fn player_dist_sq(objs: Seq<Object>, k: int) -> int {
    dist_sq(
        objs[PLAYER as int].x as int,
        objs[PLAYER as int].y as int,
        objs[k].x as int,
        objs[k].y as int,
    )
}

/// The entry the bolt strikes: the candidate nearest the player and
/// strictly within the range, earliest index breaking ties.
pub open spec fn lightning_chosen(
    fov: VisibilityField,
    objs: Seq<Object>,
    id: int,
    max_range: int,
) -> bool {
    &&& lightning_candidate(fov, objs, id)
    &&& player_dist_sq(objs, id) < (max_range + 1) * (max_range + 1)
    &&& forall|k: int|
        lightning_candidate(fov, objs, k) && 0 <= k < id ==> player_dist_sq(objs, k)
            > player_dist_sq(objs, id)
    &&& forall|k: int|
        lightning_candidate(fov, objs, k) && id < k < objs.len() ==> player_dist_sq(objs, k)
            >= player_dist_sq(objs, id)
}

/// The nearest visible fighting monster strictly within `max_range`
/// tiles of the player, earliest index on a tie; `None` when no
/// candidate is close enough.
pub fn closest_monster(
    fov: &VisibilityField,
    objects: &Vec<Object>,
    max_range: i32,
) -> (r: Option<usize>)
    requires
        fov.wf(),
        objects@.len() >= 1,
        objects_inner(objects@),
        0 <= max_range <= 0x1000,
    ensures
        match r {
            Some(id) => 0 <= id < objects@.len() && lightning_chosen(
                *fov,
                objects@,
                id as int,
                max_range as int,
            ),
            None => forall|k: int|
                lightning_candidate(*fov, objects@, k) ==> player_dist_sq(objects@, k) >= (
                max_range + 1) * (max_range + 1),
        },
{
    let mut closest_enemy: Option<usize> = None;
    let range_plus: i64 = max_range as i64 + 1;
    assert(0 <= range_plus * range_plus <= 0x1001 * 0x1001) by (nonlinear_arith)
        requires 1 <= range_plus <= 0x1001;
    let mut closest_dist: i64 = range_plus * range_plus;
    let ghost limit = closest_dist as int;

    let n = objects.len();
    let mut id: usize = 0;
    while id < n
        invariant
            n == objects@.len(),
            0 <= id <= n,
            n >= 1,
            fov.wf(),
            objects_inner(objects@),
            limit == (max_range + 1) * (max_range + 1),
            match closest_enemy {
                None => {
                    &&& closest_dist == limit
                    &&& forall|k: int|
                        lightning_candidate(*fov, objects@, k) && k < id ==> player_dist_sq(
                            objects@,
                            k,
                        ) >= limit
                },
                Some(c) => {
                    &&& 0 <= c < id
                    &&& lightning_candidate(*fov, objects@, c as int)
                    &&& closest_dist == player_dist_sq(objects@, c as int)
                    &&& closest_dist < limit
                    &&& forall|k: int|
                        lightning_candidate(*fov, objects@, k) && 0 <= k < c ==> player_dist_sq(
                            objects@,
                            k,
                        ) > closest_dist
                    &&& forall|k: int|
                        lightning_candidate(*fov, objects@, k) && c < k < id ==> player_dist_sq(
                            objects@,
                            k,
                        ) >= closest_dist
                },
            },
        decreases n - id,
    {
        let o = &objects[id];
        if id != PLAYER && o.fighter.is_some() && o.ai.is_some() && fov.is_visible(o.x, o.y) {
            let dist = objects[PLAYER].distance_to(&objects[id]);
            if dist < closest_dist {
                closest_enemy = Some(id);
                closest_dist = dist;
            }
        }
        id = id + 1;
    }
    closest_enemy
}

/// How a lightning scroll resolves: the chosen monster takes the fixed
/// damage down the usual death path, or the scroll is cancelled for
/// want of a target.
pub open spec fn lightning_post(
    fov: VisibilityField,
    objs0: Seq<Object>,
    objs1: Seq<Object>,
    log0: Seq<(Message, Color)>,
    log1: Seq<(Message, Color)>,
    r: UseResult,
) -> bool {
    if exists|id: int| lightning_chosen(fov, objs0, id, LIGHTNING_RANGE as int) {
        exists|id: int|
            {
                &&& #[trigger] lightning_chosen(fov, objs0, id, LIGHTNING_RANGE as int)
                &&& r is UsedUp
                &&& objs1 == objs0.update(id, objs1[id])
                &&& take_damage_obj_post(objs0[id], LIGHTNING_DAMAGE as int, objs1[id])
                &&& log1 == log0.push(
                    (
                        Message::LightningStrikes {
                            target: objs0[id].name,
                            damage: LIGHTNING_DAMAGE,
                        },
                        Color::LightBlue,
                    ),
                ) + take_damage_log(objs0[id], LIGHTNING_DAMAGE as int)
            }
    } else {
        &&& r is Cancelled
        &&& objs1 == objs0
        &&& log1 == log0.push((Message::NoTargets, Color::Red))
    }
}

/// Strike the nearest visible monster within range with the fixed
/// lightning damage, or report that nothing is close enough.
pub fn cast_lightning(
    fov: &VisibilityField,
    messages: &mut Messages,
    objects: &mut Vec<Object>,
) -> (r: UseResult)
    requires
        fov.wf(),
        registry_wf(old(objects)@),
        fighters_live(old(objects)@),
    ensures
        registry_wf(final(objects)@),
        lightning_post(*fov, old(objects)@, final(objects)@, old(messages)@, final(messages)@, r),
{
    let ghost objs0 = objects@;
    let monster_id = closest_monster(fov, objects, LIGHTNING_RANGE);
    match monster_id {
        Some(id) => {
            let name = objects[id].name.clone();
            messages.add(
                Message::LightningStrikes { target: name, damage: LIGHTNING_DAMAGE },
                Color::LightBlue,
            );
            let target = &mut objects[id];
            target.take_damage(LIGHTNING_DAMAGE, messages);
            proof {
                assert(objects@ =~= objs0.update(id as int, objects@[id as int]));
                assert forall|k: int| 0 <= k < objects@.len() implies obj_evolves(
                    objs0[k],
                    #[trigger] objects@[k],
                ) by {}
                lemma_registry_evolves(objs0, objects@);
            }
            UseResult::UsedUp
        },
        None => {
            messages.add(Message::NoTargets, Color::Red);
            UseResult::Cancelled
        },
    }
}

/// The AI state a confused monster will come back to: what it had, or
/// plain pursuit if it had none.
pub open spec fn prev_ai_of(o: Object) -> AI {
    if o.ai is Some {
        o.ai->0
    } else {
        AI::Basic
    }
}

/// How a confusion scroll resolves on a chosen monster, or without one.
pub open spec fn confuse_post(
    target: Option<usize>,
    objs0: Seq<Object>,
    objs1: Seq<Object>,
    log0: Seq<(Message, Color)>,
    log1: Seq<(Message, Color)>,
    r: UseResult,
) -> bool {
    match target {
        Some(id) => {
            &&& r is UsedUp
            &&& objs1 == objs0.update(id as int, objs1[id as int])
            &&& objs1[id as int] == (Object { ai: objs1[id as int].ai, ..objs0[id as int] })
            &&& (objs1[id as int].ai matches Some(AI::Confused { previous_ai, num_turns })
                && *previous_ai == prev_ai_of(objs0[id as int]) && num_turns == CONFUSE_NUM_TURNS)
            &&& log1 == log0.push((Message::ConfusePrompt, Color::LightCyan)).push(
                (Message::Confused { target: objs0[id as int].name }, Color::LightGreen),
            )
        },
        None => {
            &&& r is Cancelled
            &&& objs1 == objs0
            &&& log1 == log0.push((Message::ConfusePrompt, Color::LightCyan)).push(
                (Message::NoEnemyToConfuse, Color::Red),
            )
        },
    }
}

/// Replace the chosen monster's AI with a confusion that remembers the
/// old state for [`crate::CONFUSE_NUM_TURNS`] turns; without a chosen
/// monster the scroll is cancelled.
pub fn cast_confuse(
    target: Option<usize>,
    messages: &mut Messages,
    objects: &mut Vec<Object>,
) -> (r: UseResult)
    requires
        registry_wf(old(objects)@),
        target matches Some(id) ==> id < old(objects)@.len() && id != PLAYER && old(
            objects,
        )@[id as int].fighter is Some,
    ensures
        registry_wf(final(objects)@),
        confuse_post(target, old(objects)@, final(objects)@, old(messages)@, final(messages)@, r),
{
    let ghost objs0 = objects@;
    messages.add(Message::ConfusePrompt, Color::LightCyan);
    match target {
        Some(id) => {
            let name = objects[id].name.clone();
            let o = &mut objects[id];
            let old_ai = match o.ai.take() {
                Some(a) => a,
                None => AI::Basic,
            };
            o.ai = Some(
                AI::Confused { previous_ai: Box::new(old_ai), num_turns: CONFUSE_NUM_TURNS },
            );
            messages.add(Message::Confused { target: name }, Color::LightGreen);
            proof {
                assert(objects@ =~= objs0.update(id as int, objects@[id as int]));
                assert forall|k: int| 0 <= k < objects@.len() implies obj_evolves(
                    objs0[k],
                    #[trigger] objects@[k],
                ) by {}
                lemma_registry_evolves(objs0, objects@);
            }
            UseResult::UsedUp
        },
        None => {
            messages.add(Message::NoEnemyToConfuse, Color::Red);
            UseResult::Cancelled
        },
    }
}

/// Whether the fireball centred on `(cx, cy)` catches this entity: any
/// fighter, the player included, within the blast radius.
pub open spec fn fireball_hit(o: Object, cx: int, cy: int) -> bool {
    o.fighter is Some && dist_sq(o.x as int, o.y as int, cx, cy) <= (FIREBALL_RADIUS
        * FIREBALL_RADIUS) as int
}

/// The burn-and-death announcements for the first `n` registry entries,
/// in registry order.
pub open spec fn fireball_log(objs: Seq<Object>, cx: int, cy: int, n: int) -> Seq<
    (Message, Color),
>
    decreases n,
{
    if n <= 0 {
        Seq::empty()
    } else {
        fireball_log(objs, cx, cy, n - 1) + (if fireball_hit(objs[n - 1], cx, cy) {
            seq![
                (
                    Message::Burned { target: objs[n - 1].name, damage: FIREBALL_DAMAGE },
                    Color::Orange,
                ),
            ] + take_damage_log(objs[n - 1], FIREBALL_DAMAGE as int)
        } else {
            Seq::empty()
        })
    }
}

/// How a fireball resolves: cancelled without a target tile; otherwise
/// every entity in the blast takes the fixed damage exactly once, each
/// independently down the usual death path, and nothing outside the
/// blast is touched.
pub open spec fn fireball_post(
    target: Option<(i32, i32)>,
    objs0: Seq<Object>,
    objs1: Seq<Object>,
    log0: Seq<(Message, Color)>,
    log1: Seq<(Message, Color)>,
    r: UseResult,
) -> bool {
    match target {
        None => {
            &&& r is Cancelled
            &&& objs1 == objs0
            &&& log1 == log0.push((Message::FireballPrompt, Color::LightCyan))
        },
        Some((cx, cy)) => {
            &&& r is UsedUp
            &&& objs1.len() == objs0.len()
            &&& forall|k: int|
                0 <= k < objs0.len() && fireball_hit(#[trigger] objs0[k], cx as int, cy as int)
                    ==> take_damage_obj_post(objs0[k], FIREBALL_DAMAGE as int, objs1[k])
            &&& forall|k: int|
                0 <= k < objs0.len() && !fireball_hit(#[trigger] objs0[k], cx as int, cy as int)
                    ==> objs1[k] == objs0[k]
            &&& log1 == log0.push((Message::FireballPrompt, Color::LightCyan)).push(
                (Message::FireballExplodes { radius: FIREBALL_RADIUS }, Color::Orange),
            ) + fireball_log(objs0, cx as int, cy as int, objs0.len() as int)
        },
    }
}

/// Burn everything with combat stats within the blast radius of the
/// chosen tile, the player included; each victim takes the fixed damage
/// once.  Without a chosen tile the scroll is cancelled.
pub fn cast_fireball(
    target: Option<(i32, i32)>,
    messages: &mut Messages,
    objects: &mut Vec<Object>,
) -> (r: UseResult)
    requires
        registry_wf(old(objects)@),
        fighters_live(old(objects)@),
        target matches Some(t) ==> -0x10000 <= t.0 <= 0x10000 && -0x10000 <= t.1 <= 0x10000,
    ensures
        registry_wf(final(objects)@),
        fireball_post(target, old(objects)@, final(objects)@, old(messages)@, final(messages)@, r),
{
    messages.add(Message::FireballPrompt, Color::LightCyan);
    let (x, y) = match target {
        Some(tile_pos) => tile_pos,
        None => {
            return UseResult::Cancelled;
        },
    };

    messages.add(Message::FireballExplodes { radius: FIREBALL_RADIUS }, Color::Orange);
    let ghost objs0 = objects@;
    let ghost log_head = messages@;
    let n = objects.len();
    let mut k: usize = 0;
    while k < n
        invariant
            n == objs0.len(),
            objects@.len() == n,
            0 <= k <= n,
            objects_inner(objs0),
            objects_ok(objs0),
            fighters_live(objs0),
            -0x10000 <= x <= 0x10000,
            -0x10000 <= y <= 0x10000,
            forall|j: int| k <= j < n ==> #[trigger] objects@[j] == objs0[j],
            forall|j: int|
                0 <= j < k && fireball_hit(#[trigger] objs0[j], x as int, y as int)
                    ==> take_damage_obj_post(objs0[j], FIREBALL_DAMAGE as int, objects@[j]),
            forall|j: int|
                0 <= j < k && !fireball_hit(#[trigger] objs0[j], x as int, y as int)
                    ==> objects@[j] == objs0[j],
            messages@ == log_head + fireball_log(objs0, x as int, y as int, k as int),
        decreases n - k,
    {
        let in_blast = {
            let o = &objects[k];
            o.distance(x, y) <= (FIREBALL_RADIUS * FIREBALL_RADIUS) as i64 && o.fighter.is_some()
        };
        if in_blast {
            let name = objects[k].name.clone();
            messages.add(Message::Burned { target: name, damage: FIREBALL_DAMAGE }, Color::Orange);
            let o = &mut objects[k];
            o.take_damage(FIREBALL_DAMAGE, messages);
        }
        k = k + 1;
    }
    proof {
        assert forall|j: int| 0 <= j < objects@.len() implies obj_evolves(
            objs0[j],
            #[trigger] objects@[j],
        ) by {}
        lemma_registry_evolves(objs0, objects@);
    }
    UseResult::UsedUp
}

/// How using the inventory item at `inv_id` resolves, whatever its
/// kind: the effect runs, then a consumed item leaves the inventory
/// while a cancelled use is announced; an entry with no item kind only
/// draws a refusal.
pub open spec fn use_item_post(
    inv_id: int,
    target: TargetSelection,
    fov: VisibilityField,
    objs0: Seq<Object>,
    objs1: Seq<Object>,
    inv0: Seq<Object>,
    inv1: Seq<Object>,
    log0: Seq<(Message, Color)>,
    log1: Seq<(Message, Color)>,
) -> bool {
    match inv0[inv_id].item {
        None => {
            &&& objs1 == objs0
            &&& inv1 == inv0
            &&& log1 == log0.push(
                (Message::CannotUse { item: inv0[inv_id].name }, Color::White),
            )
        },
        Some(kind) => exists|res: UseResult, mid: Seq<(Message, Color)>|
            {
                &&& #[trigger] cast_post(kind, target, fov, objs0, objs1, log0, mid, res)
                &&& (res is UsedUp ==> inv1 == inv0.remove(inv_id) && log1 == mid)
                &&& (res is Cancelled ==> inv1 == inv0 && log1 == mid.push(
                    (Message::Cancelled, Color::White),
                ))
            },
    }
}

/// The per-kind effect relation `use_item` dispatches on.
pub open spec fn cast_post(
    kind: Item,
    target: TargetSelection,
    fov: VisibilityField,
    objs0: Seq<Object>,
    objs1: Seq<Object>,
    log0: Seq<(Message, Color)>,
    log1: Seq<(Message, Color)>,
    r: UseResult,
) -> bool {
    match kind {
        Item::Heal => heal_post(objs0, objs1, log0, log1, r),
        Item::Lightning => lightning_post(fov, objs0, objs1, log0, log1, r),
        Item::Fireball => fireball_post(
            match target {
                TargetSelection::Tile(x, y) => Some((x, y)),
                _ => None,
            },
            objs0,
            objs1,
            log0,
            log1,
            r,
        ),
        Item::Confuse => confuse_post(
            match target {
                TargetSelection::Monster(id) => Some(id),
                _ => None,
            },
            objs0,
            objs1,
            log0,
            log1,
            r,
        ),
    }
}

/// Use the inventory item at `inv_id`, with whatever target the
/// targeting loop resolved for it; consumed items leave the inventory,
/// cancelled uses are announced, and an entry that is no usable item
/// only draws a refusal.
pub fn use_item(
    inv_id: usize,
    target: TargetSelection,
    fov: &VisibilityField,
    messages: &mut Messages,
    inventory: &mut Vec<Object>,
    objects: &mut Vec<Object>,
)
    requires
        inv_id < old(inventory)@.len(),
        fov.wf(),
        registry_wf(old(objects)@),
        fighters_live(old(objects)@),
        target matches TargetSelection::Monster(id) ==> id < old(objects)@.len() && id != PLAYER
            && old(objects)@[id as int].fighter is Some,
        target matches TargetSelection::Tile(x, y) ==> -0x10000 <= x <= 0x10000 && -0x10000 <= y
            <= 0x10000,
    ensures
        registry_wf(final(objects)@),
        use_item_post(
            inv_id as int,
            target,
            *fov,
            old(objects)@,
            final(objects)@,
            old(inventory)@,
            final(inventory)@,
            old(messages)@,
            final(messages)@,
        ),
{
    let kind = inventory[inv_id].item;
    match kind {
        Some(item_kind) => {
            let result = match item_kind {
                Item::Heal => cast_heal(messages, objects),
                Item::Lightning => cast_lightning(fov, messages, objects),
                Item::Fireball => {
                    let tile = match target {
                        TargetSelection::Tile(x, y) => Some((x, y)),
                        _ => None,
                    };
                    cast_fireball(tile, messages, objects)
                },
                Item::Confuse => {
                    let monster = match target {
                        TargetSelection::Monster(id) => Some(id),
                        _ => None,
                    };
                    cast_confuse(monster, messages, objects)
                },
            };
            let ghost mid = messages@;
            match result {
                UseResult::UsedUp => {
                    inventory.remove(inv_id);
                },
                UseResult::Cancelled => {
                    messages.add(Message::Cancelled, Color::White);
                },
            }
            proof {
                assert(cast_post(
                    item_kind,
                    target,
                    *fov,
                    old(objects)@,
                    objects@,
                    old(messages)@,
                    mid,
                    result,
                ));
            }
        },
        None => {
            let name = inventory[inv_id].name.clone();
            messages.add(Message::CannotUse { item: name }, Color::White);
        },
    }
}

} // verus!
