//! Targeting decisions for ranged items.
//!
//! The blocking poll-render loop lives with the renderer outside the
//! library; each iteration hands the current pointer and key state to
//! [`evaluate_target`], which alone decides whether a tile is accepted,
//! the request is cancelled, or polling continues.  A tile outside the
//! current field of view is never accepted.

use vstd::prelude::*;
use crate::entity::Object;
use crate::fov::VisibilityField;
use crate::geometry::dist_sq;
use crate::tile::in_bounds;
use crate::MAP_WIDTH;
use crate::MAP_HEIGHT;
use crate::PLAYER;

verus! {

/// What a targeting request resolved to, as handed to the item code.
#[derive(Debug, Clone, Copy, PartialEq, Eq, Structural)]
pub enum TargetSelection {
    /// No target was chosen (the item needs none, or the player
    /// cancelled).
    NoSelection,
    /// A tile was chosen.
    Tile(i32, i32),
    /// A monster, by registry index, was chosen.
    Monster(usize),
}

/// The outcome of one polling iteration of the targeting loop.
#[derive(Debug, Clone, Copy, PartialEq, Eq, Structural)]
pub enum TargetDecision {
    /// The pointed-at tile is accepted.
    Select(i32, i32),
    /// The player aborted: no selection.
    Cancel,
    /// Nothing decisive happened; keep polling.
    Pending,
}

/// Whether the pointed-at tile may be selected: on the map, currently
/// visible, and within the given squared range of the player if one was
/// given.
pub open spec fn acceptable_tile(
    fov: VisibilityField,
    player: Object,
    x: int,
    y: int,
    max_range_sq: Option<i64>,
) -> bool {
    &&& x < MAP_WIDTH
    &&& y < MAP_HEIGHT
    &&& fov.visible_at(x, y)
    &&& (max_range_sq is Some ==> dist_sq(player.x as int, player.y as int, x, y)
        <= max_range_sq->0)
}

/// Decide one iteration of the targeting loop from the current pointer
/// and key state.  A primary press on an acceptable tile selects it; a
/// secondary press or the cancel key aborts; anything else keeps the
/// loop going.  A tile outside the current field of view is never
/// selected, whatever else holds of it.
pub fn evaluate_target(
    fov: &VisibilityField,
    objects: &Vec<Object>,
    mouse_x: i32,
    mouse_y: i32,
    lbutton_pressed: bool,
    rbutton_pressed: bool,
    escape_pressed: bool,
    max_range_sq: Option<i64>,
) -> (d: TargetDecision)
    requires
        fov.wf(),
        objects@.len() >= 1,
        0 <= mouse_x <= 0x10000,
        0 <= mouse_y <= 0x10000,
        -0x10000 <= objects@[PLAYER as int].x <= 0x10000,
        -0x10000 <= objects@[PLAYER as int].y <= 0x10000,
    ensures
        d == (if lbutton_pressed && acceptable_tile(
            *fov,
            objects@[PLAYER as int],
            mouse_x as int,
            mouse_y as int,
            max_range_sq,
        ) {
            TargetDecision::Select(mouse_x, mouse_y)
        } else if rbutton_pressed || escape_pressed {
            TargetDecision::Cancel
        } else {
            TargetDecision::Pending
        }),
        d matches TargetDecision::Select(x, y) ==> in_bounds(x as int, y as int)
            && fov.visible_at(x as int, y as int),
{
    let in_fov = mouse_x < MAP_WIDTH && mouse_y < MAP_HEIGHT && fov.is_visible(mouse_x, mouse_y);
    let in_range = match max_range_sq {
        Some(r) => {
            let p = &objects[PLAYER];
            p.distance(mouse_x, mouse_y) <= r
        },
        None => true,
    };
    if lbutton_pressed && in_fov && in_range {
        TargetDecision::Select(mouse_x, mouse_y)
    } else if rbutton_pressed || escape_pressed {
        TargetDecision::Cancel
    } else {
        TargetDecision::Pending
    }
}

/// The first registry entry standing on `(x, y)` that can fight and is
/// not the player; the monster-targeting loop accepts a tile only when
/// this returns one.
pub fn monster_at(objects: &Vec<Object>, x: i32, y: i32) -> (r: Option<usize>)
    ensures
        match r {
            Some(id) => {
                &&& 0 <= id < objects@.len()
                &&& id != PLAYER
                &&& objects@[id as int].fighter is Some
                &&& objects@[id as int].x == x
                &&& objects@[id as int].y == y
                &&& forall|k: int|
                    0 <= k < id && k != PLAYER ==> !((#[trigger] objects@[k]).fighter is Some
                        && objects@[k].x == x && objects@[k].y == y)
            },
            None => forall|k: int|
                0 <= k < objects@.len() && k != PLAYER ==> !((#[trigger] objects@[k]).fighter
                    is Some && objects@[k].x == x && objects@[k].y == y),
        },
{
    let n = objects.len();
    let mut i: usize = 0;
    while i < n
        invariant
            n == objects@.len(),
            0 <= i <= n,
            forall|k: int|
                0 <= k < i && k != PLAYER ==> !((#[trigger] objects@[k]).fighter is Some
                    && objects@[k].x == x && objects@[k].y == y),
        decreases n - i,
    {
        let o = &objects[i];
        if i != PLAYER && o.fighter.is_some() && o.x == x && o.y == y {
            return Some(i);
        }
        i = i + 1;
    }
    None
}

/// The names of the first `n` entities that stand on `(x, y)` and are
/// currently visible, in registry order.
pub open spec fn names_at_spec(
    objs: Seq<Object>,
    fov: VisibilityField,
    x: int,
    y: int,
    n: int,
) -> Seq<String>
    decreases n,
{
    if n <= 0 {
        Seq::empty()
    } else {
        names_at_spec(objs, fov, x, y, n - 1) + (if objs[n - 1].x == x && objs[n - 1].y == y
            && fov.visible_at(x, y) {
            seq![objs[n - 1].name]
        } else {
            Seq::empty()
        })
    }
}

/// The names of every visible entity on the pointed-at cell, oldest
/// registry entry first; the shell joins them into a tooltip line.
pub fn names_under_pointer(
    objects: &Vec<Object>,
    fov: &VisibilityField,
    x: i32,
    y: i32,
) -> (names: Vec<String>)
    requires
        fov.wf(),
        in_bounds(x as int, y as int),
    ensures
        names@ == names_at_spec(objects@, *fov, x as int, y as int, objects@.len() as int),
{
    let mut names: Vec<String> = Vec::new();
    let n = objects.len();
    let mut i: usize = 0;
    while i < n
        invariant
            n == objects@.len(),
            0 <= i <= n,
            fov.wf(),
            in_bounds(x as int, y as int),
            names@ == names_at_spec(objects@, *fov, x as int, y as int, i as int),
        decreases n - i,
    {
        let o = &objects[i];
        if o.x == x && o.y == y && fov.is_visible(x, y) {
            names.push(o.name.clone());
        }
        i = i + 1;
    }
    names
}

} // verus!
