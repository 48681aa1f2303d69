//! Procedural level generation.
//!
//! Up to [`crate::MAX_ROOMS`] placement attempts each sample a room size
//! and position; a room that overlaps an accepted one (edges included)
//! is rejected.  Each accepted room is carved out of the rock, seeded
//! with monsters and items, and joined to the previously accepted room
//! by an L-shaped tunnel, so every accepted room is reachable from the
//! first through carved floor alone.  The player starts at the centre of
//! the first room.

use vstd::prelude::*;
use crate::entity::stats_ok;
use crate::entity::AI;
use crate::entity::DeathCallback;
use crate::entity::Fighter;
use crate::entity::Item;
use crate::entity::Object;
use crate::geometry::lemma_overlap_symmetric;
use crate::geometry::rects_overlap;
use crate::geometry::Rect;
use crate::log::Color;
use crate::path::connected;
use crate::path::floors_grow;
use crate::path::lemma_connected_grow;
use crate::path::lemma_connected_refl;
use crate::path::lemma_connected_sym;
use crate::path::lemma_connected_trans;
use crate::path::lemma_h_segment;
use crate::path::lemma_v_segment;
use crate::registry::border_walls;
use crate::registry::inner;
use crate::registry::items_inert;
use crate::registry::monsters_monstrous;
use crate::registry::objects_inner;
use crate::registry::objects_ok;
use crate::registry::is_blocked;
use crate::rng::rand_bool;
use crate::rng::rand_range;
use crate::tile::in_bounds;
use crate::tile::GameMap;
use crate::tile::Tile;
use crate::MAP_WIDTH;
use crate::MAP_HEIGHT;
use crate::MAX_ROOMS;
use crate::MAX_ROOM_MONSTERS;
use crate::MAX_ROOM_ITEMS;
use crate::ROOM_MIN_SIZE;
use crate::ROOM_MAX_SIZE;
use crate::PLAYER;

verus! {

/// A room fits on the map, leaves the border standing, and is wide
/// enough for its centre to lie strictly inside it.
pub open spec fn room_ok(r: Rect) -> bool {
    &&& 0 <= r.x1
    &&& r.x1 + 2 <= r.x2 <= MAP_WIDTH - 1
    &&& 0 <= r.y1
    &&& r.y1 + 2 <= r.y2 <= MAP_HEIGHT - 1
}

/// The cells a room's carving opens up: everything strictly inside its
/// rectangle.
pub open spec fn interior_of(r: Rect, x: int, y: int) -> bool {
    r.x1 < x < r.x2 && r.y1 < y < r.y2
}

/// The centre cell of a room.
pub open spec fn room_centre(r: Rect) -> (int, int) {
    ((r.x1 + r.x2) / 2, (r.y1 + r.y2) / 2)
}

/// The untouched rock every cell starts as.
pub open spec fn wall_tile() -> Tile {
    Tile { blocked: true, explored: false, block_sight: true }
}

/// The open floor carving produces.
pub open spec fn floor_tile() -> Tile {
    Tile { blocked: false, explored: false, block_sight: false }
}

/// A cell of the horizontal run along `row` between columns `xa` and
/// `xb`, whichever order they come in, endpoints included.
pub open spec fn on_h_run(x: int, y: int, xa: int, xb: int, row: int) -> bool {
    y == row && (if xa <= xb {
        xa <= x <= xb
    } else {
        xb <= x <= xa
    })
}

/// A cell of the vertical run along `col` between rows `ya` and `yb`,
/// whichever order they come in, endpoints included.
pub open spec fn on_v_run(x: int, y: int, ya: int, yb: int, col: int) -> bool {
    x == col && (if ya <= yb {
        ya <= y <= yb
    } else {
        yb <= y <= ya
    })
}

/// A cell the L-shaped link between two centres may carve, whichever
/// way its bend was drawn.
pub open spec fn on_link(c0: (int, int), c1: (int, int), x: int, y: int) -> bool {
    ||| on_h_run(x, y, c0.0, c1.0, c0.1)
    ||| on_v_run(x, y, c0.1, c1.1, c1.0)
    ||| on_v_run(x, y, c0.1, c1.1, c0.0)
    ||| on_h_run(x, y, c0.0, c1.0, c1.1)
}

/// The cells generation is allowed to open: the interiors of accepted
/// rooms and the link between each room and its predecessor.
pub open spec fn carved_cell(rooms: Seq<Rect>, x: int, y: int) -> bool {
    ||| exists|i: int| 0 <= i < rooms.len() && interior_of(#[trigger] rooms[i], x, y)
    ||| exists|i: int|
        1 <= i < rooms.len() && on_link(
            room_centre(rooms[i - 1]),
            room_centre(#[trigger] rooms[i]),
            x,
            y,
        )
}

/// Generation only turns rock into floor, and only inside rooms or
/// along their links: every other cell is still the untouched wall.
pub open spec fn carve_conserved(map: GameMap, rooms: Seq<Rect>) -> bool {
    forall|x: int, y: int|
        in_bounds(x, y) ==> {
            let t = #[trigger] map.tile_at(x, y);
            t == wall_tile() || (t == floor_tile() && carved_cell(rooms, x, y))
        }
}

/// Everything the generator guarantees of a finished level: between one
/// and [`crate::MAX_ROOMS`] well-formed rooms, pairwise non-overlapping
/// with edges counted, every centre reachable from the first over open
/// floor, room interiors carved, and nothing opened outside rooms and
/// their links.
pub open spec fn generated_map(map: GameMap, rooms: Seq<Rect>) -> bool {
    &&& map.wf()
    &&& border_walls(map)
    &&& rooms.len() >= 1
    &&& rooms.len() <= MAX_ROOMS
    &&& forall|i: int| 0 <= i < rooms.len() ==> room_ok(#[trigger] rooms[i])
    &&& forall|i: int, j: int| 0 <= i < j < rooms.len() ==> !rects_overlap(rooms[i], rooms[j])
    &&& forall|i: int|
        0 <= i < rooms.len() ==> connected(
            map,
            room_centre(rooms[0]),
            room_centre(#[trigger] rooms[i]),
        )
    &&& forall|i: int, x: int, y: int| #![trigger rooms[i], map.floor_at(x, y)]
        0 <= i < rooms.len() && interior_of(rooms[i], x, y) ==> map.floor_at(x, y)
    &&& carve_conserved(map, rooms)
}

/// A monster the generator seeds: it fights, thinks, blocks the way,
/// and dies the monster way.
pub open spec fn monster_like(o: Object) -> bool {
    &&& o.fighter is Some
    &&& o.fighter->0.on_death is Monster
    &&& o.ai is Some
    &&& o.alive
    &&& o.blocks
    &&& o.item is None
}

/// An item lying on the floor: inert until picked up.
pub open spec fn item_like(o: Object) -> bool {
    o.item is Some && o.fighter is None && o.ai is None && !o.alive && !o.blocks
}

/// Everything the generator adds to the registry is a well-formed
/// monster or item standing inside the border.
pub open spec fn spawned_ok(o: Object) -> bool {
    &&& stats_ok(o)
    &&& inner(o.x as int, o.y as int)
    &&& (monster_like(o) || item_like(o))
}

/// Carve the interior of a room to open floor; its one-tile border and
/// everything else stays as it was.
pub fn create_room(room: Rect, map: &mut GameMap)
    requires
        old(map).wf(),
        room_ok(room),
    ensures
        final(map).wf(),
        floors_grow(*old(map), *final(map)),
        forall|x: int, y: int|
            in_bounds(x, y) && !interior_of(room, x, y) ==> #[trigger] final(map).tile_at(x, y)
                == old(map).tile_at(x, y),
        forall|x: int, y: int|
            interior_of(room, x, y) ==> #[trigger] final(map).tile_at(x, y) == floor_tile(),
        forall|x: int, y: int| interior_of(room, x, y) ==> #[trigger] final(map).floor_at(x, y),
{
    let mut x: i32 = room.x1 + 1;
    while x < room.x2
        invariant
            map.wf(),
            room_ok(room),
            room.x1 + 1 <= x <= room.x2,
            forall|i: int, j: int|
                in_bounds(i, j) ==> #[trigger] map.tile_at(i, j) == (if interior_of(room, i, j)
                    && i < x {
                    Tile { blocked: false, explored: false, block_sight: false }
                } else {
                    old(map).tile_at(i, j)
                }),
        decreases room.x2 - x,
    {
        let mut y: i32 = room.y1 + 1;
        while y < room.y2
            invariant
                map.wf(),
                room_ok(room),
                room.x1 + 1 <= x < room.x2,
                room.y1 + 1 <= y <= room.y2,
                forall|i: int, j: int|
                    in_bounds(i, j) ==> #[trigger] map.tile_at(i, j) == (if interior_of(room, i, j)
                        && (i < x || (i == x && j < y)) {
                        Tile { blocked: false, explored: false, block_sight: false }
                    } else {
                        old(map).tile_at(i, j)
                    }),
            decreases room.y2 - y,
        {
            map.set(x, y, Tile::empty());
            y = y + 1;
        }
        x = x + 1;
    }
}

/// Carve a horizontal tunnel along row `y`, both endpoints included.
pub fn create_h_tunnel(x1: i32, x2: i32, y: i32, map: &mut GameMap)
    requires
        old(map).wf(),
        in_bounds(x1 as int, y as int),
        in_bounds(x2 as int, y as int),
    ensures
        final(map).wf(),
        forall|i: int, j: int|
            in_bounds(i, j) ==> #[trigger] final(map).tile_at(i, j) == (if j == y && (if x1 <= x2 {
                x1 <= i <= x2
            } else {
                x2 <= i <= x1
            }) {
                Tile { blocked: false, explored: false, block_sight: false }
            } else {
                old(map).tile_at(i, j)
            }),
{
    let lo = if x1 < x2 { x1 } else { x2 };
    let hi = if x1 < x2 { x2 } else { x1 };
    let mut x: i32 = lo;
    while x <= hi
        invariant
            map.wf(),
            lo <= x <= hi + 1,
            hi < MAP_WIDTH,
            0 <= lo,
            0 <= y < MAP_HEIGHT,
            forall|i: int, j: int|
                in_bounds(i, j) ==> #[trigger] map.tile_at(i, j) == (if j == y && lo <= i < x {
                    Tile { blocked: false, explored: false, block_sight: false }
                } else {
                    old(map).tile_at(i, j)
                }),
        decreases hi + 1 - x,
    {
        map.set(x, y, Tile::empty());
        x = x + 1;
    }
}

/// Carve a vertical tunnel along column `x`, both endpoints included.
pub fn create_v_tunnel(y1: i32, y2: i32, x: i32, map: &mut GameMap)
    requires
        old(map).wf(),
        in_bounds(x as int, y1 as int),
        in_bounds(x as int, y2 as int),
    ensures
        final(map).wf(),
        forall|i: int, j: int|
            in_bounds(i, j) ==> #[trigger] final(map).tile_at(i, j) == (if i == x && (if y1 <= y2 {
                y1 <= j <= y2
            } else {
                y2 <= j <= y1
            }) {
                Tile { blocked: false, explored: false, block_sight: false }
            } else {
                old(map).tile_at(i, j)
            }),
{
    let lo = if y1 < y2 { y1 } else { y2 };
    let hi = if y1 < y2 { y2 } else { y1 };
    let mut y: i32 = lo;
    while y <= hi
        invariant
            map.wf(),
            lo <= y <= hi + 1,
            hi < MAP_HEIGHT,
            0 <= lo,
            0 <= x < MAP_WIDTH,
            forall|i: int, j: int|
                in_bounds(i, j) ==> #[trigger] map.tile_at(i, j) == (if i == x && lo <= j < y {
                    Tile { blocked: false, explored: false, block_sight: false }
                } else {
                    old(map).tile_at(i, j)
                }),
        decreases hi + 1 - y,
    {
        map.set(x, y, Tile::empty());
        y = y + 1;
    }
}

/// Seed one freshly carved room with a random handful of monsters and
/// items.  Each placement rolls a free cell; a blocked roll places
/// nothing.  Everything placed stands in the room's interior and is a
/// well-formed monster or item; nothing already present changes.
pub fn place_objects(room: Rect, map: &GameMap, objects: &mut Vec<Object>)
    requires
        map.wf(),
        room_ok(room),
    ensures
        final(objects)@.len() >= old(objects)@.len(),
        forall|k: int|
            0 <= k < old(objects)@.len() ==> #[trigger] final(objects)@[k] == old(objects)@[k],
        forall|k: int|
            old(objects)@.len() <= k < final(objects)@.len() ==> spawned_ok(
                #[trigger] final(objects)@[k],
            ) && interior_of(room, final(objects)@[k].x as int, final(objects)@[k].y as int),
        final(objects)@.len() <= old(objects)@.len() + (MAX_ROOM_MONSTERS + MAX_ROOM_ITEMS),
{
    let ghost n0 = objects@.len();
    let num_monsters = rand_range(0, MAX_ROOM_MONSTERS + 1);
    let mut placed: i32 = 0;
    while placed < num_monsters
        invariant
            map.wf(),
            room_ok(room),
            0 <= placed <= num_monsters <= MAX_ROOM_MONSTERS,
            objects@.len() <= n0 + placed,
            objects@.len() >= n0,
            forall|k: int| 0 <= k < n0 ==> #[trigger] objects@[k] == old(objects)@[k],
            forall|k: int|
                n0 <= k < objects@.len() ==> spawned_ok(#[trigger] objects@[k]) && interior_of(
                    room,
                    objects@[k].x as int,
                    objects@[k].y as int,
                ),
        decreases num_monsters - placed,
    {
        let x = rand_range(room.x1 + 1, room.x2);
        let y = rand_range(room.y1 + 1, room.y2);
        if !is_blocked(x, y, map, objects) {
            let roll = rand_range(0, 100);
            let mut monster = if roll < 80 {
                let mut orc = Object::new("Orc", x, y, 'o', Color::DesaturatedGreen, true);
                orc.fighter = Some(
                    Fighter {
                        max_hp: 10,
                        hp: 10,
                        defence: 0,
                        power: 3,
                        on_death: DeathCallback::Monster,
                    },
                );
                orc.ai = Some(AI::Basic);
                orc
            } else {
                let mut troll = Object::new("Troll", x, y, 'T', Color::DarkerGreen, true);
                troll.fighter = Some(
                    Fighter {
                        max_hp: 16,
                        hp: 16,
                        defence: 1,
                        power: 4,
                        on_death: DeathCallback::Monster,
                    },
                );
                troll.ai = Some(AI::Basic);
                troll
            };
            monster.alive = true;
            objects.push(monster);
        }
        placed = placed + 1;
    }
    let num_items = rand_range(0, MAX_ROOM_ITEMS + 1);
    let ghost n1 = objects@.len();
    let mut placed_items: i32 = 0;
    while placed_items < num_items
        invariant
            map.wf(),
            room_ok(room),
            0 <= placed_items <= num_items <= MAX_ROOM_ITEMS,
            n1 <= n0 + MAX_ROOM_MONSTERS,
            objects@.len() <= n1 + placed_items,
            objects@.len() >= n0,
            forall|k: int| 0 <= k < n0 ==> #[trigger] objects@[k] == old(objects)@[k],
            forall|k: int|
                n0 <= k < objects@.len() ==> spawned_ok(#[trigger] objects@[k]) && interior_of(
                    room,
                    objects@[k].x as int,
                    objects@[k].y as int,
                ),
        decreases num_items - placed_items,
    {
        let x = rand_range(room.x1 + 1, room.x2);
        let y = rand_range(room.y1 + 1, room.y2);
        if !is_blocked(x, y, map, objects) {
            let dice = rand_range(0, 100);
            let mut item_obj = if dice < 70 {
                let mut pot = Object::new("healing potion", x, y, '!', Color::Violet, false);
                pot.item = Some(Item::Heal);
                pot
            } else if dice < 80 {
                let mut scroll = Object::new(
                    "scroll of lightning",
                    x,
                    y,
                    '#',
                    Color::LightYellow,
                    false,
                );
                scroll.item = Some(Item::Lightning);
                scroll
            } else if dice < 90 {
                let mut scroll = Object::new(
                    "scroll of fireball",
                    x,
                    y,
                    '#',
                    Color::LightYellow,
                    false,
                );
                scroll.item = Some(Item::Fireball);
                scroll
            } else {
                let mut scroll = Object::new(
                    "scroll of confusion",
                    x,
                    y,
                    '#',
                    Color::LightYellow,
                    false,
                );
                scroll.item = Some(Item::Confuse);
                scroll
            };
            objects.push(item_obj);
        }
        placed_items = placed_items + 1;
    }
}

/// Join two room centres with an L-shaped tunnel, bending one way or
/// the other at random.  Carving only opens floor, never touches the
/// border, and afterwards the two centres are connected.
fn link_rooms(prev_x: i32, prev_y: i32, sx: i32, sy: i32, map: &mut GameMap)
    requires
        old(map).wf(),
        inner(prev_x as int, prev_y as int),
        inner(sx as int, sy as int),
    ensures
        final(map).wf(),
        floors_grow(*old(map), *final(map)),
        forall|x: int, y: int|
            in_bounds(x, y) && !inner(x, y) ==> #[trigger] final(map).tile_at(x, y) == old(
                map,
            ).tile_at(x, y),
        forall|x: int, y: int|
            in_bounds(x, y) ==> #[trigger] final(map).tile_at(x, y) == old(map).tile_at(x, y) || (
            final(map).tile_at(x, y) == floor_tile() && on_link(
                (prev_x as int, prev_y as int),
                (sx as int, sy as int),
                x,
                y,
            )),
        connected(*final(map), (prev_x as int, prev_y as int), (sx as int, sy as int)),
{
    let ghost map_r = *map;
    if rand_bool() {
        create_h_tunnel(prev_x, sx, prev_y, map);
        let ghost map_h = *map;
        create_v_tunnel(prev_y, sy, sx, map);
        proof {
            assert(floors_grow(map_r, map_h));
            assert(floors_grow(map_h, *map));
            lemma_bend(map_h, *map, (prev_x as int, prev_y as int), (sx as int, sy as int), true);
        }
    } else {
        create_v_tunnel(prev_y, sy, prev_x, map);
        let ghost map_v = *map;
        create_h_tunnel(prev_x, sx, sy, map);
        proof {
            assert(floors_grow(map_r, map_v));
            assert(floors_grow(map_v, *map));
            lemma_bend(map_v, *map, (prev_x as int, prev_y as int), (sx as int, sy as int), false);
        }
    }
}

/// The centre of a well-formed room lies strictly inside it.
proof fn lemma_centre_interior(r: Rect)
    requires
        room_ok(r),
    ensures
        interior_of(r, room_centre(r).0, room_centre(r).1),
        inner(room_centre(r).0, room_centre(r).1),
{
}

/// Interior cells of a well-formed room lie strictly inside the map
/// border.
proof fn lemma_interior_inner(r: Rect, x: int, y: int)
    requires
        room_ok(r),
        interior_of(r, x, y),
    ensures
        inner(x, y),
        in_bounds(x, y),
{
}

/// A cell carved for some accepted room or link is still accounted for
/// after one more room is accepted.
proof fn lemma_carved_push(rooms: Seq<Rect>, r: Rect, x: int, y: int)
    requires
        carved_cell(rooms, x, y),
    ensures
        carved_cell(rooms.push(r), x, y),
{
    let rs = rooms.push(r);
    if exists|i: int| 0 <= i < rooms.len() && interior_of(#[trigger] rooms[i], x, y) {
        let i = choose|i: int| 0 <= i < rooms.len() && interior_of(#[trigger] rooms[i], x, y);
        assert(interior_of(rs[i], x, y));
    } else {
        let i = choose|i: int|
            1 <= i < rooms.len() && on_link(
                room_centre(rooms[i - 1]),
                room_centre(#[trigger] rooms[i]),
                x,
                y,
            );
        assert(rs[i] == rooms[i] && rs[i - 1] == rooms[i - 1]);
        assert(on_link(room_centre(rs[i - 1]), room_centre(rs[i]), x, y));
    }
}

/// Accepting one room keeps carving conserved: the room's interior and
/// its link to the previous centre are the only cells newly opened.
/// `map0` is the map before the room was carved, `map1` the map after
/// the carving, `m` the map after the optional link.
proof fn lemma_conserve_accept(
    map0: GameMap,
    map1: GameMap,
    m: GameMap,
    rooms0: Seq<Rect>,
    new_room: Rect,
    c_prev: (int, int),
    linked: bool,
)
    requires
        carve_conserved(map0, rooms0),
        forall|x: int, y: int|
            in_bounds(x, y) && !interior_of(new_room, x, y) ==> #[trigger] map1.tile_at(x, y)
                == map0.tile_at(x, y),
        forall|x: int, y: int|
            interior_of(new_room, x, y) ==> #[trigger] map1.tile_at(x, y) == floor_tile(),
        !linked ==> m == map1,
        linked ==> rooms0.len() >= 1 && c_prev == room_centre(rooms0[rooms0.len() - 1]),
        linked ==> forall|x: int, y: int|
            in_bounds(x, y) ==> #[trigger] m.tile_at(x, y) == map1.tile_at(x, y) || (m.tile_at(
                x,
                y,
            ) == floor_tile() && on_link(c_prev, room_centre(new_room), x, y)),
    ensures
        carve_conserved(m, rooms0.push(new_room)),
{
    let rs = rooms0.push(new_room);
    assert forall|x: int, y: int| in_bounds(x, y) implies {
        let t = #[trigger] m.tile_at(x, y);
        t == wall_tile() || (t == floor_tile() && carved_cell(rs, x, y))
    } by {
        let last = rs.len() - 1;
        assert(rs[last] == new_room);
        if linked && m.tile_at(x, y) != map1.tile_at(x, y) {
            assert(m.tile_at(x, y) == floor_tile());
            assert(rs[last - 1] == rooms0[rooms0.len() - 1]);
            assert(on_link(room_centre(rs[last - 1]), room_centre(rs[last]), x, y));
        } else {
            assert(m.tile_at(x, y) == map1.tile_at(x, y));
            if interior_of(new_room, x, y) {
                assert(interior_of(rs[last], x, y));
            } else {
                assert(map1.tile_at(x, y) == map0.tile_at(x, y));
                if map0.tile_at(x, y) != wall_tile() {
                    lemma_carved_push(rooms0, new_room, x, y);
                }
            }
        }
    }
}

/// Accept one non-overlapping room: carve it, seed it, place the
/// player if it is the first, and tunnel it to the previous room's
/// centre otherwise.  Re-establishes every generator invariant with the
/// new room appended.
#[verifier::rlimit(100)]
fn accept_room(
    new_room: Rect,
    map: &mut GameMap,
    rooms: &mut Vec<Rect>,
    objects: &mut Vec<Object>,
)
    requires
        old(map).wf(),
        border_walls(*old(map)),
        room_ok(new_room),
        forall|i: int| 0 <= i < old(rooms)@.len() ==> room_ok(#[trigger] old(rooms)@[i]),
        forall|i: int, j: int|
            0 <= i < j < old(rooms)@.len() ==> !rects_overlap(old(rooms)@[i], old(rooms)@[j]),
        forall|i: int|
            0 <= i < old(rooms)@.len() ==> !rects_overlap(new_room, #[trigger] old(rooms)@[i]),
        forall|i: int|
            0 <= i < old(rooms)@.len() ==> connected(
                *old(map),
                room_centre(old(rooms)@[0]),
                room_centre(#[trigger] old(rooms)@[i]),
            ),
        forall|i: int, x: int, y: int| #![trigger old(rooms)@[i], old(map).floor_at(x, y)]
            0 <= i < old(rooms)@.len() && interior_of(old(rooms)@[i], x, y) ==> old(map).floor_at(
                x,
                y,
            ),
        carve_conserved(*old(map), old(rooms)@),
        old(objects)@.len() >= 1,
        forall|k: int| 1 <= k < old(objects)@.len() ==> spawned_ok(#[trigger] old(objects)@[k]),
    ensures
        final(map).wf(),
        border_walls(*final(map)),
        carve_conserved(*final(map), final(rooms)@),
        final(rooms)@ == old(rooms)@.push(new_room),
        forall|i: int| 0 <= i < final(rooms)@.len() ==> room_ok(#[trigger] final(rooms)@[i]),
        forall|i: int, j: int|
            0 <= i < j < final(rooms)@.len() ==> !rects_overlap(final(rooms)@[i], final(rooms)@[j]),
        forall|i: int|
            0 <= i < final(rooms)@.len() ==> connected(
                *final(map),
                room_centre(final(rooms)@[0]),
                room_centre(#[trigger] final(rooms)@[i]),
            ),
        forall|i: int, x: int, y: int| #![trigger final(rooms)@[i], final(map).floor_at(x, y)]
            0 <= i < final(rooms)@.len() && interior_of(final(rooms)@[i], x, y)
                ==> final(map).floor_at(x, y),
        final(objects)@.len() >= old(objects)@.len(),
        old(rooms)@.len() == 0 ==> final(objects)@[0] == (Object {
            x: room_centre(new_room).0 as i32,
            y: room_centre(new_room).1 as i32,
            ..old(objects)@[0]
        }),
        old(rooms)@.len() >= 1 ==> final(objects)@[0] == old(objects)@[0],
        forall|k: int| 1 <= k < final(objects)@.len() ==> spawned_ok(#[trigger] final(objects)@[k]),
{
    let ghost map0 = *map;
    let ghost rooms0 = rooms@;
    let ghost objects0 = objects@;
    create_room(new_room, map);
    let ghost map1 = *map;
    proof {
        lemma_keep_connected(map0, map1, rooms0);
    }
    place_objects(new_room, map, objects);
    let (sx, sy) = new_room.centre();
    proof {
        lemma_centre_interior(new_room);
    }

    if rooms.len() == 0 {
        let player = &mut objects[PLAYER];
        player.set_pos(sx, sy);
        proof {
            lemma_connected_refl(*map, (sx as int, sy as int));
            lemma_conserve_accept(map0, map1, *map, rooms0, new_room, (0, 0), false);
        }
    } else {
        let last = rooms.len() - 1;
        proof {
            lemma_centre_interior(rooms0[last as int]);
        }
        let (prev_x, prev_y) = rooms[last].centre();
        link_rooms(prev_x, prev_y, sx, sy, map);
        proof {
            lemma_keep_connected(map1, *map, rooms0);
            lemma_join_room(*map, rooms0, (prev_x as int, prev_y as int), (sx as int, sy as int));
            lemma_conserve_accept(
                map0,
                map1,
                *map,
                rooms0,
                new_room,
                (prev_x as int, prev_y as int),
                true,
            );
        }
    }

    rooms.push(new_room);

    proof {
        let m = *map;
        let rs = rooms@;
        let cn = room_centre(new_room);
        assert(rs == rooms0.push(new_room));
        assert(rs[rs.len() - 1] == new_room);

        // the border ring is exactly as it was: solid wall
        assert forall|x: int, y: int| in_bounds(x, y) && !inner(x, y) implies (#[trigger] m.tile_at(
            x,
            y,
        )).blocked by {
            if interior_of(new_room, x, y) {
                lemma_interior_inner(new_room, x, y);
            }
            assert(m.tile_at(x, y) == map0.tile_at(x, y));
        }

        // every room interior, old or new, is open floor
        assert forall|i: int, x: int, y: int| #![trigger rs[i], m.floor_at(x, y)]
            0 <= i < rs.len() && interior_of(rs[i], x, y) implies m.floor_at(x, y) by {
            if i < rs.len() - 1 {
                assert(rooms0[i] == rs[i]);
                assert(map0.floor_at(x, y));
                assert(map1.floor_at(x, y));
            } else {
                assert(map1.floor_at(x, y));
            }
        }

        // every room centre is reachable from the first room's centre
        assert forall|i: int| 0 <= i < rs.len() implies connected(
            m,
            room_centre(rs[0]),
            room_centre(#[trigger] rs[i]),
        ) by {
            if rooms0.len() == 0 {
                assert(rs[i] == new_room);
            } else {
                assert(rs[0] == rooms0[0]);
                if i < rs.len() - 1 {
                    assert(rs[i] == rooms0[i]);
                }
            }
        }

        // rooms stay well-formed and pairwise disjoint
        assert forall|i: int| 0 <= i < rs.len() implies room_ok(#[trigger] rs[i]) by {
            if i < rs.len() - 1 {
                assert(rs[i] == rooms0[i]);
            }
        }
        assert forall|i: int, j: int| 0 <= i < j < rs.len() implies !rects_overlap(
            rs[i],
            rs[j],
        ) by {
            if j < rs.len() - 1 {
                assert(rs[i] == rooms0[i] && rs[j] == rooms0[j]);
            } else {
                assert(rs[i] == rooms0[i] && rs[j] == new_room);
                lemma_overlap_symmetric(new_room, rs[i]);
            }
        }
    }
}

/// Build a fresh level: a wall-filled grid with at least one room
/// carved out, rooms pairwise non-overlapping (edges count), every room
/// centre reachable from the first room's centre over floor tiles, the
/// player standing at the first centre, and each room seeded with
/// entities.
#[verifier::rlimit(50)]
pub fn make_map(objects: &mut Vec<Object>) -> (result: (GameMap, Vec<Rect>))
    requires
        old(objects)@.len() == 1,
        stats_ok(old(objects)@[0]),
        old(objects)@[0].ai is None,
        old(objects)@[0].item is None,
    ensures
        ({
            let map = result.0;
            let rooms = result.1@;
            &&& generated_map(map, rooms)
            &&& map.floor_at(room_centre(rooms[0]).0, room_centre(rooms[0]).1)
            &&& final(objects)@.len() >= 1
            &&& final(objects)@[0] == (Object {
                x: room_centre(rooms[0]).0 as i32,
                y: room_centre(rooms[0]).1 as i32,
                ..old(objects)@[0]
            })
            &&& forall|k: int|
                1 <= k < final(objects)@.len() ==> spawned_ok(#[trigger] final(objects)@[k])
            &&& objects_inner(final(objects)@)
            &&& objects_ok(final(objects)@)
            &&& monsters_monstrous(final(objects)@)
            &&& items_inert(final(objects)@)
        }),
{
    let mut map = GameMap::new_walls();
    let mut rooms: Vec<Rect> = Vec::new();
    let ghost player0 = objects@[0];

    let mut attempt: i32 = 0;
    while attempt < MAX_ROOMS
        invariant
            0 <= attempt <= MAX_ROOMS,
            rooms@.len() <= attempt,
            map.wf(),
            border_walls(map),
            carve_conserved(map, rooms@),
            forall|i: int| 0 <= i < rooms@.len() ==> room_ok(#[trigger] rooms@[i]),
            forall|i: int, j: int|
                0 <= i < j < rooms@.len() ==> !rects_overlap(rooms@[i], rooms@[j]),
            forall|i: int|
                0 <= i < rooms@.len() ==> connected(
                    map,
                    room_centre(rooms@[0]),
                    room_centre(#[trigger] rooms@[i]),
                ),
            forall|i: int, x: int, y: int| #![trigger rooms@[i], map.floor_at(x, y)]
                0 <= i < rooms@.len() && interior_of(rooms@[i], x, y) ==> map.floor_at(x, y),
            objects@.len() >= 1,
            player0 == old(objects)@[0],
            rooms@.len() == 0 ==> objects@ == old(objects)@,
            rooms@.len() >= 1 ==> objects@[0] == (Object {
                x: room_centre(rooms@[0]).0 as i32,
                y: room_centre(rooms@[0]).1 as i32,
                ..player0
            }),
            attempt >= 1 ==> rooms@.len() >= 1,
            forall|k: int| 1 <= k < objects@.len() ==> spawned_ok(#[trigger] objects@[k]),
        decreases MAX_ROOMS - attempt,
    {
        let w = rand_range(ROOM_MIN_SIZE, ROOM_MAX_SIZE + 1);
        let h = rand_range(ROOM_MIN_SIZE, ROOM_MAX_SIZE + 1);
        let x = rand_range(0, MAP_WIDTH - w);
        let y = rand_range(0, MAP_HEIGHT - h);
        let new_room = Rect::new(x, y, w, h);

        let mut failed = false;
        let n_rooms = rooms.len();
        let mut r: usize = 0;
        while r < n_rooms
            invariant
                n_rooms == rooms@.len(),
                0 <= r <= n_rooms,
                !failed ==> forall|i: int|
                    0 <= i < r ==> !rects_overlap(new_room, #[trigger] rooms@[i]),
                failed ==> exists|i: int|
                    0 <= i < rooms@.len() && rects_overlap(new_room, #[trigger] rooms@[i]),
            decreases n_rooms - r,
        {
            if new_room.intersects_with(&rooms[r]) {
                failed = true;
            }
            r = r + 1;
        }

        if !failed {
            let ghost rooms_before = rooms@;
            accept_room(new_room, &mut map, &mut rooms, objects);
            proof {
                assert(rooms@ == rooms_before.push(new_room));
                if rooms_before.len() == 0 {
                    assert(rooms@[0] == new_room);
                } else {
                    assert(rooms@[0] == rooms_before[0]);
                }
            }
        }
        attempt = attempt + 1;
    }
    proof {
        lemma_centre_interior(rooms@[0]);
        assert(map.floor_at(room_centre(rooms@[0]).0, room_centre(rooms@[0]).1));
    }
    (map, rooms)
}

/// Growth of the floor keeps every room centre connected to the first.
proof fn lemma_keep_connected(m1: GameMap, m2: GameMap, rooms: Seq<Rect>)
    requires
        floors_grow(m1, m2),
        forall|i: int|
            0 <= i < rooms.len() ==> connected(
                m1,
                room_centre(rooms[0]),
                room_centre(#[trigger] rooms[i]),
            ),
    ensures
        forall|i: int|
            0 <= i < rooms.len() ==> connected(
                m2,
                room_centre(rooms[0]),
                room_centre(#[trigger] rooms[i]),
            ),
{
    assert forall|i: int| 0 <= i < rooms.len() implies connected(
        m2,
        room_centre(rooms[0]),
        room_centre(#[trigger] rooms[i]),
    ) by {
        lemma_connected_grow(m1, m2, room_centre(rooms[0]), room_centre(rooms[i]));
    }
}

/// The L-shaped pair of tunnels connects the previous room's centre to
/// the new one's.  `h_first` says which leg was carved first; `mh` is
/// the map between the two carvings and `m` the map after both.
proof fn lemma_bend(mh: GameMap, m: GameMap, c_prev: (int, int), c_new: (int, int), h_first: bool)
    requires
        floors_grow(mh, m),
        h_first ==> forall|i: int|
            (if c_prev.0 <= c_new.0 {
                c_prev.0 <= i <= c_new.0
            } else {
                c_new.0 <= i <= c_prev.0
            }) ==> #[trigger] mh.floor_at(i, c_prev.1),
        h_first ==> forall|j: int|
            (if c_prev.1 <= c_new.1 {
                c_prev.1 <= j <= c_new.1
            } else {
                c_new.1 <= j <= c_prev.1
            }) ==> #[trigger] m.floor_at(c_new.0, j),
        !h_first ==> forall|j: int|
            (if c_prev.1 <= c_new.1 {
                c_prev.1 <= j <= c_new.1
            } else {
                c_new.1 <= j <= c_prev.1
            }) ==> #[trigger] mh.floor_at(c_prev.0, j),
        !h_first ==> forall|i: int|
            (if c_prev.0 <= c_new.0 {
                c_prev.0 <= i <= c_new.0
            } else {
                c_new.0 <= i <= c_prev.0
            }) ==> #[trigger] m.floor_at(i, c_new.1),
    ensures
        connected(m, c_prev, c_new),
{
    if h_first {
        let mid = (c_new.0, c_prev.1);
        if c_prev.0 <= c_new.0 {
            lemma_h_segment(mh, c_prev.0, c_new.0, c_prev.1);
        } else {
            lemma_h_segment(mh, c_new.0, c_prev.0, c_prev.1);
            lemma_connected_sym(mh, mid, c_prev);
        }
        lemma_connected_grow(mh, m, c_prev, mid);
        if c_prev.1 <= c_new.1 {
            lemma_v_segment(m, c_prev.1, c_new.1, c_new.0);
        } else {
            lemma_v_segment(m, c_new.1, c_prev.1, c_new.0);
            lemma_connected_sym(m, c_new, mid);
        }
        lemma_connected_trans(m, c_prev, mid, c_new);
    } else {
        let mid = (c_prev.0, c_new.1);
        if c_prev.1 <= c_new.1 {
            lemma_v_segment(mh, c_prev.1, c_new.1, c_prev.0);
        } else {
            lemma_v_segment(mh, c_new.1, c_prev.1, c_prev.0);
            lemma_connected_sym(mh, mid, c_prev);
        }
        lemma_connected_grow(mh, m, c_prev, mid);
        if c_prev.0 <= c_new.0 {
            lemma_h_segment(m, c_prev.0, c_new.0, c_new.1);
        } else {
            lemma_h_segment(m, c_new.0, c_prev.0, c_new.1);
            lemma_connected_sym(m, c_new, mid);
        }
        lemma_connected_trans(m, c_prev, mid, c_new);
    }
}

/// Chain the invariant through the new room: the first centre reaches
/// the previous one, and the tunnel extends the chain to the new one.
proof fn lemma_join_room(m: GameMap, rooms: Seq<Rect>, c_prev: (int, int), c_new: (int, int))
    requires
        rooms.len() >= 1,
        c_prev == room_centre(rooms[rooms.len() - 1]),
        connected(m, room_centre(rooms[0]), c_prev),
        connected(m, c_prev, c_new),
    ensures
        connected(m, room_centre(rooms[0]), c_new),
{
    lemma_connected_trans(m, room_centre(rooms[0]), c_prev, c_new);
}

} // verus!
