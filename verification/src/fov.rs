//! The player's field of view, and the dirty-flag gate around it.
//!
//! Computing which tiles are visible is expensive, so the field caches
//! the player position of the last computation and refuses to change
//! while the player stands still.  The renderer's console library does
//! the ray casting itself and hands the result over as plain booleans;
//! the field installs it behind the dirty-flag gate and marks every
//! visible tile explored, never the other way around.

use vstd::prelude::*;
use crate::tile::GameMap;
use crate::tile::Tile;
use crate::tile::in_bounds;
use crate::MAP_WIDTH;
use crate::MAP_HEIGHT;

verus! {

/// Per-tile visible/not-visible classification from the player's
/// current position, plus the position it was computed for.
pub struct VisibilityField {
    pub visible: Vec<Vec<bool>>,
    pub last_pos: Option<(i32, i32)>,
}

/// A visibility grid has the map's dimensions.
pub open spec fn grid_wf(g: Seq<Vec<bool>>) -> bool {
    &&& g.len() == MAP_WIDTH
    &&& forall|x: int| 0 <= x < MAP_WIDTH ==> (#[trigger] g[x])@.len() == MAP_HEIGHT
}

impl VisibilityField {
    pub open spec fn wf(self) -> bool {
        grid_wf(self.visible@)
    }

    /// Whether the tile at `(x, y)` is currently classified visible.
    pub open spec fn visible_at(self, x: int, y: int) -> bool {
        self.visible@[x]@[y]
    }

    /// A field that sees nothing and has never been computed.
    pub fn new() -> (f: VisibilityField)
        ensures
            f.wf(),
            f.last_pos is None,
            forall|x: int, y: int| in_bounds(x, y) ==> !(#[trigger] f.visible_at(x, y)),
    {
        let mut visible: Vec<Vec<bool>> = Vec::new();
        let mut x: i32 = 0;
        while x < MAP_WIDTH
            invariant
                0 <= x <= MAP_WIDTH,
                visible@.len() == x,
                forall|i: int| 0 <= i < x ==> (#[trigger] visible@[i])@.len() == MAP_HEIGHT,
                forall|i: int, j: int|
                    0 <= i < x && 0 <= j < MAP_HEIGHT ==> !(#[trigger] visible@[i]@[j]),
            decreases MAP_WIDTH - x,
        {
            let mut column: Vec<bool> = Vec::new();
            let mut y: i32 = 0;
            while y < MAP_HEIGHT
                invariant
                    0 <= y <= MAP_HEIGHT,
                    column@.len() == y,
                    forall|j: int| 0 <= j < y ==> !(#[trigger] column@[j]),
                decreases MAP_HEIGHT - y,
            {
                column.push(false);
                y = y + 1;
            }
            visible.push(column);
            x = x + 1;
        }
        VisibilityField { visible, last_pos: None }
    }

    /// Whether the tile at `(x, y)` is currently visible.
    pub fn is_visible(&self, x: i32, y: i32) -> (r: bool)
        requires
            self.wf(),
            in_bounds(x as int, y as int),
        ensures
            r == self.visible_at(x as int, y as int),
    {
        self.visible[x as usize][y as usize]
    }

    /// The field is stale exactly when the player has moved since the
    /// last computation (or none was ever made).
    pub fn needs_recompute(&self, px: i32, py: i32) -> (r: bool)
        ensures
            r == (self.last_pos != Some((px, py))),
    {
        match self.last_pos {
            Some(p) => !(p.0 == px && p.1 == py),
            None => true,
        }
    }

    /// Install a freshly computed classification and mark every visible
    /// tile explored; or, if the player has not moved since the last
    /// computation, change nothing at all — the field is frozen and the
    /// expensive recomputation is skipped.
    ///
    /// `data` carries the new classification exactly when one is due,
    /// so a caller that polls `needs_recompute` computes only then.
    pub fn refresh(&mut self, map: &mut GameMap, px: i32, py: i32, data: Option<Vec<Vec<bool>>>)
        requires
            old(self).wf(),
            old(map).wf(),
            data is Some <==> old(self).last_pos != Some((px, py)),
            data is Some ==> grid_wf(data->0@),
        ensures
            final(self).wf(),
            final(map).wf(),
            // while the player stands still, everything is frozen
            old(self).last_pos == Some((px, py)) ==> *final(self) == *old(self) && *final(map)
                == *old(map),
            // otherwise the new classification is installed verbatim and
            // every tile it marks visible becomes explored
            old(self).last_pos != Some((px, py)) ==> {
                &&& final(self).last_pos == Some((px, py))
                &&& forall|x: int, y: int|
                    in_bounds(x, y) ==> #[trigger] final(self).visible_at(x, y) == data->0@[x]@[y]
                &&& forall|x: int, y: int|
                    in_bounds(x, y) ==> #[trigger] final(map).tile_at(x, y) == (Tile {
                        explored: old(map).tile_at(x, y).explored || final(self).visible_at(x, y),
                        ..old(map).tile_at(x, y)
                    })
            },
            // in either case the terrain is untouched and `explored`
            // only ever grows
            forall|x: int, y: int|
                in_bounds(x, y) ==> {
                    let t0 = old(map).tile_at(x, y);
                    let t1 = #[trigger] final(map).tile_at(x, y);
                    t1.blocked == t0.blocked && t1.block_sight == t0.block_sight && (t0.explored
                        ==> t1.explored)
                },
    {
        match data {
            None => {},
            Some(grid) => {
                self.visible = grid;
                self.last_pos = Some((px, py));
                let mut x: i32 = 0;
                while x < MAP_WIDTH
                    invariant
                        self.wf(),
                        map.wf(),
                        0 <= x <= MAP_WIDTH,
                        forall|i: int, j: int|
                            in_bounds(i, j) && i < x ==> #[trigger] map.tile_at(i, j) == (Tile {
                                explored: old(map).tile_at(i, j).explored || self.visible_at(i, j),
                                ..old(map).tile_at(i, j)
                            }),
                        forall|i: int, j: int|
                            in_bounds(i, j) && i >= x ==> #[trigger] map.tile_at(i, j) == old(
                                map,
                            ).tile_at(i, j),
                    decreases MAP_WIDTH - x,
                {
                    let mut y: i32 = 0;
                    while y < MAP_HEIGHT
                        invariant
                            self.wf(),
                            map.wf(),
                            0 <= x < MAP_WIDTH,
                            0 <= y <= MAP_HEIGHT,
                            forall|i: int, j: int|
                                in_bounds(i, j) && (i < x || (i == x && j < y))
                                    ==> #[trigger] map.tile_at(i, j) == (Tile {
                                    explored: old(map).tile_at(i, j).explored || self.visible_at(
                                        i,
                                        j,
                                    ),
                                    ..old(map).tile_at(i, j)
                                }),
                            forall|i: int, j: int|
                                in_bounds(i, j) && (i > x || (i == x && j >= y))
                                    ==> #[trigger] map.tile_at(i, j) == old(map).tile_at(i, j),
                        decreases MAP_HEIGHT - y,
                    {
                        if self.visible[x as usize][y as usize] {
                            let t = map.get(x, y);
                            if !t.explored {
                                map.set(x, y, Tile { explored: true, ..t });
                            }
                        }
                        y = y + 1;
                    }
                    x = x + 1;
                }
            },
        }
    }
}

/// How a tile is to be drawn; the renderer maps each case to a colour.
#[derive(Debug, Clone, Copy, PartialEq, Eq, Structural)]
pub enum TileAppearance {
    /// Never seen: drawn as nothing.
    NotExplored,
    /// Seen before, not currently visible, sight-blocking.
    DimWall,
    /// Seen before, not currently visible, open.
    DimGround,
    /// Currently visible and sight-blocking.
    LitWall,
    /// Currently visible and open.
    LitGround,
}

/// The display policy for one tile: unexplored tiles are omitted,
/// explored ones are dim or lit by current visibility, and walls are
/// told apart from ground by whether they block sight.
pub fn tile_appearance(explored: bool, visible: bool, wall: bool) -> (a: TileAppearance)
    ensures
        a == (if !explored {
            TileAppearance::NotExplored
        } else if visible && wall {
            TileAppearance::LitWall
        } else if visible {
            TileAppearance::LitGround
        } else if wall {
            TileAppearance::DimWall
        } else {
            TileAppearance::DimGround
        }),
{
    if !explored {
        TileAppearance::NotExplored
    } else if visible && wall {
        TileAppearance::LitWall
    } else if visible {
        TileAppearance::LitGround
    } else if wall {
        TileAppearance::DimWall
    } else {
        TileAppearance::DimGround
    }
}

} // verus!
