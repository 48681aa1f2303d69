//! Per-cell map data and the fixed-size grid that holds it.
//!
//! Tiles are created once by the generator.  After generation the only
//! field that ever changes is `explored`, and it only goes from `false`
//! to `true`.

use vstd::prelude::*;
use crate::MAP_WIDTH;
use crate::MAP_HEIGHT;

verus! {

/// Static data of one map cell.
#[derive(Debug, Clone, Copy, PartialEq, Eq, Structural)]
pub struct Tile {
    /// Whether the cell blocks movement.
    pub blocked: bool,
    /// Whether the player has ever seen the cell.
    pub explored: bool,
    /// Whether the cell blocks sight.
    pub block_sight: bool,
}

impl Tile {
    /// A walkable, see-through floor cell.
    pub fn empty() -> (t: Tile)
        ensures
            t == (Tile { blocked: false, explored: false, block_sight: false }),
    {
        Tile { blocked: false, explored: false, block_sight: false }
    }

    /// A solid wall cell.
    pub fn wall() -> (t: Tile)
        ensures
            t == (Tile { blocked: true, explored: false, block_sight: true }),
    {
        Tile { blocked: true, explored: false, block_sight: true }
    }
}

/// Whether `(x, y)` lies on the fixed-size map.
pub open spec fn in_bounds(x: int, y: int) -> bool {
    0 <= x < MAP_WIDTH && 0 <= y < MAP_HEIGHT
}

/// The game map: a `MAP_WIDTH` by `MAP_HEIGHT` grid of tiles, indexed
/// column-first.
pub struct GameMap {
    pub tiles: Vec<Vec<Tile>>,
}

impl GameMap {
    /// The grid has exactly the fixed dimensions.
    pub open spec fn wf(self) -> bool {
        &&& self.tiles@.len() == MAP_WIDTH
        &&& forall|x: int| 0 <= x < MAP_WIDTH ==> (#[trigger] self.tiles@[x])@.len() == MAP_HEIGHT
    }

    /// The tile at `(x, y)`.
    pub open spec fn tile_at(self, x: int, y: int) -> Tile {
        self.tiles@[x]@[y]
    }

    /// Whether `(x, y)` is on the map and walkable.
    pub open spec fn floor_at(self, x: int, y: int) -> bool {
        in_bounds(x, y) && !self.tile_at(x, y).blocked
    }

    /// A map filled entirely with wall tiles, the generator's blank slate.
    pub fn new_walls() -> (m: GameMap)
        ensures
            m.wf(),
            forall|x: int, y: int| in_bounds(x, y) ==> #[trigger] m.tile_at(x, y) == (Tile {
                blocked: true,
                explored: false,
                block_sight: true,
            }),
    {
        let mut tiles: Vec<Vec<Tile>> = Vec::new();
        let mut x: i32 = 0;
        while x < MAP_WIDTH
            invariant
                0 <= x <= MAP_WIDTH,
                tiles@.len() == x,
                forall|i: int| 0 <= i < x ==> (#[trigger] tiles@[i])@.len() == MAP_HEIGHT,
                forall|i: int, j: int|
                    0 <= i < x && 0 <= j < MAP_HEIGHT ==> #[trigger] tiles@[i]@[j] == (Tile {
                        blocked: true,
                        explored: false,
                        block_sight: true,
                    }),
            decreases MAP_WIDTH - x,
        {
            let mut column: Vec<Tile> = Vec::new();
            let mut y: i32 = 0;
            while y < MAP_HEIGHT
                invariant
                    0 <= y <= MAP_HEIGHT,
                    column@.len() == y,
                    forall|j: int| 0 <= j < y ==> #[trigger] column@[j] == (Tile {
                        blocked: true,
                        explored: false,
                        block_sight: true,
                    }),
                decreases MAP_HEIGHT - y,
            {
                column.push(Tile::wall());
                y = y + 1;
            }
            tiles.push(column);
            x = x + 1;
        }
        GameMap { tiles }
    }

    /// Read the tile at `(x, y)`.
    pub fn get(&self, x: i32, y: i32) -> (t: Tile)
        requires
            self.wf(),
            in_bounds(x as int, y as int),
        ensures
            t == self.tile_at(x as int, y as int),
    {
        self.tiles[x as usize][y as usize]
    }

    /// Overwrite the tile at `(x, y)`; every other tile is untouched.
    pub fn set(&mut self, x: i32, y: i32, t: Tile)
        requires
            old(self).wf(),
            in_bounds(x as int, y as int),
        ensures
            final(self).wf(),
            final(self).tile_at(x as int, y as int) == t,
            forall|i: int, j: int|
                in_bounds(i, j) && !(i == x && j == y) ==> #[trigger] final(self).tile_at(i, j)
                    == old(self).tile_at(i, j),
    {
        let column = &mut self.tiles[x as usize];
        column.set(y as usize, t);
    }
}

} // verus!
