//! Reachability over carved floor tiles.
//!
//! A path is a non-empty sequence of cells, each walkable and each
//! adjacent (sharing an edge) to the next.  Two cells are connected when
//! some path joins them.  The map generator proves that the centre of
//! every accepted room is connected to the centre of the first one.

use vstd::prelude::*;
use crate::tile::GameMap;

verus! {

/// Two cells share an edge.
pub open spec fn adjacent(a: (int, int), b: (int, int)) -> bool {
    ||| a.0 == b.0 && (b.1 == a.1 + 1 || b.1 == a.1 - 1)
    ||| a.1 == b.1 && (b.0 == a.0 + 1 || b.0 == a.0 - 1)
}

/// A walk over walkable tiles: non-empty, every cell a floor cell, every
/// step between edge-adjacent cells.
pub open spec fn is_floor_path(m: GameMap, p: Seq<(int, int)>) -> bool {
    &&& p.len() > 0
    &&& forall|k: int| 0 <= k < p.len() ==> m.floor_at((#[trigger] p[k]).0, p[k].1)
    &&& forall|k: int| 0 <= k < p.len() - 1 ==> adjacent(#[trigger] p[k], p[k + 1])
}

/// Some floor path leads from `a` to `b`.
pub open spec fn connected(m: GameMap, a: (int, int), b: (int, int)) -> bool {
    exists|p: Seq<(int, int)>| #[trigger] is_floor_path(m, p) && p.first() == a && p.last() == b
}

/// Carving only ever turns walls into floors: every floor cell of `m1`
/// is still a floor cell of `m2`.
pub open spec fn floors_grow(m1: GameMap, m2: GameMap) -> bool {
    forall|x: int, y: int| #[trigger] m1.floor_at(x, y) ==> m2.floor_at(x, y)
}

/// A cell standing on floor is connected to itself.
pub proof fn lemma_connected_refl(m: GameMap, a: (int, int))
    requires
        m.floor_at(a.0, a.1),
    ensures
        connected(m, a, a),
{
    let p: Seq<(int, int)> = seq![a];
    assert(is_floor_path(m, p) && p.first() == a && p.last() == a);
}

/// Connectivity survives further carving: floors only grow, so every
/// existing path stays walkable.
pub proof fn lemma_connected_grow(m1: GameMap, m2: GameMap, a: (int, int), b: (int, int))
    requires
        connected(m1, a, b),
        floors_grow(m1, m2),
    ensures
        connected(m2, a, b),
{
    let p = choose|p: Seq<(int, int)>|
        #[trigger] is_floor_path(m1, p) && p.first() == a && p.last() == b;
    assert forall|k: int| 0 <= k < p.len() implies m2.floor_at((#[trigger] p[k]).0, p[k].1) by {
        assert(m1.floor_at(p[k].0, p[k].1));
    }
    assert(is_floor_path(m2, p) && p.first() == a && p.last() == b);
}

/// A path can be walked backwards.
pub proof fn lemma_connected_sym(m: GameMap, a: (int, int), b: (int, int))
    requires
        connected(m, a, b),
    ensures
        connected(m, b, a),
{
    let p = choose|p: Seq<(int, int)>|
        #[trigger] is_floor_path(m, p) && p.first() == a && p.last() == b;
    let n = p.len() as int;
    let q: Seq<(int, int)> = Seq::new(p.len(), |k: int| p[n - 1 - k]);
    assert forall|k: int| 0 <= k < q.len() - 1 implies adjacent(#[trigger] q[k], q[k + 1]) by {
        assert(adjacent(p[n - 2 - k], p[n - 1 - k]));
    }
    assert(is_floor_path(m, q) && q.first() == b && q.last() == a);
}

/// Two paths sharing an endpoint join into one.
pub proof fn lemma_connected_trans(m: GameMap, a: (int, int), b: (int, int), c: (int, int))
    requires
        connected(m, a, b),
        connected(m, b, c),
    ensures
        connected(m, a, c),
{
    let p1 = choose|p: Seq<(int, int)>|
        #[trigger] is_floor_path(m, p) && p.first() == a && p.last() == b;
    let p2 = choose|p: Seq<(int, int)>|
        #[trigger] is_floor_path(m, p) && p.first() == b && p.last() == c;
    if p2.len() == 1 {
        assert(b == c);
    } else {
        let q = p1 + p2.subrange(1, p2.len() as int);
        let n1 = p1.len() as int;
        assert forall|k: int| 0 <= k < q.len() implies m.floor_at((#[trigger] q[k]).0, q[k].1) by {
            if k < n1 {
                assert(q[k] == p1[k]);
            } else {
                assert(q[k] == p2[k - n1 + 1]);
            }
        }
        assert forall|k: int| 0 <= k < q.len() - 1 implies adjacent(#[trigger] q[k], q[k + 1]) by {
            if k < n1 - 1 {
                assert(q[k] == p1[k] && q[k + 1] == p1[k + 1]);
            } else if k == n1 - 1 {
                assert(q[k] == p1[n1 - 1] && q[k + 1] == p2[1]);
                assert(p1[n1 - 1] == b && p2[0] == b);
                assert(adjacent(p2[0], p2[1]));
            } else {
                assert(q[k] == p2[k - n1 + 1] && q[k + 1] == p2[k - n1 + 2]);
            }
        }
        assert(q.first() == a && q.last() == c);
        assert(is_floor_path(m, q));
    }
}

/// A horizontal run of floor tiles connects its two ends.
pub proof fn lemma_h_segment(m: GameMap, x1: int, x2: int, y: int)
    requires
        x1 <= x2,
        forall|x: int| x1 <= x <= x2 ==> #[trigger] m.floor_at(x, y),
    ensures
        connected(m, (x1, y), (x2, y)),
{
    let p: Seq<(int, int)> = Seq::new((x2 - x1 + 1) as nat, |k: int| (x1 + k, y));
    assert(is_floor_path(m, p) && p.first() == (x1, y) && p.last() == (x2, y));
}

/// A vertical run of floor tiles connects its two ends.
pub proof fn lemma_v_segment(m: GameMap, y1: int, y2: int, x: int)
    requires
        y1 <= y2,
        forall|y: int| y1 <= y <= y2 ==> #[trigger] m.floor_at(x, y),
    ensures
        connected(m, (x, y1), (x, y2)),
{
    let p: Seq<(int, int)> = Seq::new((y2 - y1 + 1) as nat, |k: int| (x, y1 + k));
    assert(is_floor_path(m, p) && p.first() == (x, y1) && p.last() == (x, y2));
}

} // verus!
