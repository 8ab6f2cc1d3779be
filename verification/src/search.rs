//! What a search for a goal has covered when it gives up: the tiles it
//! holds, each of whose neighbors cannot be stepped on or shares its cost
//! with a held tile; and why, when no two tiles share a cost, such a search
//! misses no goal.

use vstd::prelude::*;
use crate::grid::hex::{Hex, hex_ring_dir};
use crate::algo::{cost_at, hex_adjacent, steppable_path, goal_reachable};

verus! {

/// Tile `c` needs no more search from a tile next to it, given the tiles
/// `q` that the search holds: it cannot be stepped on, or it is no goal and
/// the search holds a tile of its cost already.
#[verifier::opaque]
pub open spec fn settled<P: Fn(Hex) -> Option<u16>>(p: P, q: Seq<(Hex, u16)>, c: Hex) -> bool {
    match cost_at(p, c) {
        None => true,
        Some(v) => v != 0 && exists|k: int| 0 <= k < q.len() && (#[trigger] q[k]).1 == v,
    }
}

/// Every neighbor of tile `t` is settled.
#[verifier::opaque]
pub open spec fn tile_done<P: Fn(Hex) -> Option<u16>>(p: P, q: Seq<(Hex, u16)>, t: Hex) -> bool {
    forall|c: Hex| #[trigger] hex_adjacent(t, c) ==> settled(p, q, c)
}

/// The tiles `ex`, with their costs, are a search from `start` that has
/// run out of tiles: `start` is among them, each can be stepped on, none is
/// a goal, and every neighbor of each of them is settled.
pub open spec fn search_exhausted<P: Fn(Hex) -> Option<u16>>(p: P, start: Hex, ex: Seq<(Hex, u16)>) -> bool {
    &&& exists|k: int| 0 <= k < ex.len() && (#[trigger] ex[k]).0 == start
    &&& forall|j: int| 0 <= j < ex.len() ==> cost_at(p, (#[trigger] ex[j]).0) == Some(ex[j].1) && ex[j].1 != 0
    &&& forall|j: int| 0 <= j < ex.len() ==> tile_done(p, ex, (#[trigger] ex[j]).0)
}

/// No two tiles that can be stepped on, other than goals, have the same cost.
pub open spec fn costs_distinct<P: Fn(Hex) -> Option<u16>>(p: P) -> bool {
    forall|a: Hex, b: Hex| #![trigger cost_at(p, a), cost_at(p, b)]
        cost_at(p, a) == cost_at(p, b) && (cost_at(p, a) matches Some(v) && v != 0) ==> a == b
}

/// Along a path from the start of an exhausted search, every tile is one of
/// the searched ones, when no two tiles share a cost.
proof fn lemma_path_stays_in_search<P: Fn(Hex) -> Option<u16>>(p: P, start: Hex, ex: Seq<(Hex, u16)>, path: Seq<Hex>, j: int)
    requires
        search_exhausted(p, start, ex),
        costs_distinct(p),
        steppable_path(p, start, path),
        0 <= j < path.len(),
    ensures
        exists|k: int| 0 <= k < ex.len() && (#[trigger] ex[k]).0 == path[j],
    decreases j,
{
    reveal(settled);
    reveal(tile_done);
    if j > 0 {
        lemma_path_stays_in_search(p, start, ex, path, j - 1);
        let k = choose|k: int| 0 <= k < ex.len() && (#[trigger] ex[k]).0 == path[j - 1];
        assert(hex_adjacent(path[j - 1], path[j]));
        assert(tile_done(p, ex, ex[k].0));
        assert(settled(p, ex, path[j]));
        assert(cost_at(p, path[j]) is Some);
        let v = cost_at(p, path[j])->0;
        let m = choose|m: int| 0 <= m < ex.len() && (#[trigger] ex[m]).1 == v;
        assert(cost_at(p, ex[m].0) == Some(v));
        assert(ex[m].0 == path[j]);
    }
}

/// A search that has run out of tiles misses no goal when no two tiles
/// share a cost: no goal can be reached from its start.
pub proof fn lemma_exhausted_search_misses_no_goal<P: Fn(Hex) -> Option<u16>>(p: P, start: Hex, ex: Seq<(Hex, u16)>)
    requires
        search_exhausted(p, start, ex),
        costs_distinct(p),
    ensures
        !goal_reachable(p, start),
{
    assert forall|path: Seq<Hex>| #[trigger] steppable_path(p, start, path) implies cost_at(p, path.last()) != Some(0u16) by {
        lemma_path_stays_in_search(p, start, ex, path, path.len() - 1);
        let k = choose|k: int| 0 <= k < ex.len() && (#[trigger] ex[k]).0 == path[path.len() - 1];
        assert(cost_at(p, ex[k].0) == Some(ex[k].1));
    }
}

/// A tile settled for some tiles stays settled when one more is added.
pub(crate) proof fn lemma_settled_grows<P: Fn(Hex) -> Option<u16>>(p: P, q: Seq<(Hex, u16)>, i: int, e: (Hex, u16), c: Hex)
    requires
        settled(p, q, c),
        0 <= i <= q.len(),
    ensures
        settled(p, q.insert(i, e), c),
{
    reveal(settled);
    if let Some(v) = cost_at(p, c) {
        let k = choose|k: int| 0 <= k < q.len() && (#[trigger] q[k]).1 == v;
        let qn = q.insert(i, e);
        if k < i {
            assert(qn[k] == q[k]);
        } else {
            assert(qn[k + 1] == q[k]);
        }
    }
}

/// A tile done for some tiles stays done when one more is added.
pub(crate) proof fn lemma_done_grows<P: Fn(Hex) -> Option<u16>>(p: P, q: Seq<(Hex, u16)>, i: int, e: (Hex, u16), t: Hex)
    requires
        tile_done(p, q, t),
        0 <= i <= q.len(),
    ensures
        tile_done(p, q.insert(i, e), t),
{
    reveal(tile_done);
    assert forall|c: Hex| #[trigger] hex_adjacent(t, c) implies settled(p, q.insert(i, e), c) by {
        lemma_settled_grows(p, q, i, e, c);
    }
}


/// A tile is settled when it cannot be stepped on, or when the tile at
/// index `k` has its cost and that cost is no goal's.
pub(crate) proof fn lemma_settled_by<P: Fn(Hex) -> Option<u16>>(p: P, q: Seq<(Hex, u16)>, c: Hex, k: int)
    requires
        cost_at(p, c) is None || (0 <= k < q.len() && cost_at(p, c) == Some(q[k].1) && q[k].1 != 0),
    ensures
        settled(p, q, c),
{
    reveal(settled);
}

/// A tile whose 6 neighbors, in the order of `nb`, are all settled is done.
pub(crate) proof fn lemma_done_from_neighbors<P: Fn(Hex) -> Option<u16>>(p: P, q: Seq<(Hex, u16)>, t: Hex, nb: Seq<Hex>)
    requires
        nb.len() == 6,
        forall|i: int| 0 <= i < 6 ==> #[trigger] nb[i].0 == t.0 + hex_ring_dir(i).0 && nb[i].1 == t.1 + hex_ring_dir(i).1,
        forall|m: int| 0 <= m < 6 ==> settled(p, q, #[trigger] nb[m]),
    ensures
        tile_done(p, q, t),
{
    reveal(tile_done);
    assert forall|c: Hex| #[trigger] hex_adjacent(t, c) implies settled(p, q, c) by {
        let d = choose|d: int| 0 <= d < 6 && c.0 == t.0 + #[trigger] hex_ring_dir(d).0 && c.1 == t.1 + hex_ring_dir(d).1;
        assert(nb[d].0 == t.0 + hex_ring_dir(d).0 && nb[d].1 == t.1 + hex_ring_dir(d).1);
        assert(c == nb[d]);
    }
}

} // verus!
