//! General helper algorithms on the hex grid: flood fill and reachability.

use vstd::prelude::*;
use std::collections::VecDeque;
use crate::grid::hex::{Hex, hex_ring_dir};
use crate::search::{settled, tile_done, search_exhausted, costs_distinct, lemma_exhausted_search_misses_no_goal,
    lemma_settled_grows, lemma_done_grows, lemma_settled_by, lemma_done_from_neighbors};

verus! {

/// What to do with each tile considered by a flood fill.
#[derive(Debug, Clone, Copy, PartialEq, Eq, Structural)]
pub enum FloodSelect {
    /// Tile does not qualify
    No,
    /// Add tile to end of queue
    Yes,
    /// Add tile to start of queue (next tile to check)
    YesPrio,
}

/// The 6 edge neighbors of `c`, in the order of neighbor iteration.
pub open spec fn hex_neighbors(c: Hex) -> Seq<Hex> {
    Seq::new(6, |i: int| Hex((c.0 + hex_ring_dir(i).0) as i8, (c.1 + hex_ring_dir(i).1) as i8))
}

/// One step of a flood fill: take the tile at the front of the queue and
/// hand back, with it, its neighbors, which the caller's predicate then
/// judges (the taken tile being the source of each); `None` when the queue
/// is empty and the fill is done.
pub fn flood_next(q: &mut VecDeque<Hex>) -> (r: Option<(Hex, Vec<Hex>)>)
    requires
        old(q)@.len() > 0 ==> -127 <= old(q)@[0].0 <= 126 && -127 <= old(q)@[0].1 <= 126,
    ensures
        old(q)@.len() == 0 ==> r is None && final(q)@ == old(q)@,
        old(q)@.len() > 0 ==> (r matches Some((orig, nb)) && orig == old(q)@[0] && nb@ == hex_neighbors(orig)
            && final(q)@ == old(q)@.drop_first()),
{
    match q.pop_front() {
        None => None,
        Some(orig) => {
            let nb = orig.iter_n0();
            proof {
                assert forall|i: int| 0 <= i < 6 implies nb@[i] == #[trigger] hex_neighbors(orig)[i] by {
                    assert(nb[i].0 == orig.0 + hex_ring_dir(i).0 && nb[i].1 == orig.1 + hex_ring_dir(i).1);
                }
                assert(nb@ =~= hex_neighbors(orig));
            }
            Some((orig, nb))
        },
    }
}

/// Act on the predicate's answer for tile `c` in a flood fill: put it at
/// the end of the queue, at its start (to be expanded next), or nowhere.
pub fn flood_select(q: &mut VecDeque<Hex>, c: Hex, sel: FloodSelect)
    ensures
        sel == FloodSelect::YesPrio ==> final(q)@ == seq![c] + old(q)@,
        sel == FloodSelect::Yes ==> final(q)@ == old(q)@.push(c),
        sel == FloodSelect::No ==> final(q)@ == old(q)@,
{
    match sel {
        FloodSelect::YesPrio => {
            q.push_front(c);
        },
        FloodSelect::Yes => {
            q.push_back(c);
        },
        FloodSelect::No => {},
    }
}

/// `b` is one of the 6 edge neighbors of `a`.
pub open spec fn hex_adjacent(a: Hex, b: Hex) -> bool {
    exists|k: int| 0 <= k < 6 && b.0 == a.0 + #[trigger] hex_ring_dir(k).0 && b.1 == a.1 + hex_ring_dir(k).1
}

/// The cost lookup can be called on every tile, answers the same for the
/// same tile, and steps only onto tiles whose neighbors have `i8`
/// coordinates.
pub open spec fn cost_fn_ok<P: Fn(Hex) -> Option<u16>>(p: P) -> bool {
    &&& forall|c: Hex| #[trigger] p.requires((c,))
    &&& forall|c: Hex, a: Option<u16>, b: Option<u16>|
        #![trigger p.ensures((c,), a), p.ensures((c,), b)]
        p.ensures((c,), a) && p.ensures((c,), b) ==> a == b
    &&& forall|c: Hex, v: u16| #[trigger] p.ensures((c,), Some(v)) ==> -127 <= c.0 <= 126 && -127 <= c.1 <= 126
}

/// The cost of stepping on tile `c`, as the lookup `p` answers it: `None`
/// where it cannot be stepped on, `Some(0)` at a goal.
pub open spec fn cost_at<P: Fn(Hex) -> Option<u16>>(p: P, c: Hex) -> Option<u16> {
    choose|o: Option<u16>| p.ensures((c,), o)
}

/// `path` leads from `start` over adjacent tiles that can all be stepped on.
pub open spec fn steppable_path<P: Fn(Hex) -> Option<u16>>(p: P, start: Hex, path: Seq<Hex>) -> bool {
    &&& path.len() >= 1
    &&& path[0] == start
    &&& forall|j: int| 0 <= j < path.len() ==> #[trigger] cost_at(p, path[j]) is Some
    &&& forall|j: int| 0 <= j < path.len() - 1 ==> hex_adjacent(#[trigger] path[j], path[j + 1])
}

/// A goal (a tile of cost 0) can be reached from `start`.
pub open spec fn goal_reachable<P: Fn(Hex) -> Option<u16>>(p: P, start: Hex) -> bool {
    exists|path: Seq<Hex>| #[trigger] steppable_path(p, start, path) && cost_at(p, path.last()) == Some(0u16)
}

/// Strictly decreasing costs: the order of the search queue, which holds at
/// most one tile per cost.
pub open spec fn costs_descending(q: Seq<(Hex, u16)>) -> bool {
    forall|i: int, j: int| 0 <= i < j < q.len() ==> (#[trigger] q[i]).1 > (#[trigger] q[j]).1
}

/// What the lookup answered is the cost of the tile.
proof fn lemma_cost_at<P: Fn(Hex) -> Option<u16>>(p: P, c: Hex, o: Option<u16>)
    requires
        cost_fn_ok(p),
        p.ensures((c,), o),
    ensures
        cost_at(p, c) == o,
{
    let w = cost_at(p, c);
    assert(p.ensures((c,), w));
}

/// A queue with strictly decreasing costs, all nonzero, holds at most 65535 tiles.
proof fn lemma_descending_len(q: Seq<(Hex, u16)>)
    requires
        costs_descending(q),
        forall|j: int| 0 <= j < q.len() ==> (#[trigger] q[j]).1 >= 1,
    ensures
        q.len() <= 65535,
    decreases q.len(),
{
    if q.len() > 1 {
        let t = q.drop_last();
        assert forall|i: int, j: int| 0 <= i < j < t.len() implies (#[trigger] t[i]).1 > (#[trigger] t[j]).1 by {
            assert(t[i] == q[i] && t[j] == q[j]);
        }
        assert forall|j: int| 0 <= j < t.len() implies (#[trigger] t[j]).1 >= 1 by {
            assert(t[j] == q[j]);
        }
        lemma_descending_len(t);
        lemma_descending_bound(q, q.len() - 1);
    }
}

/// In a queue with strictly decreasing costs, the `j`-th cost is at least `j` below the first.
proof fn lemma_descending_bound(q: Seq<(Hex, u16)>, j: int)
    requires
        costs_descending(q),
        0 <= j < q.len(),
    ensures
        q[j].1 + j <= q[0].1,
    decreases j,
{
    if j > 0 {
        lemma_descending_bound(q, j - 1);
        assert(q[j - 1].1 > q[j].1);
    }
}

/// Where a tile of cost `cost` goes in the queue: `None` when the queue
/// holds a tile of that cost already, else the index that keeps the costs
/// decreasing.
fn cost_slot(q: &Vec<(Hex, u16)>, cost: u16) -> (r: Option<usize>)
    requires
        costs_descending(q@),
    ensures
        r is None <==> exists|j: int| 0 <= j < q@.len() && (#[trigger] q@[j]).1 == cost,
        r matches Some(i) ==> {
            &&& i <= q@.len()
            &&& forall|j: int| 0 <= j < i ==> (#[trigger] q@[j]).1 > cost
            &&& forall|j: int| i <= j < q@.len() ==> (#[trigger] q@[j]).1 < cost
        },
{
    let mut i: usize = 0;
    while i < q.len() && q[i].1 > cost
        invariant
            0 <= i <= q@.len(),
            costs_descending(q@),
            forall|j: int| 0 <= j < i ==> (#[trigger] q@[j]).1 > cost,
        decreases q@.len() - i,
    {
        i = i + 1;
    }
    if i < q.len() && q[i].1 == cost {
        return None;
    }
    proof {
        assert forall|j: int| i <= j < q@.len() implies (#[trigger] q@[j]).1 < cost by {
            if j > i {
                assert(q@[i as int].1 > q@[j].1);
            }
        }
        assert forall|j: int| 0 <= j < q@.len() implies (#[trigger] q@[j]).1 != cost by {
            if j < i {
                assert(q@[j].1 > cost);
            }
        }
    }
    Some(i)
}

/// The search queue of `reach`: at most one tile per cost, by decreasing
/// cost, each with a path to it from `start` over tiles that can be stepped
/// on.
spec fn search_queue_ok<P: Fn(Hex) -> Option<u16>>(
    p: P,
    start: Hex,
    q: Seq<(Hex, u16)>,
    paths: Seq<Seq<Hex>>,
) -> bool {
    &&& q.len() <= 65535
    &&& costs_descending(q)
    &&& forall|j: int| 0 <= j < q.len() ==> (#[trigger] q[j]).1 >= 1 && p.ensures((q[j].0,), Some(q[j].1))
    &&& paths.len() == q.len()
    &&& forall|j: int| 0 <= j < paths.len() ==> #[trigger] steppable_path(p, start, paths[j])
        && paths[j].last() == q[j].0
}

/// Inserting a tile at its slot, together with a path to it, keeps the
/// search queue in order.
proof fn lemma_queue_insert<P: Fn(Hex) -> Option<u16>>(
    p: P,
    start: Hex,
    q: Seq<(Hex, u16)>,
    paths: Seq<Seq<Hex>>,
    i: int,
    e: (Hex, u16),
    to_e: Seq<Hex>,
)
    requires
        search_queue_ok(p, start, q, paths),
        0 <= i <= q.len(),
        forall|j: int| 0 <= j < i ==> (#[trigger] q[j]).1 > e.1,
        forall|j: int| i <= j < q.len() ==> (#[trigger] q[j]).1 < e.1,
        e.1 >= 1,
        p.ensures((e.0,), Some(e.1)),
        steppable_path(p, start, to_e),
        to_e.last() == e.0,
    ensures
        search_queue_ok(p, start, q.insert(i, e), paths.insert(i, to_e)),
{
    q.insert_ensures(i, e);
    paths.insert_ensures(i, to_e);
    let qn = q.insert(i, e);
    let pn = paths.insert(i, to_e);
    assert forall|a: int, b: int| 0 <= a < b < qn.len() implies (#[trigger] qn[a]).1 > (#[trigger] qn[b]).1 by {
        if a < i && b == i {
        } else if a == i && b > i {
            assert(qn[b] == q[b - 1]);
        } else if b < i {
            assert(qn[a] == q[a] && qn[b] == q[b]);
        } else if a < i && b > i {
            assert(qn[a] == q[a] && qn[b] == q[b - 1]);
        } else {
            assert(qn[a] == q[a - 1] && qn[b] == q[b - 1]);
        }
    }
    assert forall|j: int| 0 <= j < qn.len() implies (#[trigger] qn[j]).1 >= 1 && p.ensures((qn[j].0,), Some(qn[j].1)) by {
        if j < i {
            assert(qn[j] == q[j]);
        } else if j > i {
            assert(qn[j] == q[j - 1]);
        }
    }
    assert forall|j: int| 0 <= j < pn.len() implies #[trigger] steppable_path(p, start, pn[j]) && pn[j].last() == qn[j].0 by {
        if j < i {
            assert(pn[j] == paths[j] && qn[j] == q[j]);
        } else if j > i {
            assert(pn[j] == paths[j - 1] && qn[j] == q[j - 1]);
        } else {
            assert(pn[j] == to_e);
            assert(qn[j] == e);
            assert(steppable_path(p, start, pn[j]));
            assert(pn[j].last() == qn[j].0);
        }
    }
    lemma_descending_len(qn);
}

/// A path to a tile, followed by one of its neighbors that can be stepped
/// on, is a path to that neighbor.
proof fn lemma_path_push<P: Fn(Hex) -> Option<u16>>(p: P, start: Hex, path: Seq<Hex>, c: Hex)
    requires
        steppable_path(p, start, path),
        hex_adjacent(path.last(), c),
        cost_at(p, c) is Some,
    ensures
        steppable_path(p, start, path.push(c)),
{
    let to_c = path.push(c);
    assert forall|j: int| 0 <= j < to_c.len() implies #[trigger] cost_at(p, to_c[j]) is Some by {
        if j < path.len() {
            assert(to_c[j] == path[j]);
        }
    }
    assert forall|j: int| 0 <= j < to_c.len() - 1 implies hex_adjacent(#[trigger] to_c[j], to_c[j + 1]) by {
        if j < path.len() - 1 {
            assert(to_c[j] == path[j] && to_c[j + 1] == path[j + 1]);
        } else {
            assert(to_c[j] == path.last() && to_c[j + 1] == c);
        }
    }
}

/// Reachability (pathfinding) from `start`: a greedy best-first search,
/// which explores few tiles; it only tells whether a goal was reached, not
/// how.
///
/// `p` gives the cost of a tile: `Some(cost)`, the distance to the goal, or
/// `Some(0)` at the goal itself; `None` where the tile cannot be stepped on.
/// The queue `q` keeps at most one tile of each cost, so the search may give
/// up on a goal that another way would reach: `true` always means that a
/// goal was reached over tiles that can be stepped on. It gives up only
/// when it has run out of tiles: it backs up through every tile it queued,
/// and every neighbor of those tiles cannot be stepped on or has the cost of
/// a queued tile. So when no two tiles share a cost, it finds a goal exactly
/// when one can be reached. When `start` is a goal or cannot be stepped on,
/// `q` is left as it was; otherwise it is reused memory for the search,
/// handed back empty.
pub fn reach<P: Fn(Hex) -> Option<u16>>(q: &mut Vec<(Hex, u16)>, start: Hex, p: P) -> (found: bool)
    requires
        cost_fn_ok(p),
    ensures
        found ==> goal_reachable(p, start),
        cost_at(p, start) == Some(0u16) ==> found && final(q)@ == old(q)@,
        cost_at(p, start) is None ==> !found && final(q)@ == old(q)@,
        (cost_at(p, start) matches Some(c) && c != 0) ==> final(q)@.len() == 0,
        (!found && (cost_at(p, start) matches Some(c) && c != 0))
            ==> exists|ex: Seq<(Hex, u16)>| #[trigger] search_exhausted(p, start, ex),
        costs_distinct(p) ==> (found <==> goal_reachable(p, start)),
{
    let first = p(start);
    proof {
        lemma_cost_at(p, start, first);
    }
    let c0: u16 = match first {
        Some(0) => {
            proof {
                assert(steppable_path(p, start, seq![start]));
            }
            return true;
        },
        Some(cost) => cost,
        None => {
            proof {
                assert forall|path: Seq<Hex>| #[trigger] steppable_path(p, start, path)
                    implies cost_at(p, path.last()) != Some(0u16) by {
                    assert(cost_at(p, path[0]) is Some);
                }
            }
            return false;
        },
    };
    q.clear();
    q.push((start, c0));
    let ghost mut paths: Seq<Seq<Hex>> = seq![seq![start]];
    let ghost mut si: int = 0;
    proof {
        assert(steppable_path(p, start, paths[0]));
        assert(q@[0] == (start, c0));
    }
    let mut cur: usize = 0;
    let mut best: usize = 0;
    loop
        invariant
            cost_fn_ok(p),
            cost_at(p, start) == Some(c0),
            c0 != 0,
            cur == best,
            cur < q@.len(),
            search_queue_ok(p, start, q@, paths),
            0 <= si < q@.len(),
            q@[si].0 == start,
            forall|j: int| cur < j < q@.len() ==> tile_done(p, q@, (#[trigger] q@[j]).0),
        decreases 65536 - q@.len(), cur,
    {
        let ghost len0 = q@.len();
        let ghost cur0 = cur;
        let mut found = false;
        let cc = q[cur].0;
        let ghost to_cc = paths[cur as int];
        proof {
            assert(p.ensures((q@[cur as int].0,), Some(q@[cur as int].1)));
            assert(steppable_path(p, start, paths[cur as int]));
            assert(paths[cur as int].last() == q@[cur as int].0);
            assert(cc == q@[cur as int].0);
        }
        let nb = cc.iter_n0();
        let mut k: usize = 0;
        while k < 6
            invariant
                0 <= k <= 6,
                cost_fn_ok(p),
                nb.len() == 6,
                forall|i: int| 0 <= i < 6 ==> #[trigger] nb[i].0 == cc.0 + hex_ring_dir(i).0
                    && nb[i].1 == cc.1 + hex_ring_dir(i).1,
                steppable_path(p, start, to_cc),
                to_cc.last() == cc,
                cur < q@.len(),
                best < q@.len(),
                cur <= best,
                q@[cur as int].0 == cc,
                q@.len() >= len0,
                q@.len() == len0 ==> cur == cur0 && best == cur0,
                search_queue_ok(p, start, q@, paths),
                0 <= si < q@.len(),
                q@[si].0 == start,
                forall|j: int| best < j < q@.len() ==> tile_done(p, q@, (#[trigger] q@[j]).0),
                !found ==> forall|m: int| 0 <= m < k ==> settled(p, q@, #[trigger] nb@[m]),
                found ==> goal_reachable(p, start),
            decreases 6 - k,
        {
            let c = nb[k];
            let o = p(c);
            proof {
                lemma_cost_at(p, c, o);
                assert(hex_adjacent(cc, c)) by {
                    assert(c.0 == cc.0 + hex_ring_dir(k as int).0 && c.1 == cc.1 + hex_ring_dir(k as int).1);
                }
            }
            if let Some(cost) = o {
                let ghost to_c = to_cc.push(c);
                proof {
                    lemma_path_push(p, start, to_cc, c);
                }
                if cost == 0 {
                    proof {
                        assert(steppable_path(p, start, to_c) && cost_at(p, to_c.last()) == Some(0u16));
                    }
                    found = true;
                } else {
                    match cost_slot(&q, cost) {
                        Some(i) => {
                            let ghost q0 = q@;
                            let ghost best0 = best;
                            proof {
                                lemma_queue_insert(p, start, q@, paths, i as int, (c, cost), to_c);
                                paths = paths.insert(i as int, to_c);
                            }
                            if i > best {
                                best = i;
                            } else {
                                best = best + 1;
                            }
                            if i <= cur {
                                cur = cur + 1;
                            }
                            q.insert(i, (c, cost));
                            proof {
                                let qn = q@;
                                assert(qn == q0.insert(i as int, (c, cost)));
                                if i as int <= si {
                                    assert(qn[si + 1] == q0[si]);
                                    si = si + 1;
                                } else {
                                    assert(qn[si] == q0[si]);
                                }
                                assert forall|j: int| best < j < qn.len() implies tile_done(p, qn, (#[trigger] qn[j]).0) by {
                                    assert(qn[j] == q0[j - 1]);
                                    assert(tile_done(p, q0, q0[j - 1].0));
                                    lemma_done_grows(p, q0, i as int, (c, cost), q0[j - 1].0);
                                }
                                if !found {
                                    assert forall|m: int| 0 <= m < k + 1 implies settled(p, qn, #[trigger] nb@[m]) by {
                                        if m < k {
                                            lemma_settled_grows(p, q0, i as int, (c, cost), nb@[m]);
                                        } else {
                                            assert(qn[i as int] == (c, cost));
                                            assert(nb@[m] == c);
                                            lemma_settled_by(p, qn, c, i as int);
                                        }
                                    }
                                }
                            }
                        },
                        None => {
                            proof {
                                if !found {
                                    assert(nb@[k as int] == c);
                                    let w = choose|j: int| 0 <= j < q@.len() && (#[trigger] q@[j]).1 == cost;
                                    lemma_settled_by(p, q@, c, w);
                                }
                            }
                        },
                    }
                }
            } else {
                proof {
                    if !found {
                        assert(nb@[k as int] == c);
                        lemma_settled_by(p, q@, c, 0);
                    }
                }
            }
            k = k + 1;
        }
        if found {
            q.clear();
            return true;
        }
        proof {
            lemma_done_from_neighbors(p, q@, cc, nb@);
            assert(tile_done(p, q@, q@[cur as int].0));
        }
        if best > cur {
            cur = best;
        } else if cur == 0 {
            proof {
                let ex = q@;
                assert forall|j: int| 0 <= j < ex.len() implies
                    cost_at(p, (#[trigger] ex[j]).0) == Some(ex[j].1) && ex[j].1 != 0 by {
                    lemma_cost_at(p, ex[j].0, Some(ex[j].1));
                }
                assert forall|j: int| 0 <= j < ex.len() implies tile_done(p, ex, (#[trigger] ex[j]).0) by {
                    if j == 0 {
                        assert(ex[0].0 == cc);
                    }
                }
                assert(ex[si].0 == start);
                assert(search_exhausted(p, start, ex));
                if costs_distinct(p) {
                    lemma_exhausted_search_misses_no_goal(p, start, ex);
                }
            }
            q.clear();
            return false;
        } else {
            cur = cur - 1;
            best = cur;
        }
    }
}

} // verus!
