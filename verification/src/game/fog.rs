//! Fog of war: which tiles a player sees after the owners of some tiles
//! changed. A player sees the tiles it owns and every tile within the
//! visibility radius of one of them.

use vstd::prelude::*;
use crate::grid::fits_i8;
use crate::grid::hex::{Hex, hex_ring_offset};
use crate::plid::PlayerId;
use super::map::lemma_ring_offset;

verus! {

/// The `k`-th tile of the ring of radius `r` around `c`, in walk order.
pub open spec fn ring_tile(c: Hex, r: int, k: int) -> Hex {
    Hex((c.0 + hex_ring_offset(r, k).0) as i8, (c.1 + hex_ring_offset(r, k).1) as i8)
}

/// The ring of radius `r` around `c`, in walk order.
pub open spec fn ring_tiles(c: Hex, r: int) -> Seq<Hex> {
    Seq::new((6 * r) as nat, |k: int| ring_tile(c, r, k))
}

/// The rings of radius 1 to `rr` around `c`, innermost first.
pub open spec fn rings_around(c: Hex, rr: int) -> Seq<Hex>
    decreases rr,
{
    if rr <= 0 {
        Seq::empty()
    } else {
        rings_around(c, rr - 1) + ring_tiles(c, rr)
    }
}

/// The coordinates of `c`, widened by `rr` on each side, stay within `i8`.
pub open spec fn hex_fits_around(c: Hex, rr: int) -> bool {
    &&& fits_i8(c.0 - rr)
    &&& fits_i8(c.0 + rr)
    &&& fits_i8(c.1 - rr)
    &&& fits_i8(c.1 + rr)
}

/// Each coordinate of `h` is at most `rr` from that of `c`.
pub open spec fn near(c: Hex, h: Hex, rr: int) -> bool {
    &&& c.0 - rr <= h.0 <= c.0 + rr
    &&& c.1 - rr <= h.1 <= c.1 + rr
}

/// The owner lookup can be called on every tile and answers the same for
/// the same tile.
pub open spec fn owner_fn_ok<F: Fn(Hex) -> Option<PlayerId>>(f: F) -> bool {
    &&& forall|c: Hex| #[trigger] f.requires((c,))
    &&& forall|c: Hex, a: Option<PlayerId>, b: Option<PlayerId>|
        #![trigger f.ensures((c,), a), f.ensures((c,), b)]
        f.ensures((c,), a) && f.ensures((c,), b) ==> a == b
}

/// The owner of tile `c`, as the lookup `f` answers it.
pub open spec fn owner_at<F: Fn(Hex) -> Option<PlayerId>>(f: F, c: Hex) -> Option<PlayerId> {
    choose|o: Option<PlayerId>| f.ensures((c,), o)
}

/// A tile is owned by another player than `me`.
pub open spec fn owned_by_other<F: Fn(Hex) -> Option<PlayerId>>(f: F, me: PlayerId, c: Hex) -> bool {
    owner_at(f, c) is Some && owner_at(f, c) != Some(me)
}

/// The visibility updates for the tiles that `me` gained: each such tile and
/// every tile within `rr` of it become visible, tile by tile in order.
pub open spec fn gained_updates<F: Fn(Hex) -> Option<PlayerId>>(
    f: F,
    me: PlayerId,
    rr: int,
    tiles: Seq<Hex>,
) -> Seq<(Hex, bool)>
    decreases tiles.len(),
{
    if tiles.len() == 0 {
        Seq::empty()
    } else {
        let c = tiles.last();
        gained_updates(f, me, rr, tiles.drop_last()) + if owner_at(f, c) == Some(me) {
            seq![(c, true)] + rings_around(c, rr).map_values(|h: Hex| (h, true))
        } else {
            Seq::empty()
        }
    }
}

/// The tiles whose visibility must be tested again: each tile owned by
/// another player, and every tile within `rr` of it.
pub open spec fn lost_tiles<F: Fn(Hex) -> Option<PlayerId>>(
    f: F,
    me: PlayerId,
    rr: int,
    tiles: Seq<Hex>,
) -> Seq<Hex>
    decreases tiles.len(),
{
    if tiles.len() == 0 {
        Seq::empty()
    } else {
        let c = tiles.last();
        lost_tiles(f, me, rr, tiles.drop_last()) + if owned_by_other(f, me, c) {
            seq![c] + rings_around(c, rr)
        } else {
            Seq::empty()
        }
    }
}

/// Some tile within `rr` of `c` is owned by `me`.
pub open spec fn sees_owned<F: Fn(Hex) -> Option<PlayerId>>(f: F, me: PlayerId, rr: int, c: Hex) -> bool {
    exists|j: int| 0 <= j < rings_around(c, rr).len() && owner_at(f, #[trigger] rings_around(c, rr)[j]) == Some(me)
}

/// The visibility of an owned tile: `me` sees it when it owns it or one of
/// the tiles within `rr` of it.
pub open spec fn visible_from<F: Fn(Hex) -> Option<PlayerId>>(f: F, me: PlayerId, rr: int, c: Hex) -> bool {
    owner_at(f, c) == Some(me) || sees_owned(f, me, rr, c)
}

/// The visibility updates of the tested tiles `ds`: each owned one gets its
/// visibility; unowned ones are left alone.
pub open spec fn recheck_updates<F: Fn(Hex) -> Option<PlayerId>>(
    f: F,
    me: PlayerId,
    rr: int,
    ds: Seq<Hex>,
) -> Seq<(Hex, bool)>
    decreases ds.len(),
{
    if ds.len() == 0 {
        Seq::empty()
    } else {
        let c = ds.last();
        recheck_updates(f, me, rr, ds.drop_last()) + if owner_at(f, c) is Some {
            seq![(c, visible_from(f, me, rr, c))]
        } else {
            Seq::empty()
        }
    }
}

/// `a` comes before `b` in the order of coordinates: by row, then by column.
pub open spec fn hex_before(a: Hex, b: Hex) -> bool {
    a.0 < b.0 || (a.0 == b.0 && a.1 < b.1)
}

/// Strictly increasing in the order of coordinates (so without repeats).
pub open spec fn strictly_sorted(s: Seq<Hex>) -> bool {
    forall|i: int, j: int| 0 <= i < j < s.len() ==> hex_before(#[trigger] s[i], #[trigger] s[j])
}

/// What the lookup answered is its owner.
proof fn lemma_owner_at<F: Fn(Hex) -> Option<PlayerId>>(f: F, c: Hex, o: Option<PlayerId>)
    requires
        owner_fn_ok(f),
        f.ensures((c,), o),
    ensures
        owner_at(f, c) == o,
{
    let w = owner_at(f, c);
    assert(f.ensures((c,), w));
}

/// The rings of radius 1 to `rr` around `c`, innermost first.
fn rings_around_exec(c: Hex, rr: u8) -> (v: Vec<Hex>)
    requires
        hex_fits_around(c, rr as int),
    ensures
        v@ == rings_around(c, rr as int),
        forall|j: int| 0 <= j < v@.len() ==> #[trigger] near(c, v@[j], rr as int),
{
    let mut v: Vec<Hex> = Vec::new();
    let mut r: u8 = 1;
    while r <= rr
        invariant
            1 <= r <= rr as int + 1,
            hex_fits_around(c, rr as int),
            v@ == rings_around(c, r - 1),
            forall|j: int| 0 <= j < v@.len() ==> #[trigger] near(c, v@[j], rr as int),
        decreases rr as int + 1 - r,
    {
        let ring = c.iter_ring(r);
        let ghost before = v@;
        let mut k: usize = 0;
        while k < ring.len()
            invariant
                0 <= k <= ring.len(),
                1 <= r <= rr,
                hex_fits_around(c, rr as int),
                ring.len() == 6 * r,
                forall|q: int| 0 <= q < 6 * r ==> ring[q].0 == c.0 + #[trigger] hex_ring_offset(r as int, q).0
                    && ring[q].1 == c.1 + hex_ring_offset(r as int, q).1,
                v@ == before + ring_tiles(c, r as int).take(k as int),
                forall|j: int| 0 <= j < v@.len() ==> #[trigger] near(c, v@[j], rr as int),
            decreases ring.len() - k,
        {
            proof {
                lemma_ring_offset(r as int, k as int);
                assert(ring[k as int] == ring_tile(c, r as int, k as int));
                assert(ring_tiles(c, r as int).take(k + 1) =~= ring_tiles(c, r as int).take(k as int).push(ring[k as int]));
            }
            v.push(ring[k]);
            k = k + 1;
        }
        proof {
            assert(ring_tiles(c, r as int).take(k as int) =~= ring_tiles(c, r as int));
        }
        r = r + 1;
    }
    v
}

/// Insert `h` into the strictly sorted `v`, unless it is there already.
fn insert_sorted(v: &mut Vec<Hex>, h: Hex)
    requires
        strictly_sorted(old(v)@),
    ensures
        strictly_sorted(final(v)@),
        final(v)@.to_set() == old(v)@.to_set().insert(h),
{
    let mut i: usize = 0;
    while i < v.len() && (v[i].0 < h.0 || (v[i].0 == h.0 && v[i].1 < h.1))
        invariant
            0 <= i <= v.len(),
            v@ == old(v)@,
            strictly_sorted(v@),
            forall|j: int| 0 <= j < i ==> hex_before(#[trigger] v@[j], h),
        decreases v.len() - i,
    {
        i = i + 1;
    }
    if i < v.len() && v[i].0 == h.0 && v[i].1 == h.1 {
        proof {
            assert(v@[i as int] == h);
            assert(v@.to_set() =~= v@.to_set().insert(h));
        }
        return;
    }
    let ghost s0 = v@;
    v.insert(i, h);
    proof {
        assert forall|a: int, b: int| 0 <= a < b < v@.len() implies hex_before(#[trigger] v@[a], #[trigger] v@[b]) by {
            if a < i && b == i {
            } else if a == i && b > i {
                assert(v@[b] == s0[b - 1]);
            } else if b < i {
            } else if a < i && b > i {
                assert(v@[b] == s0[b - 1]);
            } else {
                assert(v@[a] == s0[a - 1]);
                assert(v@[b] == s0[b - 1]);
            }
        }
        assert(v@.to_set() =~= s0.to_set().insert(h)) by {
            assert forall|x: Hex| v@.to_set().contains(x) <==> s0.to_set().insert(h).contains(x) by {
                if v@.contains(x) {
                    let j = choose|j: int| 0 <= j < v@.len() && v@[j] == x;
                    if j < i {
                        assert(s0[j] == x);
                    } else if j > i {
                        assert(s0[j - 1] == x);
                    }
                }
                if s0.contains(x) {
                    let j = choose|j: int| 0 <= j < s0.len() && s0[j] == x;
                    if j < i {
                        assert(v@[j] == x);
                    } else {
                        assert(v@[j + 1] == x);
                    }
                }
                if x == h {
                    assert(v@[i as int] == h);
                }
            }
        }
    }
}

/// Whether `me` owns one of the tiles within `rr` of `c`; the tiles are
/// looked up ring by ring, innermost first, until one is found.
fn sees_owned_exec<F: Fn(Hex) -> Option<PlayerId>>(f: &F, me: PlayerId, c: Hex, rr: u8) -> (b: bool)
    requires
        owner_fn_ok(*f),
        hex_fits_around(c, rr as int),
    ensures
        b == sees_owned(*f, me, rr as int, c),
{
    let around = rings_around_exec(c, rr);
    let mut j: usize = 0;
    while j < around.len()
        invariant
            0 <= j <= around.len(),
            owner_fn_ok(*f),
            around@ == rings_around(c, rr as int),
            forall|q: int| 0 <= q < j ==> owner_at(*f, #[trigger] around@[q]) != Some(me),
        decreases around.len() - j,
    {
        let o = f(around[j]);
        proof {
            lemma_owner_at(*f, around@[j as int], o);
        }
        if o == Some(me) {
            return true;
        }
        j = j + 1;
    }
    false
}

/// Recompute what `my_plid` sees after the owners of `tiles` changed, with
/// `fetch_owner_at` telling the owner of a tile. Returns the visibility
/// updates, in the order in which they are to be applied.
///
/// A tile that `my_plid` now owns becomes visible, together with every tile
/// within `vis_radius` rings of it. A tile owned by another player, and every
/// tile within `vis_radius` of it, may have lost visibility: those are tested
/// again, each once, in the order of coordinates. An owned tile among them
/// stays visible exactly when `my_plid` owns it or a tile within
/// `vis_radius` of it. Tiles without owner are left alone.
///
/// `queue_tmp_dirty` is scratch space, handed back empty.
pub fn compute_fog_of_war<F: Fn(Hex) -> Option<PlayerId>>(
    vis_radius: u8,
    queue_tmp_dirty: &mut Vec<Hex>,
    my_plid: PlayerId,
    tiles: &[Hex],
    fetch_owner_at: F,
) -> (updates: Vec<(Hex, bool)>)
    requires
        owner_fn_ok(fetch_owner_at),
        forall|i: int| 0 <= i < tiles@.len() ==> hex_fits_around(#[trigger] tiles@[i], 2 * vis_radius),
    ensures
        final(queue_tmp_dirty)@.len() == 0,
        exists|ds: Seq<Hex>|
            {
                &&& strictly_sorted(ds)
                &&& ds.to_set() == lost_tiles(fetch_owner_at, my_plid, vis_radius as int, tiles@).to_set()
                &&& updates@ == gained_updates(fetch_owner_at, my_plid, vis_radius as int, tiles@)
                    + recheck_updates(fetch_owner_at, my_plid, vis_radius as int, ds)
            },
{
    let ghost f = fetch_owner_at;
    let ghost rr = vis_radius as int;
    queue_tmp_dirty.clear();
    let mut updates: Vec<(Hex, bool)> = Vec::new();
    let mut i: usize = 0;
    while i < tiles.len()
        invariant
            0 <= i <= tiles@.len(),
            f == fetch_owner_at,
            rr == vis_radius,
            owner_fn_ok(f),
            forall|q: int| 0 <= q < tiles@.len() ==> hex_fits_around(#[trigger] tiles@[q], 2 * rr),
            updates@ == gained_updates(f, my_plid, rr, tiles@.take(i as int)),
            queue_tmp_dirty@ == lost_tiles(f, my_plid, rr, tiles@.take(i as int)),
            forall|q: int| 0 <= q < queue_tmp_dirty@.len() ==> hex_fits_around(#[trigger] queue_tmp_dirty@[q], rr),
        decreases tiles@.len() - i,
    {
        let c = tiles[i];
        let o = fetch_owner_at(c);
        proof {
            lemma_owner_at(f, c, o);
            assert(tiles@.take(i + 1).drop_last() =~= tiles@.take(i as int));
            assert(tiles@.take(i + 1).last() == c);
            assert(hex_fits_around(tiles@[i as int], 2 * rr));
        }
        match o {
            Some(p) => {
                let around = rings_around_exec(c, vis_radius);
                if p == my_plid {
                    let ghost base = updates@;
                    updates.push((c, true));
                    let mut k: usize = 0;
                    while k < around.len()
                        invariant
                            0 <= k <= around.len(),
                            updates@ == base + seq![(c, true)] + around@.take(k as int).map_values(|h: Hex| (h, true)),
                        decreases around.len() - k,
                    {
                        proof {
                            assert(around@.take(k + 1).map_values(|h: Hex| (h, true))
                                =~= around@.take(k as int).map_values(|h: Hex| (h, true)).push((around@[k as int], true)));
                        }
                        updates.push((around[k], true));
                        k = k + 1;
                    }
                    proof {
                        assert(around@.take(k as int) =~= around@);
                        assert(updates@ =~= base + (seq![(c, true)] + rings_around(c, rr).map_values(|h: Hex| (h, true))));
                        assert(queue_tmp_dirty@ =~= lost_tiles(f, my_plid, rr, tiles@.take(i as int)) + Seq::<Hex>::empty());
                    }
                } else {
                    let ghost base = queue_tmp_dirty@;
                    queue_tmp_dirty.push(c);
                    let mut k: usize = 0;
                    while k < around.len()
                        invariant
                            0 <= k <= around.len(),
                            hex_fits_around(c, 2 * rr),
                            rr == vis_radius,
                            forall|q: int| 0 <= q < around@.len() ==> #[trigger] near(c, around@[q], rr),
                            forall|q: int| 0 <= q < base.len() ==> hex_fits_around(#[trigger] base[q], rr),
                            queue_tmp_dirty@ == base + seq![c] + around@.take(k as int),
                            forall|q: int| 0 <= q < queue_tmp_dirty@.len() ==> hex_fits_around(#[trigger] queue_tmp_dirty@[q], rr),
                        decreases around.len() - k,
                    {
                        proof {
                            assert(around@.take(k + 1) =~= around@.take(k as int).push(around@[k as int]));
                            assert(near(c, around@[k as int], rr));
                        }
                        queue_tmp_dirty.push(around[k]);
                        k = k + 1;
                    }
                    proof {
                        assert(around@.take(k as int) =~= around@);
                        assert(queue_tmp_dirty@ =~= base + (seq![c] + rings_around(c, rr)));
                        assert(updates@ =~= gained_updates(f, my_plid, rr, tiles@.take(i as int)) + Seq::<(Hex, bool)>::empty());
                    }
                }
            },
            None => {
                proof {
                    assert(updates@ =~= gained_updates(f, my_plid, rr, tiles@.take(i as int)) + Seq::<(Hex, bool)>::empty());
                    assert(queue_tmp_dirty@ =~= lost_tiles(f, my_plid, rr, tiles@.take(i as int)) + Seq::<Hex>::empty());
                }
            },
        }
        i = i + 1;
    }
    proof {
        assert(tiles@.take(i as int) =~= tiles@);
    }
    if queue_tmp_dirty.len() == 0 {
        proof {
            let e = Seq::<Hex>::empty();
            assert(queue_tmp_dirty@ =~= e);
            assert(updates@ =~= updates@ + recheck_updates(f, my_plid, rr, e));
            assert(strictly_sorted(e));
            assert(e.to_set() == lost_tiles(f, my_plid, rr, tiles@).to_set());
        }
        return updates;
    }
    let mut ds: Vec<Hex> = Vec::new();
    let mut q: usize = 0;
    proof {
        assert(ds@.to_set() =~= queue_tmp_dirty@.take(0).to_set());
    }
    while q < queue_tmp_dirty.len()
        invariant
            0 <= q <= queue_tmp_dirty@.len(),
            strictly_sorted(ds@),
            ds@.to_set() == queue_tmp_dirty@.take(q as int).to_set(),
            forall|j: int| 0 <= j < queue_tmp_dirty@.len() ==> hex_fits_around(#[trigger] queue_tmp_dirty@[j], rr),
            forall|x: Hex| #[trigger] ds@.contains(x) ==> hex_fits_around(x, rr),
        decreases queue_tmp_dirty@.len() - q,
    {
        let h = queue_tmp_dirty[q];
        let ghost before = ds@;
        insert_sorted(&mut ds, h);
        proof {
            assert(queue_tmp_dirty@.take(q + 1) =~= queue_tmp_dirty@.take(q as int).push(h));
            queue_tmp_dirty@.take(q as int).lemma_push_to_set_commute(h);
            assert(hex_fits_around(queue_tmp_dirty@[q as int], rr));
            assert forall|x: Hex| #[trigger] ds@.contains(x) implies hex_fits_around(x, rr) by {
                assert(ds@.to_set().contains(x));
                if x != h {
                    assert(before.to_set().contains(x));
                }
            }
        }
        q = q + 1;
    }
    proof {
        assert(queue_tmp_dirty@.take(q as int) =~= queue_tmp_dirty@);
    }
    let ghost gained = updates@;
    let mut k: usize = 0;
    while k < ds.len()
        invariant
            0 <= k <= ds@.len(),
            f == fetch_owner_at,
            rr == vis_radius,
            owner_fn_ok(f),
            forall|x: Hex| #[trigger] ds@.contains(x) ==> hex_fits_around(x, rr),
            updates@ == gained + recheck_updates(f, my_plid, rr, ds@.take(k as int)),
        decreases ds@.len() - k,
    {
        let c = ds[k];
        let o = fetch_owner_at(c);
        proof {
            lemma_owner_at(f, c, o);
            assert(ds@.take(k + 1).drop_last() =~= ds@.take(k as int));
            assert(ds@.take(k + 1).last() == c);
            assert(ds@.contains(c));
        }
        match o {
            Some(p) => {
                let vis = if p == my_plid {
                    true
                } else {
                    sees_owned_exec(&fetch_owner_at, my_plid, c, vis_radius)
                };
                updates.push((c, vis));
                proof {
                    assert(updates@ =~= gained + (recheck_updates(f, my_plid, rr, ds@.take(k as int))
                        + seq![(c, visible_from(f, my_plid, rr, c))]));
                }
            },
            None => {
                proof {
                    assert(updates@ =~= gained + (recheck_updates(f, my_plid, rr, ds@.take(k as int))
                        + Seq::<(Hex, bool)>::empty()));
                }
            },
        }
        k = k + 1;
    }
    proof {
        assert(ds@.take(k as int) =~= ds@);
    }
    queue_tmp_dirty.clear();
    updates
}

} // verus!
