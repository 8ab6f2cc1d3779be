//! Game map data: the terrain of a hex map, and the computation of fertile
//! land around water.

use vstd::prelude::*;
use crate::grid::abs;
use crate::grid::hex::{Hex, hex_ring, hex_in_map, hex_index, hex_map_area, hex_ring_offset, lemma_hex_index_bounds};
use super::TileKind;

verus! {

/// A tile is within a hex map of radius `r` exactly when its ring is at most `r`.
pub proof fn lemma_ring_in_map(r: int, y: int, x: int)
    requires
        r >= 0,
    ensures
        hex_in_map(r, y, x) <==> (abs(y) + abs(x) + abs(-y - x)) / 2 <= r,
{
}

/// Ring `k` of radius `r > 0` around the origin has ring `r`: each of its
/// coordinates is at most `r` away.
pub proof fn lemma_ring_offset(r: int, k: int)
    requires
        r >= 1,
        0 <= k < 6 * r,
    ensures
        ({
            let (y, x) = hex_ring_offset(r, k);
            &&& abs(y) <= r && abs(x) <= r && abs(-y - x) <= r
            &&& (abs(y) + abs(x) + abs(-y - x)) / 2 == r
        }),
{
    let e = k / r;
    let i = k % r;
    assert(0 <= e < 6 && 0 <= i < r) by (nonlinear_arith)
        requires e == k / r, i == k % r, 0 <= k < 6 * r, r >= 1;
}

/// The terrain of a hex map of radius `radius`: the kind of each tile,
/// stored row by row (see `Hex::index`).
pub struct HexTerrain {
    pub radius: u8,
    pub kinds: Vec<TileKind>,
}

impl HexTerrain {
    /// The storage holds one kind per tile.
    pub open spec fn wf(&self) -> bool {
        1 <= self.radius <= 126 && self.kinds@.len() == hex_map_area(self.radius as int)
    }
}

/// The tile `(y, x)` of a map of radius `sz` is water.
pub open spec fn water_at(m: Seq<TileKind>, sz: int, y: int, x: int) -> bool {
    hex_in_map(sz, y, x) && m[hex_index(sz, y, x)] == TileKind::Water
}

/// Some tile of the map at distance `d` from `(y, x)` is water.
pub open spec fn near_water(m: Seq<TileKind>, sz: int, d: int, y: int, x: int) -> bool {
    exists|k: int| 0 <= k < 6 * d && #[trigger] water_at(m, sz, y + hex_ring_offset(d, k).0, x + hex_ring_offset(d, k).1)
}

/// The land tile `(y, x)` has water at distance `d`: it becomes fertile.
pub open spec fn fertile_spot(m: Seq<TileKind>, sz: int, d: int, y: int, x: int) -> bool {
    hex_in_map(sz, y, x) && m[hex_index(sz, y, x)] != TileKind::Water && near_water(m, sz, d, y, x)
}

/// Some tile of ring `r` becomes fertile.
pub open spec fn ring_active(m: Seq<TileKind>, sz: int, d: int, r: int) -> bool {
    exists|k: int| 0 <= k < 6 * r && #[trigger] fertile_spot(m, sz, d, hex_ring_offset(r, k).0, hex_ring_offset(r, k).1)
}

/// The tile stored at `i` is one of the rings `lo..sz` that becomes fertile.
pub open spec fn fertilized_at(m: Seq<TileKind>, sz: int, d: int, lo: int, i: int) -> bool {
    exists|r: int, k: int| #![trigger hex_ring_offset(r, k)]
        lo <= r < sz && 0 <= k < 6 * r
        && fertile_spot(m, sz, d, hex_ring_offset(r, k).0, hex_ring_offset(r, k).1)
        && hex_index(sz, hex_ring_offset(r, k).0, hex_ring_offset(r, k).1) == i
}

/// The map once the rings `lo..sz` have been fertilized.
pub open spec fn fertilized_from(m: Seq<TileKind>, sz: int, d: int, lo: int) -> Seq<TileKind> {
    Seq::new(m.len(), |i: int| if fertilized_at(m, sz, d, lo, i) { TileKind::Fertile } else { m[i] })
}

/// The innermost ring that fertilizing reaches: going inwards from ring
/// `r`, the first ring where no tile becomes fertile, or ring 1.
pub open spec fn innermost_ring(m: Seq<TileKind>, sz: int, d: int, r: int) -> int
    decreases r,
{
    if r <= 1 || !ring_active(m, sz, d, r) { r } else { innermost_ring(m, sz, d, r - 1) }
}

/// The map with fertile land computed: going inwards from the ring inside
/// the outermost one, every land tile with water at distance `d` becomes
/// fertile, ring by ring, until a ring where none does (that ring included).
pub open spec fn fertilized(m: Seq<TileKind>, sz: int, d: int) -> Seq<TileKind> {
    if sz <= 1 { m } else { fertilized_from(m, sz, d, innermost_ring(m, sz, d, sz - 1)) }
}

/// The same tiles are water in both maps.
pub open spec fn same_water(a: Seq<TileKind>, b: Seq<TileKind>) -> bool {
    a.len() == b.len() && forall|i: int| 0 <= i < a.len() ==> ((#[trigger] a[i] == TileKind::Water) <==> (b[i] == TileKind::Water))
}

/// Maps with the same water have the same fertile spots.
proof fn lemma_same_water_spots(a: Seq<TileKind>, b: Seq<TileKind>, sz: int, d: int, y: int, x: int)
    requires
        same_water(a, b),
        a.len() == hex_map_area(sz),
        sz >= 1,
    ensures
        near_water(a, sz, d, y, x) == near_water(b, sz, d, y, x),
        fertile_spot(a, sz, d, y, x) == fertile_spot(b, sz, d, y, x),
{
    assert forall|yy: int, xx: int| hex_in_map(sz, yy, xx) implies #[trigger] water_at(a, sz, yy, xx) == water_at(b, sz, yy, xx) by {
        lemma_hex_index_bounds(sz, yy, xx);
    }
    if near_water(a, sz, d, y, x) {
        let k = choose|k: int| 0 <= k < 6 * d && #[trigger] water_at(a, sz, y + hex_ring_offset(d, k).0, x + hex_ring_offset(d, k).1);
        assert(water_at(b, sz, y + hex_ring_offset(d, k).0, x + hex_ring_offset(d, k).1));
    }
    if near_water(b, sz, d, y, x) {
        let k = choose|k: int| 0 <= k < 6 * d && #[trigger] water_at(b, sz, y + hex_ring_offset(d, k).0, x + hex_ring_offset(d, k).1);
        assert(water_at(a, sz, y + hex_ring_offset(d, k).0, x + hex_ring_offset(d, k).1));
    }
    if hex_in_map(sz, y, x) {
        lemma_hex_index_bounds(sz, y, x);
    }
}

/// Whether the tile `c` is a water tile of the map (see `water_at`).
fn is_water_tile(map: &HexTerrain, c: Hex) -> (r: bool)
    requires
        map.wf(),
        c.0 != -128 && c.1 != -128,
        -128 < -c.0 - c.1 < 128,
    ensures
        r == water_at(map.kinds@, map.radius as int, c.0 as int, c.1 as int),
{
    let sz = map.radius;
    proof {
        lemma_ring_in_map(sz as int, c.0 as int, c.1 as int);
    }
    if c.ring() <= sz {
        proof {
            lemma_hex_index_bounds(sz as int, c.0 as int, c.1 as int);
        }
        let i = Hex::index(sz, c);
        map.kinds[i] == TileKind::Water
    } else {
        false
    }
}

/// Whether the tile `c` has water at distance `d` (see `near_water`).
fn has_water_near(map: &HexTerrain, c: Hex, d: u8) -> (r: bool)
    requires
        map.wf(),
        1 <= d,
        map.radius + d <= 127,
        abs(c.0 as int) < map.radius && abs(c.1 as int) < map.radius && abs(-c.0 - c.1) < map.radius,
    ensures
        r == near_water(map.kinds@, map.radius as int, d as int, c.0 as int, c.1 as int),
{
    let ghost sz = map.radius as int;
    let near = c.iter_ring(d);
    let mut j: usize = 0;
    while j < near.len()
        invariant
            map.wf(),
            sz == map.radius,
            near@.len() == 6 * d,
            1 <= d,
            sz + d <= 127,
            abs(c.0 as int) < sz && abs(c.1 as int) < sz && abs(-c.0 - c.1) < sz,
            forall|k: int| 0 <= k < 6 * d ==> near@[k].0 == c.0 + #[trigger] hex_ring_offset(d as int, k).0
                && near@[k].1 == c.1 + hex_ring_offset(d as int, k).1,
            j <= near@.len(),
            forall|k: int| 0 <= k < j ==> !#[trigger] water_at(map.kinds@, sz, c.0 + hex_ring_offset(d as int, k).0,
                c.1 + hex_ring_offset(d as int, k).1),
        decreases near@.len() - j,
    {
        let c2 = near[j];
        proof {
            lemma_ring_offset(d as int, j as int);
            assert(near@[j as int].0 == c.0 + hex_ring_offset(d as int, j as int).0);
        }
        if is_water_tile(map, c2) {
            return true;
        }
        j = j + 1;
    }
    false
}

/// The tile stored at `i` is one of the first `j` tiles of ring `r` and
/// becomes fertile.
pub open spec fn ring_part(m: Seq<TileKind>, sz: int, d: int, r: int, j: int, i: int) -> bool {
    exists|k: int| #![trigger hex_ring_offset(r, k)]
        0 <= k < j && fertile_spot(m, sz, d, hex_ring_offset(r, k).0, hex_ring_offset(r, k).1)
        && hex_index(sz, hex_ring_offset(r, k).0, hex_ring_offset(r, k).1) == i
}

/// The map while ring `r` is being fertilized, after its first `j` tiles.
pub open spec fn ring_state(m: Seq<TileKind>, sz: int, d: int, r: int, j: int) -> Seq<TileKind> {
    Seq::new(m.len(), |i: int| if fertilized_at(m, sz, d, r + 1, i) || ring_part(m, sz, d, r, j, i) { TileKind::Fertile } else { m[i] })
}

/// Some of the first `j` tiles of ring `r` becomes fertile.
pub open spec fn ring_part_active(m: Seq<TileKind>, sz: int, d: int, r: int, j: int) -> bool {
    exists|k: int| 0 <= k < j && #[trigger] fertile_spot(m, sz, d, hex_ring_offset(r, k).0, hex_ring_offset(r, k).1)
}

/// Before any tile of ring `r`, the map is the one fertilized outside it.
proof fn lemma_ring_state_start(m: Seq<TileKind>, sz: int, d: int, r: int)
    ensures
        ring_state(m, sz, d, r, 0) == fertilized_from(m, sz, d, r + 1),
{
    assert(ring_state(m, sz, d, r, 0) =~= fertilized_from(m, sz, d, r + 1));
}

/// After all tiles of ring `r`, the map is the one fertilized from ring `r` on.
proof fn lemma_ring_state_end(m: Seq<TileKind>, sz: int, d: int, r: int)
    requires
        1 <= r < sz,
    ensures
        ring_state(m, sz, d, r, 6 * r) == fertilized_from(m, sz, d, r),
        ring_part_active(m, sz, d, r, 6 * r) == ring_active(m, sz, d, r),
{
    assert forall|i: int| 0 <= i < m.len() implies
        (fertilized_at(m, sz, d, r + 1, i) || ring_part(m, sz, d, r, 6 * r, i)) == #[trigger] fertilized_at(m, sz, d, r, i) by {
        if fertilized_at(m, sz, d, r, i) {
            let (r2, k) = choose|r2: int, k: int| #![trigger hex_ring_offset(r2, k)]
                r <= r2 < sz && 0 <= k < 6 * r2
                && fertile_spot(m, sz, d, hex_ring_offset(r2, k).0, hex_ring_offset(r2, k).1)
                && hex_index(sz, hex_ring_offset(r2, k).0, hex_ring_offset(r2, k).1) == i;
            if r2 == r {
                assert(ring_part(m, sz, d, r, 6 * r, i));
            } else {
                assert(fertilized_at(m, sz, d, r + 1, i));
            }
        }
        if ring_part(m, sz, d, r, 6 * r, i) {
            let k = choose|k: int| #![trigger hex_ring_offset(r, k)]
                0 <= k < 6 * r && fertile_spot(m, sz, d, hex_ring_offset(r, k).0, hex_ring_offset(r, k).1)
                && hex_index(sz, hex_ring_offset(r, k).0, hex_ring_offset(r, k).1) == i;
            assert(fertilized_at(m, sz, d, r, i));
        }
        if fertilized_at(m, sz, d, r + 1, i) {
            let (r2, k) = choose|r2: int, k: int| #![trigger hex_ring_offset(r2, k)]
                r + 1 <= r2 < sz && 0 <= k < 6 * r2
                && fertile_spot(m, sz, d, hex_ring_offset(r2, k).0, hex_ring_offset(r2, k).1)
                && hex_index(sz, hex_ring_offset(r2, k).0, hex_ring_offset(r2, k).1) == i;
            assert(fertilized_at(m, sz, d, r, i));
        }
    }
    assert(ring_state(m, sz, d, r, 6 * r) =~= fertilized_from(m, sz, d, r));
}

/// One more tile of ring `r`: it is made fertile where it becomes so.
proof fn lemma_ring_state_step(m: Seq<TileKind>, sz: int, d: int, r: int, j: int)
    requires
        0 <= j,
        0 <= hex_index(sz, hex_ring_offset(r, j).0, hex_ring_offset(r, j).1) < m.len(),
    ensures
        ring_state(m, sz, d, r, j + 1) == (if fertile_spot(m, sz, d, hex_ring_offset(r, j).0, hex_ring_offset(r, j).1) {
            ring_state(m, sz, d, r, j).update(hex_index(sz, hex_ring_offset(r, j).0, hex_ring_offset(r, j).1), TileKind::Fertile)
        } else {
            ring_state(m, sz, d, r, j)
        }),
        ring_part_active(m, sz, d, r, j + 1) == (ring_part_active(m, sz, d, r, j)
            || fertile_spot(m, sz, d, hex_ring_offset(r, j).0, hex_ring_offset(r, j).1)),
{
    let c = hex_ring_offset(r, j);
    let ic = hex_index(sz, c.0, c.1);
    let spot = fertile_spot(m, sz, d, c.0, c.1);
    assert forall|i: int| 0 <= i < m.len() implies #[trigger] ring_part(m, sz, d, r, j + 1, i)
        == (ring_part(m, sz, d, r, j, i) || (spot && i == ic)) by {
        if ring_part(m, sz, d, r, j + 1, i) {
            let k = choose|k: int| #![trigger hex_ring_offset(r, k)]
                0 <= k < j + 1 && fertile_spot(m, sz, d, hex_ring_offset(r, k).0, hex_ring_offset(r, k).1)
                && hex_index(sz, hex_ring_offset(r, k).0, hex_ring_offset(r, k).1) == i;
            if k < j {
                assert(ring_part(m, sz, d, r, j, i));
            }
        }
        if ring_part(m, sz, d, r, j, i) {
            let k = choose|k: int| #![trigger hex_ring_offset(r, k)]
                0 <= k < j && fertile_spot(m, sz, d, hex_ring_offset(r, k).0, hex_ring_offset(r, k).1)
                && hex_index(sz, hex_ring_offset(r, k).0, hex_ring_offset(r, k).1) == i;
            assert(ring_part(m, sz, d, r, j + 1, i));
        }
        if spot && i == ic {
            assert(ring_part(m, sz, d, r, j + 1, i));
        }
    }
    if spot {
        assert(ring_state(m, sz, d, r, j + 1) =~= ring_state(m, sz, d, r, j).update(ic, TileKind::Fertile));
    } else {
        assert(ring_state(m, sz, d, r, j + 1) =~= ring_state(m, sz, d, r, j));
    }
    if ring_part_active(m, sz, d, r, j + 1) {
        let k = choose|k: int| 0 <= k < j + 1 && #[trigger] fertile_spot(m, sz, d, hex_ring_offset(r, k).0, hex_ring_offset(r, k).1);
        if k < j {
            assert(ring_part_active(m, sz, d, r, j));
        }
    }
    if ring_part_active(m, sz, d, r, j) {
        let k = choose|k: int| 0 <= k < j && #[trigger] fertile_spot(m, sz, d, hex_ring_offset(r, k).0, hex_ring_offset(r, k).1);
        assert(ring_part_active(m, sz, d, r, j + 1));
    }
    if spot {
        assert(ring_part_active(m, sz, d, r, j + 1));
    }
}

/// Only land becomes fertile: the water stays where it was.
proof fn lemma_ring_state_water(m: Seq<TileKind>, sz: int, d: int, r: int, j: int)
    requires
        m.len() == hex_map_area(sz),
        sz >= 1,
    ensures
        same_water(ring_state(m, sz, d, r, j), m),
        ring_state(m, sz, d, r, j).len() == m.len(),
{
    let st = ring_state(m, sz, d, r, j);
    assert forall|i: int| 0 <= i < st.len() implies ((#[trigger] st[i] == TileKind::Water) <==> (m[i] == TileKind::Water)) by {
        if fertilized_at(m, sz, d, r + 1, i) {
            let (r2, k) = choose|r2: int, k: int| #![trigger hex_ring_offset(r2, k)]
                r + 1 <= r2 < sz && 0 <= k < 6 * r2
                && fertile_spot(m, sz, d, hex_ring_offset(r2, k).0, hex_ring_offset(r2, k).1)
                && hex_index(sz, hex_ring_offset(r2, k).0, hex_ring_offset(r2, k).1) == i;
        } else if ring_part(m, sz, d, r, j, i) {
            let k = choose|k: int| #![trigger hex_ring_offset(r, k)]
                0 <= k < j && fertile_spot(m, sz, d, hex_ring_offset(r, k).0, hex_ring_offset(r, k).1)
                && hex_index(sz, hex_ring_offset(r, k).0, hex_ring_offset(r, k).1) == i;
        }
    }
}

/// Fertilize ring `r`: each land tile with water at distance `d` becomes
/// fertile. Returns whether any did.
fn fertilize_ring(map: &mut HexTerrain, r: u8, d: u8, Ghost(m0): Ghost<Seq<TileKind>>) -> (active: bool)
    requires
        old(map).wf(),
        1 <= r < old(map).radius,
        1 <= d,
        old(map).radius + d <= 127,
        m0.len() == hex_map_area(old(map).radius as int),
        old(map).kinds@ == fertilized_from(m0, old(map).radius as int, d as int, r + 1),
    ensures
        final(map).radius == old(map).radius,
        final(map).wf(),
        final(map).kinds@ == fertilized_from(m0, old(map).radius as int, d as int, r as int),
        active == ring_active(m0, old(map).radius as int, d as int, r as int),
{
    let ghost sz = map.radius as int;
    let ring = Hex::origin().iter_ring(r);
    let mut active = false;
    let mut j: usize = 0;
    proof {
        lemma_ring_state_start(m0, sz, d as int, r as int);
    }
    while j < ring.len()
        invariant
            map.wf(),
            map.radius == sz,
            1 <= r < sz,
            1 <= d,
            sz + d <= 127,
            m0.len() == hex_map_area(sz),
            ring@.len() == 6 * r,
            forall|k: int| 0 <= k < 6 * r ==> ring@[k].0 == 0 + #[trigger] hex_ring_offset(r as int, k).0
                && ring@[k].1 == 0 + hex_ring_offset(r as int, k).1,
            j <= ring@.len(),
            map.kinds@ == ring_state(m0, sz, d as int, r as int, j as int),
            active == ring_part_active(m0, sz, d as int, r as int, j as int),
        decreases ring@.len() - j,
    {
        let c = ring[j];
        let ghost off = hex_ring_offset(r as int, j as int);
        proof {
            lemma_ring_offset(r as int, j as int);
            assert(c.0 == off.0 && c.1 == off.1);
            lemma_ring_in_map(sz, c.0 as int, c.1 as int);
            lemma_hex_index_bounds(sz, c.0 as int, c.1 as int);
            lemma_ring_state_water(m0, sz, d as int, r as int, j as int);
            lemma_same_water_spots(map.kinds@, m0, sz, d as int, c.0 as int, c.1 as int);
            lemma_ring_state_step(m0, sz, d as int, r as int, j as int);
        }
        let i = Hex::index(map.radius, c);
        if map.kinds[i] != TileKind::Water && has_water_near(map, c, d) {
            map.kinds.set(i, TileKind::Fertile);
            active = true;
        }
        j = j + 1;
    }
    proof {
        lemma_ring_state_end(m0, sz, d as int, r as int);
    }
    active
}

/// Compute the fertile land of a map: the terrain data of a map holds only
/// geography (water, land, mountains), and the fertile land is computed from
/// it, the same way by every party. Going inwards from the ring inside the
/// outermost one, every land tile that has water at distance
/// `fertile_depth` (within the map) becomes fertile, until a ring where none
/// does (see `fertilized`).
pub fn fertilize_land(map: &mut HexTerrain, fertile_depth: u8)
    requires
        old(map).wf(),
        1 <= fertile_depth,
        old(map).radius + fertile_depth <= 127,
    ensures
        final(map).radius == old(map).radius,
        final(map).kinds@ == fertilized(old(map).kinds@, old(map).radius as int, fertile_depth as int),
{
    let ghost m0 = map.kinds@;
    let ghost d = fertile_depth as int;
    let sz = map.radius;
    if sz <= 1 {
        return;
    }
    let ghost szi = sz as int;
    let mut r: u8 = sz - 1;
    let mut done = false;
    proof {
        assert(fertilized_from(m0, szi, d, szi) =~= m0) by {
            assert forall|i: int| 0 <= i < m0.len() implies !#[trigger] fertilized_at(m0, szi, d, szi, i) by {}
        }
    }
    while !done
        invariant
            map.wf(),
            map.radius == sz,
            szi == sz,
            2 <= sz,
            1 <= fertile_depth,
            d == fertile_depth,
            sz + fertile_depth <= 127,
            m0.len() == hex_map_area(szi),
            1 <= r < sz,
            !done ==> map.kinds@ == fertilized_from(m0, szi, d, r + 1),
            !done ==> innermost_ring(m0, szi, d, szi - 1) == innermost_ring(m0, szi, d, r as int),
            done ==> map.kinds@ == fertilized(m0, szi, d),
        decreases r + (if done { 0int } else { 1int }),
    {
        let active = fertilize_ring(map, r, fertile_depth, Ghost(m0));
        if !active || r == 1 {
            proof {
                assert(innermost_ring(m0, szi, d, r as int) == r);
            }
            done = true;
        } else {
            proof {
                assert(innermost_ring(m0, szi, d, r as int) == innermost_ring(m0, szi, d, r - 1));
            }
            r = r - 1;
        }
    }
}

} // verus!
