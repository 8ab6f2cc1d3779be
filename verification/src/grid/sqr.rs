//! Square coordinates with rhomboid rings (Manhattan distance)

use vstd::prelude::*;
use super::{abs, clamp_i8, mul_sat, fits_i8};
use super::pos::Pos;
use super::hex::{iabs16, iabs8};

verus! {

/// Square Coordinate (Rhomboid rings): `Sqr(y, x)`.
#[derive(Debug, Clone, Copy, PartialEq, Eq, PartialOrd, Ord, Hash, Structural)]
pub struct Sqr(pub i8, pub i8);

/// The `k`-th coordinate (relative to the center) of the rhomboid ring of
/// radius `r > 0`: starting at `(0, -r)`, along the four diagonal edges, `r` steps each.
pub open spec fn sqr_ring_offset(r: int, k: int) -> (int, int) {
    let e = k / r;
    let i = k % r;
    if e == 0 {
        (i, -r + i)
    } else if e == 1 {
        (r - i, i)
    } else if e == 2 {
        (-i, r - i)
    } else {
        (-r + i, -i)
    }
}

/// The offset `(dy, dx)` of the `i`-th neighbor; the first four are the
/// diagonals, the last four the edge neighbors.
pub open spec fn sqr_neigh_dir(i: int) -> (int, int) {
    if i == 0 {
        (1, 1)
    } else if i == 1 {
        (-1, 1)
    } else if i == 2 {
        (-1, -1)
    } else if i == 3 {
        (1, -1)
    } else if i == 4 {
        (0, -1)
    } else if i == 5 {
        (1, 0)
    } else if i == 6 {
        (0, 1)
    } else {
        (-1, 0)
    }
}

impl Sqr {
    /// The coordinate `(0, 0)`.
    pub fn origin() -> (r: Self)
        ensures
            r == Sqr(0, 0),
    {
        Sqr(0, 0)
    }

    /// The distance to another coordinate: the sum of the component differences.
    pub fn distance(self, other: Self) -> (r: u16)
        ensures
            r == abs(self.0 - other.0) + abs(self.1 - other.1),
    {
        let dx = iabs16(self.0 as i16 - other.0 as i16);
        let dy = iabs16(self.1 as i16 - other.1 as i16);
        dx + dy
    }

    /// The ring of the coordinate: the sum of the absolute components.
    pub fn ring(self) -> (r: u8)
        requires
            self.0 != -128,
            self.1 != -128,
        ensures
            r == abs(self.0 as int) + abs(self.1 as int),
    {
        iabs8(self.0) + iabs8(self.1)
    }

    /// The number of tiles in ring `r`.
    pub fn ring_len(r: u8) -> (n: usize)
        ensures
            n == r * 4,
    {
        r as usize * 4
    }

    /// The number of tiles of a map of radius `r`.
    pub fn map_area(r: u8) -> (n: usize)
        ensures
            n == r * r * 2 + (r * 2 + 1),
    {
        let r = r as usize;
        assert(r * r <= 255 * 255) by (nonlinear_arith)
            requires r <= 255;
        r * r * 2 + (r * 2 + 1)
    }

    /// The lowest `x` value of a map of radius `r`.
    pub fn xmin(r: u8, _y: i8) -> (x: i8)
        requires
            r <= 127,
        ensures
            x == -r,
    {
        -(r as i8)
    }

    /// The highest `x` value of a map of radius `r`.
    pub fn xmax(r: u8, _y: i8) -> (x: i8)
        requires
            r <= 127,
        ensures
            x == r,
    {
        r as i8
    }

    /// The number of tiles in row `y` of a map of radius `r`.
    pub fn row_len(r: u8, y: i8) -> (n: usize)
        requires
            y != -128,
            abs(y as int) * 2 <= r * 2 + 1,
        ensures
            n == r * 2 + 1 - abs(y as int) * 2,
    {
        (r as usize * 2 + 1) - iabs8(y) as usize * 2
    }

    /// Indentation of row `y` when drawing the map as ASCII art.
    pub fn aa_indent(y: i8) -> (n: usize)
        requires
            y != -128,
        ensures
            n == abs(y as int) * 2,
    {
        iabs8(y) as usize * 2
    }

    /// Scale by a signed factor, saturating at the `i8` range.
    pub fn mul_i8(self, s: i8) -> (r: Sqr)
        ensures
            r == Sqr(clamp_i8(self.0 * s), clamp_i8(self.1 * s)),
    {
        Sqr(mul_sat(self.0, s as i16), mul_sat(self.1, s as i16))
    }

    /// The 4 edge neighbors.
    pub fn iter_n0(self) -> (v: Vec<Sqr>)
        requires
            -127 <= self.0 <= 126,
            -127 <= self.1 <= 126,
        ensures
            v.len() == 4,
            forall|i: int| 0 <= i < 4 ==> v[i].0 == self.0 + #[trigger] sqr_neigh_dir(i + 4).0
                && v[i].1 == self.1 + sqr_neigh_dir(i + 4).1,
    {
        let mut v = Vec::new();
        v.push(Sqr(self.0, self.1 - 1));
        v.push(Sqr(self.0 + 1, self.1));
        v.push(Sqr(self.0, self.1 + 1));
        v.push(Sqr(self.0 - 1, self.1));
        v
    }

    /// The 8 touching neighbors: the diagonals, then the edge neighbors.
    pub fn iter_n1(self) -> (v: Vec<Sqr>)
        requires
            -127 <= self.0 <= 126,
            -127 <= self.1 <= 126,
        ensures
            v.len() == 8,
            forall|i: int| 0 <= i < 8 ==> v[i].0 == self.0 + #[trigger] sqr_neigh_dir(i).0
                && v[i].1 == self.1 + sqr_neigh_dir(i).1,
    {
        let mut v = Vec::new();
        v.push(Sqr(self.0 + 1, self.1 + 1));
        v.push(Sqr(self.0 - 1, self.1 + 1));
        v.push(Sqr(self.0 - 1, self.1 - 1));
        v.push(Sqr(self.0 + 1, self.1 - 1));
        v.push(Sqr(self.0, self.1 - 1));
        v.push(Sqr(self.0 + 1, self.1));
        v.push(Sqr(self.0, self.1 + 1));
        v.push(Sqr(self.0 - 1, self.1));
        v
    }

    /// The coordinates of the rhomboid ring of radius `r > 0` around `self`, in walk order.
    pub fn iter_ring(self, r: u8) -> (v: Vec<Sqr>)
        requires
            1 <= r,
            fits_i8(self.0 - r),
            fits_i8(self.0 + r),
            fits_i8(self.1 - r),
            fits_i8(self.1 + r),
        ensures
            v.len() == 4 * r,
            forall|k: int| 0 <= k < 4 * r ==> v[k].0 == self.0 + #[trigger] sqr_ring_offset(r as int, k).0
                && v[k].1 == self.1 + sqr_ring_offset(r as int, k).1,
    {
        let ri = r as i16;
        let cy = self.0 as i16;
        let cx = self.1 as i16;
        let mut v: Vec<Sqr> = Vec::new();
        let mut e: i16 = 0;
        while e < 4
            invariant
                0 <= e <= 4,
                ri == r,
                1 <= r,
                cy == self.0,
                cx == self.1,
                fits_i8(self.0 - r),
                fits_i8(self.0 + r),
                fits_i8(self.1 - r),
                fits_i8(self.1 + r),
                v.len() == e * r,
                forall|k: int| 0 <= k < v.len() ==> v[k].0 == self.0 + #[trigger] sqr_ring_offset(r as int, k).0
                    && v[k].1 == self.1 + sqr_ring_offset(r as int, k).1,
            decreases 4 - e,
        {
            let mut i: i16 = 0;
            while i < ri
                invariant
                    0 <= e < 4,
                    0 <= i <= r,
                    ri == r,
                    1 <= r,
                    cy == self.0,
                    cx == self.1,
                    fits_i8(self.0 - r),
                    fits_i8(self.0 + r),
                    fits_i8(self.1 - r),
                    fits_i8(self.1 + r),
                    v.len() == e * r + i,
                    forall|k: int| 0 <= k < v.len() ==> v[k].0 == self.0 + #[trigger] sqr_ring_offset(r as int, k).0
                        && v[k].1 == self.1 + sqr_ring_offset(r as int, k).1,
                decreases ri - i,
            {
                let (oy, ox) = if e == 0 {
                    (i, -ri + i)
                } else if e == 1 {
                    (ri - i, i)
                } else if e == 2 {
                    (-i, ri - i)
                } else {
                    (-ri + i, -i)
                };
                proof {
                    let k = e * r + i;
                    assert(k / (r as int) == e && k % (r as int) == i) by (nonlinear_arith)
                        requires k == e * r + i, 0 <= i < r, r >= 1, e >= 0;
                }
                v.push(Sqr((cy + oy) as i8, (cx + ox) as i8));
                i = i + 1;
            }
            assert(e * r + r == (e + 1) * r) by (nonlinear_arith);
            e = e + 1;
        }
        v
    }

    /// View as a topology-agnostic coordinate.
    pub fn to_pos(self) -> (p: Pos)
        ensures
            p == Pos(self.0, self.1),
    {
        Pos(self.0, self.1)
    }
}

impl Default for Sqr {
    fn default() -> (r: Self)
        ensures
            r == Sqr(0, 0),
    {
        Sqr(0, 0)
    }
}

} // verus!
