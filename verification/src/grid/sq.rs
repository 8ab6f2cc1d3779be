//! Square coordinates with square rings (Chebyshev distance)

use vstd::prelude::*;
use super::{abs, clamp_i8, mul_sat, fits_i8};
use super::pos::Pos;
use super::hex::{iabs16, iabs8};

verus! {

/// Square Coordinate (square rings): `Sq(y, x)`.
#[derive(Debug, Clone, Copy, PartialEq, Eq, PartialOrd, Ord, Hash, Structural)]
pub struct Sq(pub i8, pub i8);

/// The offset `(dy, dx)` of the `i`-th neighbor; the first four are the
/// diagonals, the last four the edge neighbors.
pub open spec fn sq_neigh_dir(i: int) -> (int, int) {
    if i == 0 {
        (-1, -1)
    } else if i == 1 {
        (1, -1)
    } else if i == 2 {
        (-1, 1)
    } else if i == 3 {
        (1, 1)
    } else if i == 4 {
        (0, 1)
    } else if i == 5 {
        (-1, 0)
    } else if i == 6 {
        (1, 0)
    } else {
        (0, -1)
    }
}

/// The offset `(dy, dx)` of the `i`-th knight's-move neighbor.
pub open spec fn sq_knight_dir(i: int) -> (int, int) {
    if i == 0 {
        (-1, -2)
    } else if i == 1 {
        (1, -2)
    } else if i == 2 {
        (-2, -1)
    } else if i == 3 {
        (2, -1)
    } else if i == 4 {
        (-2, 1)
    } else if i == 5 {
        (2, 1)
    } else if i == 6 {
        (-1, 2)
    } else {
        (1, 2)
    }
}

/// The `k`-th coordinate (relative to the center) of the square ring of radius
/// `r > 0`: starting at the corner `(-r, -r)`, along the four edges, `2r` steps each.
pub open spec fn sq_ring_offset(r: int, k: int) -> (int, int) {
    let e = k / (2 * r);
    let i = k % (2 * r);
    if e == 0 {
        (-r + i, -r)
    } else if e == 1 {
        (r, -r + i)
    } else if e == 2 {
        (r - i, r)
    } else {
        (-r, r - i)
    }
}

/// The position of `(y, x)` in the row-by-row storage of a square map of radius `r`.
pub open spec fn sq_index(r: int, y: int, x: int) -> int {
    (y + r) * (r * 2 + 1) + (x + r)
}

/// Is `(y, x)` a tile of the square map of radius `r`?
pub open spec fn sq_in_map(r: int, y: int, x: int) -> bool {
    -r <= y <= r && -r <= x <= r
}

impl Sq {
    /// The coordinate `(0, 0)`.
    pub fn origin() -> (r: Self)
        ensures
            r == Sq(0, 0),
    {
        Sq(0, 0)
    }

    /// The distance to another coordinate: the larger of the two component differences.
    pub fn distance(self, other: Self) -> (r: u16)
        ensures
            r == if abs(self.0 - other.0) >= abs(self.1 - other.1) { abs(self.0 - other.0) } else { abs(self.1 - other.1) },
    {
        let dy = iabs16(self.0 as i16 - other.0 as i16);
        let dx = iabs16(self.1 as i16 - other.1 as i16);
        if dx >= dy {
            dx
        } else {
            dy
        }
    }

    /// The ring of the coordinate: the larger absolute component.
    pub fn ring(self) -> (r: u8)
        requires
            self.0 != -128,
            self.1 != -128,
        ensures
            r == if abs(self.0 as int) >= abs(self.1 as int) { abs(self.0 as int) } else { abs(self.1 as int) },
    {
        let a = iabs8(self.0);
        let b = iabs8(self.1);
        if a >= b {
            a
        } else {
            b
        }
    }

    /// The ring length value of radius `r`: `(2r + 1) * 4`.
    pub fn ring_len(r: u8) -> (n: usize)
        ensures
            n == (r * 2 + 1) * 4,
    {
        (r as usize * 2 + 1) * 4
    }

    /// The number of tiles of a map of radius `r`.
    pub fn map_area(r: u8) -> (n: usize)
        ensures
            n == (r * 2 + 1) * (r * 2 + 1),
    {
        let r = r as usize;
        let r2 = r * 2 + 1;
        assert(r2 * r2 <= 511 * 511) by (nonlinear_arith)
            requires r2 <= 511;
        r2 * r2
    }

    /// The lowest `x` of any row of a map of radius `r`.
    pub fn xmin(r: u8, _y: i8) -> (x: i8)
        requires
            r <= 127,
        ensures
            x == -r,
    {
        -(r as i8)
    }

    /// The highest `x` of any row of a map of radius `r`.
    pub fn xmax(r: u8, _y: i8) -> (x: i8)
        requires
            r <= 127,
        ensures
            x == r,
    {
        r as i8
    }

    /// The position of a tile in the row-by-row storage of a map of radius `r`.
    pub fn index(r: u8, c: Self) -> (i: usize)
        requires
            r <= 127,
            sq_in_map(r as int, c.0 as int, c.1 as int),
            sq_index(r as int, c.0 as int, c.1 as int) <= 32767,
        ensures
            i == sq_index(r as int, c.0 as int, c.1 as int),
            i < (r * 2 + 1) * (r * 2 + 1),
    {
        let r = r as i16;
        let w = r * 2 + 1;
        let x = c.1 as i16 + r;
        let y = c.0 as i16 + r;
        assert(y * w + x < w * w && y * w + x >= 0 && y * w <= 32767) by (nonlinear_arith)
            requires 0 <= y < w, 0 <= x < w, w <= 255, y * w + x <= 32767;
        (y * w + x) as usize
    }

    /// The number of tiles in any row of a map of radius `r`.
    pub fn row_len(r: u8, _y: i8) -> (n: usize)
        ensures
            n == r * 2 + 1,
    {
        r as usize * 2 + 1
    }

    /// Indentation of a row when drawing the map as ASCII art.
    pub fn aa_indent(_y: i8) -> (n: usize)
        ensures
            n == 1,
    {
        1
    }

    /// Scale by a signed factor, saturating at the `i8` range.
    pub fn mul_i8(self, s: i8) -> (r: Sq)
        ensures
            r == Sq(clamp_i8(self.0 * s), clamp_i8(self.1 * s)),
    {
        Sq(mul_sat(self.0, s as i16), mul_sat(self.1, s as i16))
    }

    /// Scale by an unsigned factor, saturating at the `i8` range.
    pub fn mul_u8(self, s: u8) -> (r: Sq)
        ensures
            r == Sq(clamp_i8(self.0 * s), clamp_i8(self.1 * s)),
    {
        Sq(mul_sat(self.0, s as i16), mul_sat(self.1, s as i16))
    }

    /// The 4 edge neighbors.
    pub fn iter_n0(self) -> (v: Vec<Sq>)
        requires
            -127 <= self.0 <= 126,
            -127 <= self.1 <= 126,
        ensures
            v.len() == 4,
            forall|i: int| 0 <= i < 4 ==> v[i].0 == self.0 + #[trigger] sq_neigh_dir(i + 4).0
                && v[i].1 == self.1 + sq_neigh_dir(i + 4).1,
    {
        let mut v = Vec::new();
        v.push(Sq(self.0, self.1 + 1));
        v.push(Sq(self.0 - 1, self.1));
        v.push(Sq(self.0 + 1, self.1));
        v.push(Sq(self.0, self.1 - 1));
        v
    }

    /// The 8 touching neighbors: the diagonals, then the edge neighbors.
    pub fn iter_n1(self) -> (v: Vec<Sq>)
        requires
            -127 <= self.0 <= 126,
            -127 <= self.1 <= 126,
        ensures
            v.len() == 8,
            forall|i: int| 0 <= i < 8 ==> v[i].0 == self.0 + #[trigger] sq_neigh_dir(i).0
                && v[i].1 == self.1 + sq_neigh_dir(i).1,
    {
        let mut v = Vec::new();
        v.push(Sq(self.0 - 1, self.1 - 1));
        v.push(Sq(self.0 + 1, self.1 - 1));
        v.push(Sq(self.0 - 1, self.1 + 1));
        v.push(Sq(self.0 + 1, self.1 + 1));
        v.push(Sq(self.0, self.1 + 1));
        v.push(Sq(self.0 - 1, self.1));
        v.push(Sq(self.0 + 1, self.1));
        v.push(Sq(self.0, self.1 - 1));
        v
    }

    /// The 8 knight's-move neighbors.
    pub fn iter_n2(self) -> (v: Vec<Sq>)
        requires
            -126 <= self.0 <= 125,
            -126 <= self.1 <= 125,
        ensures
            v.len() == 8,
            forall|i: int| 0 <= i < 8 ==> v[i].0 == self.0 + #[trigger] sq_knight_dir(i).0
                && v[i].1 == self.1 + sq_knight_dir(i).1,
    {
        let mut v = Vec::new();
        v.push(Sq(self.0 - 1, self.1 - 2));
        v.push(Sq(self.0 + 1, self.1 - 2));
        v.push(Sq(self.0 - 2, self.1 - 1));
        v.push(Sq(self.0 + 2, self.1 - 1));
        v.push(Sq(self.0 - 2, self.1 + 1));
        v.push(Sq(self.0 + 2, self.1 + 1));
        v.push(Sq(self.0 - 1, self.1 + 2));
        v.push(Sq(self.0 + 1, self.1 + 2));
        v
    }

    /// The coordinates of the square ring of radius `r > 0` around `self`, in walk order.
    pub fn iter_ring(self, r: u8) -> (v: Vec<Sq>)
        requires
            1 <= r,
            fits_i8(self.0 - r),
            fits_i8(self.0 + r),
            fits_i8(self.1 - r),
            fits_i8(self.1 + r),
        ensures
            v.len() == 8 * r,
            forall|k: int| 0 <= k < 8 * r ==> v[k].0 == self.0 + #[trigger] sq_ring_offset(r as int, k).0
                && v[k].1 == self.1 + sq_ring_offset(r as int, k).1,
    {
        let ri = r as i16;
        let cy = self.0 as i16;
        let cx = self.1 as i16;
        let mut v: Vec<Sq> = Vec::new();
        let mut e: i16 = 0;
        while e < 4
            invariant
                0 <= e <= 4,
                ri == r,
                1 <= r,
                cy == self.0,
                cx == self.1,
                fits_i8(self.0 - r),
                fits_i8(self.0 + r),
                fits_i8(self.1 - r),
                fits_i8(self.1 + r),
                v.len() == e * 2 * r,
                forall|k: int| 0 <= k < v.len() ==> v[k].0 == self.0 + #[trigger] sq_ring_offset(r as int, k).0
                    && v[k].1 == self.1 + sq_ring_offset(r as int, k).1,
            decreases 4 - e,
        {
            let mut i: i16 = 0;
            while i < 2 * ri
                invariant
                    0 <= e < 4,
                    0 <= i <= 2 * r,
                    ri == r,
                    1 <= r,
                    cy == self.0,
                    cx == self.1,
                    fits_i8(self.0 - r),
                    fits_i8(self.0 + r),
                    fits_i8(self.1 - r),
                    fits_i8(self.1 + r),
                    v.len() == e * 2 * r + i,
                    forall|k: int| 0 <= k < v.len() ==> v[k].0 == self.0 + #[trigger] sq_ring_offset(r as int, k).0
                        && v[k].1 == self.1 + sq_ring_offset(r as int, k).1,
                decreases 2 * ri - i,
            {
                let (oy, ox) = if e == 0 {
                    (-ri + i, -ri)
                } else if e == 1 {
                    (ri, -ri + i)
                } else if e == 2 {
                    (ri - i, ri)
                } else {
                    (-ri, ri - i)
                };
                proof {
                    let k = e * 2 * r + i;
                    assert(k / (2 * r) == e && k % (2 * r) == i) by (nonlinear_arith)
                        requires k == e * 2 * r + i, 0 <= i < 2 * r, r >= 1, e >= 0;
                }
                v.push(Sq((cy + oy) as i8, (cx + ox) as i8));
                i = i + 1;
            }
            assert(e * 2 * r + 2 * r == (e + 1) * 2 * r) by (nonlinear_arith);
            e = e + 1;
        }
        v
    }

    /// Every coordinate of a map of radius `r`, row by row.
    pub fn iter_coords(r: u8) -> (v: Vec<Sq>)
        requires
            r <= 126,
        ensures
            v.len() == (r * 2 + 1) * (r * 2 + 1),
            forall|k: int| 0 <= k < v.len() ==> sq_in_map(r as int, #[trigger] v[k].0 as int, v[k].1 as int)
                && sq_index(r as int, v[k].0 as int, v[k].1 as int) == k,
    {
        let ri = r as i8;
        let mut v: Vec<Sq> = Vec::new();
        let mut y: i8 = -ri;
        while y <= ri
            invariant
                r <= 126,
                ri == r,
                -ri <= y <= ri + 1,
                v.len() == (y + r) * (r * 2 + 1),
                forall|k: int| 0 <= k < v.len() ==> sq_in_map(r as int, #[trigger] v[k].0 as int, v[k].1 as int)
                    && sq_index(r as int, v[k].0 as int, v[k].1 as int) == k,
            decreases ri + 1 - y,
        {
            let mut x: i8 = -ri;
            while x <= ri
                invariant
                    r <= 126,
                    ri == r,
                    -ri <= y <= ri,
                    -ri <= x <= ri + 1,
                    v.len() == (y + r) * (r * 2 + 1) + (x + r),
                    forall|k: int| 0 <= k < v.len() ==> sq_in_map(r as int, #[trigger] v[k].0 as int, v[k].1 as int)
                        && sq_index(r as int, v[k].0 as int, v[k].1 as int) == k,
                decreases ri + 1 - x,
            {
                v.push(Sq(y, x));
                x = x + 1;
            }
            assert((y + r) * (r * 2 + 1) + (r * 2 + 1) == (y + 1 + r) * (r * 2 + 1)) by (nonlinear_arith);
            y = y + 1;
        }
        v
    }

    /// View as a topology-agnostic coordinate.
    pub fn to_pos(self) -> (p: Pos)
        ensures
            p == Pos(self.0, self.1),
    {
        Pos(self.0, self.1)
    }

    /// From a topology-agnostic coordinate.
    pub fn from_pos(p: Pos) -> (c: Sq)
        ensures
            c == Sq(p.0, p.1),
    {
        Sq(p.0, p.1)
    }
}

impl Default for Sq {
    fn default() -> (r: Self)
        ensures
            r == Sq(0, 0),
    {
        Sq(0, 0)
    }
}

/// Distinct tiles of a square map have distinct storage indices, all below the map area.
pub proof fn lemma_sq_index_injective(r: int, y1: int, x1: int, y2: int, x2: int)
    requires
        r >= 0,
        sq_in_map(r, y1, x1),
        sq_in_map(r, y2, x2),
        sq_index(r, y1, x1) == sq_index(r, y2, x2),
    ensures
        y1 == y2 && x1 == x2,
        0 <= sq_index(r, y1, x1) < (r * 2 + 1) * (r * 2 + 1),
{
    let w = r * 2 + 1;
    assert((y1 + r) * w + (x1 + r) == (y2 + r) * w + (x2 + r) ==> y1 == y2 && x1 == x2) by (nonlinear_arith)
        requires w == r * 2 + 1, 0 <= y1 + r < w, 0 <= y2 + r < w, 0 <= x1 + r < w, 0 <= x2 + r < w;
    assert(0 <= (y1 + r) * w + (x1 + r) < w * w) by (nonlinear_arith)
        requires 0 <= y1 + r < w, 0 <= x1 + r < w;
}

} // verus!
