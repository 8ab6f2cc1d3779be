//! Axial hexagonal coordinates

use vstd::prelude::*;
use super::{abs, clamp_i8, mul_sat, fits_i8};
use super::pos::Pos;

verus! {

/// Axial Hex coordinate: `Hex(y, x)`; the implied third axis is `-y - x`.
#[derive(Debug, Clone, Copy, PartialEq, Eq, PartialOrd, Ord, Hash, Structural)]
pub struct Hex(pub i8, pub i8);

/// The offset `(dy, dx)` of the `i`-th edge neighbor, in the order that
/// neighbor iteration and ring walks use.
pub open spec fn hex_ring_dir(i: int) -> (int, int) {
    if i == 0 {
        (-1, 0)
    } else if i == 1 {
        (-1, 1)
    } else if i == 2 {
        (0, 1)
    } else if i == 3 {
        (1, 0)
    } else if i == 4 {
        (1, -1)
    } else {
        (0, -1)
    }
}

/// The offset `(dy, dx)` of the `i`-th "diagonal" neighbor.
pub open spec fn hex_diag_dir(i: int) -> (int, int) {
    if i == 0 {
        (-1, 2)
    } else if i == 1 {
        (1, 1)
    } else if i == 2 {
        (2, -1)
    } else if i == 3 {
        (1, -2)
    } else if i == 4 {
        (-1, -1)
    } else {
        (-2, 1)
    }
}

/// The `k`-th coordinate (relative to the center) of the hex ring of radius
/// `r > 0`: the walk starts at `(r, -r)` and follows the six edge directions
/// (`-y`, `-y +x`, `+x`, `+y`, `+y -x`, `-x`), `r` steps each.
pub open spec fn hex_ring_offset(r: int, k: int) -> (int, int) {
    let e = k / r;
    let i = k % r;
    if e == 0 {
        (r - i, -r)
    } else if e == 1 {
        (-i, -r + i)
    } else if e == 2 {
        (-r, i)
    } else if e == 3 {
        (-r + i, r)
    } else if e == 4 {
        (i, r - i)
    } else {
        (r, -i)
    }
}

/// The number of tiles of a hex map of radius `r`.
pub open spec fn hex_map_area(r: int) -> int {
    (12 + (r - 1) * 6) * r / 2 + 1
}

/// The lowest `x` of row `y` of a hex map of radius `r`.
pub open spec fn hex_xmin(r: int, y: int) -> int {
    if y < 0 {
        -r - y
    } else {
        -r
    }
}

/// The highest `x` of row `y` of a hex map of radius `r`.
pub open spec fn hex_xmax(r: int, y: int) -> int {
    if y < 0 {
        r
    } else {
        r - y
    }
}

/// Is `(y, x)` a tile of the hex map of radius `r`?
pub open spec fn hex_in_map(r: int, y: int, x: int) -> bool {
    -r <= y <= r && hex_xmin(r, y) <= x <= hex_xmax(r, y)
}

/// The position of `(y, x)` in the dense row-by-row storage of a hex map of radius `r`.
pub open spec fn hex_index(r: int, y: int, x: int) -> int {
    let row0 = hex_map_area(r) / 2 - r;
    if y < 0 {
        row0 - (-y * (r * 2 + 1) - (1 + -y) * -y / 2) + (x + r + y)
    } else {
        row0 + (y * (r * 2 + 1) - y * (y - 1) / 2) + (x + r)
    }
}

/// The distance between two hex coordinates, in steps.
pub open spec fn hex_distance(a: Hex, b: Hex) -> int {
    (abs(a.0 - b.0) + abs(a.1 - b.1) + abs((-a.0 - a.1) - (-b.0 - b.1))) / 2
}

/// The ring of a coordinate: its distance from the origin.
pub open spec fn hex_ring(c: Hex) -> int {
    (abs(c.0 as int) + abs(c.1 as int) + abs(-c.0 - c.1)) / 2
}

impl Hex {
    /// The coordinate `(0, 0)`.
    pub fn origin() -> (r: Self)
        ensures
            r == Hex(0, 0),
    {
        Hex(0, 0)
    }

    /// The row (first field).
    pub fn y(self) -> (r: i8)
        ensures
            r == self.0,
    {
        self.0
    }

    /// The column (second field).
    pub fn x(self) -> (r: i8)
        ensures
            r == self.1,
    {
        self.1
    }

    /// The distance to another coordinate, in steps.
    pub fn distance(self, other: Self) -> (r: u16)
        requires
            fits_i8(-self.0),
            fits_i8(-self.0 - self.1),
            fits_i8(-other.0),
            fits_i8(-other.0 - other.1),
        ensures
            r == hex_distance(self, other),
    {
        let a0 = self.0;
        let a1 = self.1;
        let a2 = 0 - self.0 - self.1;
        let b0 = other.0;
        let b1 = other.1;
        let b2 = 0 - other.0 - other.1;

        let d0 = iabs16(a0 as i16 - b0 as i16);
        let d1 = iabs16(a1 as i16 - b1 as i16);
        let d2 = iabs16(a2 as i16 - b2 as i16);

        (d0 + d1 + d2) / 2
    }

    /// The ring of the coordinate: its distance from the origin.
    pub fn ring(self) -> (r: u8)
        ensures
            r == hex_ring(self) % 256,
    {
        let v0 = self.0 as i16;
        let v1 = self.1 as i16;
        let v2 = 0 - v0 - v1;
        let s = (iabs16(v0) + iabs16(v1) + iabs16(v2)) / 2;
        (s % 256) as u8
    }

    /// The number of tiles in ring `r`.
    pub fn ring_len(r: u8) -> (n: usize)
        ensures
            n == r * 6,
    {
        r as usize * 6
    }

    /// The number of tiles of a map of radius `r`.
    pub fn map_area(r: u8) -> (n: usize)
        requires
            r >= 1,
        ensures
            n == hex_map_area(r as int),
            n == 3 * r * (r + 1) + 1,
    {
        let ru = r as usize;
        proof {
            lemma_hex_area(r as int);
        }
        assert((12 + (ru - 1) * 6) * ru <= 6 * 255 * 256) by (nonlinear_arith)
            requires 1 <= ru <= 255;
        (12 + (ru - 1) * 6) * ru / 2 + 1
    }

    /// The lowest `x` of row `y` of a map of radius `r`.
    pub fn xmin(r: u8, y: i8) -> (x: i8)
        requires
            r <= 127,
            y < 0 ==> fits_i8(-r - y),
        ensures
            x == hex_xmin(r as int, y as int),
    {
        let r = r as i8;
        if y < 0 {
            -r - y
        } else {
            -r
        }
    }

    /// The highest `x` of row `y` of a map of radius `r`.
    pub fn xmax(r: u8, y: i8) -> (x: i8)
        requires
            r <= 127,
            y >= 0 ==> fits_i8(r - y),
        ensures
            x == hex_xmax(r as int, y as int),
    {
        let r = r as i8;
        if y < 0 {
            r
        } else {
            r - y
        }
    }

    /// The position of a tile in the dense row-by-row storage of a map of radius `r`.
    pub fn index(r: u8, c: Self) -> (i: usize)
        requires
            1 <= r <= 127,
            hex_in_map(r as int, c.0 as int, c.1 as int),
        ensures
            i == hex_index(r as int, c.0 as int, c.1 as int),
    {
        let y = c.0 as isize;
        let x = c.1 as isize;
        let area = Hex::map_area(r);
        assert(area <= 48769) by (nonlinear_arith)
            requires area == 3 * r * (r + 1) + 1, r <= 127;
        let row0 = area as isize / 2 - r as isize;
        let r = r as isize;
        proof {
            lemma_hex_index_bounds(r as int, y as int, x as int);
        }
        if y < 0 {
            assert(-y * (r * 2 + 1) <= 128 * 255) by (nonlinear_arith)
                requires 0 < -y <= 128, 0 <= r <= 127;
            assert((1 + -y) * -y <= 129 * 128) by (nonlinear_arith)
                requires 0 < -y <= 128;
            assert((1 + -y) * -y >= 0) by (nonlinear_arith)
                requires 0 < -y;
            let fix = -y * (r * 2 + 1);
            let miss = (1 + -y) * -y / 2;
            let xoff = x + r + y;
            let i = row0 - (fix - miss) + xoff;
            assert(i == hex_index(r as int, y as int, x as int));
            i as usize
        } else {
            assert(y * (r * 2 + 1) <= 127 * 255) by (nonlinear_arith)
                requires 0 <= y <= 127, 0 <= r <= 127;
            assert(y * (y - 1) <= 127 * 126 && y * (y - 1) >= 0) by (nonlinear_arith)
                requires 0 <= y <= 127;
            let fix = y * (r * 2 + 1);
            let miss = y * (y - 1) / 2;
            let xoff = x + r;
            let i = row0 + (fix - miss) + xoff;
            assert(i == hex_index(r as int, y as int, x as int));
            i as usize
        }
    }

    /// The number of tiles in row `y` of a map of radius `r`.
    pub fn row_len(r: u8, y: i8) -> (n: usize)
        requires
            y != -128,
            abs(y as int) <= r * 2 + 1,
        ensures
            n == r * 2 + 1 - abs(y as int),
    {
        (r as usize * 2 + 1) - iabs8(y) as usize
    }

    /// Indentation of row `y` when drawing the map as ASCII art.
    pub fn aa_indent(y: i8) -> (n: usize)
        requires
            y != -128,
        ensures
            n == abs(y as int),
    {
        iabs8(y) as usize
    }

    /// Scale by a signed factor, saturating at the `i8` range.
    pub fn mul_i8(self, s: i8) -> (r: Hex)
        ensures
            r == Hex(clamp_i8(self.0 * s), clamp_i8(self.1 * s)),
    {
        Hex(mul_sat(self.0, s as i16), mul_sat(self.1, s as i16))
    }

    /// Scale by an unsigned factor, saturating at the `i8` range.
    pub fn mul_u8(self, s: u8) -> (r: Hex)
        ensures
            r == Hex(clamp_i8(self.0 * s), clamp_i8(self.1 * s)),
    {
        Hex(mul_sat(self.0, s as i16), mul_sat(self.1, s as i16))
    }

    /// Component-wise sum.
    pub fn add(self, other: Hex) -> (r: Hex)
        requires
            fits_i8(self.0 + other.0),
            fits_i8(self.1 + other.1),
        ensures
            r == Hex((self.0 + other.0) as i8, (self.1 + other.1) as i8),
    {
        Hex(self.0 + other.0, self.1 + other.1)
    }

    /// The 6 edge neighbors.
    pub fn iter_n0(self) -> (v: Vec<Hex>)
        requires
            -127 <= self.0 <= 126,
            -127 <= self.1 <= 126,
        ensures
            v.len() == 6,
            forall|i: int| 0 <= i < 6 ==> #[trigger] v[i].0 == self.0 + hex_ring_dir(i).0
                && v[i].1 == self.1 + hex_ring_dir(i).1,
    {
        let mut v = Vec::new();
        v.push(Hex(self.0 - 1, self.1));
        v.push(Hex(self.0 - 1, self.1 + 1));
        v.push(Hex(self.0, self.1 + 1));
        v.push(Hex(self.0 + 1, self.1));
        v.push(Hex(self.0 + 1, self.1 - 1));
        v.push(Hex(self.0, self.1 - 1));
        v
    }

    /// The 6 touching neighbors (the same as the edge neighbors on a hex grid).
    pub fn iter_n1(self) -> (v: Vec<Hex>)
        requires
            -127 <= self.0 <= 126,
            -127 <= self.1 <= 126,
        ensures
            v.len() == 6,
            forall|i: int| 0 <= i < 6 ==> #[trigger] v[i].0 == self.0 + hex_ring_dir(i).0
                && v[i].1 == self.1 + hex_ring_dir(i).1,
    {
        let v = self.iter_n0();
        assert(v.len() == 6);
        assert(v[0].0 == self.0 + hex_ring_dir(0).0);
        assert(forall|i: int| 0 <= i < 6 ==> #[trigger] v[i].0 == self.0 + hex_ring_dir(i).0
                && v[i].1 == self.1 + hex_ring_dir(i).1);
        v
    }

    /// The offsets of the 6 edge neighbors, in the order that neighbor
    /// iteration uses.
    pub fn ring_offsets() -> (r: [Hex; 6])
        ensures
            forall|i: int| 0 <= i < 6 ==> #[trigger] r[i].0 == hex_ring_dir(i).0 && r[i].1 == hex_ring_dir(i).1,
    {
        [Hex(-1, 0), Hex(-1, 1), Hex(0, 1), Hex(1, 0), Hex(1, -1), Hex(0, -1)]
    }

    /// The offsets of the 6 "diagonal" neighbors, in the order that their
    /// iteration uses.
    pub fn diag_offsets() -> (r: [Hex; 6])
        ensures
            forall|i: int| 0 <= i < 6 ==> #[trigger] r[i].0 == hex_diag_dir(i).0 && r[i].1 == hex_diag_dir(i).1,
    {
        [Hex(-1, 2), Hex(1, 1), Hex(2, -1), Hex(1, -2), Hex(-1, -1), Hex(-2, 1)]
    }

    /// The 6 "diagonal" neighbors.
    pub fn iter_n2(self) -> (v: Vec<Hex>)
        requires
            -126 <= self.0 <= 125,
            -126 <= self.1 <= 125,
        ensures
            v.len() == 6,
            forall|i: int| 0 <= i < 6 ==> #[trigger] v[i].0 == self.0 + hex_diag_dir(i).0
                && v[i].1 == self.1 + hex_diag_dir(i).1,
            forall|i: int| 0 <= i < 6 ==> hex_distance(self, #[trigger] v[i]) == 2,
    {
        let mut v = Vec::new();
        v.push(Hex(self.0 - 1, self.1 + 2));
        v.push(Hex(self.0 + 1, self.1 + 1));
        v.push(Hex(self.0 + 2, self.1 - 1));
        v.push(Hex(self.0 + 1, self.1 - 2));
        v.push(Hex(self.0 - 1, self.1 - 1));
        v.push(Hex(self.0 - 2, self.1 + 1));
        v
    }

    /// The coordinates of the ring of radius `r > 0` around `self`, in walk order.
    pub fn iter_ring(self, r: u8) -> (v: Vec<Hex>)
        requires
            1 <= r,
            fits_i8(self.0 - r),
            fits_i8(self.0 + r),
            fits_i8(self.1 - r),
            fits_i8(self.1 + r),
        ensures
            v.len() == 6 * r,
            forall|k: int| 0 <= k < 6 * r ==> v[k].0 == self.0 + #[trigger] hex_ring_offset(r as int, k).0
                && v[k].1 == self.1 + hex_ring_offset(r as int, k).1,
    {
        let ri = r as i16;
        let cy = self.0 as i16;
        let cx = self.1 as i16;
        let mut v: Vec<Hex> = Vec::new();
        let n: i16 = 6 * ri;
        let mut k: i16 = 0;
        while k < n
            invariant
                0 <= k <= n,
                n == 6 * r,
                ri == r,
                1 <= r,
                cy == self.0,
                cx == self.1,
                fits_i8(self.0 - r),
                fits_i8(self.0 + r),
                fits_i8(self.1 - r),
                fits_i8(self.1 + r),
                v.len() == k,
                forall|j: int| 0 <= j < v.len() ==> v[j].0 == self.0 + #[trigger] hex_ring_offset(r as int, j).0
                    && v[j].1 == self.1 + hex_ring_offset(r as int, j).1,
            decreases n - k,
        {
            let e = k / ri;
            let i = k % ri;
            assert(0 <= e < 6) by (nonlinear_arith)
                requires e == k / ri, 0 <= k < 6 * ri, ri >= 1;
            let (oy, ox) = if e == 0 {
                (ri - i, -ri)
            } else if e == 1 {
                (-i, -ri + i)
            } else if e == 2 {
                (-ri, i)
            } else if e == 3 {
                (-ri + i, ri)
            } else if e == 4 {
                (i, ri - i)
            } else {
                (ri, -i)
            };
            v.push(Hex((cy + oy) as i8, (cx + ox) as i8));
            k = k + 1;
        }
        v
    }

    /// Every coordinate of a map of radius `r`, row by row.
    pub fn iter_coords(r: u8) -> (v: Vec<Hex>)
        requires
            1 <= r <= 126,
        ensures
            v.len() == hex_map_area(r as int),
            forall|k: int| 0 <= k < v.len() ==> hex_in_map(r as int, #[trigger] v[k].0 as int, v[k].1 as int)
                && hex_index(r as int, v[k].0 as int, v[k].1 as int) == k,
    {
        let ri = r as i8;
        let mut v: Vec<Hex> = Vec::new();
        let mut y: i8 = -ri;
        while y <= ri
            invariant
                1 <= r <= 126,
                ri == r,
                -ri <= y <= ri + 1,
                v.len() == hex_rows_before(r as int, y as int),
                forall|k: int| 0 <= k < v.len() ==> hex_in_map(r as int, #[trigger] v[k].0 as int, v[k].1 as int)
                    && hex_index(r as int, v[k].0 as int, v[k].1 as int) == k,
            decreases ri + 1 - y,
        {
            let xmin = if y < 0 { -ri - y } else { -ri };
            let xmax = if y < 0 { ri } else { ri - y };
            let mut x = xmin;
            while x <= xmax
                invariant
                    1 <= r <= 126,
                    ri == r,
                    -ri <= y <= ri,
                    xmin == hex_xmin(r as int, y as int),
                    xmax == hex_xmax(r as int, y as int),
                    xmin <= x <= xmax + 1,
                    v.len() == hex_rows_before(r as int, y as int) + (x - xmin),
                    forall|k: int| 0 <= k < v.len() ==> hex_in_map(r as int, #[trigger] v[k].0 as int, v[k].1 as int)
                        && hex_index(r as int, v[k].0 as int, v[k].1 as int) == k,
                decreases xmax + 1 - x,
            {
                proof {
                    lemma_hex_index_row(r as int, y as int, x as int);
                }
                v.push(Hex(y, x));
                x = x + 1;
            }
            proof {
                lemma_hex_rows_before_next(r as int, y as int);
            }
            y = y + 1;
        }
        proof {
            lemma_hex_rows_before_all(r as int);
        }
        v
    }

    /// View as a topology-agnostic coordinate.
    pub fn to_pos(self) -> (p: Pos)
        ensures
            p == Pos(self.0, self.1),
    {
        Pos(self.0, self.1)
    }

    /// From a topology-agnostic coordinate.
    pub fn from_pos(p: Pos) -> (h: Hex)
        ensures
            h == Hex(p.0, p.1),
    {
        Hex(p.0, p.1)
    }
}

impl Default for Hex {
    fn default() -> (r: Self)
        ensures
            r == Hex(0, 0),
    {
        Hex(0, 0)
    }
}

/// Absolute value of an `i16` that is far from the edge of the range.
pub fn iabs16(v: i16) -> (r: u16)
    requires
        v > -32768,
    ensures
        r == abs(v as int),
{
    if v < 0 {
        (-v) as u16
    } else {
        v as u16
    }
}

/// Absolute value of an `i8` other than -128.
pub fn iabs8(v: i8) -> (r: u8)
    requires
        v != -128,
    ensures
        r == abs(v as int),
{
    if v < 0 {
        (-v) as u8
    } else {
        v as u8
    }
}

/// The number of tiles in the rows above row `y` of a map of radius `r`.
pub open spec fn hex_rows_before(r: int, y: int) -> int
    decreases y + r,
{
    if y <= -r {
        0
    } else {
        hex_rows_before(r, y - 1) + (hex_xmax(r, y - 1) - hex_xmin(r, y - 1) + 1)
    }
}

/// The `n`-th triangular number `0 + 1 + ... + n`.
pub open spec fn tri(n: int) -> int
    decreases n,
{
    if n <= 0 {
        0
    } else {
        tri(n - 1) + n
    }
}

proof fn lemma_tri(n: int)
    requires
        n >= 0,
    ensures
        2 * tri(n) == n * (n + 1),
        n * (n + 1) / 2 == tri(n),
        (1 + n) * n / 2 == tri(n),
        tri(n) >= 0,
    decreases n,
{
    if n > 0 {
        lemma_tri(n - 1);
        assert((n - 1) * n + 2 * n == n * (n + 1)) by (nonlinear_arith);
    }
    assert((1 + n) * n == n * (n + 1)) by (nonlinear_arith);
}

proof fn lemma_hex_area(r: int)
    requires
        r >= 1,
    ensures
        hex_map_area(r) == 6 * tri(r) + 1,
        hex_map_area(r) / 2 - r == 3 * tri(r) - r,
        hex_map_area(r) == 3 * r * (r + 1) + 1,
{
    lemma_tri(r);
    assert((12 + (r - 1) * 6) * r == 6 * (r * (r + 1))) by (nonlinear_arith);
    assert(3 * r * (r + 1) == 3 * (r * (r + 1))) by (nonlinear_arith);
}

/// The closed form of the number of tiles above row `y`.
pub open spec fn hex_rows_before_closed(r: int, y: int) -> int {
    if y < 0 {
        3 * tri(r) - r - (-y * (r * 2 + 1) - tri(-y))
    } else {
        3 * tri(r) - r + (y * (r * 2 + 1) - tri(y - 1))
    }
}

proof fn lemma_hex_rows_before_closed(r: int, y: int)
    requires
        r >= 1,
        -r <= y <= r + 1,
    ensures
        hex_rows_before(r, y) == hex_rows_before_closed(r, y),
    decreases y + r,
{
    lemma_tri(r);
    if y <= -r {
        assert(r * (r * 2 + 1) == 2 * (r * (r + 1)) - r) by (nonlinear_arith);
    } else {
        lemma_hex_rows_before_closed(r, y - 1);
        let yp = y - 1;
        if yp < 0 {
            let m = -yp;
            lemma_tri(m);
            lemma_tri(m - 1);
            assert(m * (r * 2 + 1) - (m - 1) * (r * 2 + 1) == r * 2 + 1) by (nonlinear_arith);
            if y == 0 {
                assert(0 * (r * 2 + 1) == 0);
            }
        } else {
            assert((yp + 1) * (r * 2 + 1) - yp * (r * 2 + 1) == r * 2 + 1) by (nonlinear_arith);
        }
    }
}

proof fn lemma_hex_index_row(r: int, y: int, x: int)
    requires
        r >= 1,
        -r <= y <= r,
        hex_xmin(r, y) <= x <= hex_xmax(r, y),
    ensures
        hex_index(r, y, x) == hex_rows_before(r, y) + (x - hex_xmin(r, y)),
        hex_in_map(r, y, x),
{
    lemma_hex_rows_before_closed(r, y);
    lemma_hex_area(r);
    if y < 0 {
        lemma_tri(-y);
    } else if y == 0 {
        assert(0 * (r * 2 + 1) == 0);
        assert(0 * (0 - 1) == 0);
    } else {
        lemma_tri(y - 1);
        assert(y * (y - 1) == (y - 1) * (y - 1 + 1)) by (nonlinear_arith);
    }
}

proof fn lemma_hex_rows_before_next(r: int, y: int)
    requires
        r >= 1,
        -r <= y <= r,
    ensures
        hex_rows_before(r, y + 1) == hex_rows_before(r, y) + (hex_xmax(r, y) - hex_xmin(r, y) + 1),
{
}

proof fn lemma_hex_rows_before_all(r: int)
    requires
        r >= 1,
    ensures
        hex_rows_before(r, r + 1) == hex_map_area(r),
{
    lemma_hex_rows_before_closed(r, r + 1);
    lemma_hex_area(r);
    lemma_tri(r);
    assert((r + 1) * (r * 2 + 1) == 2 * (r * (r + 1)) + r + 1) by (nonlinear_arith);
}

/// Bounds of the dense storage index: every tile of a hex map of radius `r`
/// has an index in `0..map_area(r)`, equal to the number of tiles that come
/// before it in row-by-row order.
pub proof fn lemma_hex_index_bounds(r: int, y: int, x: int)
    requires
        r >= 1,
        hex_in_map(r, y, x),
    ensures
        0 <= hex_index(r, y, x) < hex_map_area(r),
        hex_index(r, y, x) == hex_rows_before(r, y) + (x - hex_xmin(r, y)),
{
    lemma_hex_index_row(r, y, x);
    lemma_hex_rows_before_mono(r, y + 1, r + 1);
    lemma_hex_rows_before_all(r);
    lemma_hex_rows_before_next(r, y);
    lemma_hex_rows_before_mono(r, -r, y);
}

proof fn lemma_hex_rows_before_mono(r: int, y1: int, y2: int)
    requires
        r >= 1,
        -r <= y1 <= y2 <= r + 1,
    ensures
        hex_rows_before(r, y1) <= hex_rows_before(r, y2),
        hex_rows_before(r, y1) >= 0,
    decreases y2 - y1,
{
    if y1 < y2 {
        lemma_hex_rows_before_mono(r, y1, y2 - 1);
    } else {
        lemma_hex_rows_before_nonneg(r, y1);
    }
}

proof fn lemma_hex_rows_before_nonneg(r: int, y: int)
    requires
        r >= 1,
        -r <= y <= r + 1,
    ensures
        hex_rows_before(r, y) >= 0,
    decreases y + r,
{
    if y > -r {
        lemma_hex_rows_before_nonneg(r, y - 1);
    }
}

/// Distinct tiles of a hex map have distinct storage indices.
pub proof fn lemma_hex_index_injective(r: int, y1: int, x1: int, y2: int, x2: int)
    requires
        r >= 1,
        hex_in_map(r, y1, x1),
        hex_in_map(r, y2, x2),
        hex_index(r, y1, x1) == hex_index(r, y2, x2),
    ensures
        y1 == y2 && x1 == x2,
{
    lemma_hex_index_bounds(r, y1, x1);
    lemma_hex_index_bounds(r, y2, x2);
    if y1 < y2 {
        lemma_hex_rows_before_next(r, y1);
        lemma_hex_rows_before_mono(r, y1 + 1, y2);
    } else if y2 < y1 {
        lemma_hex_rows_before_next(r, y2);
        lemma_hex_rows_before_mono(r, y2 + 1, y1);
    }
}

} // verus!
