//! Memory layouts for per-tile map data: how a coordinate maps to a
//! position in a flat array.

use vstd::prelude::*;
use super::pos::Pos;
use super::hex::{Hex, hex_map_area, hex_in_map, hex_index, lemma_hex_index_bounds};
use crate::deps::{morton2, morton_encode_xy, morton_decode_xy};

verus! {

/// Is the coordinate within the square `[-r, r] x [-r, r]`?
pub open spec fn in_square(r: int, p: Pos) -> bool {
    -r <= p.0 <= r && -r <= p.1 <= r
}

/// Row-major layout over the square that encloses a map of radius `r`.
#[derive(Clone)]
pub struct LinearLayout {
    pub r: u8,
}

/// The linear index of `(y, x)` in a square of radius `r`.
pub open spec fn linear_index(r: int, y: int, x: int) -> int {
    (y + r) * (r * 2 + 1) + (x + r)
}

impl LinearLayout {
    /// A layout for a map of radius `r`.
    pub fn new(r: u8) -> (l: Self)
        ensures
            l.r == r,
    {
        LinearLayout { r }
    }

    /// The radius of the map.
    pub fn radius(&self) -> (r: u8)
        ensures
            r == self.r,
    {
        self.r
    }

    /// The length of storage needed: the index of the corner `(r, r)`.
    pub fn require_size(&self) -> (n: usize)
        requires
            self.r <= 127,
        ensures
            n == linear_index(self.r as int, self.r as int, self.r as int),
    {
        self.index(Pos(self.r as i8, self.r as i8))
    }

    /// Is the coordinate within the square of the layout?
    pub fn in_bounds(&self, pos: Pos) -> (b: bool)
        requires
            self.r <= 127,
        ensures
            b == in_square(self.r as int, pos),
    {
        let r = self.r as i8;
        pos.y() >= -r && pos.y() <= r && pos.x() >= -r && pos.x() <= r
    }

    /// The storage index of a coordinate.
    pub fn index(&self, pos: Pos) -> (i: usize)
        requires
            pos.0 + self.r >= 0,
            pos.1 + self.r >= 0,
        ensures
            i == linear_index(self.r as int, pos.0 as int, pos.1 as int),
    {
        let dim = self.r as usize * 2 + 1;
        let y = (pos.y() as i32 + self.r as i32) as usize;
        let x = (pos.x() as i32 + self.r as i32) as usize;
        assert(y * dim + x <= 382 * 511 + 382) by (nonlinear_arith)
            requires y <= 382, dim <= 511, x <= 382;
        y * dim + x
    }

    /// The coordinate stored at an index.
    pub fn coord_at(&self, i: usize) -> (pos: Pos)
        requires
            self.r <= 127,
            i < (self.r * 2 + 1) * (self.r * 2 + 1),
        ensures
            pos.0 == (i as int) / (self.r * 2 + 1) - self.r,
            pos.1 == (i as int) % (self.r * 2 + 1) - self.r,
    {
        let dim = self.r as usize * 2 + 1;
        let uy = i / dim;
        let ux = i % dim;
        assert(uy < dim) by (nonlinear_arith)
            requires uy == i / dim, i < dim * dim, dim >= 1;
        let y = uy as i16 - self.r as i16;
        let x = ux as i16 - self.r as i16;
        let mut pos = Pos::origin();
        pos.set_y(y as i8);
        pos.set_x(x as i8);
        pos
    }
}

/// The linear layout maps the square one to one onto `0..(2r+1)^2`:
/// the coordinate stored at the index of a coordinate is that coordinate,
/// and the index of the coordinate stored at an index is that index.
pub proof fn lemma_linear_layout_roundtrip(r: int, y: int, x: int, i: int)
    requires
        0 <= r <= 127,
    ensures
        -r <= y <= r && -r <= x <= r ==> {
            let k = linear_index(r, y, x);
            0 <= k < (r * 2 + 1) * (r * 2 + 1) && k / (r * 2 + 1) - r == y && k % (r * 2 + 1) - r == x
        },
        0 <= i < (r * 2 + 1) * (r * 2 + 1) ==> linear_index(r, i / (r * 2 + 1) - r, i % (r * 2 + 1) - r) == i,
{
    let w = r * 2 + 1;
    if -r <= y <= r && -r <= x <= r {
        let k = linear_index(r, y, x);
        assert(0 <= k < w * w && k / w == y + r && k % w == x + r) by (nonlinear_arith)
            requires k == (y + r) * w + (x + r), 0 <= y + r < w, 0 <= x + r < w;
    }
    if 0 <= i < w * w {
        assert((i / w) * w + i % w == i) by (nonlinear_arith)
            requires w >= 1;
    }
}

/// Morton (Z-order) layout over the square that encloses a map of radius `r`.
#[derive(Clone)]
pub struct MortonLayout {
    pub r: u8,
}

impl MortonLayout {
    /// A layout for a map of radius `r`.
    pub fn new(r: u8) -> (l: Self)
        ensures
            l.r == r,
    {
        MortonLayout { r }
    }

    /// The radius of the map.
    pub fn radius(&self) -> (r: u8)
        ensures
            r == self.r,
    {
        self.r
    }

    /// The length of storage needed: the index of the corner `(r, r)`.
    pub fn require_size(&self) -> (n: usize)
        requires
            self.r <= 127,
        ensures
            n == morton2((2 * self.r) as nat, (2 * self.r) as nat),
    {
        self.index(Pos(self.r as i8, self.r as i8))
    }

    /// Is the coordinate within the square of the layout?
    pub fn in_bounds(&self, pos: Pos) -> (b: bool)
        requires
            self.r <= 127,
        ensures
            b == in_square(self.r as int, pos),
    {
        let r = self.r as i8;
        pos.y() >= -r && pos.y() <= r && pos.x() >= -r && pos.x() <= r
    }

    /// The storage index of a coordinate: the Morton code of `(x + r, y + r)`.
    pub fn index(&self, pos: Pos) -> (i: usize)
        requires
            self.r <= 127,
            in_square(self.r as int, pos),
        ensures
            i == morton2((pos.1 + self.r) as nat, (pos.0 + self.r) as nat),
    {
        let y = (pos.y() as i16 + self.r as i16) as u8;
        let x = (pos.x() as i16 + self.r as i16) as u8;
        morton_encode_xy(x, y)
    }

    /// The coordinate stored at an index; for indices of 16 bits or fewer,
    /// the coordinate whose Morton code the index is.
    pub fn coord_at(&self, i: usize) -> (pos: Pos)
        requires
            self.r <= 127,
        ensures
            i < 0x10000 ==> exists|ux: u8, uy: u8| morton2(ux as nat, uy as nat) == i
                && pos.0 == (uy - self.r) as i8 && pos.1 == (ux - self.r) as i8,
    {
        let (ux, uy) = morton_decode_xy(i);
        let y = uy as i16 - self.r as i16;
        let x = ux as i16 - self.r as i16;
        let mut pos = Pos::origin();
        pos.set_y(y as i8);
        pos.set_x(x as i8);
        pos
    }
}

/// Dense row-by-row layout of a hex map of radius `r`: no storage is wasted
/// on coordinates outside of the map.
#[derive(Clone)]
pub struct HexDenseLayout {
    pub r: u8,
    pub map_area: usize,
    pub row0: usize,
}

impl HexDenseLayout {
    /// The layout is consistent with its radius.
    pub open spec fn wf(&self) -> bool {
        &&& 1 <= self.r <= 127
        &&& self.map_area == hex_map_area(self.r as int)
        &&& self.row0 == hex_map_area(self.r as int) / 2 - self.r
    }

    /// A layout for a hex map of radius `r`.
    pub fn new(r: u8) -> (l: Self)
        requires
            1 <= r <= 127,
        ensures
            l.wf(),
            l.r == r,
    {
        let area = Hex::map_area(r);
        assert(area >= 2 * r + 1) by (nonlinear_arith)
            requires area == 3 * r * (r + 1) + 1, r >= 1;
        HexDenseLayout { r, map_area: area, row0: area / 2 - r as usize }
    }

    /// The radius of the map.
    pub fn radius(&self) -> (r: u8)
        ensures
            r == self.r,
    {
        self.r
    }

    /// The length of storage needed: the number of tiles of the map.
    pub fn require_size(&self) -> (n: usize)
        ensures
            n == self.map_area,
    {
        self.map_area
    }

    /// Is the coordinate a tile of the map?
    pub fn in_bounds(&self, c: Hex) -> (b: bool)
        requires
            self.wf(),
        ensures
            b == hex_in_map(self.r as int, c.0 as int, c.1 as int),
    {
        let r = self.r as i8;
        let y = c.y();
        if y < -r || y > r {
            return false;
        }
        let xmin = Hex::xmin(self.r, y);
        let xmax = Hex::xmax(self.r, y);
        c.x() >= xmin && c.x() <= xmax
    }

    /// The storage index of a tile of the map.
    pub fn index(&self, c: Hex) -> (i: usize)
        requires
            self.wf(),
            hex_in_map(self.r as int, c.0 as int, c.1 as int),
        ensures
            i == hex_index(self.r as int, c.0 as int, c.1 as int),
            i < self.map_area,
    {
        proof {
            lemma_hex_index_bounds(self.r as int, c.0 as int, c.1 as int);
        }
        Hex::index(self.r, c)
    }
}

} // verus!
