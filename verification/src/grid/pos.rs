//! Topology-agnostic (type erased) coordinates

use vstd::prelude::*;
use super::{clamp_i8, mul_sat, fits_i8};

verus! {

/// Topology-agnostic (type erased) coordinate: `Pos(y, x)`.
#[derive(Debug, Clone, Copy, PartialEq, Eq, PartialOrd, Ord, Hash, Structural)]
pub struct Pos(pub i8, pub i8);

impl Pos {
    /// The coordinate `(0, 0)`.
    pub fn origin() -> (r: Self)
        ensures
            r == Pos(0, 0),
    {
        Pos(0, 0)
    }

    /// The horizontal component (second field).
    pub fn x(self) -> (r: i8)
        ensures
            r == self.1,
    {
        self.1
    }

    /// The vertical component (first field).
    pub fn y(self) -> (r: i8)
        ensures
            r == self.0,
    {
        self.0
    }

    /// Replace the horizontal component.
    pub fn set_x(&mut self, x: i8)
        ensures
            *final(self) == Pos(old(self).0, x),
    {
        self.1 = x;
    }

    /// Replace the vertical component.
    pub fn set_y(&mut self, y: i8)
        ensures
            *final(self) == Pos(y, old(self).1),
    {
        self.0 = y;
    }

    /// Scale both components by a signed factor, saturating at the `i8` range.
    pub fn mul_i8(self, s: i8) -> (r: Pos)
        ensures
            r == Pos(clamp_i8(self.0 * s), clamp_i8(self.1 * s)),
    {
        Pos(mul_sat(self.0, s as i16), mul_sat(self.1, s as i16))
    }

    /// Scale both components by an unsigned factor, saturating at the `i8` range.
    pub fn mul_u8(self, s: u8) -> (r: Pos)
        ensures
            r == Pos(clamp_i8(self.0 * s), clamp_i8(self.1 * s)),
    {
        Pos(mul_sat(self.0, s as i16), mul_sat(self.1, s as i16))
    }

    /// Component-wise sum.
    pub fn add(self, other: Pos) -> (r: Pos)
        requires
            fits_i8(self.0 + other.0),
            fits_i8(self.1 + other.1),
        ensures
            r == Pos((self.0 + other.0) as i8, (self.1 + other.1) as i8),
    {
        Pos(self.0 + other.0, self.1 + other.1)
    }

    /// Component-wise difference.
    pub fn sub(self, other: Pos) -> (r: Pos)
        requires
            fits_i8(self.0 - other.0),
            fits_i8(self.1 - other.1),
        ensures
            r == Pos((self.0 - other.0) as i8, (self.1 - other.1) as i8),
    {
        Pos(self.0 - other.0, self.1 - other.1)
    }

    /// Component-wise negation.
    pub fn neg(self) -> (r: Pos)
        requires
            self.0 != -128,
            self.1 != -128,
        ensures
            r == Pos(-self.0 as i8, -self.1 as i8),
    {
        Pos(-self.0, -self.1)
    }

    /// The components as signed values `(y, x)`.
    pub fn to_i8_pair(self) -> (r: (i8, i8))
        ensures
            r == (self.0, self.1),
    {
        (self.0, self.1)
    }

    /// The components shifted to unsigned values `(y + 128, x + 128)`.
    pub fn to_u8_pair(self) -> (r: (u8, u8))
        ensures
            r.0 == self.0 + 128,
            r.1 == self.1 + 128,
    {
        ((self.0 as i16 + 128) as u8, (self.1 as i16 + 128) as u8)
    }

    /// Build from signed components `(y, x)`.
    pub fn from_i8_pair(v: (i8, i8)) -> (r: Pos)
        ensures
            r == Pos(v.0, v.1),
    {
        Pos(v.0, v.1)
    }
}

impl Default for Pos {
    fn default() -> (r: Self)
        ensures
            r == Pos(0, 0),
    {
        Pos(0, 0)
    }
}

} // verus!
