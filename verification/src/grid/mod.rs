//! IyesGames 2D Grid Library
//!
//! Coordinate math for square and hexagonal grid-based game worlds.
//! Coordinates use `i8` for compactness; maps are "radial": a map of
//! radius `r` holds every coordinate whose ring is at most `r`.
//!
//! Neighbor classes:
//!  - `n0`: all tiles sharing an edge (6 for hex, 4 for square)
//!  - `n1`: all tiles touching (same 6 for hex, 8 for square incl. diagonals)
//!  - `n2`: further/extended diagonals ("hex diagonals"; "knight's move" in square)

use vstd::prelude::*;

pub mod pos;
pub mod hex;
pub mod sq;
pub mod sqr;
pub mod layout;

pub use pos::Pos;
pub use hex::Hex;
pub use sq::Sq;
pub use sqr::Sqr;

verus! {

/// The shape of a map's grid.
#[derive(Debug, Clone, Copy, PartialEq, Eq, Hash, Structural)]
pub enum Topology {
    Hex,
    Sq,
    Sqr,
}

/// A coordinate conversion failed because the value is outside the `i8` range.
#[derive(Debug)]
pub struct OutOfBoundsError;

/// The absolute value of an integer.
pub open spec fn abs(v: int) -> int {
    if v < 0 {
        -v
    } else {
        v
    }
}

/// Clamp an integer to the `i8` range.
pub open spec fn clamp_i8(v: int) -> i8 {
    if v < -128 {
        -128i8
    } else if v > 127 {
        127i8
    } else {
        v as i8
    }
}

/// Multiply a coordinate component by a scale factor, saturating at the `i8` range.
pub fn mul_sat(a: i8, s: i16) -> (r: i8)
    requires
        -128 <= s <= 255,
    ensures
        r == clamp_i8(a * s),
{
    assert(-32640 <= a * s <= 32640) by (nonlinear_arith)
        requires -128 <= a <= 127, -128 <= s <= 255;
    let p: i16 = a as i16 * s;
    if p < -128 {
        -128
    } else if p > 127 {
        127
    } else {
        p as i8
    }
}

/// Does the `i8` range hold the integer?
pub open spec fn fits_i8(v: int) -> bool {
    -128 <= v <= 127
}

} // verus!
