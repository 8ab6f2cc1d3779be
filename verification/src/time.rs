//! Types we use to encode time

use vstd::prelude::*;

verus! {

/// A duration packed into one byte.
///
/// - `0..128`: that many milliseconds
/// - `0b10xxxxxx`: `(x + 13) * 10` milliseconds (130..=760 in steps of 10)
/// - `0b11xxxxxx`: `(x + 8) * 100` milliseconds (800..=7100 in steps of 100)
#[derive(Debug, Clone, Copy, PartialEq, Eq, PartialOrd, Ord, Hash, Structural)]
pub struct MwDur(pub u8);

/// The number of milliseconds that a packed duration byte stands for.
pub open spec fn dur_millis(b: u8) -> int {
    if b < 128 {
        b as int
    } else if b < 192 {
        (b - 128 + 13) * 10
    } else {
        (b - 192 + 8) * 100
    }
}

/// The packed duration byte that a number of milliseconds is rounded to.
pub open spec fn dur_from_millis(millis: u16) -> u8 {
    if millis < 128 {
        millis as u8
    } else if millis < 770 {
        if millis / 10 < 13 {
            128u8
        } else {
            (128 + (millis / 10 - 13)) as u8
        }
    } else if millis < 7200 {
        if millis / 100 < 8 {
            192u8
        } else {
            (192 + (millis / 100 - 8)) as u8
        }
    } else {
        255u8
    }
}

impl MwDur {
    /// The duration in milliseconds.
    pub fn as_millis(self) -> (r: u16)
        ensures
            r == dur_millis(self.0),
    {
        let b = self.0;
        if b < 0b10000000 {
            b as u16
        } else if b < 0b11000000 {
            assert(b & 0b00111111u8 == b - 128) by (bit_vector)
                requires 128 <= b < 192;
            ((b & 0b00111111) as u16 + 13) * 10
        } else {
            assert(b & 0b00111111u8 == b - 192) by (bit_vector)
                requires 192 <= b;
            ((b & 0b00111111) as u16 + 8) * 100
        }
    }

    /// Round a number of milliseconds to a packed duration: durations too
    /// long to be represented become the longest one.
    pub fn from_millis_lossy(millis: u16) -> (r: Self)
        ensures
            r.0 == dur_from_millis(millis),
    {
        if millis < 128 {
            MwDur(millis as u8)
        } else if millis < 770 {
            let centis = millis / 10;
            if centis < 13 {
                MwDur(0b10000000)
            } else {
                let c: u8 = (centis - 13) as u8;
                assert(0b10000000u8 | c == 128 + c) by (bit_vector)
                    requires c < 64;
                MwDur(0b10000000 | c)
            }
        } else if millis < 7200 {
            let decis = millis / 100;
            if decis < 8 {
                MwDur(0b11000000)
            } else {
                let d: u8 = (decis - 8) as u8;
                assert(0b11000000u8 | d == 192 + d) by (bit_vector)
                    requires d < 64;
                MwDur(0b11000000 | d)
            }
        } else {
            MwDur(0xFF)
        }
    }
}

/// Every packed duration survives the trip through milliseconds:
/// converting it to milliseconds and rounding back gives the same byte.
pub proof fn lemma_dur_millis_roundtrip(d: u8)
    ensures
        0 <= dur_millis(d) < 0x10000,
        dur_from_millis(dur_millis(d) as u16) == d,
{
}

} // verus!
