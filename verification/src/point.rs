use vstd::prelude::*;

verus! {

/// The exponent field of a single-precision encoding. A word whose exponent
/// bits are all set encodes an infinity or a NaN.
pub const EXPONENT_MASK: u32 = 0x7f80_0000;

/// Whether the word encodes a finite number: neither an infinity nor a NaN.
pub open spec fn is_finite(bits: u32) -> bool {
    bits & EXPONENT_MASK != EXPONENT_MASK
}

/// Whether the word encodes a finite number: neither an infinity nor a NaN.
pub fn finite(bits: u32) -> (finite: bool)
    ensures
        finite == is_finite(bits),
{
    bits & EXPONENT_MASK != EXPONENT_MASK
}

/// A pair of planar coordinates: a position or a velocity.
///
/// Each coordinate is the bit pattern of a single-precision number. The
/// library stores, copies and compares these words and never interprets them.
#[derive(Clone, Copy, PartialEq, Eq, Structural, Debug)]
pub struct Point {
    pub x: u32,
    pub y: u32,
}

impl Point {
    /// The pair of the two given coordinate words.
    pub fn new(x: u32, y: u32) -> (p: Point)
        ensures
            p == (Point { x, y }),
    {
        Point { x, y }
    }

    /// The spec-level origin: both coordinates are positive zero.
    pub open spec fn origin() -> Point {
        Point { x: 0, y: 0 }
    }

    /// Whether both coordinates are finite.
    pub open spec fn is_finite(self) -> bool {
        is_finite(self.x) && is_finite(self.y)
    }

    /// Whether both coordinates are finite.
    pub fn finite(&self) -> (finite: bool)
        ensures
            finite == self.is_finite(),
    {
        finite(self.x) && finite(self.y)
    }

    /// The origin, which is also the velocity of a particle at rest.
    pub fn zero() -> (p: Point)
        ensures
            p == Point::origin(),
    {
        Point { x: 0, y: 0 }
    }
}

} // verus!
