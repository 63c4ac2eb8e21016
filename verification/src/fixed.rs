//! Two-dimensional fixed-point vectors.
//!
//! 65536 units correspond to one display unit of the host engine; the
//! conversion to and from floating display units happens only at the engine
//! boundary, never here.

use vstd::prelude::*;

verus! {

/// A 2-D integer vector in fixed-point world units.
#[derive(Clone, Copy, PartialEq, Eq, Structural, Debug)]
pub struct FixedPointVector {
    pub x: i32,
    pub y: i32,
}

impl FixedPointVector {
    /// Componentwise sum.
    pub fn plus(self, rhs: FixedPointVector) -> (r: FixedPointVector)
        requires
            i32::MIN <= self.x + rhs.x <= i32::MAX,
            i32::MIN <= self.y + rhs.y <= i32::MAX,
        ensures
            r.x == self.x + rhs.x,
            r.y == self.y + rhs.y,
    {
        FixedPointVector { x: self.x + rhs.x, y: self.y + rhs.y }
    }

    /// Halves both components, rounding toward negative infinity (the
    /// arithmetic shift the display code relies on).
    pub fn half(self) -> (r: FixedPointVector)
        ensures
            r.x == (self.x as int) / 2,
            r.y == (self.y as int) / 2,
    {
        let hx: i32 = half_floor(self.x);
        let hy: i32 = half_floor(self.y);
        FixedPointVector { x: hx, y: hy }
    }
}

/// Floor division of one coordinate by two.
fn half_floor(v: i32) -> (r: i32)
    ensures
        r == (v as int) / 2,
{
    let q: i32 = v / 2;
    if v % 2 != 0 && v < 0 {
        q - 1
    } else {
        q
    }
}

} // verus!
