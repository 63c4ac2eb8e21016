//! Surface property flags and collision direction sets.

use vstd::prelude::*;

verus! {

/// Per-edge surface properties: whether the edge blocks motion, whether
/// contact notifies the edge's owner, and whether the edge stops light.
#[derive(Clone, Copy, PartialEq, Eq, Structural, Debug)]
pub struct SurfaceProperties {
    pub solid: bool,
    pub notify: bool,
    pub opaque: bool,
}

impl SurfaceProperties {
    /// The edge with no properties at all; such an edge is ignored by the
    /// collision resolver and by the beam tracer.
    pub fn empty() -> (r: SurfaceProperties)
        ensures
            r == (SurfaceProperties { solid: false, notify: false, opaque: false }),
    {
        SurfaceProperties { solid: false, notify: false, opaque: false }
    }

    /// Whether any property is set.
    pub fn any(self) -> (r: bool)
        ensures
            r == (self.solid || self.notify || self.opaque),
    {
        self.solid || self.notify || self.opaque
    }
}

/// A set of the four cardinal collision directions.
#[derive(Clone, Copy, PartialEq, Eq, Structural, Debug)]
pub struct Directions {
    pub up: bool,
    pub down: bool,
    pub left: bool,
    pub right: bool,
}

impl Directions {
    /// The empty direction set.
    pub fn empty() -> (r: Directions)
        ensures
            r == (Directions { up: false, down: false, left: false, right: false }),
    {
        Directions { up: false, down: false, left: false, right: false }
    }

    /// The set holding only `up`.
    pub fn only_up() -> (r: Directions)
        ensures
            r == (Directions { up: true, down: false, left: false, right: false }),
    {
        Directions { up: true, down: false, left: false, right: false }
    }

    /// The set holding only `down`.
    pub fn only_down() -> (r: Directions)
        ensures
            r == (Directions { up: false, down: true, left: false, right: false }),
    {
        Directions { up: false, down: true, left: false, right: false }
    }

    /// The set holding only `left`.
    pub fn only_left() -> (r: Directions)
        ensures
            r == (Directions { up: false, down: false, left: true, right: false }),
    {
        Directions { up: false, down: false, left: true, right: false }
    }

    /// The set holding only `right`.
    pub fn only_right() -> (r: Directions)
        ensures
            r == (Directions { up: false, down: false, left: false, right: true }),
    {
        Directions { up: false, down: false, left: false, right: true }
    }

    /// The set encoded as bits, for hosts that route directions as an
    /// integer: up = 1, down = 2, left = 4, right = 8.
    pub fn bits(self) -> (r: u8)
        ensures
            r == (if self.up { 1int } else { 0 }) + (if self.down { 2int } else { 0 })
                + (if self.left { 4int } else { 0 }) + (if self.right { 8int } else { 0 }),
    {
        (if self.up { 1u8 } else { 0 }) + (if self.down { 2u8 } else { 0 })
            + (if self.left { 4u8 } else { 0 }) + (if self.right { 8u8 } else { 0 })
    }
}

} // verus!
