//! Integer 3-vectors, used both as grid indices and as neighbour offsets.

use vstd::prelude::*;

verus! {

/// A vector of three signed integers. Componentwise addition is the only
/// algebraic operation the grid needs: it computes neighbour positions.
#[derive(Clone, Copy, Debug, PartialEq, Eq, Structural)]
pub struct V3I {
    pub x: i32,
    pub y: i32,
    pub z: i32,
}

impl V3I {
    pub fn create(x: i32, y: i32, z: i32) -> (v: V3I)
        ensures
            v == (V3I { x, y, z }),
    {
        V3I { x, y, z }
    }

    pub fn zero() -> (v: V3I)
        ensures
            v == (V3I { x: 0i32, y: 0i32, z: 0i32 }),
    {
        V3I::create(0, 0, 0)
    }

    /// Componentwise sum of two vectors.
    pub fn plus(self, other: V3I) -> (v: V3I)
        requires
            i32::MIN <= self.x + other.x <= i32::MAX,
            i32::MIN <= self.y + other.y <= i32::MAX,
            i32::MIN <= self.z + other.z <= i32::MAX,
        ensures
            v.x == self.x + other.x,
            v.y == self.y + other.y,
            v.z == self.z + other.z,
    {
        V3I { x: self.x + other.x, y: self.y + other.y, z: self.z + other.z }
    }
}

} // verus!
