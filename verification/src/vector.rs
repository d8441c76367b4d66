//! Triples of binary32 data: points, directions and per-axis ray parameters.

use crate::scalar::Scalar;
use vstd::prelude::*;

verus! {

/// Three binary32 data, one for each axis.
#[derive(Clone, Copy, Debug, PartialEq, Eq, Structural)]
pub struct Vec3 {
    pub x: Scalar,
    pub y: Scalar,
    pub z: Scalar,
}

impl Vec3 {
    pub fn new(x: Scalar, y: Scalar, z: Scalar) -> (v: Vec3)
        ensures
            v == (Vec3 { x, y, z }),
    {
        Vec3 { x, y, z }
    }

    /// No component is a NaN.
    pub open spec fn ordered(self) -> bool {
        !self.x.nan() && !self.y.nan() && !self.z.nan()
    }
}

} // verus!
