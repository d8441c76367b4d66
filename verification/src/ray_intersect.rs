//! The record of a ray striking a surface.

use crate::material::Material;
use crate::scalar::Scalar;
use crate::vector::Vec3;
use vstd::prelude::*;

verus! {

/// What a ray found at one object. Where `is_intersecting` is false the ray
/// missed, and the other fields mean nothing.
#[derive(Clone, Copy, Debug, PartialEq, Eq)]
pub struct Intersect {
    pub is_intersecting: bool,
    pub point: Vec3,
    pub normal: Vec3,
    pub distance: Scalar,
    pub material: Material,
}

impl Intersect {
    /// The record of a hit.
    pub fn new(point: Vec3, normal: Vec3, distance: Scalar, material: Material) -> (i: Intersect)
        ensures
            i == (Intersect { is_intersecting: true, point, normal, distance, material }),
    {
        Intersect { is_intersecting: true, point, normal, distance, material }
    }

    /// The record of a miss.
    pub fn empty() -> (i: Intersect)
        ensures
            !i.is_intersecting,
            i.point == (Vec3 { x: Scalar::zero(), y: Scalar::zero(), z: Scalar::zero() }),
            i.normal == i.point,
            i.distance == Scalar::zero(),
            i.material.dark(),
    {
        let zero = Scalar { bits: 0 };
        let origin = Vec3 { x: zero, y: zero, z: zero };
        Intersect {
            is_intersecting: false,
            point: origin,
            normal: origin,
            distance: zero,
            material: Material::black(),
        }
    }
}

} // verus!
