//! Axis-aligned boxes: the slab test that tells whether a ray enters one, and
//! the face on which a surface point lies.

use crate::material::Material;
use crate::scalar::{Scalar, MINUS_ONE_BITS, ONE_BITS};
use crate::vector::Vec3;
use vstd::prelude::*;

verus! {

/// Bit pattern of the distance, a thousandth of a unit, within which a point
/// counts as lying on the plane of a face.
pub const FACE_TOLERANCE_BITS: u32 = 0x3a83_126f;

/// An axis-aligned box with its material.
#[derive(Clone, Copy, Debug, PartialEq, Eq)]
pub struct Block {
    pub min_corner: Vec3,
    pub max_corner: Vec3,
    pub material: Material,
}

/// One of the six faces of a box, named by the axis it is perpendicular to
/// and by the corner it passes through.
#[derive(Clone, Copy, Debug, PartialEq, Eq, Structural)]
pub enum Face {
    MinX,
    MaxX,
    MinY,
    MaxY,
    MinZ,
    MaxZ,
}

/// The parameter at which a ray enters the three slabs of a box: the largest
/// of the smaller plane parameters of each axis.
pub open spec fn slab_near(t_min: Vec3, t_max: Vec3) -> Scalar {
    t_min.x.lesser(t_max.x).greater(t_min.y.lesser(t_max.y)).greater(t_min.z.lesser(t_max.z))
}

/// The parameter at which a ray leaves the three slabs of a box: the smallest
/// of the larger plane parameters of each axis.
pub open spec fn slab_far(t_min: Vec3, t_max: Vec3) -> Scalar {
    t_min.x.greater(t_max.x).lesser(t_min.y.greater(t_max.y)).lesser(t_min.z.greater(t_max.z))
}

/// The ray strikes the box from outside: it enters in front of its origin and
/// before it leaves.
pub open spec fn slab_entered(t_min: Vec3, t_max: Vec3) -> bool {
    Scalar::zero().below(slab_near(t_min, t_max)) && slab_near(t_min, t_max).below(
        slab_far(t_min, t_max),
    )
}

/// The offset of a point from the plane of a face is within the tolerance.
pub open spec fn on_plane(offset: Scalar) -> bool {
    offset.absolute().below(Scalar { bits: FACE_TOLERANCE_BITS })
}

/// The face of a surface point whose offsets from the two corners are given:
/// the first, in the order of the variants of [`Face`], whose plane the point
/// lies on, and the last of them where it lies on none of the others. A point
/// on an edge or at a corner thereby belongs to one face only.
pub open spec fn face_at(from_min: Vec3, from_max: Vec3) -> Face {
    if on_plane(from_min.x) {
        Face::MinX
    } else if on_plane(from_max.x) {
        Face::MaxX
    } else if on_plane(from_min.y) {
        Face::MinY
    } else if on_plane(from_max.y) {
        Face::MaxY
    } else if on_plane(from_min.z) {
        Face::MinZ
    } else {
        Face::MaxZ
    }
}

impl Face {
    /// The unit vector that points out of the box through the face.
    pub open spec fn outward(self) -> Vec3 {
        let zero = Scalar::zero();
        let plus = Scalar { bits: ONE_BITS };
        let minus = Scalar { bits: MINUS_ONE_BITS };
        match self {
            Face::MinX => Vec3 { x: minus, y: zero, z: zero },
            Face::MaxX => Vec3 { x: plus, y: zero, z: zero },
            Face::MinY => Vec3 { x: zero, y: minus, z: zero },
            Face::MaxY => Vec3 { x: zero, y: plus, z: zero },
            Face::MinZ => Vec3 { x: zero, y: zero, z: minus },
            Face::MaxZ => Vec3 { x: zero, y: zero, z: plus },
        }
    }

    /// The unit vector that points out of the box through the face.
    pub fn normal(&self) -> (n: Vec3)
        ensures
            n == self.outward(),
    {
        let zero = Scalar { bits: 0 };
        let plus = Scalar { bits: ONE_BITS };
        let minus = Scalar { bits: MINUS_ONE_BITS };
        match self {
            Face::MinX => Vec3 { x: minus, y: zero, z: zero },
            Face::MaxX => Vec3 { x: plus, y: zero, z: zero },
            Face::MinY => Vec3 { x: zero, y: minus, z: zero },
            Face::MaxY => Vec3 { x: zero, y: plus, z: zero },
            Face::MinZ => Vec3 { x: zero, y: zero, z: minus },
            Face::MaxZ => Vec3 { x: zero, y: zero, z: plus },
        }
    }
}

fn is_on_plane(offset: Scalar) -> (r: bool)
    ensures
        r == on_plane(offset),
{
    offset.abs().lt(&Scalar { bits: FACE_TOLERANCE_BITS })
}

impl Block {
    /// On no axis is the minimum corner beyond the maximum corner, and no
    /// coordinate of a corner is a NaN.
    pub open spec fn well_formed(self) -> bool {
        &&& self.min_corner.ordered()
        &&& self.max_corner.ordered()
        &&& !self.max_corner.x.below(self.min_corner.x)
        &&& !self.max_corner.y.below(self.min_corner.y)
        &&& !self.max_corner.z.below(self.min_corner.z)
    }

    /// The box of two corners and a material, where the corners are in order.
    pub fn new(min_corner: Vec3, max_corner: Vec3, material: Material) -> (b: Option<Block>)
        ensures
            b == (if (Block { min_corner, max_corner, material }).well_formed() {
                Some(Block { min_corner, max_corner, material })
            } else {
                None
            }),
    {
        let no_nan: bool = !min_corner.x.is_nan() && !min_corner.y.is_nan() && !min_corner.z.is_nan()
            && !max_corner.x.is_nan() && !max_corner.y.is_nan() && !max_corner.z.is_nan();
        if no_nan && !max_corner.x.lt(&min_corner.x) && !max_corner.y.lt(&min_corner.y)
            && !max_corner.z.lt(&min_corner.z) {
            Some(Block { min_corner, max_corner, material })
        } else {
            None
        }
    }

    /// The slab test. `t_min` and `t_max` hold, for each axis, the parameters
    /// at which the ray meets the plane through the minimum corner and the
    /// plane through the maximum corner; a ray parallel to an axis has
    /// infinities there, or a NaN where its origin lies in the plane. The
    /// result is the distance at which the ray enters the box, where it does.
    pub fn ray_intersect(t_min: &Vec3, t_max: &Vec3) -> (distance: Option<Scalar>)
        ensures
            distance == (if slab_entered(*t_min, *t_max) {
                Some(slab_near(*t_min, *t_max))
            } else {
                None
            }),
            distance matches Some(d) ==> d.finite() && !d.negative() && d.key() > 0,
    {
        let near_x = t_min.x.min(t_max.x);
        let near_y = t_min.y.min(t_max.y);
        let near_z = t_min.z.min(t_max.z);
        let far_x = t_min.x.max(t_max.x);
        let far_y = t_min.y.max(t_max.y);
        let far_z = t_min.z.max(t_max.z);
        let t_near = near_x.max(near_y).max(near_z);
        let t_far = far_x.min(far_y).min(far_z);
        let zero = Scalar { bits: 0 };
        if t_near.gt(&zero) && t_near.lt(&t_far) {
            Some(t_near)
        } else {
            None
        }
    }

    /// The face on which a surface point lies, from its offsets from the
    /// minimum corner and from the maximum corner.
    pub fn face(from_min: &Vec3, from_max: &Vec3) -> (f: Face)
        ensures
            f == face_at(*from_min, *from_max),
    {
        if is_on_plane(from_min.x) {
            Face::MinX
        } else if is_on_plane(from_max.x) {
            Face::MaxX
        } else if is_on_plane(from_min.y) {
            Face::MinY
        } else if is_on_plane(from_max.y) {
            Face::MaxY
        } else if is_on_plane(from_min.z) {
            Face::MinZ
        } else {
            Face::MaxZ
        }
    }

    /// The outward normal at a surface point, from its offsets from the two
    /// corners.
    pub fn get_normal(from_min: &Vec3, from_max: &Vec3) -> (n: Vec3)
        ensures
            n == face_at(*from_min, *from_max).outward(),
    {
        Block::face(from_min, from_max).normal()
    }
}

/// A ray whose origin lies within the box does not strike it: where on each
/// axis one of the two plane parameters is a number that is not above zero,
/// the slab test finds no entry.
pub proof fn lemma_no_entry_from_within(t_min: Vec3, t_max: Vec3)
    requires
        (!t_min.x.nan() && t_min.x.key() <= 0) || (!t_max.x.nan() && t_max.x.key() <= 0),
        (!t_min.y.nan() && t_min.y.key() <= 0) || (!t_max.y.nan() && t_max.y.key() <= 0),
        (!t_min.z.nan() && t_min.z.key() <= 0) || (!t_max.z.nan() && t_max.z.key() <= 0),
    ensures
        !slab_entered(t_min, t_max),
{
}

/// A ray that points away from the box does not strike it: where on some
/// axis both plane parameters are below zero, the slab test finds no entry.
pub proof fn lemma_no_entry_when_behind(t_min: Vec3, t_max: Vec3)
    requires
        (t_min.x.below(Scalar::zero()) && t_max.x.below(Scalar::zero())) || (t_min.y.below(
            Scalar::zero(),
        ) && t_max.y.below(Scalar::zero())) || (t_min.z.below(Scalar::zero()) && t_max.z.below(
            Scalar::zero(),
        )),
    ensures
        !slab_entered(t_min, t_max),
{
}

} // verus!
