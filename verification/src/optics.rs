//! The decisions of mirroring and transmission: on which side of a surface a
//! ray runs, and whether a ray can cross it at all.

use crate::scalar::{Scalar, MINUS_ONE_BITS, ONE_BITS};
use vstd::prelude::*;

verus! {

/// The side of a surface, taken along its normal.
#[derive(Clone, Copy, Debug, PartialEq, Eq, Structural)]
pub enum Side {
    /// The side that the normal points away from.
    Inside,
    /// The side that the normal points to.
    Outside,
}

/// How a ray meets a surface.
#[derive(Clone, Copy, Debug, PartialEq, Eq, Structural)]
pub struct Incidence {
    /// The cosine of the angle between the ray and the normal of the side it
    /// comes from.
    pub cosine: Scalar,
    /// The ray comes from inside the medium and leaves it.
    pub leaving: bool,
}

/// The cosine of the angle of incidence before the side is told: the dot
/// product of the direction and the normal, held between minus one and one,
/// with the opposite sign. A NaN counts as minus one.
pub open spec fn signed_cosine(alignment: Scalar) -> Scalar {
    alignment.greater(Scalar { bits: MINUS_ONE_BITS }).lesser(Scalar { bits: ONE_BITS }).negated()
}

/// How a ray whose direction has the given dot product with the normal meets
/// the surface: it leaves the medium where the signed cosine is below zero,
/// and the cosine is then taken with the opposite sign.
pub open spec fn incidence_of(alignment: Scalar) -> Incidence {
    let cosine = signed_cosine(alignment);
    if cosine.below(Scalar::zero()) {
        Incidence { cosine: cosine.negated(), leaving: true }
    } else {
        Incidence { cosine, leaving: false }
    }
}

/// The side to which the origin of a new ray is moved off the surface: the
/// inside where the dot product of its direction and the normal is below
/// zero, and else the outside.
pub open spec fn side_of(alignment: Scalar) -> Side {
    if alignment.below(Scalar::zero()) {
        Side::Inside
    } else {
        Side::Outside
    }
}

/// How a ray meets a surface, from the dot product of its direction and the
/// normal.
pub fn incidence(alignment: Scalar) -> (i: Incidence)
    ensures
        i == incidence_of(alignment),
{
    let cosine = alignment.max(Scalar { bits: MINUS_ONE_BITS }).min(Scalar { bits: ONE_BITS }).neg();
    if cosine.lt(&Scalar { bits: 0 }) {
        Incidence { cosine: cosine.neg(), leaving: true }
    } else {
        Incidence { cosine, leaving: false }
    }
}

/// No ray is transmitted: the discriminant of the law of refraction is below
/// zero, and the ray is mirrored instead.
pub fn is_total_reflection(discriminant: Scalar) -> (r: bool)
    ensures
        r == discriminant.below(Scalar::zero()),
{
    discriminant.lt(&Scalar { bits: 0 })
}

/// The side to which the origin of a new ray is moved off the surface, from
/// the dot product of its direction and the normal.
pub fn offset_side(alignment: Scalar) -> (side: Side)
    ensures
        side == side_of(alignment),
{
    if alignment.lt(&Scalar { bits: 0 }) {
        Side::Inside
    } else {
        Side::Outside
    }
}

/// The cosine of an incidence is never below zero and never above one, and a
/// ray that leaves the medium has a cosine above zero.
pub proof fn lemma_cosine_is_in_range(alignment: Scalar)
    ensures
        !incidence_of(alignment).cosine.nan(),
        !incidence_of(alignment).cosine.below(Scalar::zero()),
        !(Scalar { bits: ONE_BITS }).below(incidence_of(alignment).cosine),
        incidence_of(alignment).leaving ==> Scalar::zero().below(incidence_of(alignment).cosine),
{
}

} // verus!
