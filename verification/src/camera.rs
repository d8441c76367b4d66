//! The limits of the camera: how steeply the eye may look down on or up at
//! the centre, and how near it may come.

use crate::scalar::Scalar;
use vstd::prelude::*;

verus! {

/// Bit pattern of the steepest pitch of the eye, 89 degrees, in radians.
pub const PITCH_LIMIT_BITS: u32 = 0x3fc6_d3f2;

/// Bit pattern of the least distance between the eye and the centre, a tenth
/// of a unit.
pub const MIN_DISTANCE_BITS: u32 = 0x3dcc_cccd;

/// The steepest pitch.
pub open spec fn pitch_limit() -> Scalar {
    Scalar { bits: PITCH_LIMIT_BITS }
}

/// The least distance.
pub open spec fn min_distance() -> Scalar {
    Scalar { bits: MIN_DISTANCE_BITS }
}

/// A pitch held between the two limits. A NaN stays what it is.
pub open spec fn held_pitch(pitch: Scalar) -> Scalar {
    if pitch.below(pitch_limit().negated()) {
        pitch_limit().negated()
    } else if pitch_limit().below(pitch) {
        pitch_limit()
    } else {
        pitch
    }
}

/// The pitch of the eye after a turn, held short of the poles, where the
/// basis of the camera would collapse.
pub fn hold_pitch(pitch: Scalar) -> (held: Scalar)
    ensures
        held == held_pitch(pitch),
{
    let limit = Scalar { bits: PITCH_LIMIT_BITS };
    let floor = limit.neg();
    if pitch.lt(&floor) {
        floor
    } else if limit.lt(&pitch) {
        limit
    } else {
        pitch
    }
}

/// The distance of the eye from the centre after a zoom, never less than the
/// least distance, so that the eye does not pass through the centre. A NaN
/// gives the least distance.
pub fn hold_distance(distance: Scalar) -> (held: Scalar)
    ensures
        held == distance.greater(min_distance()),
{
    distance.max(Scalar { bits: MIN_DISTANCE_BITS })
}

/// A pitch that is held lies within the limits, one within the limits is
/// held as it is, and holding twice is holding once. A distance that is held
/// is positive; one that is not below the least distance is held as it is.
pub proof fn lemma_limits_hold(pitch: Scalar, distance: Scalar)
    ensures
        !pitch.nan() ==> !held_pitch(pitch).below(pitch_limit().negated()) && !pitch_limit().below(
            held_pitch(pitch),
        ),
        !pitch.below(pitch_limit().negated()) && !pitch_limit().below(pitch) ==> held_pitch(pitch)
            == pitch,
        held_pitch(held_pitch(pitch)) == held_pitch(pitch),
        Scalar::zero().below(distance.greater(min_distance())),
        !distance.nan() && !distance.below(min_distance()) ==> distance.greater(min_distance())
            == distance,
{
}

} // verus!
