//! The decisions of the recursive shader: which object a ray strikes first,
//! which object shadows a point, and what becomes of a ray.

use crate::color::Color;
use crate::ray_intersect::Intersect;
use crate::scalar::Scalar;
use vstd::prelude::*;

verus! {

/// The deepest level of recursion at which a ray is still traced. A primary
/// ray has depth 0.
pub const MAX_DEPTH: u32 = 3;

/// The colour of a ray that strikes nothing.
pub open spec fn sky() -> Color {
    Color { r: 68, g: 142, b: 228 }
}

/// The colour of a ray that strikes nothing.
pub fn sky_color() -> (c: Color)
    ensures
        c == sky(),
{
    Color { r: 68, g: 142, b: 228 }
}

/// Record `i` is a hit at a distance short of infinity.
pub open spec fn is_candidate(hits: Seq<Intersect>, i: int) -> bool {
    0 <= i < hits.len() && hits[i].is_intersecting && hits[i].distance.below(Scalar::infinity())
}

/// Among the first `n` records, record `i` is the nearest hit: no hit is
/// nearer, and every hit before it is farther.
pub open spec fn is_nearest_of(hits: Seq<Intersect>, n: int, i: int) -> bool {
    &&& i < n
    &&& is_candidate(hits, i)
    &&& forall|j: int|
        j < n && #[trigger] is_candidate(hits, j) ==> !hits[j].distance.below(hits[i].distance)
    &&& forall|j: int|
        j < i && #[trigger] is_candidate(hits, j) ==> hits[i].distance.below(hits[j].distance)
}

/// Record `i` is the nearest hit of all.
pub open spec fn is_nearest(hits: Seq<Intersect>, i: int) -> bool {
    is_nearest_of(hits, hits.len() as int, i)
}

/// Record `i` is a hit nearer than the light.
pub open spec fn is_occluder(hits: Seq<Intersect>, light_distance: Scalar, i: int) -> bool {
    0 <= i < hits.len() && hits[i].is_intersecting && hits[i].distance.below(light_distance)
}

/// The index of the nearest hit, where there is one.
pub open spec fn nearest_index(hits: Seq<Intersect>) -> Option<int> {
    if exists|i: int| is_nearest(hits, i) {
        Some(choose|i: int| is_nearest(hits, i))
    } else {
        None
    }
}

/// The nearest hit among the records of one ray, one record for each object
/// of the scene: the hit of least distance, and of several at that distance
/// the first. `None` where the ray strikes nothing.
pub fn nearest_hit(hits: &Vec<Intersect>) -> (nearest: Option<usize>)
    ensures
        match nearest {
            Some(i) => is_nearest(hits@, i as int) && nearest_index(hits@) == Some(i as int),
            None => nearest_index(hits@).is_none() && forall|j: int| !is_candidate(hits@, j),
        },
{
    let mut nearest: Option<usize> = None;
    let mut zbuffer = Scalar { bits: crate::scalar::INFINITY_BITS };
    let mut k: usize = 0;
    while k < hits.len()
        invariant
            k <= hits.len(),
            !zbuffer.nan(),
            match nearest {
                Some(i) => is_nearest_of(hits@, k as int, i as int) && zbuffer == hits@[i as int].distance,
                None => zbuffer == Scalar::infinity() && forall|j: int|
                    j < k ==> !is_candidate(hits@, j),
            },
        decreases hits.len() - k,
    {
        if hits[k].is_intersecting && hits[k].distance.lt(&zbuffer) {
            zbuffer = hits[k].distance;
            nearest = Some(k);
        }
        k += 1;
    }
    proof {
        match nearest {
            Some(i) => {
                lemma_nearest_is_unique(hits@, i as int, choose|j: int| is_nearest(hits@, j));
            },
            None => {
                assert forall|j: int| !is_nearest(hits@, j) by {
                    if is_nearest(hits@, j) {
                        assert(is_candidate(hits@, j));
                    }
                }
            },
        }
    }
    nearest
}

/// The first record, in the order of the scene, of a hit nearer than the
/// light. It need not be the nearest such hit. `None` where nothing stands
/// between the point and the light.
pub fn first_occluder(hits: &Vec<Intersect>, light_distance: Scalar) -> (occluder: Option<usize>)
    ensures
        match occluder {
            Some(i) => is_occluder(hits@, light_distance, i as int) && forall|j: int|
                j < i ==> !is_occluder(hits@, light_distance, j),
            None => forall|j: int| !is_occluder(hits@, light_distance, j),
        },
{
    let mut k: usize = 0;
    while k < hits.len()
        invariant
            k <= hits.len(),
            forall|j: int| j < k ==> !is_occluder(hits@, light_distance, j),
        decreases hits.len() - k,
    {
        if hits[k].is_intersecting && hits[k].distance.lt(&light_distance) {
            return Some(k);
        }
        k += 1;
    }
    None
}

/// What becomes of a ray.
#[derive(Clone, Copy, Debug, PartialEq, Eq, Structural)]
pub enum RayStep {
    /// The ray strikes nothing, or is too deep: it has this colour.
    Background(Color),
    /// The ray strikes the object of this index first. The surface is to be
    /// shaded there, and a mirrored and a transmitted ray are to be cast from
    /// it, each at depth `depth`, where the flags say so.
    Surface { object: usize, reflect: bool, refract: bool, depth: u32 },
}

/// What becomes of a ray of the given depth with the given records.
pub open spec fn ray_step(depth: u32, hits: Seq<Intersect>) -> RayStep {
    if depth > MAX_DEPTH {
        RayStep::Background(sky())
    } else {
        match nearest_index(hits) {
            None => RayStep::Background(sky()),
            Some(i) => RayStep::Surface {
                object: i as usize,
                reflect: hits[i].material.mirrors(),
                refract: hits[i].material.transmits(),
                depth: (depth + 1) as u32,
            },
        }
    }
}

/// What becomes of a ray of the given depth whose records, one for each
/// object of the scene, are `hits`. Beyond the deepest level the ray has the
/// colour of the sky whatever the records hold, and so has a ray that strikes
/// nothing. Any other ray belongs to the surface of its nearest hit, whose
/// material alone decides on the secondary rays.
pub fn cast_ray(depth: u32, hits: &Vec<Intersect>) -> (step: RayStep)
    ensures
        step == ray_step(depth, hits@),
        depth > MAX_DEPTH ==> step == RayStep::Background(sky()),
        (forall|j: int| !is_candidate(hits@, j)) ==> step == RayStep::Background(sky()),
        depth <= MAX_DEPTH && (exists|j: int| is_candidate(hits@, j)) ==> (step matches RayStep::Surface {
            object,
            reflect,
            refract,
            depth: next,
        } && is_nearest(hits@, object as int) && reflect == hits@[object as int].material.mirrors()
            && refract == hits@[object as int].material.transmits() && next == depth + 1),
{
    if depth > MAX_DEPTH {
        return RayStep::Background(sky_color());
    }
    match nearest_hit(hits) {
        None => RayStep::Background(sky_color()),
        Some(object) => {
            assert(is_candidate(hits@, object as int));
            let material = hits[object].material;
            RayStep::Surface {
                object,
                reflect: material.is_reflective(),
                refract: material.is_transparent(),
                depth: depth + 1,
            }
        },
    }
}

/// A ray cast into a scene without objects has the colour of the sky.
pub proof fn lemma_empty_scene_has_no_hit(hits: Seq<Intersect>)
    requires
        hits.len() == 0,
    ensures
        forall|j: int| !is_candidate(hits, j),
{
}

/// At most one record is the nearest hit.
pub proof fn lemma_nearest_is_unique(hits: Seq<Intersect>, i: int, k: int)
    requires
        is_nearest(hits, i),
        is_nearest(hits, k),
    ensures
        i == k,
{
    if i < k {
        assert(is_candidate(hits, i));
    } else if k < i {
        assert(is_candidate(hits, k));
    }
}

/// A hit at or beyond the distance of the light casts no shadow: where no
/// hit is nearer than the light, there is no occluder.
pub proof fn lemma_beyond_light_is_no_occluder(hits: Seq<Intersect>, light_distance: Scalar, i: int)
    requires
        0 <= i < hits.len(),
        !hits[i].distance.below(light_distance),
    ensures
        !is_occluder(hits, light_distance, i),
{
}

} // verus!
