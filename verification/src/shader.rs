//! The colour of a ray as the recursive shader defines it, and the proof that
//! the walk over the tree of rays ends with that colour.
//!
//! The host is taken as two functions of the path of a ray, the sequence of
//! mirrorings and transmissions that lead to it from the primary ray: the
//! records that probing the ray yields, and the colour that the surface it
//! strikes is composed to from the colours of its two secondary rays.

use crate::color::Color;
use crate::ray_intersect::Intersect;
use crate::trace::{ray_step, sky, RayStep, MAX_DEPTH};
use crate::walk::{
    after_composed, after_hits, after_shaded, consistent, deliver, lemma_rest_waits, ray_depth,
    waiting, Frame, Ray, Stage, Task,
};
use vstd::prelude::*;

verus! {

/// The colour of the ray of the given path and depth: the sky beyond the
/// deepest level and where the ray strikes nothing, and else the colour that
/// its surface is composed to from the colours of the mirrored and of the
/// transmitted ray, each one level deeper, a ray that the surface does not
/// send being black.
pub open spec fn ray_color(
    probe: spec_fn(Seq<Ray>) -> Seq<Intersect>,
    blend: spec_fn(Seq<Ray>, Color, Color) -> Color,
    path: Seq<Ray>,
    depth: int,
) -> Color
    decreases MAX_DEPTH + 1 - depth,
{
    if depth < 0 || depth > MAX_DEPTH {
        sky()
    } else {
        match ray_step(depth as u32, probe(path)) {
            RayStep::Background(color) => color,
            RayStep::Surface { object, reflect, refract, depth: _ } => blend(
                path,
                if reflect {
                    ray_color(probe, blend, path.push(Ray::Mirrored), depth + 1)
                } else {
                    Color { r: 0, g: 0, b: 0 }
                },
                if refract {
                    ray_color(probe, blend, path.push(Ray::Transmitted), depth + 1)
                } else {
                    Color { r: 0, g: 0, b: 0 }
                },
            ),
        }
    }
}

/// The ray that a surface waits for.
pub open spec fn branch(stage: Stage) -> Ray {
    if stage == Stage::Mirroring {
        Ray::Mirrored
    } else {
        Ray::Transmitted
    }
}

/// The path of the ray that is probed above the given stack.
pub open spec fn path_of(frames: Seq<Frame>) -> Seq<Ray> {
    Seq::new(frames.len(), |k: int| branch(frames[k].stage))
}

/// The colour that the walk ends with once the ray above the given stack
/// has the given colour.
pub open spec fn settled(
    probe: spec_fn(Seq<Ray>) -> Seq<Intersect>,
    blend: spec_fn(Seq<Ray>, Color, Color) -> Color,
    frames: Seq<Frame>,
    color: Color,
) -> Color
    decreases frames.len(),
{
    if frames.len() == 0 {
        color
    } else {
        let top = frames.last();
        let path = path_of(frames.drop_last());
        if top.stage == Stage::Mirroring {
            let refracted = if top.refract {
                ray_color(probe, blend, path.push(Ray::Transmitted), top.depth + 1)
            } else {
                Color { r: 0, g: 0, b: 0 }
            };
            settled(probe, blend, frames.drop_last(), blend(path, color, refracted))
        } else {
            settled(probe, blend, frames.drop_last(), blend(path, top.reflected, color))
        }
    }
}

/// The colour of the surface that is last on the stack and yet to be shaded.
pub open spec fn surface_color(
    probe: spec_fn(Seq<Ray>) -> Seq<Intersect>,
    blend: spec_fn(Seq<Ray>, Color, Color) -> Color,
    frames: Seq<Frame>,
) -> Color {
    let top = frames.last();
    let path = path_of(frames.drop_last());
    blend(
        path,
        if top.reflect {
            ray_color(probe, blend, path.push(Ray::Mirrored), top.depth + 1)
        } else {
            Color { r: 0, g: 0, b: 0 }
        },
        if top.refract {
            ray_color(probe, blend, path.push(Ray::Transmitted), top.depth + 1)
        } else {
            Color { r: 0, g: 0, b: 0 }
        },
    )
}

/// The colour that a walk in the given state ends with.
pub open spec fn outcome(
    probe: spec_fn(Seq<Ray>) -> Seq<Intersect>,
    blend: spec_fn(Seq<Ray>, Color, Color) -> Color,
    start: u32,
    frames: Seq<Frame>,
    pending: Task,
) -> Color {
    match pending {
        Task::Probe(_) => settled(
            probe,
            blend,
            frames,
            ray_color(probe, blend, path_of(frames), ray_depth(start, frames)),
        ),
        Task::Shade { object } => settled(
            probe,
            blend,
            frames.drop_last(),
            surface_color(probe, blend, frames),
        ),
        Task::Compose { object, reflected, refracted } => settled(
            probe,
            blend,
            frames.drop_last(),
            blend(path_of(frames.drop_last()), reflected, refracted),
        ),
        Task::Done(color) => color,
    }
}

/// The path above a stack with one more surface on it.
pub proof fn lemma_path_push(rest: Seq<Frame>, top: Frame)
    ensures
        path_of(rest.push(top)) == path_of(rest).push(branch(top.stage)),
        rest.push(top).drop_last() == rest,
        rest.push(top).last() == top,
{
    assert(path_of(rest.push(top)) =~= path_of(rest).push(branch(top.stage)));
    assert(rest.push(top).drop_last() =~= rest);
}

/// A colour delivered to a waiting stack leaves a walk that ends with the
/// colour that the stack settles to.
pub proof fn lemma_deliver_outcome(
    probe: spec_fn(Seq<Ray>) -> Seq<Intersect>,
    blend: spec_fn(Seq<Ray>, Color, Color) -> Color,
    start: u32,
    frames: Seq<Frame>,
    color: Color,
)
    requires
        waiting(start, frames),
    ensures
        outcome(probe, blend, start, deliver(frames, color).0, deliver(frames, color).1) == settled(
            probe,
            blend,
            frames,
            color,
        ),
{
    if frames.len() > 0 {
        let rest = frames.drop_last();
        let top = frames.last();
        let after = deliver(frames, color).0;
        lemma_path_push(rest, after.last());
        assert(top == frames[frames.len() - 1]);
        assert(after == rest.push(after.last()));
        reveal_with_fuel(ray_color, 2);
        reveal_with_fuel(settled, 2);
    }
}

/// A walk that has not begun ends with the colour of its primary ray.
pub proof fn lemma_walk_begins(
    probe: spec_fn(Seq<Ray>) -> Seq<Intersect>,
    blend: spec_fn(Seq<Ray>, Color, Color) -> Color,
    start: u32,
)
    ensures
        outcome(
            probe,
            blend,
            start,
            Seq::empty(),
            if start > MAX_DEPTH {
                Task::Done(sky())
            } else {
                Task::Probe(Ray::Primary)
            },
        ) == ray_color(probe, blend, Seq::empty(), start as int),
{
    assert(path_of(Seq::<Frame>::empty()) =~= Seq::<Ray>::empty());
}

/// No report of the host changes the colour that the walk ends with, as long
/// as the host reports of each ray the records that probing it yields, and of
/// each surface the colour that it is composed to. So a walk for a primary
/// ray of depth `start` ends with `ray_color` of the empty path at `start`:
/// with the colour that the recursive shader defines.
pub proof fn lemma_steps_keep_outcome(
    probe: spec_fn(Seq<Ray>) -> Seq<Intersect>,
    blend: spec_fn(Seq<Ray>, Color, Color) -> Color,
    start: u32,
    frames: Seq<Frame>,
    pending: Task,
)
    requires
        consistent(start, frames, pending),
    ensures
        outcome(
            probe,
            blend,
            start,
            after_hits(start, frames, pending, probe(path_of(frames))).0,
            after_hits(start, frames, pending, probe(path_of(frames))).1,
        ) == outcome(probe, blend, start, frames, pending),
        outcome(
            probe,
            blend,
            start,
            after_shaded(frames, pending).0,
            after_shaded(frames, pending).1,
        ) == outcome(probe, blend, start, frames, pending),
        pending matches Task::Compose { object, reflected, refracted } ==> outcome(
            probe,
            blend,
            start,
            after_composed(
                frames,
                pending,
                blend(path_of(frames.drop_last()), reflected, refracted),
            ).0,
            after_composed(
                frames,
                pending,
                blend(path_of(frames.drop_last()), reflected, refracted),
            ).1,
        ) == outcome(probe, blend, start, frames, pending),
{
    lemma_rest_waits(start, frames, pending);
    match pending {
        Task::Probe(_) => {
            let depth = ray_depth(start, frames);
            let hits = probe(path_of(frames));
            match ray_step(depth as u32, hits) {
                RayStep::Background(color) => {
                    lemma_deliver_outcome(probe, blend, start, frames, color);
                },
                RayStep::Surface { .. } => {
                    let after = after_hits(start, frames, pending, hits).0;
                    lemma_path_push(frames, after.last());
                },
            }
        },
        Task::Shade { .. } => {
            let rest = frames.drop_last();
            let after = after_shaded(frames, pending).0;
            lemma_path_push(rest, after.last());
            reveal_with_fuel(ray_color, 2);
            reveal_with_fuel(settled, 2);
        },
        Task::Compose { object, reflected, refracted } => {
            let rest = frames.drop_last();
            lemma_deliver_outcome(
                probe,
                blend,
                start,
                rest,
                blend(path_of(rest), reflected, refracted),
            );
        },
        Task::Done(_) => {},
    }
}

} // verus!
