//! The walk over the tree of rays that one primary ray spawns.
//!
//! The recursion of the shader is held here as an explicit stack. The host
//! does what a task names and reports back; the walk decides what comes next:
//! which ray to probe, which surface to shade, when the colours of a surface
//! are complete, and when the primary ray has its colour. A mirrored ray is
//! always traced before the transmitted ray of the same surface.

use crate::color::Color;
use crate::ray_intersect::Intersect;
use crate::trace::{cast_ray, ray_step, sky, sky_color, RayStep, MAX_DEPTH};
use vstd::prelude::*;

verus! {

/// Which ray the host is to probe.
#[derive(Clone, Copy, Debug, PartialEq, Eq, Structural)]
pub enum Ray {
    /// The ray that the walk was started for.
    Primary,
    /// The ray mirrored at the surface that was shaded last and is not yet
    /// composed.
    Mirrored,
    /// The ray transmitted through that surface.
    Transmitted,
}

/// What a surface on the stack waits for.
#[derive(Clone, Copy, Debug, PartialEq, Eq, Structural)]
pub enum Stage {
    Shading,
    Mirroring,
    Transmitting,
    Composing,
}

/// A surface whose colour is not yet complete.
#[derive(Clone, Copy, Debug, PartialEq, Eq, Structural)]
pub struct Frame {
    /// The depth of the ray that struck the surface.
    pub depth: u32,
    /// The index of the object struck.
    pub object: usize,
    /// The surface sends a mirrored ray.
    pub reflect: bool,
    /// The surface sends a transmitted ray.
    pub refract: bool,
    pub stage: Stage,
    /// The colour of the mirrored ray; black until it is known, and for good
    /// where the surface sends none.
    pub reflected: Color,
    /// The colour of the transmitted ray, likewise.
    pub refracted: Color,
}

/// What the host is to do next.
#[derive(Clone, Copy, Debug, PartialEq, Eq, Structural)]
pub enum Task {
    /// Intersect the named ray with every object of the scene and report the
    /// records with [`RayWalk::hits`].
    Probe(Ray),
    /// The ray probed last strikes this object first. Keep what is needed to
    /// shade the surface and to cast rays from it, and go on with
    /// [`RayWalk::shaded`].
    Shade { object: usize },
    /// Both secondary colours of the surface shaded last are known. Blend
    /// them with its own light and report the colour with
    /// [`RayWalk::composed`].
    Compose { object: usize, reflected: Color, refracted: Color },
    /// The primary ray has this colour. The walk is over.
    Done(Color),
}

/// The number of rays probed at most in the tree below a ray of the given
/// depth, that ray included.
pub open spec fn budget(depth: int) -> int
    decreases MAX_DEPTH + 1 - depth,
{
    if depth > MAX_DEPTH {
        0
    } else {
        1 + 2 * budget(depth + 1)
    }
}

/// The number of rays that a surface on the stack may still send, beyond
/// those accounted for above it on the stack.
pub open spec fn owed(frame: Frame) -> int {
    match frame.stage {
        Stage::Shading => 2 * budget(frame.depth + 1),
        Stage::Mirroring => budget(frame.depth + 1),
        Stage::Transmitting => 0,
        Stage::Composing => 0,
    }
}

/// The sum of what the surfaces on the stack may still send.
pub open spec fn owed_sum(frames: Seq<Frame>) -> int
    decreases frames.len(),
{
    if frames.len() == 0 {
        0
    } else {
        owed_sum(frames.drop_last()) + owed(frames.last())
    }
}

/// The depth of the ray that is probed next above the given stack.
pub open spec fn ray_depth(start: u32, frames: Seq<Frame>) -> int {
    if frames.len() == 0 {
        start as int
    } else {
        frames.last().depth + 1
    }
}

/// The surfaces on the stack lie one level below the other from the
/// depth of the primary ray down, none beyond the deepest level; all but the
/// last wait for the colour of a ray, and each waits only for a ray that
/// its material sends.
pub open spec fn stacked(start: u32, frames: Seq<Frame>) -> bool {
    &&& forall|i: int|
        0 <= i < frames.len() ==> (#[trigger] frames[i]).depth == start + i && frames[i].depth
            <= MAX_DEPTH
    &&& forall|i: int|
        0 <= i < frames.len() - 1 ==> (#[trigger] frames[i]).stage == Stage::Mirroring
            || frames[i].stage == Stage::Transmitting
    &&& forall|i: int|
        0 <= i < frames.len() && (#[trigger] frames[i]).stage == Stage::Mirroring
            ==> frames[i].reflect
    &&& forall|i: int|
        0 <= i < frames.len() && (#[trigger] frames[i]).stage == Stage::Transmitting
            ==> frames[i].refract
}

/// The task is the one that the last surface on the stack waits for.
pub open spec fn task_fits(start: u32, frames: Seq<Frame>, pending: Task) -> bool {
    match pending {
        Task::Probe(Ray::Primary) => frames.len() == 0 && start <= MAX_DEPTH,
        Task::Probe(Ray::Mirrored) => frames.len() > 0 && frames.last().stage == Stage::Mirroring
            && frames.last().depth < MAX_DEPTH,
        Task::Probe(Ray::Transmitted) => frames.len() > 0 && frames.last().stage
            == Stage::Transmitting && frames.last().depth < MAX_DEPTH,
        Task::Shade { object } => frames.len() > 0 && frames.last().stage == Stage::Shading
            && frames.last().object == object,
        Task::Compose { object, reflected, refracted } => frames.len() > 0 && frames.last().stage
            == Stage::Composing && frames.last().object == object && frames.last().reflected
            == reflected && frames.last().refracted == refracted,
        Task::Done(_) => frames.len() == 0,
    }
}

/// The stack and the task are those of a walk under way.
pub open spec fn consistent(start: u32, frames: Seq<Frame>, pending: Task) -> bool {
    stacked(start, frames) && task_fits(start, frames, pending)
}

/// The number of rays that the walk may still probe.
pub open spec fn remaining(start: u32, frames: Seq<Frame>, pending: Task) -> int {
    owed_sum(frames) + (if pending is Probe {
        budget(ray_depth(start, frames))
    } else {
        0
    })
}

/// The number of reports that the surfaces on the stack still take, apart
/// from those of the rays they may send: one for composing each, and one
/// more where the surface is yet to be shaded.
pub open spec fn reports_owed(frames: Seq<Frame>) -> int
    decreases frames.len(),
{
    if frames.len() == 0 {
        0
    } else {
        reports_owed(frames.drop_last()) + (if frames.last().stage == Stage::Shading {
            2int
        } else {
            1int
        })
    }
}

/// A bound on the number of reports that the walk still takes: three for
/// each ray that may still be probed, for its records, its surface and its
/// colour, and those that the surfaces on the stack take.
pub open spec fn reports_left(start: u32, frames: Seq<Frame>, pending: Task) -> int {
    3 * remaining(start, frames, pending) + reports_owed(frames)
}

/// The colour that a secondary ray has without being probed: black where
/// the surface sends none, the sky where the ray would be too deep.
pub open spec fn unprobed(wanted: bool) -> Color {
    if wanted {
        sky()
    } else {
        Color { r: 0, g: 0, b: 0 }
    }
}

/// A surface whose mirrored colour is settled turns to its transmitted ray:
/// the ray is probed where the surface sends one that is not too deep, and
/// else the surface is ready to be composed.
pub open spec fn plan_transmit(frame: Frame) -> (Frame, Task) {
    if frame.refract && frame.depth < MAX_DEPTH {
        (Frame { stage: Stage::Transmitting, ..frame }, Task::Probe(Ray::Transmitted))
    } else {
        (
            Frame { stage: Stage::Composing, refracted: unprobed(frame.refract), ..frame },
            Task::Compose {
                object: frame.object,
                reflected: frame.reflected,
                refracted: unprobed(frame.refract),
            },
        )
    }
}

/// A surface that has been shaded turns to its mirrored ray first.
pub open spec fn plan_mirror(frame: Frame) -> (Frame, Task) {
    if frame.reflect && frame.depth < MAX_DEPTH {
        (Frame { stage: Stage::Mirroring, ..frame }, Task::Probe(Ray::Mirrored))
    } else {
        plan_transmit(Frame { reflected: unprobed(frame.reflect), ..frame })
    }
}

/// The colour of a ray reaches the surface that sent it: the mirrored colour
/// first, then the transmitted one. The colour of the primary ray ends the
/// walk.
pub open spec fn deliver(frames: Seq<Frame>, color: Color) -> (Seq<Frame>, Task) {
    if frames.len() == 0 {
        (frames, Task::Done(color))
    } else if frames.last().stage == Stage::Mirroring {
        let (frame, task) = plan_transmit(Frame { reflected: color, ..frames.last() });
        (frames.drop_last().push(frame), task)
    } else {
        let frame = Frame { stage: Stage::Composing, refracted: color, ..frames.last() };
        (
            frames.drop_last().push(frame),
            Task::Compose { object: frame.object, reflected: frame.reflected, refracted: color },
        )
    }
}

/// The stack and the task after the records of the probed ray have come in.
pub open spec fn after_hits(start: u32, frames: Seq<Frame>, pending: Task, hits: Seq<Intersect>) -> (
    Seq<Frame>,
    Task,
) {
    if pending is Probe {
        match ray_step(ray_depth(start, frames) as u32, hits) {
            RayStep::Background(color) => deliver(frames, color),
            RayStep::Surface { object, reflect, refract, depth } => (
                frames.push(
                    Frame {
                        depth: ray_depth(start, frames) as u32,
                        object,
                        reflect,
                        refract,
                        stage: Stage::Shading,
                        reflected: Color { r: 0, g: 0, b: 0 },
                        refracted: Color { r: 0, g: 0, b: 0 },
                    },
                ),
                Task::Shade { object },
            ),
        }
    } else {
        (frames, pending)
    }
}

/// The stack and the task after the surface has been shaded.
pub open spec fn after_shaded(frames: Seq<Frame>, pending: Task) -> (Seq<Frame>, Task) {
    if pending is Shade && frames.len() > 0 {
        let (frame, task) = plan_mirror(frames.last());
        (frames.drop_last().push(frame), task)
    } else {
        (frames, pending)
    }
}

/// The stack and the task after the surface has been composed.
pub open spec fn after_composed(frames: Seq<Frame>, pending: Task, color: Color) -> (
    Seq<Frame>,
    Task,
) {
    if pending is Compose && frames.len() > 0 {
        deliver(frames.drop_last(), color)
    } else {
        (frames, pending)
    }
}

/// Every surface on the stack waits for the colour of a ray that it sent.
pub open spec fn waiting(start: u32, frames: Seq<Frame>) -> bool {
    &&& forall|i: int|
        0 <= i < frames.len() ==> (#[trigger] frames[i]).depth == start + i && frames[i].depth
            < MAX_DEPTH
    &&& forall|i: int|
        0 <= i < frames.len() ==> ((#[trigger] frames[i]).stage == Stage::Mirroring
            && frames[i].reflect) || (frames[i].stage == Stage::Transmitting && frames[i].refract)
}

/// No tree of rays is of negative size, and a ray that is traced counts for
/// one more than the two trees below it.
pub proof fn lemma_budget(depth: int)
    ensures
        budget(depth) >= 0,
        depth <= MAX_DEPTH ==> budget(depth) == 1 + 2 * budget(depth + 1),
        depth >= 0 ==> budget(depth) <= 15,
        budget(0) == 15,
    decreases MAX_DEPTH + 1 - depth,
{
    reveal_with_fuel(budget, 6);
    if depth <= MAX_DEPTH {
        lemma_budget(depth + 1);
    }
}

/// A surface put on a waiting stack, one level below its last surface,
/// makes a stack in order, which owes what the two owed.
pub proof fn lemma_push_on_waiting(start: u32, rest: Seq<Frame>, top: Frame)
    requires
        waiting(start, rest),
        top.depth == start + rest.len(),
        top.depth <= MAX_DEPTH,
        top.stage == Stage::Mirroring ==> top.reflect,
        top.stage == Stage::Transmitting ==> top.refract,
    ensures
        stacked(start, rest.push(top)),
        owed_sum(rest.push(top)) == owed_sum(rest) + owed(top),
        owed(top) >= 0,
        reports_owed(rest.push(top)) == reports_owed(rest) + (if top.stage == Stage::Shading {
            2int
        } else {
            1int
        }),
{
    assert(rest.push(top).drop_last() == rest);
    lemma_budget(top.depth + 1);
}

/// Below the last surface of a stack in order the stack waits, and so does
/// the whole stack under a ray that is probed.
pub proof fn lemma_rest_waits(start: u32, frames: Seq<Frame>, pending: Task)
    requires
        consistent(start, frames, pending),
    ensures
        frames.len() > 0 ==> waiting(start, frames.drop_last()) && frames.last().depth == start
            + frames.len() - 1 && frames.drop_last().push(frames.last()) == frames,
        pending is Probe ==> waiting(start, frames) && 0 <= ray_depth(start, frames) <= MAX_DEPTH,
{
    if frames.len() > 0 {
        let rest = frames.drop_last();
        let top = frames.last();
        assert(top == frames[frames.len() - 1]);
        assert forall|i: int| 0 <= i < rest.len() implies (#[trigger] rest[i]).depth == start + i
            && rest[i].depth < MAX_DEPTH && ((rest[i].stage == Stage::Mirroring && rest[i].reflect)
            || (rest[i].stage == Stage::Transmitting && rest[i].refract)) by {
            assert(rest[i] == frames[i]);
        }
        assert(rest.push(top) == frames);
    }
}

/// No stack owes less than nothing.
pub proof fn lemma_owed_is_natural(frames: Seq<Frame>)
    ensures
        owed_sum(frames) >= 0,
        reports_owed(frames) >= 0,
    decreases frames.len(),
{
    if frames.len() > 0 {
        lemma_owed_is_natural(frames.drop_last());
        lemma_budget(frames.last().depth + 1);
    }
}

/// Delivering a colour to a waiting stack leaves a walk under way, which
/// may probe no more rays than the stack owed.
pub proof fn lemma_deliver(start: u32, frames: Seq<Frame>, color: Color)
    requires
        waiting(start, frames),
    ensures
        consistent(start, deliver(frames, color).0, deliver(frames, color).1),
        remaining(start, deliver(frames, color).0, deliver(frames, color).1) <= owed_sum(frames),
        reports_owed(deliver(frames, color).0) == reports_owed(frames),
{
    if frames.len() > 0 {
        let rest = frames.drop_last();
        let top = frames.last();
        assert(top == frames[frames.len() - 1]);
        assert forall|i: int| 0 <= i < rest.len() implies (#[trigger] rest[i]) == frames[i] by {}
        assert(rest.push(top) == frames);
        lemma_push_on_waiting(start, rest, top);
        lemma_push_on_waiting(start, rest, deliver(frames, color).0.last());
    }
}

/// The three reports of the host keep a walk under way, and none lets the
/// rays probed so far and those that may still be probed grow in sum: the
/// records of a ray count for one ray probed.
pub proof fn lemma_steps_keep_walk(
    start: u32,
    frames: Seq<Frame>,
    pending: Task,
    hits: Seq<Intersect>,
    color: Color,
)
    requires
        consistent(start, frames, pending),
    ensures
        consistent(
            start,
            after_hits(start, frames, pending, hits).0,
            after_hits(start, frames, pending, hits).1,
        ),
        pending is Probe ==> 1 + remaining(
            start,
            after_hits(start, frames, pending, hits).0,
            after_hits(start, frames, pending, hits).1,
        ) <= remaining(start, frames, pending),
        consistent(start, after_shaded(frames, pending).0, after_shaded(frames, pending).1),
        remaining(start, after_shaded(frames, pending).0, after_shaded(frames, pending).1)
            <= remaining(start, frames, pending),
        consistent(
            start,
            after_composed(frames, pending, color).0,
            after_composed(frames, pending, color).1,
        ),
        remaining(
            start,
            after_composed(frames, pending, color).0,
            after_composed(frames, pending, color).1,
        ) <= remaining(start, frames, pending),
{
    lemma_rest_waits(start, frames, pending);
    lemma_owed_is_natural(frames);
    if pending is Probe {
        let depth = ray_depth(start, frames);
        lemma_budget(depth);
        match ray_step(depth as u32, hits) {
            RayStep::Background(sky) => {
                lemma_deliver(start, frames, sky);
            },
            RayStep::Surface { .. } => {
                lemma_push_on_waiting(
                    start,
                    frames,
                    after_hits(start, frames, pending, hits).0.last(),
                );
            },
        }
    }
    if pending is Shade && frames.len() > 0 {
        lemma_push_on_waiting(start, frames.drop_last(), frames.last());
        lemma_push_on_waiting(start, frames.drop_last(), after_shaded(frames, pending).0.last());
    }
    if pending is Compose && frames.len() > 0 {
        lemma_push_on_waiting(start, frames.drop_last(), frames.last());
        lemma_deliver(start, frames.drop_last(), color);
    }
}

/// The walk over the rays of one primary ray.
pub struct RayWalk {
    start: u32,
    frames: Vec<Frame>,
    pending: Task,
    probes: u32,
}

fn settle_transmit(frame: Frame) -> (r: (Frame, Task))
    ensures
        r == plan_transmit(frame),
{
    if frame.refract && frame.depth < MAX_DEPTH {
        (Frame { stage: Stage::Transmitting, ..frame }, Task::Probe(Ray::Transmitted))
    } else {
        let refracted = if frame.refract {
            sky_color()
        } else {
            Color::black()
        };
        (
            Frame { stage: Stage::Composing, refracted, ..frame },
            Task::Compose { object: frame.object, reflected: frame.reflected, refracted },
        )
    }
}

fn settle_mirror(frame: Frame) -> (r: (Frame, Task))
    ensures
        r == plan_mirror(frame),
{
    if frame.reflect && frame.depth < MAX_DEPTH {
        (Frame { stage: Stage::Mirroring, ..frame }, Task::Probe(Ray::Mirrored))
    } else {
        let reflected = if frame.reflect {
            sky_color()
        } else {
            Color::black()
        };
        settle_transmit(Frame { reflected, ..frame })
    }
}

fn deliver_color(frames: &mut Vec<Frame>, color: Color) -> (task: Task)
    ensures
        (final(frames)@, task) == deliver(old(frames)@, color),
{
    match frames.pop() {
        None => Task::Done(color),
        Some(top) => {
            if top.stage == Stage::Mirroring {
                let (frame, task) = settle_transmit(Frame { reflected: color, ..top });
                frames.push(frame);
                task
            } else {
                frames.push(Frame { stage: Stage::Composing, refracted: color, ..top });
                Task::Compose { object: top.object, reflected: top.reflected, refracted: color }
            }
        },
    }
}

impl RayWalk {
    /// The depth of the primary ray.
    pub closed spec fn start_depth(self) -> u32 {
        self.start
    }

    /// The surfaces whose colour is not yet complete, the deepest last.
    pub closed spec fn stack(self) -> Seq<Frame> {
        self.frames@
    }

    /// The task that the host has been given and has not yet reported on.
    pub closed spec fn pending(self) -> Task {
        self.pending
    }

    /// The number of rays probed so far.
    pub closed spec fn probed(self) -> int {
        self.probes as int
    }

    /// The walk is under way, and the rays probed so far and those that may
    /// still be probed stay within the budget of the primary ray.
    pub open spec fn well_formed(self) -> bool {
        &&& consistent(self.start_depth(), self.stack(), self.pending())
        &&& self.probed() + remaining(self.start_depth(), self.stack(), self.pending()) <= budget(
            self.start_depth() as int,
        )
    }

    /// A walk for a primary ray of the given depth. Beyond the deepest level
    /// the ray has the colour of the sky and the walk is over at once.
    pub fn new(depth: u32) -> (walk: RayWalk)
        ensures
            walk.well_formed(),
            walk.start_depth() == depth,
            walk.stack() == Seq::<Frame>::empty(),
            walk.probed() == 0,
            walk.pending() == (if depth > MAX_DEPTH {
                Task::Done(sky())
            } else {
                Task::Probe(Ray::Primary)
            }),
    {
        let pending = if depth > MAX_DEPTH {
            Task::Done(sky_color())
        } else {
            Task::Probe(Ray::Primary)
        };
        proof {
            lemma_budget(depth as int);
        }
        RayWalk { start: depth, frames: Vec::new(), pending, probes: 0 }
    }

    /// The task that the host is to do now.
    pub fn task(&self) -> (task: Task)
        ensures
            task == self.pending(),
    {
        self.pending
    }

    /// The number of rays probed so far.
    pub fn probes(&self) -> (n: u32)
        ensures
            n == self.probed(),
    {
        self.probes
    }

    /// The number of surfaces whose colour is not yet complete.
    pub fn depth(&self) -> (n: usize)
        ensures
            n == self.stack().len(),
    {
        self.frames.len()
    }

    /// The host reports the records of the ray it was to probe, one for each
    /// object of the scene. A ray that strikes nothing has the colour of the
    /// sky, which goes to the surface that sent it; any other ray puts the
    /// surface of its nearest hit on the stack, to be shaded. While no ray is
    /// to be probed the report changes nothing.
    pub fn hits(&mut self, hits: &Vec<Intersect>) -> (task: Task)
        requires
            old(self).well_formed(),
        ensures
            final(self).well_formed(),
            final(self).start_depth() == old(self).start_depth(),
            (final(self).stack(), task) == after_hits(
                old(self).start_depth(),
                old(self).stack(),
                old(self).pending(),
                hits@,
            ),
            final(self).pending() == task,
            final(self).probed() == old(self).probed() + (if old(self).pending() is Probe {
                1int
            } else {
                0int
            }),
    {
        proof {
            lemma_steps_keep_walk(self.start, self.frames@, self.pending, hits@, sky());
            lemma_rest_waits(self.start, self.frames@, self.pending);
            lemma_owed_is_natural(self.frames@);
            lemma_budget(self.start as int);
        }
        match self.pending {
            Task::Probe(_) => {
                proof {
                    lemma_budget(ray_depth(self.start, self.frames@));
                    assert(self.probes < 15);
                }
                let count: usize = self.frames.len();
                let depth: u32 = if count == 0 {
                    self.start
                } else {
                    self.frames[count - 1].depth + 1
                };
                let task = match cast_ray(depth, hits) {
                    RayStep::Background(color) => deliver_color(&mut self.frames, color),
                    RayStep::Surface { object, reflect, refract, depth: _ } => {
                        self.frames.push(
                            Frame {
                                depth,
                                object,
                                reflect,
                                refract,
                                stage: Stage::Shading,
                                reflected: Color::black(),
                                refracted: Color::black(),
                            },
                        );
                        Task::Shade { object }
                    },
                };
                self.pending = task;
                self.probes = self.probes + 1;
                task
            },
            _ => self.pending,
        }
    }

    /// The host reports that it has taken note of the surface to be shaded.
    /// The surface turns to its mirrored ray, then to its transmitted ray; a
    /// ray that the surface does not send is black, and one that would be
    /// too deep has the colour of the sky, neither being probed. While no
    /// surface is to be shaded the report changes nothing.
    pub fn shaded(&mut self) -> (task: Task)
        requires
            old(self).well_formed(),
        ensures
            final(self).well_formed(),
            final(self).start_depth() == old(self).start_depth(),
            (final(self).stack(), task) == after_shaded(old(self).stack(), old(self).pending()),
            final(self).pending() == task,
            final(self).probed() == old(self).probed(),
    {
        proof {
            lemma_steps_keep_walk(self.start, self.frames@, self.pending, Seq::empty(), sky());
        }
        match self.pending {
            Task::Shade { object: _ } => {
                match self.frames.pop() {
                    None => self.pending,
                    Some(top) => {
                        let (frame, task) = settle_mirror(top);
                        self.frames.push(frame);
                        self.pending = task;
                        task
                    },
                }
            },
            _ => self.pending,
        }
    }

    /// The host reports the colour of the surface that it was to compose.
    /// The surface leaves the stack and its colour goes to the surface that
    /// sent the ray, or ends the walk as the colour of the primary ray. While
    /// no surface is to be composed the report changes nothing.
    pub fn composed(&mut self, color: Color) -> (task: Task)
        requires
            old(self).well_formed(),
        ensures
            final(self).well_formed(),
            final(self).start_depth() == old(self).start_depth(),
            (final(self).stack(), task) == after_composed(
                old(self).stack(),
                old(self).pending(),
                color,
            ),
            final(self).pending() == task,
            final(self).probed() == old(self).probed(),
    {
        proof {
            lemma_steps_keep_walk(self.start, self.frames@, self.pending, Seq::empty(), color);
        }
        match self.pending {
            Task::Compose { object: _, reflected: _, refracted: _ } => {
                match self.frames.pop() {
                    None => self.pending,
                    Some(_) => {
                        let task = deliver_color(&mut self.frames, color);
                        self.pending = task;
                        task
                    },
                }
            },
            _ => self.pending,
        }
    }
}

/// The walk ends: every report that is due lowers the bound on the reports
/// still to come, which is 45 at most when the walk begins, and no report is
/// due once the bound is zero.
pub proof fn lemma_reports_run_out(
    start: u32,
    frames: Seq<Frame>,
    pending: Task,
    hits: Seq<Intersect>,
    color: Color,
)
    requires
        consistent(start, frames, pending),
    ensures
        0 <= reports_left(start, frames, pending),
        frames.len() == 0 ==> reports_left(start, frames, pending) <= 45,
        pending is Done <==> reports_left(start, frames, pending) == 0,
        pending is Probe ==> reports_left(
            start,
            after_hits(start, frames, pending, hits).0,
            after_hits(start, frames, pending, hits).1,
        ) < reports_left(start, frames, pending),
        pending is Shade ==> reports_left(
            start,
            after_shaded(frames, pending).0,
            after_shaded(frames, pending).1,
        ) < reports_left(start, frames, pending),
        pending is Compose ==> reports_left(
            start,
            after_composed(frames, pending, color).0,
            after_composed(frames, pending, color).1,
        ) < reports_left(start, frames, pending),
{
    lemma_rest_waits(start, frames, pending);
    lemma_owed_is_natural(frames);
    lemma_budget(start as int);
    if frames.len() > 0 {
        lemma_owed_is_natural(frames.drop_last());
    }
    match pending {
        Task::Probe(_) => {
            let depth = ray_depth(start, frames);
            lemma_budget(depth);
            lemma_budget(depth + 1);
            match ray_step(depth as u32, hits) {
                RayStep::Background(sky) => {
                    lemma_deliver(start, frames, sky);
                },
                RayStep::Surface { .. } => {
                    lemma_push_on_waiting(
                        start,
                        frames,
                        after_hits(start, frames, pending, hits).0.last(),
                    );
                },
            }
        },
        Task::Shade { .. } => {
            lemma_push_on_waiting(start, frames.drop_last(), frames.last());
            lemma_push_on_waiting(
                start,
                frames.drop_last(),
                after_shaded(frames, pending).0.last(),
            );
        },
        Task::Compose { .. } => {
            lemma_push_on_waiting(start, frames.drop_last(), frames.last());
            lemma_deliver(start, frames.drop_last(), color);
        },
        Task::Done(_) => {},
    }
}

/// A walk probes at most fifteen rays and holds at most four surfaces: no
/// ray is traced beyond the deepest level, and each surface sends two rays
/// at most.
pub proof fn lemma_walk_is_bounded(walk: RayWalk)
    requires
        walk.well_formed(),
    ensures
        0 <= walk.probed() <= budget(walk.start_depth() as int) <= 15,
        walk.stack().len() <= MAX_DEPTH + 1,
        walk.start_depth() > MAX_DEPTH ==> walk.probed() == 0 && walk.stack().len() == 0,
{
    lemma_budget(walk.start_depth() as int);
    lemma_rest_waits(walk.start_depth(), walk.stack(), walk.pending());
    lemma_owed_is_natural(walk.stack());
    lemma_budget(ray_depth(walk.start_depth(), walk.stack()));
    if walk.stack().len() > 0 {
        assert(walk.stack().last().depth == walk.start_depth() + walk.stack().len() - 1);
        assert(walk.stack()[0].depth == walk.start_depth());
    }
}

/// A surface that neither mirrors nor transmits sends no ray: once shaded
/// it is composed at once, with both secondary colours black.
pub proof fn lemma_opaque_surface_sends_no_ray(frames: Seq<Frame>, pending: Task)
    requires
        pending is Shade,
        frames.len() > 0,
        !frames.last().reflect,
        !frames.last().refract,
    ensures
        after_shaded(frames, pending).1 == (Task::Compose {
            object: frames.last().object,
            reflected: Color { r: 0, g: 0, b: 0 },
            refracted: Color { r: 0, g: 0, b: 0 },
        }),
{
}

} // verus!
