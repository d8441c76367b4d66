//! Decision core of a recursive ray tracer for scenes of axis-aligned boxes.
//!
//! The host performs the vector arithmetic of a ray tracer in IEEE-754
//! binary32 and hands the library the numbers it has computed, as bit
//! patterns. The library takes every decision that follows from them: whether
//! a ray enters a box, which face it strikes, which object is nearest, which
//! object casts a shadow, on which side of a surface a ray runs, whether
//! secondary rays are spawned and in which order they are traced, and where a
//! colour lands in the frame buffer.
//!
//! The comparisons are made on the bit patterns, and agree with the order of
//! the values for every datum: numbers, zeros of either sign, infinities and
//! NaNs ([`scalar`]). The recursion of the shader is an explicit walk over
//! the tree of rays ([`walk`]), which is proved to end, to probe fifteen rays
//! at most, and to end with the colour that the recursive definition gives
//! ([`shader`]).

pub mod block;
pub mod camera;
pub mod color;
pub mod framebuffer;
pub mod material;
pub mod optics;
pub mod ray_intersect;
pub mod render;
pub mod scalar;
pub mod shader;
pub mod trace;
pub mod vector;
pub mod walk;

pub use crate::block::Block;
pub use crate::render::render;
pub use crate::trace::cast_ray;
