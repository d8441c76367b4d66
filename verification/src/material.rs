//! Surface materials.

use crate::color::Color;
use crate::scalar::Scalar;
use vstd::prelude::*;

verus! {

/// Index in [`Material::albedo`] of the weight of diffuse light.
pub const DIFFUSE: usize = 0;

/// Index in [`Material::albedo`] of the weight of the specular highlight.
pub const SPECULAR: usize = 1;

/// Index in [`Material::albedo`] of the weight of the mirrored ray.
pub const REFLECTIVITY: usize = 2;

/// Index in [`Material::albedo`] of the weight of the transmitted ray.
pub const TRANSPARENCY: usize = 3;

/// How a surface answers light: its own colour, the exponent of its
/// highlight, the four weights of diffuse, specular, mirrored and transmitted
/// light, and its index of refraction.
#[derive(Clone, Copy, Debug, PartialEq, Eq)]
pub struct Material {
    pub diffuse: Color,
    pub specular: Scalar,
    pub albedo: [Scalar; 4],
    pub refractive_index: Scalar,
}

impl Material {
    pub fn new(diffuse: Color, specular: Scalar, albedo: [Scalar; 4], refractive_index: Scalar) -> (m:
        Material)
        ensures
            m == (Material { diffuse, specular, albedo, refractive_index }),
    {
        Material { diffuse, specular, albedo, refractive_index }
    }

    /// The surface is black, and every number of the material is zero.
    pub open spec fn dark(self) -> bool {
        &&& self.diffuse == (Color { r: 0, g: 0, b: 0 })
        &&& self.specular == Scalar::zero()
        &&& self.albedo@ == seq![Scalar::zero(), Scalar::zero(), Scalar::zero(), Scalar::zero()]
        &&& self.refractive_index == Scalar::zero()
    }

    /// A black surface that neither mirrors nor transmits.
    pub fn black() -> (m: Material)
        ensures
            m.dark(),
            !m.mirrors(),
            !m.transmits(),
    {
        let zero = Scalar { bits: 0 };
        Material {
            diffuse: Color { r: 0, g: 0, b: 0 },
            specular: zero,
            albedo: [zero, zero, zero, zero],
            refractive_index: zero,
        }
    }

    /// The surface sends a mirrored ray: its reflectivity is above zero.
    pub open spec fn mirrors(self) -> bool {
        Scalar::zero().below(self.albedo[REFLECTIVITY as int])
    }

    /// The surface sends a transmitted ray: its transparency is above zero.
    pub open spec fn transmits(self) -> bool {
        Scalar::zero().below(self.albedo[TRANSPARENCY as int])
    }

    pub fn is_reflective(&self) -> (r: bool)
        ensures
            r == self.mirrors(),
    {
        let zero = Scalar { bits: 0 };
        zero.lt(&self.albedo[REFLECTIVITY])
    }

    pub fn is_transparent(&self) -> (r: bool)
        ensures
            r == self.transmits(),
    {
        let zero = Scalar { bits: 0 };
        zero.lt(&self.albedo[TRANSPARENCY])
    }
}

} // verus!
