//! How a surface answers a ray: the bounce it hands to the integrator, and
//! the rule by which each kind of material picks one.

use vstd::prelude::*;
use crate::scalar::Scalar;

verus! {

/// The pattern of 1e-8: a direction whose components all stay under it in
/// size counts as zero.
pub const NEAR_ZERO_BITS: u64 = 0x3E45_798E_E230_8C3A;

/// What a scatter asks of the integrator, over the host's colours `C` and
/// rays `R`.
#[derive(Clone, Copy, Debug)]
pub enum Bounce<C, R> {
    /// The path leaves for the sky along the ray.
    Sky(R),
    /// The path ends with the colour.
    Stop(C),
    /// The path goes on along the ray, its light tinted by the colour.
    Bounce(C, R),
}

/// What the host has measured where a ray hits a material, by the kind of
/// the material.
#[derive(Clone, Copy, Debug)]
pub enum Incidence {
    /// A holdout: nothing is measured.
    Holdout,
    /// A diffuse surface: the components of the normal plus a random unit
    /// vector.
    Lambert { x: Scalar, y: Scalar, z: Scalar },
    /// A metal: the fuzzed mirror direction, normalised, dotted with the
    /// normal.
    Metal { outward: Scalar },
    /// A dielectric: the refraction ratio times the sine of the angle of
    /// incidence, Schlick's reflectance at that angle, and a uniform draw
    /// from `[0, 1)`.
    Dielectric { bend: Scalar, reflectance: Scalar, draw: Scalar },
}

/// How a path goes on from a hit.
#[derive(Clone, Copy, Debug, PartialEq, Eq)]
pub enum Scatter {
    /// The path stops with the material's colour.
    Absorb,
    /// It bounces along the normal plus the random vector.
    Diffuse,
    /// It bounces along the normal itself.
    Normal,
    /// It bounces along the fuzzed mirror direction.
    Mirror,
    /// It bounces along the mirror direction.
    Reflect,
    /// It bounces along the refracted direction.
    Refract,
}

impl Scatter {
    /// Whether the path ends here: the integrator gets `Bounce::Stop` for an
    /// absorbed path and `Bounce::Bounce` for every other.
    pub open spec fn spec_stops(self) -> bool {
        self is Absorb
    }

    #[verifier::when_used_as_spec(spec_stops)]
    pub fn stops(self) -> (stop: bool)
        ensures
            stop == self.spec_stops(),
    {
        match self {
            Scatter::Absorb => true,
            _ => false,
        }
    }

    /// Makes the bounce of a material with the colour `color`: a stop with
    /// that colour where the path is absorbed, else a bounce tinted by it
    /// along the ray that `aim` builds for the direction chosen.
    pub fn bounce<C, R, F: FnOnce(Scatter) -> R>(self, color: C, aim: F) -> (bounce: Bounce<C, R>)
        requires
            !self.stops() ==> aim.requires((self,)),
        ensures
            self.stops() ==> bounce == Bounce::<C, R>::Stop(color),
            !self.stops() ==> (bounce matches Bounce::Bounce(tint, ray) && tint == color
                && aim.ensures((self,), ray)),
    {
        if self.stops() {
            Bounce::Stop(color)
        } else {
            Bounce::Bounce(color, aim(self))
        }
    }
}

/// Whether a vector counts as zero: each component is under 1e-8 in size.
pub open spec fn spec_near_zero(x: Scalar, y: Scalar, z: Scalar) -> bool {
    let limit = Scalar { bits: NEAR_ZERO_BITS };
    x.abs().lt(limit) && y.abs().lt(limit) && z.abs().lt(limit)
}

/// Tells whether a vector counts as zero.
#[verifier::when_used_as_spec(spec_near_zero)]
pub fn near_zero(x: Scalar, y: Scalar, z: Scalar) -> (tiny: bool)
    ensures
        tiny == spec_near_zero(x, y, z),
{
    let limit = Scalar::from_bits(NEAR_ZERO_BITS);
    x.abs().lt(limit) && y.abs().lt(limit) && z.abs().lt(limit)
}

/// The scattering rule. A holdout absorbs. A diffuse surface bounces along
/// the normal plus the random vector, or along the normal where that sum
/// counts as zero. A metal bounces along the fuzzed mirror direction where
/// that leaves the surface, and absorbs where it does not. A dielectric
/// reflects where it cannot refract (`bend` above one) or where the
/// reflectance exceeds the draw, and refracts otherwise.
pub open spec fn scattered(incidence: Incidence) -> Scatter {
    match incidence {
        Incidence::Holdout => Scatter::Absorb,
        Incidence::Lambert { x, y, z } => if near_zero(x, y, z) {
            Scatter::Normal
        } else {
            Scatter::Diffuse
        },
        Incidence::Metal { outward } => if outward.gt(Scalar::zero()) {
            Scatter::Mirror
        } else {
            Scatter::Absorb
        },
        Incidence::Dielectric { bend, reflectance, draw } => if bend.gt(Scalar::one())
            || reflectance.gt(draw) {
            Scatter::Reflect
        } else {
            Scatter::Refract
        },
    }
}

/// Decides how a path goes on from a hit.
pub fn scatter(incidence: Incidence) -> (choice: Scatter)
    ensures
        choice == scattered(incidence),
{
    match incidence {
        Incidence::Holdout => Scatter::Absorb,
        Incidence::Lambert { x, y, z } => {
            if near_zero(x, y, z) {
                Scatter::Normal
            } else {
                Scatter::Diffuse
            }
        },
        Incidence::Metal { outward } => {
            if outward.gt(Scalar::zero()) {
                Scatter::Mirror
            } else {
                Scatter::Absorb
            }
        },
        Incidence::Dielectric { bend, reflectance, draw } => {
            if bend.gt(Scalar::one()) || reflectance.gt(draw) {
                Scatter::Reflect
            } else {
                Scatter::Refract
            }
        },
    }
}

/// A diffuse bounce never runs along a zero vector: where the sum of normal
/// and random vector is kept, one of its components is not zero.
pub proof fn lemma_diffuse_direction_is_not_zero(x: Scalar, y: Scalar, z: Scalar)
    requires
        scattered(Incidence::Lambert { x, y, z }) is Diffuse,
    ensures
        x.rank() != 0 || y.rank() != 0 || z.rank() != 0,
{
}

/// Only a holdout, and a metal whose mirror direction points into the
/// surface, end a path: diffuse surfaces and dielectrics always bounce.
pub proof fn lemma_which_materials_stop(incidence: Incidence)
    ensures
        scattered(incidence).stops() <==> incidence is Holdout || (incidence matches Incidence::Metal {
            outward,
        } && !outward.gt(Scalar::zero())),
{
}

/// A dielectric whose refraction ratio is one never reflects for want of a
/// refracted ray: with `bend` the sine of the angle of incidence, which is
/// at most one, it reflects exactly when the reflectance exceeds the draw.
pub proof fn lemma_matched_dielectric(bend: Scalar, reflectance: Scalar, draw: Scalar)
    requires
        bend.le(Scalar::one()),
    ensures
        scattered(Incidence::Dielectric { bend, reflectance, draw }) is Reflect <==> reflectance.gt(
            draw,
        ),
        scattered(Incidence::Dielectric { bend, reflectance, draw }) is Refract <==> !reflectance.gt(
            draw,
        ),
{
}

} // verus!
