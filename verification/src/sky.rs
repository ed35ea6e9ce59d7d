//! The environment that escaping rays see.

use vstd::prelude::*;
use crate::scalar::Scalar;

verus! {

/// The pattern of 0.998: a direction whose cosine to the sun's exceeds it
/// looks into the sun's disk.
pub const SUN_COSINE_BITS: u64 = 0x3FEF_EF9D_B22D_0E56;

/// The sky: a gradient from white at the nadir to light blue at the zenith,
/// with a bright disk around the sun's direction. It has no state.
#[derive(Clone, Copy, Debug)]
pub struct Sky;

impl Default for Sky {
    fn default() -> (sky: Sky)
        ensures
            sky == Sky,
    {
        Sky
    }
}

impl Sky {
    /// Whether a direction looks into the sun's disk, given its cosine to the
    /// sun's direction.
    pub open spec fn spec_sees_sun(&self, cosine: Scalar) -> bool {
        cosine.gt(Scalar { bits: SUN_COSINE_BITS })
    }

    /// Chooses between the two colours of the sky: the sun's where this is
    /// true, the gradient's where it is false.
    #[verifier::when_used_as_spec(spec_sees_sun)]
    pub fn sees_sun(&self, cosine: Scalar) -> (sun: bool)
        ensures
            sun == self.spec_sees_sun(cosine),
    {
        cosine.gt(Scalar::from_bits(SUN_COSINE_BITS))
    }
}

} // verus!
