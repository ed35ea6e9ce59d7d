//! Defaults of a scene description.

use vstd::prelude::*;

verus! {

/// Samples per pixel of a scene that names no count.
pub fn default_samples() -> (samples: u32)
    ensures
        samples == 100,
{
    100
}

/// Bounce budget of a scene that names none.
pub fn default_bounces() -> (bounces: u32)
    ensures
        bounces == 100,
{
    100
}

} // verus!
