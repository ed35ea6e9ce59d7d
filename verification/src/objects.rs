//! Where a ray meets a surface: the hit on a sphere and on a plane, chosen
//! among the candidates that the host has computed, and the march along a
//! ray towards a surface that is given by its distance field.

use vstd::prelude::*;
use crate::scalar::Scalar;

verus! {

/// The most probes one sphere march makes.
pub const MARCH_LIMIT: u32 = 1000;

/// Whether a root may be the hit: it does not lie before `tmin`.
pub open spec fn admissible(root: Scalar, tmin: Scalar) -> bool {
    !root.lt(tmin)
}

/// Whether a parameter lies within `[tmin, tmax]`.
pub open spec fn within(t: Scalar, tmin: Scalar, tmax: Scalar) -> bool {
    tmin.le(t) && t.le(tmax)
}

/// The root that a ray reaches first: `near` where it is admissible and `far`
/// is not, or comes later; else `far` where that is admissible.
pub open spec fn first_root(near: Scalar, far: Scalar, tmin: Scalar) -> Option<Scalar> {
    if admissible(near, tmin) && (!admissible(far, tmin) || near.lt(far)) {
        Some(near)
    } else if admissible(far, tmin) {
        Some(far)
    } else {
        None
    }
}

/// The parameter at which a ray hits a sphere, given the discriminant and the
/// two roots of its quadratic: nothing where the discriminant is negative,
/// else the first root, unless that lies beyond `tmax`.
pub open spec fn sphere_root(
    discriminant: Scalar,
    near: Scalar,
    far: Scalar,
    tmin: Scalar,
    tmax: Scalar,
) -> Option<Scalar> {
    if discriminant.lt(Scalar::zero()) {
        None
    } else {
        match first_root(near, far, tmin) {
            Some(t) => if t.gt(tmax) {
                None
            } else {
                Some(t)
            },
            None => None,
        }
    }
}

/// Chooses the hit of a ray on a sphere among the roots of
/// `a t^2 + 2 b t + c = 0`, where `discriminant` is `b^2 - a c`, `near` is
/// `(-b - sqrt(discriminant)) / a` and `far` is `(-b + sqrt(discriminant)) / a`.
pub fn sphere_hit(
    discriminant: Scalar,
    near: Scalar,
    far: Scalar,
    tmin: Scalar,
    tmax: Scalar,
) -> (hit: Option<Scalar>)
    ensures
        hit == sphere_root(discriminant, near, far, tmin, tmax),
{
    if discriminant.lt(Scalar::zero()) {
        return None;
    }
    let near_low = near.lt(tmin);
    let far_low = far.lt(tmin);
    if near_low && far_low {
        return None;
    }
    let t = if near_low {
        far
    } else if far_low {
        near
    } else if near.lt(far) {
        near
    } else {
        far
    };
    if t.gt(tmax) {
        None
    } else {
        Some(t)
    }
}

/// On numbers, the hit on a sphere is the least root within `[tmin, tmax]`:
/// there is none exactly when the discriminant is negative or neither root
/// lies in the range, and otherwise the hit is a root in the range that no
/// other root in the range precedes.
pub proof fn lemma_sphere_hit_is_least_root_in_range(
    discriminant: Scalar,
    near: Scalar,
    far: Scalar,
    tmin: Scalar,
    tmax: Scalar,
)
    requires
        !discriminant.is_nan(),
        !near.is_nan(),
        !far.is_nan(),
        !tmin.is_nan(),
        !tmax.is_nan(),
    ensures
        sphere_root(discriminant, near, far, tmin, tmax) is None <==> discriminant.lt(
            Scalar::zero(),
        ) || (!within(near, tmin, tmax) && !within(far, tmin, tmax)),
        sphere_root(discriminant, near, far, tmin, tmax) matches Some(t) ==> {
            &&& t == near || t == far
            &&& within(t, tmin, tmax)
            &&& within(near, tmin, tmax) ==> t.le(near)
            &&& within(far, tmin, tmax) ==> t.le(far)
        },
{
}

/// A ray that starts outside a sphere and runs towards it has both roots
/// ahead, the near one first: it hits at the near root, where that is in
/// range.
pub proof fn lemma_outside_hits_near_root(
    discriminant: Scalar,
    near: Scalar,
    far: Scalar,
    tmin: Scalar,
    tmax: Scalar,
)
    requires
        Scalar::zero().le(discriminant),
        tmin.le(near),
        near.le(far),
        near.le(tmax),
    ensures
        sphere_root(discriminant, near, far, tmin, tmax) is Some,
        sphere_root(discriminant, near, far, tmin, tmax)->0.le(near),
        near.le(sphere_root(discriminant, near, far, tmin, tmax)->0),
        near.lt(far) ==> sphere_root(discriminant, near, far, tmin, tmax) == Some(near),
{
}

/// A ray that starts inside a sphere has the near root behind it: it hits at
/// the far root, where that is in range.
pub proof fn lemma_inside_hits_far_root(
    discriminant: Scalar,
    near: Scalar,
    far: Scalar,
    tmin: Scalar,
    tmax: Scalar,
)
    requires
        Scalar::zero().le(discriminant),
        near.lt(tmin),
        within(far, tmin, tmax),
    ensures
        sphere_root(discriminant, near, far, tmin, tmax) == Some(far),
{
}

/// The parameter at which a ray hits a plane: `t`, where the ray runs against
/// the plane by more than the machine epsilon (`denominator` is the normal
/// dotted with the ray's direction) and `t` lies within `[tmin, tmax]`.
pub open spec fn plane_root(denominator: Scalar, t: Scalar, tmin: Scalar, tmax: Scalar) -> Option<
    Scalar,
> {
    if denominator.gt(Scalar::epsilon()) && within(t, tmin, tmax) {
        Some(t)
    } else {
        None
    }
}

/// Accepts or rejects the crossing of a ray with a plane.
pub fn plane_hit(denominator: Scalar, t: Scalar, tmin: Scalar, tmax: Scalar) -> (hit: Option<
    Scalar,
>)
    ensures
        hit == plane_root(denominator, t, tmin, tmax),
{
    if denominator.gt(Scalar::epsilon()) && tmin.le(t) && t.le(tmax) {
        Some(t)
    } else {
        None
    }
}

/// What a sphere march does after a probe of the distance field.
#[derive(Clone, Copy, Debug, PartialEq, Eq)]
pub enum MarchStep {
    /// The surface is reached at the current depth.
    Hit,
    /// The march ends without a hit.
    Miss,
    /// The march goes on, one distance further along the ray.
    Advance,
}

/// The answer to a probe, `probes` probes having gone before: a miss once the
/// cap is used up; a hit where the distance is under the machine epsilon; a
/// miss where the depth has passed `tmax`, or where this probe was the last
/// that the cap allows; else an advance.
pub open spec fn march_step(probes: nat, distance: Scalar, depth: Scalar, tmax: Scalar) -> MarchStep {
    if probes >= MARCH_LIMIT {
        MarchStep::Miss
    } else if distance.lt(Scalar::epsilon()) {
        MarchStep::Hit
    } else if depth.gt(tmax) {
        MarchStep::Miss
    } else if probes + 1 == MARCH_LIMIT {
        MarchStep::Miss
    } else {
        MarchStep::Advance
    }
}

/// The progress of one sphere march: how many probes it has made.
pub struct March {
    probes: u32,
}

impl March {
    #[verifier::type_invariant]
    spec fn within_cap(self) -> bool {
        self.probes <= MARCH_LIMIT
    }

    /// The number of probes made so far.
    pub closed spec fn probes(self) -> nat {
        self.probes as nat
    }

    /// A march that has not probed yet.
    pub fn new() -> (march: March)
        ensures
            march.probes() == 0,
    {
        March { probes: 0 }
    }

    /// Takes the distance to the surface at the current depth and says how
    /// the march goes on. An advance leaves room for another probe, so a
    /// march advances fewer than `MARCH_LIMIT` times.
    pub fn probe(&mut self, distance: Scalar, depth: Scalar, tmax: Scalar) -> (step: MarchStep)
        ensures
            step == march_step(old(self).probes(), distance, depth, tmax),
            final(self).probes() == old(self).probes() + if old(self).probes() < MARCH_LIMIT {
                1nat
            } else {
                0nat
            },
            final(self).probes() <= MARCH_LIMIT,
            step is Advance ==> final(self).probes() < MARCH_LIMIT,
    {
        proof {
            use_type_invariant(&*self);
        }
        if self.probes >= MARCH_LIMIT {
            return MarchStep::Miss;
        }
        self.probes = self.probes + 1;
        if distance.lt(Scalar::epsilon()) {
            MarchStep::Hit
        } else if depth.gt(tmax) {
            MarchStep::Miss
        } else if self.probes == MARCH_LIMIT {
            MarchStep::Miss
        } else {
            MarchStep::Advance
        }
    }
}

/// Whether `hit` is how a march may end that stands at `depth` with `probes`
/// probes behind it, over the host's numbers `N`. The host's `distance`
/// gives the distance from the ray's point at a depth to the surface,
/// `advance` adds a distance to a depth, and `pattern` gives the bit pattern
/// of a number. With the cap used up the march misses. Else the distance at
/// `depth` decides: the march hits at `depth`, misses, or goes on from the
/// depth advanced by the distance, as `march_step` says.
pub open spec fn is_march<N, FD, FA, FB>(
    distance: FD,
    advance: FA,
    pattern: FB,
    tmax: Scalar,
    probes: nat,
    depth: N,
    hit: Option<N>,
) -> bool where FD: Fn(&N) -> N, FA: Fn(N, N) -> N, FB: Fn(&N) -> Scalar
    decreases MARCH_LIMIT - probes,
{
    if probes >= MARCH_LIMIT {
        hit is None
    } else {
        exists|gap: N, gap_bits: Scalar, depth_bits: Scalar|
            distance.ensures((&depth,), gap) && #[trigger] pattern.ensures((&gap,), gap_bits)
                && #[trigger] pattern.ensures((&depth,), depth_bits) && match march_step(
                probes,
                gap_bits,
                depth_bits,
                tmax,
            ) {
                MarchStep::Hit => hit == Some(depth),
                MarchStep::Miss => hit is None,
                MarchStep::Advance => exists|next: N| #[trigger]
                    advance.ensures((depth, gap), next) && is_march(
                        distance,
                        advance,
                        pattern,
                        tmax,
                        probes + 1,
                        next,
                        hit,
                    ),
            }
    }
}

/// A march hits only on the surface: the depth it returns is one at which
/// the host's distance came out under the machine epsilon.
pub proof fn lemma_march_hits_on_the_surface<N, FD, FA, FB>(
    distance: FD,
    advance: FA,
    pattern: FB,
    tmax: Scalar,
    probes: nat,
    depth: N,
    reached: N,
) where FD: Fn(&N) -> N, FA: Fn(N, N) -> N, FB: Fn(&N) -> Scalar
    requires
        is_march(distance, advance, pattern, tmax, probes, depth, Some(reached)),
    ensures
        exists|gap: N, gap_bits: Scalar|
            distance.ensures((&reached,), gap) && #[trigger] pattern.ensures((&gap,), gap_bits)
                && gap_bits.lt(Scalar::epsilon()),
    decreases MARCH_LIMIT - probes,
{
    let (gap, gap_bits, depth_bits) = choose|gap: N, gap_bits: Scalar, depth_bits: Scalar|
        distance.ensures((&depth,), gap) && #[trigger] pattern.ensures((&gap,), gap_bits)
            && #[trigger] pattern.ensures((&depth,), depth_bits) && match march_step(
            probes,
            gap_bits,
            depth_bits,
            tmax,
        ) {
            MarchStep::Hit => Some(reached) == Some(depth),
            MarchStep::Miss => false,
            MarchStep::Advance => exists|next: N| #[trigger]
                advance.ensures((depth, gap), next) && is_march(
                    distance,
                    advance,
                    pattern,
                    tmax,
                    probes + 1,
                    next,
                    Some(reached),
                ),
        };
    if march_step(probes, gap_bits, depth_bits, tmax) is Advance {
        let next = choose|next: N| #[trigger]
            advance.ensures((depth, gap), next) && is_march(
                distance,
                advance,
                pattern,
                tmax,
                probes + 1,
                next,
                Some(reached),
            );
        lemma_march_hits_on_the_surface(distance, advance, pattern, tmax, probes + 1, next, reached);
    }
}

/// Marches along a ray from the depth `start` towards a surface given by its
/// distance field, and returns the depth at which the surface is reached, if
/// it is reached before `tmax` and within `MARCH_LIMIT` probes.
pub fn march<N, FD, FA, FB>(
    start: N,
    tmax: Scalar,
    distance: &FD,
    advance: &FA,
    pattern: &FB,
) -> (hit: Option<N>) where FD: Fn(&N) -> N, FA: Fn(N, N) -> N, FB: Fn(&N) -> Scalar
    requires
        forall|depth: N| #[trigger] distance.requires((&depth,)),
        forall|depth: N, gap: N| #[trigger] advance.requires((depth, gap)),
        forall|number: N| #[trigger] pattern.requires((&number,)),
    ensures
        is_march(*distance, *advance, *pattern, tmax, 0, start, hit),
{
    let mut state = March::new();
    let mut depth = start;
    loop
        invariant
            forall|depth: N| #[trigger] distance.requires((&depth,)),
            forall|depth: N, gap: N| #[trigger] advance.requires((depth, gap)),
            forall|number: N| #[trigger] pattern.requires((&number,)),
            state.probes() <= MARCH_LIMIT,
            forall|end: Option<N>| #[trigger]
                is_march(*distance, *advance, *pattern, tmax, state.probes(), depth, end)
                    ==> is_march(*distance, *advance, *pattern, tmax, 0, start, end),
        decreases MARCH_LIMIT - state.probes(),
    {
        let ghost before = state.probes();
        let gap = distance(&depth);
        let gap_bits = pattern(&gap);
        let depth_bits = pattern(&depth);
        match state.probe(gap_bits, depth_bits, tmax) {
            MarchStep::Hit => {
                assert(is_march(*distance, *advance, *pattern, tmax, before, depth, Some(depth)));
                return Some(depth);
            },
            MarchStep::Miss => {
                assert(is_march(*distance, *advance, *pattern, tmax, before, depth, None));
                return None;
            },
            MarchStep::Advance => {
                let ghost from = depth;
                depth = advance(depth, gap);
                assert forall|end: Option<N>| #[trigger]
                    is_march(
                        *distance,
                        *advance,
                        *pattern,
                        tmax,
                        state.probes(),
                        depth,
                        end,
                    ) implies is_march(*distance, *advance, *pattern, tmax, 0, start, end) by {
                    assert(is_march(*distance, *advance, *pattern, tmax, before, from, end));
                }
            },
        }
    }
}

} // verus!
