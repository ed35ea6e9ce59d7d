//! Hit records: which side of a surface was hit, and which of many hits is
//! the nearest.

use vstd::prelude::*;
use crate::scalar::Scalar;

verus! {

/// What is known of the place where a ray meets a surface, over the host's
/// points `P`, vectors `V` and materials `M`: the point, the unit normal
/// turned to face the ray, the ray parameter, the side that was hit, and the
/// material found there.
#[derive(Clone, Copy, Debug)]
pub struct HitRecord<P, V, M> {
    pub point: P,
    pub normal: V,
    pub t: Scalar,
    pub front_face: bool,
    pub material: M,
}

/// Whether a ray meets a surface from outside: the ray's direction dotted
/// with the outward normal, `facing`, is zero or less.
pub open spec fn faces_front(facing: Scalar) -> bool {
    facing.le(Scalar::zero())
}

/// Tells the side of a surface that a ray hits.
pub fn front_face(facing: Scalar) -> (front: bool)
    ensures
        front == faces_front(facing),
{
    facing.le(Scalar::zero())
}

impl<P, V, M> HitRecord<P, V, M> {
    /// Records a hit. `facing` is the ray's direction dotted with the outward
    /// normal, and `reversed` is the outward normal negated: the record keeps
    /// the outward normal where the ray comes from outside and the reversed
    /// one where it comes from inside, so that its normal faces the ray.
    pub fn from_hit(facing: Scalar, point: P, outward: V, reversed: V, t: Scalar, material: M) -> (record:
        Self)
        ensures
            record.front_face == faces_front(facing),
            record.normal == if faces_front(facing) {
                outward
            } else {
                reversed
            },
            record.point == point,
            record.t == t,
            record.material == material,
    {
        let front = front_face(facing);
        HitRecord {
            point,
            normal: if front {
                outward
            } else {
                reversed
            },
            t,
            front_face: front,
            material,
        }
    }
}

/// Whether the hits can be ranked: there is at most one, or each is a number.
pub open spec fn rankable(hits: Seq<Option<Scalar>>) -> bool {
    forall|i: int, j: int|
        0 <= i < j < hits.len() && hits[i] is Some && hits[j] is Some ==> !(#[trigger] hits[i])->0.is_nan()
            && !(#[trigger] hits[j])->0.is_nan()
}

/// Tests whether the hits can be ranked.
pub fn can_be_ranked(hits: &Vec<Option<Scalar>>) -> (ok: bool)
    ensures
        ok == rankable(hits@),
{
    let mut seen: u8 = 0;
    let mut nan = false;
    let ghost mut first: int = 0;
    let ghost mut second: int = 0;
    let ghost mut odd: int = 0;
    let mut i: usize = 0;
    while i < hits.len()
        invariant
            0 <= i <= hits@.len(),
            seen <= 2,
            seen == 0 ==> forall|j: int| 0 <= j < i ==> (#[trigger] hits@[j]) is None,
            seen >= 1 ==> 0 <= first < i && hits@[first] is Some,
            seen == 1 ==> forall|j: int| 0 <= j < i && j != first ==> (#[trigger] hits@[j]) is None,
            seen == 2 ==> first < second < i && hits@[second] is Some,
            nan ==> 0 <= odd < i && hits@[odd] is Some && hits@[odd]->0.is_nan(),
            !nan ==> forall|j: int|
                0 <= j < i && (#[trigger] hits@[j]) is Some ==> !hits@[j]->0.is_nan(),
        decreases hits@.len() - i,
    {
        match hits[i] {
            None => {},
            Some(t) => {
                if seen == 0 {
                    seen = 1;
                    proof {
                        first = i as int;
                    }
                } else if seen == 1 {
                    seen = 2;
                    proof {
                        second = i as int;
                    }
                }
                if t.is_nan() {
                    nan = true;
                    proof {
                        odd = i as int;
                    }
                }
            },
        }
        i = i + 1;
    }
    seen < 2 || !nan
}

/// Whether `k` is the place of the nearest hit: a hit that comes strictly
/// before each hit listed ahead of it, and no later than any listed after it.
pub open spec fn is_nearest(hits: Seq<Option<Scalar>>, k: int) -> bool {
    &&& 0 <= k < hits.len()
    &&& hits[k] is Some
    &&& forall|i: int| 0 <= i < k && (#[trigger] hits[i]) is Some ==> hits[k]->0.lt(hits[i]->0)
    &&& forall|i: int|
        k < i < hits.len() && (#[trigger] hits[i]) is Some ==> hits[k]->0.le(hits[i]->0)
}

/// Hits that can be ranked have one nearest at most.
pub proof fn lemma_nearest_is_unique(hits: Seq<Option<Scalar>>, j: int, k: int)
    requires
        rankable(hits),
        is_nearest(hits, j),
        is_nearest(hits, k),
    ensures
        j == k,
{
}

/// Finds the nearest among the hits of one ray on the members of a world,
/// listed by their ray parameters in the order of the members; `None` stands
/// for a member that the ray misses. Of several hits at the same parameter
/// the first listed is the nearest.
pub fn nearest(hits: &Vec<Option<Scalar>>) -> (best: Option<usize>)
    requires
        rankable(hits@),
    ensures
        best is None <==> forall|i: int| 0 <= i < hits@.len() ==> (#[trigger] hits@[i]) is None,
        best matches Some(k) ==> is_nearest(hits@, k as int),
{
    let mut best: Option<usize> = None;
    let mut best_t: Scalar = Scalar::zero();
    let mut i: usize = 0;
    while i < hits.len()
        invariant
            0 <= i <= hits@.len(),
            rankable(hits@),
            best is None <==> forall|j: int| 0 <= j < i ==> (#[trigger] hits@[j]) is None,
            best matches Some(k) ==> k < i && is_nearest(hits@.take(i as int), k as int) && hits@[k as int]
                == Some(best_t),
        decreases hits@.len() - i,
    {
        match hits[i] {
            None => {},
            Some(t) => {
                match best {
                    None => {
                        best = Some(i);
                        best_t = t;
                    },
                    Some(k) => {
                        if t.lt(best_t) {
                            best = Some(i);
                            best_t = t;
                        }
                    },
                }
            },
        }
        i = i + 1;
    }
    assert(hits@.take(i as int) == hits@);
    best
}

} // verus!
