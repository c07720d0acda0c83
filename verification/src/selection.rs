//! The choice among the points from which the sphere may be cast.
use vstd::prelude::*;

use crate::lattice::Point;

verus! {

/// `i` is the first index at which `closeness` is smallest.
pub open spec fn is_first_minimum(closeness: Seq<usize>, i: int) -> bool {
    &&& 0 <= i < closeness.len()
    &&& forall|j: int| 0 <= j < closeness.len() ==> closeness[i] <= closeness[j]
    &&& forall|j: int| 0 <= j < i ==> closeness[i] < closeness[j]
}

/// The closeness that a point must undercut to be preferred over the target.
pub open spec fn closeness_to_beat(target: Option<(Point, usize)>) -> usize {
    match target {
        Some((_, closeness)) => closeness,
        None => usize::MAX,
    }
}

/// The point that is closest to the camera's previous voxel. The target stands unless some point is
/// strictly closer, and among points that are equally close the first is taken.
pub open spec fn closest(
    target: Option<(Point, usize)>,
    points: Seq<Point>,
    closeness: Seq<usize>,
) -> Option<Point> {
    if exists|i: int|
        0 <= i < closeness.len() && #[trigger] closeness[i] < closeness_to_beat(target) {
        Some(points[choose|i: int| is_first_minimum(closeness, i)])
    } else {
        match target {
            Some((point, _)) => Some(point),
            None => None,
        }
    }
}

pub(crate) proof fn lemma_first_minimum_unique(closeness: Seq<usize>, i: int)
    requires
        is_first_minimum(closeness, i),
    ensures
        (choose|k: int| is_first_minimum(closeness, k)) == i,
{
    let k = choose|k: int| is_first_minimum(closeness, k);
    assert(is_first_minimum(closeness, k));
    if k < i {
        assert(closeness[i] < closeness[k]);
    } else if i < k {
        assert(closeness[k] < closeness[i]);
    }
}

/// Picks the point that is closest to the camera's previous voxel.
///
/// `target` is the target's voxel and its closeness. `closeness` holds the closeness of each of
/// `points`. A point must be closer than the best one before it.
pub fn closest_point(target: Option<(Point, usize)>, points: &[Point], closeness: &[usize]) -> (best:
    Option<Point>)
    requires
        points@.len() == closeness@.len(),
    ensures
        best == closest(target, points@, closeness@),
        match best {
            Some(point) => {
                ||| {
                    &&& target is Some
                    &&& point == target.unwrap().0
                    &&& forall|j: int|
                        0 <= j < closeness@.len() ==> target.unwrap().1 <= #[trigger] closeness@[j]
                }
                ||| exists|i: int|
                    {
                        &&& 0 <= i < points@.len()
                        &&& point == #[trigger] points@[i]
                        &&& closeness@[i] < usize::MAX
                        &&& target is Some ==> closeness@[i] < target.unwrap().1
                        &&& forall|j: int|
                            0 <= j < closeness@.len() ==> closeness@[i] <= #[trigger] closeness@[j]
                        &&& forall|j: int| 0 <= j < i ==> closeness@[i] < #[trigger] closeness@[j]
                    }
            },
            None => {
                &&& target is None
                &&& forall|j: int|
                    0 <= j < closeness@.len() ==> #[trigger] closeness@[j] == usize::MAX
            },
        },
{
    let mut best_point: Option<Point> = None;
    let mut best_point_closeness: usize = usize::MAX;
    if let Some((target_point, target_closeness)) = target {
        best_point = Some(target_point);
        best_point_closeness = target_closeness;
    }
    let ghost first_best = best_point;
    let ghost mut at: Option<int> = None;
    let mut i: usize = 0;
    while i < points.len()
        invariant
            i <= points@.len(),
            points@.len() == closeness@.len(),
            match at {
                Some(k) => {
                    &&& is_first_minimum(closeness@.take(i as int), k)
                    &&& closeness@[k] < closeness_to_beat(target)
                    &&& best_point == Some(points@[k])
                    &&& best_point_closeness == closeness@[k]
                },
                None => {
                    &&& forall|j: int|
                        0 <= j < i ==> closeness@[j] >= closeness_to_beat(target)
                    &&& best_point == first_best
                    &&& best_point_closeness == closeness_to_beat(target)
                },
            },
        decreases points@.len() - i,
    {
        // Must be closer than the current best point.
        if closeness[i] < best_point_closeness {
            best_point_closeness = closeness[i];
            best_point = Some(points[i]);
            proof {
                at = Some(i as int);
            }
        }
        i = i + 1;
    }
    proof {
        assert(closeness@.take(i as int) == closeness@);
        if let Some(k) = at {
            lemma_first_minimum_unique(closeness@, k);
            assert(best_point == Some(points@[k]));
        }
    }
    best_point
}

} // verus!
