//! What holds of the ranges of a path, and of the choice among them.
use vstd::prelude::*;

use crate::config::CameraCollisionConfig;
use crate::controller;
use crate::controller::ControllerState;
use crate::lattice::Point;
use crate::ranges;
use crate::ranges::PathProjection;
use crate::ranges::PathRange;
use crate::selection;

verus! {

/// Where a run of unobstructed points ends, it is as long as it can be.
proof fn lemma_run_end_bounds(obstructed: Seq<bool>, s: int)
    requires
        0 <= s <= obstructed.len(),
    ensures
        s <= ranges::run_end(obstructed, s) <= obstructed.len(),
        forall|i: int| s <= i < ranges::run_end(obstructed, s) ==> !obstructed[i],
        ranges::run_end(obstructed, s) < obstructed.len() ==> obstructed[ranges::run_end(
            obstructed,
            s,
        )],
    decreases obstructed.len() - s,
{
    if s < obstructed.len() && !obstructed[s] {
        lemma_run_end_bounds(obstructed, s + 1);
    }
}

proof fn lemma_ranges_before<S>(
    projections: Seq<PathProjection<S>>,
    connected: Seq<bool>,
    line_start: S,
    k: int,
)
    requires
        projections.len() == connected.len(),
        projections.len() <= usize::MAX,
        0 <= k <= projections.len(),
    ensures
        ({
            let flags = ranges::obstructions(projections, connected);
            let found = ranges::ranges_before(projections, connected, line_start, k);
            &&& forall|i: int|
                0 <= i < found.len() ==> {
                    let range = #[trigger] found[i];
                    &&& ranges::is_run(flags, range.0[0] as int, range.0[1] as int)
                    &&& range.0[0] < k
                    &&& range == ranges::range_from(
                        projections,
                        connected,
                        line_start,
                        range.0[0] as int,
                    )
                }
            &&& forall|i: int, j: int|
                0 <= i < j < found.len() ==> (#[trigger] found[i]).0[1] < (
                #[trigger] found[j]).0[0]
            &&& forall|s: int|
                #![trigger ranges::starts_run(flags, s)]
                s < k && ranges::starts_run(flags, s) ==> exists|i: int|
                    0 <= i < found.len() && (#[trigger] found[i]).0[0] == s
        }),
    decreases k,
{
    if k > 0 {
        let flags = ranges::obstructions(projections, connected);
        let before = ranges::ranges_before(projections, connected, line_start, k - 1);
        let found = ranges::ranges_before(projections, connected, line_start, k);
        lemma_ranges_before(projections, connected, line_start, k - 1);
        assert forall|i: int| 0 <= i < before.len() implies found[i] == before[i] by {}
        if ranges::starts_run(flags, k - 1) {
            lemma_run_end_bounds(flags, k - 1);
            assert(ranges::run_end(flags, k - 1) > k - 1) by {
                lemma_run_end_bounds(flags, k);
            }
            assert(found.last() == ranges::range_from(projections, connected, line_start, k - 1));
            assert forall|i: int, j: int| 0 <= i < j < found.len() implies (
            #[trigger] found[i]).0[1] < (#[trigger] found[j]).0[0] by {
                if j == before.len() {
                    let e = before[i].0[1] as int;
                    assert(ranges::is_run(flags, before[i].0[0] as int, e));
                    // The run of an earlier range does not reach over the obstructed point before
                    // this one.
                    assert(flags[k - 2]);
                    assert(e <= k - 2);
                }
            }
        }
        assert forall|s: int|
            #![trigger ranges::starts_run(flags, s)]
            s < k && ranges::starts_run(flags, s) implies exists|i: int|
            0 <= i < found.len() && (#[trigger] found[i]).0[0] == s by {
            if s < k - 1 {
                let i = choose|i: int| 0 <= i < before.len() && (#[trigger] before[i]).0[0] == s;
                assert(found[i].0[0] == s);
            } else {
                assert(found[found.len() - 1].0[0] == s);
            }
        }
    }
}

/// Every range that is found is a longest non-empty range of unobstructed points.
pub proof fn law_ranges_are_longest_unobstructed_runs<S>(
    projections: Seq<PathProjection<S>>,
    connected: Seq<bool>,
    line_start: S,
    i: int,
)
    requires
        projections.len() == connected.len(),
        projections.len() <= usize::MAX,
        0 <= i < ranges::unobstructed_ranges(projections, connected, line_start).len(),
    ensures
        ({
            let range = ranges::unobstructed_ranges(projections, connected, line_start)[i];
            ranges::is_run(
                ranges::obstructions(projections, connected),
                range.0[0] as int,
                range.0[1] as int,
            )
        }),
{
    lemma_ranges_before(projections, connected, line_start, projections.len() as int);
}

/// A range starts at the distance of its first point, or at the start of the eye line if it starts
/// the path. It ends at the distance of the point that obstructs it, or of the last point of the
/// path.
pub proof fn law_ranges_carry_their_distances<S>(
    projections: Seq<PathProjection<S>>,
    connected: Seq<bool>,
    line_start: S,
    i: int,
)
    requires
        projections.len() == connected.len(),
        projections.len() <= usize::MAX,
        0 <= i < ranges::unobstructed_ranges(projections, connected, line_start).len(),
    ensures
        ({
            let range = ranges::unobstructed_ranges(projections, connected, line_start)[i];
            let start = range.0[0] as int;
            let end = range.0[1] as int;
            &&& range.1[0] == if start == 0 {
                line_start
            } else {
                projections[start].distance
            }
            &&& range.1[1] == if end < projections.len() {
                projections[end].distance
            } else {
                projections[end - 1].distance
            }
        }),
{
    lemma_ranges_before(projections, connected, line_start, projections.len() as int);
    let range = ranges::unobstructed_ranges(projections, connected, line_start)[i];
    let flags = ranges::obstructions(projections, connected);
    let start = range.0[0] as int;
    assert(ranges::is_run(flags, start, range.0[1] as int));
    lemma_run_end_bounds(flags, start);
    assert(range == ranges::range_from(projections, connected, line_start, start));
    assert(range.0[1] == ranges::run_end(flags, start));
}

/// The ranges come in the order of the path, and there is an obstructed point between each two.
pub proof fn law_ranges_are_ordered_and_separated<S>(
    projections: Seq<PathProjection<S>>,
    connected: Seq<bool>,
    line_start: S,
    i: int,
    j: int,
)
    requires
        projections.len() == connected.len(),
        projections.len() <= usize::MAX,
        0 <= i < j < ranges::unobstructed_ranges(projections, connected, line_start).len(),
    ensures
        ({
            let found = ranges::unobstructed_ranges(projections, connected, line_start);
            let end = found[i].0[1] as int;
            &&& end < found[j].0[0]
            &&& ranges::obstructions(projections, connected)[end]
        }),
{
    lemma_ranges_before(projections, connected, line_start, projections.len() as int);
    let found = ranges::unobstructed_ranges(projections, connected, line_start);
    let flags = ranges::obstructions(projections, connected);
    assert(ranges::is_run(flags, found[i].0[0] as int, found[i].0[1] as int));
    assert(ranges::is_run(flags, found[j].0[0] as int, found[j].0[1] as int));
}

/// Walking back from an unobstructed point leads to the start of its run.
proof fn lemma_run_start(obstructed: Seq<bool>, i: int) -> (s: int)
    requires
        0 <= i < obstructed.len(),
        !obstructed[i],
    ensures
        0 <= s <= i,
        ranges::starts_run(obstructed, s),
        forall|j: int| s <= j <= i ==> !obstructed[j],
    decreases i,
{
    if i == 0 || obstructed[i - 1] {
        i
    } else {
        lemma_run_start(obstructed, i - 1)
    }
}

/// A point is unobstructed exactly if it lies in one of the ranges.
pub proof fn law_ranges_cover_the_unobstructed_points<S>(
    projections: Seq<PathProjection<S>>,
    connected: Seq<bool>,
    line_start: S,
    i: int,
)
    requires
        projections.len() == connected.len(),
        projections.len() <= usize::MAX,
        0 <= i < projections.len(),
    ensures
        !ranges::obstructions(projections, connected)[i] <==> exists|k: int|
            0 <= k < ranges::unobstructed_ranges(projections, connected, line_start).len() && (
            #[trigger] ranges::unobstructed_ranges(projections, connected, line_start)[k]).0[0] <= i
                < ranges::unobstructed_ranges(projections, connected, line_start)[k].0[1],
{
    let flags = ranges::obstructions(projections, connected);
    let found = ranges::unobstructed_ranges(projections, connected, line_start);
    lemma_ranges_before(projections, connected, line_start, projections.len() as int);
    if !flags[i] {
        let s = lemma_run_start(flags, i);
        let k = choose|k: int| 0 <= k < found.len() && (#[trigger] found[k]).0[0] == s;
        assert(ranges::is_run(flags, found[k].0[0] as int, found[k].0[1] as int));
        assert(found[k].0[0] <= i < found[k].0[1]);
    }
    if exists|k: int|
        0 <= k < found.len() && (#[trigger] found[k]).0[0] <= i < found[k].0[1] {
        let k = choose|k: int|
            0 <= k < found.len() && (#[trigger] found[k]).0[0] <= i < found[k].0[1];
        assert(ranges::is_run(flags, found[k].0[0] as int, found[k].0[1] as int));
    }
}

/// A path without any obstruction is a single range, from the start of the eye line to the last
/// point.
pub proof fn law_clear_path_is_one_range<S>(
    projections: Seq<PathProjection<S>>,
    connected: Seq<bool>,
    line_start: S,
)
    requires
        projections.len() == connected.len(),
        0 < projections.len() <= usize::MAX,
        forall|i: int|
            0 <= i < projections.len() ==> !#[trigger] ranges::is_obstructed(
                projections[i],
                connected[i],
            ),
    ensures
        ranges::unobstructed_ranges(projections, connected, line_start) == seq![
            (
                [0usize, projections.len() as usize],
                [line_start, projections.last().distance],
            ),
        ],
{
    let flags = ranges::obstructions(projections, connected);
    let found = ranges::unobstructed_ranges(projections, connected, line_start);
    lemma_ranges_before(projections, connected, line_start, projections.len() as int);
    assert forall|i: int| 0 <= i < flags.len() implies !flags[i] by {
        assert(!ranges::is_obstructed(projections[i], connected[i]));
    }
    assert(ranges::starts_run(flags, 0));
    if found.len() > 1 {
        law_ranges_are_ordered_and_separated(projections, connected, line_start, 0, 1);
        assert(ranges::is_run(flags, found[0].0[0] as int, found[0].0[1] as int));
        assert(ranges::is_run(flags, found[1].0[0] as int, found[1].0[1] as int));
    }
    assert(found.len() == 1);
    let range = found[0];
    assert(ranges::is_run(flags, range.0[0] as int, range.0[1] as int));
    law_ranges_carry_their_distances(projections, connected, line_start, 0);
    assert(range.0 =~= [0usize, projections.len() as usize]);
    assert(range.1 =~= [line_start, projections.last().distance]);
    assert(found =~= seq![range]);
}

/// A path that is obstructed everywhere has no ranges.
pub proof fn law_obstructed_path_has_no_range<S>(
    projections: Seq<PathProjection<S>>,
    connected: Seq<bool>,
    line_start: S,
)
    requires
        projections.len() == connected.len(),
        projections.len() <= usize::MAX,
        forall|i: int|
            0 <= i < projections.len() ==> #[trigger] ranges::is_obstructed(
                projections[i],
                connected[i],
            ),
    ensures
        ranges::unobstructed_ranges(projections, connected, line_start).len() == 0,
{
    let flags = ranges::obstructions(projections, connected);
    let found = ranges::unobstructed_ranges(projections, connected, line_start);
    if found.len() > 0 {
        law_ranges_are_longest_unobstructed_runs(projections, connected, line_start, 0);
        let s = found[0].0[0] as int;
        assert(!flags[s]);
        assert(ranges::is_obstructed(projections[s], connected[s]));
    }
}

/// The ranges, told by the points of the path alone: a point is unobstructed if it is near the line
/// or connected to its projection's empty voxel. Each range is made of such points, and is bounded by
/// an end of the path or by a point that is not one. The ranges come in order, and every
/// unobstructed point is in one. Each carries the distance of its first point, or of the start of
/// the line if it starts the path, and of the point that ends it, or of the last point.
pub proof fn law_ranges_point_by_point<S>(
    projections: Seq<PathProjection<S>>,
    connected: Seq<bool>,
    line_start: S,
)
    requires
        projections.len() == connected.len(),
        projections.len() <= usize::MAX,
    ensures
        ({
            let found = ranges::unobstructed_ranges(projections, connected, line_start);
            let n = projections.len() as int;
            &&& forall|k: int|
                0 <= k < found.len() ==> {
                    let s = (#[trigger] found[k]).0[0] as int;
                    let e = found[k].0[1] as int;
                    &&& 0 <= s < e <= n
                    &&& s > 0 ==> !projections[s - 1].near_line && !(projections[s
                        - 1].voxel_is_empty && connected[s - 1])
                    &&& e < n ==> !projections[e].near_line && !(projections[e].voxel_is_empty
                        && connected[e])
                    &&& found[k].1[0] == if s == 0 {
                        line_start
                    } else {
                        projections[s].distance
                    }
                    &&& found[k].1[1] == if e < n {
                        projections[e].distance
                    } else {
                        projections[n - 1].distance
                    }
                }
            &&& forall|k: int, i: int|
                0 <= k < found.len() && (#[trigger] found[k]).0[0] <= i < found[k].0[1] ==> (
                #[trigger] projections[i]).near_line || (projections[i].voxel_is_empty
                    && connected[i])
            &&& forall|j: int, k: int|
                0 <= j < k < found.len() ==> (#[trigger] found[j]).0[1] < (
                #[trigger] found[k]).0[0]
            &&& forall|i: int|
                0 <= i < n && ((#[trigger] projections[i]).near_line || (
                projections[i].voxel_is_empty && connected[i])) ==> exists|k: int|
                    0 <= k < found.len() && (#[trigger] found[k]).0[0] <= i < found[k].0[1]
        }),
{
    let found = ranges::unobstructed_ranges(projections, connected, line_start);
    let flags = ranges::obstructions(projections, connected);
    let n = projections.len() as int;
    assert forall|i: int| 0 <= i < n implies (#[trigger] flags[i]) == (!projections[i].near_line
        && !(projections[i].voxel_is_empty && connected[i])) by {}
    assert forall|k: int| 0 <= k < found.len() implies {
        let s = (#[trigger] found[k]).0[0] as int;
        let e = found[k].0[1] as int;
        &&& 0 <= s < e <= n
        &&& s > 0 ==> !projections[s - 1].near_line && !(projections[s - 1].voxel_is_empty
            && connected[s - 1])
        &&& e < n ==> !projections[e].near_line && !(projections[e].voxel_is_empty && connected[e])
        &&& found[k].1[0] == if s == 0 {
            line_start
        } else {
            projections[s].distance
        }
        &&& found[k].1[1] == if e < n {
            projections[e].distance
        } else {
            projections[n - 1].distance
        }
    } by {
        law_ranges_are_longest_unobstructed_runs(projections, connected, line_start, k);
        law_ranges_carry_their_distances(projections, connected, line_start, k);
        assert(ranges::is_run(flags, found[k].0[0] as int, found[k].0[1] as int));
    }
    assert forall|k: int, i: int|
        0 <= k < found.len() && (#[trigger] found[k]).0[0] <= i < found[k].0[1] implies (
    #[trigger] projections[i]).near_line || (projections[i].voxel_is_empty && connected[i]) by {
        law_ranges_are_longest_unobstructed_runs(projections, connected, line_start, k);
        assert(!flags[i]);
    }
    assert forall|j: int, k: int| 0 <= j < k < found.len() implies (#[trigger] found[j]).0[1] < (
    #[trigger] found[k]).0[0] by {
        law_ranges_are_ordered_and_separated(projections, connected, line_start, j, k);
    }
    assert forall|i: int|
        0 <= i < n && ((#[trigger] projections[i]).near_line || (projections[i].voxel_is_empty
            && connected[i])) implies exists|k: int|
        0 <= k < found.len() && (#[trigger] found[k]).0[0] <= i < found[k].0[1] by {
        assert(!flags[i]);
        law_ranges_cover_the_unobstructed_points(projections, connected, line_start, i);
    }
}

/// A point near the line is never obstructed, and one in front of a solid voxel always is. One in
/// front of an empty voxel is obstructed exactly if it is not connected to it.
pub proof fn law_obstruction_case_by_case<S>(projection: PathProjection<S>, connected: bool)
    ensures
        projection.near_line ==> !ranges::is_obstructed(projection, connected),
        !projection.near_line && !projection.voxel_is_empty ==> ranges::is_obstructed(
            projection,
            connected,
        ),
        !projection.near_line && projection.voxel_is_empty ==> (ranges::is_obstructed(
            projection,
            connected,
        ) <==> !connected),
{
}

/// A connection is searched for exactly where it decides whether the point is obstructed, and it is
/// searched from the voxel of the projection to the point.
pub proof fn law_connections_are_searched_where_they_decide<S>(
    p: Point,
    projection: PathProjection<S>,
)
    ensures
        ranges::connection_of(p, projection) is Some <==> ranges::is_obstructed(projection, false)
            != ranges::is_obstructed(projection, true),
        ranges::connection_of(p, projection) matches Some((from, to)) ==> from == projection.voxel
            && to == p,
{
}

/// The ranges that are kept are exactly the long ones, each once and in their order: `places` are
/// their indices among all ranges.
pub proof fn law_kept_ranges_are_the_long_ones<S>(
    all: Seq<PathRange<S>>,
    long: Seq<bool>,
) -> (places: Seq<int>)
    requires
        all.len() == long.len(),
    ensures
        places.len() == ranges::long_ranges(all, long).len(),
        forall|j: int|
            0 <= j < places.len() ==> {
                &&& 0 <= #[trigger] places[j] < all.len()
                &&& long[places[j]]
                &&& ranges::long_ranges(all, long)[j] == all[places[j]]
            },
        forall|i: int, j: int|
            0 <= i < j < places.len() ==> #[trigger] places[i] < #[trigger] places[j],
        forall|k: int| 0 <= k < all.len() && #[trigger] long[k] ==> places.contains(k),
{
    lemma_places(all, long)
}

proof fn lemma_places<S>(all: Seq<PathRange<S>>, long: Seq<bool>) -> (places: Seq<int>)
    requires
        all.len() <= long.len(),
    ensures
        places.len() == ranges::long_ranges(all, long).len(),
        forall|j: int|
            0 <= j < places.len() ==> {
                &&& 0 <= #[trigger] places[j] < all.len()
                &&& long[places[j]]
                &&& ranges::long_ranges(all, long)[j] == all[places[j]]
            },
        forall|i: int, j: int|
            0 <= i < j < places.len() ==> #[trigger] places[i] < #[trigger] places[j],
        forall|k: int| 0 <= k < all.len() && #[trigger] long[k] ==> places.contains(k),
    decreases all.len(),
{
    if all.len() == 0 {
        Seq::empty()
    } else {
        let n = all.len() - 1;
        let before = lemma_places(all.drop_last(), long);
        if long[n] {
            let places = before.push(n);
            assert forall|k: int| 0 <= k < all.len() && #[trigger] long[k] implies places.contains(
                k,
            ) by {
                if k < n {
                    let j = choose|j: int| 0 <= j < before.len() && before[j] == k;
                    assert(places[j] == k);
                } else {
                    assert(places[before.len() as int] == k);
                }
            }
            places
        } else {
            before
        }
    }
}

/// The point selected in a range lies as far before the end as the offset says, and at the start of
/// a range that is no longer than that. An offset of zero selects the last point.
pub proof fn law_selected_point_is_offset_from_the_end(range: [usize; 2], offset: usize)
    requires
        range[0] < range[1],
    ensures
        offset > 0 && range[1] - range[0] > offset ==> ranges::selected_index(range, offset)
            + offset == range[1],
        offset > 0 && range[1] - range[0] <= offset ==> ranges::selected_index(range, offset)
            == range[0],
        offset == 0 ==> ranges::selected_index(range, offset) + 1 == range[1],
{
}

/// One point is selected in each range, `offset` before its end or at its start.
pub proof fn law_one_point_is_selected_per_range<S>(
    path: Seq<Point>,
    kept: Seq<PathRange<S>>,
    offset: usize,
    j: int,
)
    requires
        0 <= j < kept.len(),
        kept[j].0[0] < kept[j].0[1],
        offset > 0,
    ensures
        ({
            let points = ranges::selected_points(path, kept, offset);
            let start = kept[j].0[0];
            let end = kept[j].0[1];
            &&& points.len() == kept.len()
            &&& end - start > offset ==> points[j] == path[end - offset]
            &&& end - start <= offset ==> points[j] == path[start as int]
        }),
{
}

proof fn lemma_kept<S>(all: Seq<PathRange<S>>, long: Seq<bool>, i: int) -> (k: int)
    requires
        all.len() <= long.len(),
        0 <= i < ranges::long_ranges(all, long).len(),
    ensures
        0 <= k < all.len(),
        long[k],
        all[k] == ranges::long_ranges(all, long)[i],
        i == ranges::long_ranges(all.take(k), long).len(),
    decreases all.len(),
{
    let before = ranges::long_ranges(all.drop_last(), long);
    assert(all.drop_last() =~= all.take(all.len() - 1));
    if i < before.len() {
        let k = lemma_kept(all.drop_last(), long, i);
        assert(all.drop_last().take(k) =~= all.take(k));
        k
    } else {
        all.len() - 1
    }
}

proof fn lemma_long_ranges_grow<S>(all: Seq<PathRange<S>>, long: Seq<bool>, k: int)
    requires
        all.len() <= long.len(),
        0 <= k <= all.len(),
    ensures
        ranges::long_ranges(all.take(k), long).is_prefix_of(ranges::long_ranges(all, long)),
    decreases all.len() - k,
{
    if k < all.len() {
        lemma_long_ranges_grow(all, long, k + 1);
        assert(all.take(k + 1).drop_last() =~= all.take(k));
    } else {
        assert(all.take(k) =~= all);
    }
}

/// A range that is kept was marked as long enough.
pub proof fn law_kept_ranges_were_long<S>(
    all: Seq<PathRange<S>>,
    long: Seq<bool>,
    i: int,
) -> (k: int)
    requires
        all.len() == long.len(),
        0 <= i < ranges::long_ranges(all, long).len(),
    ensures
        0 <= k < all.len(),
        long[k],
        all[k] == ranges::long_ranges(all, long)[i],
{
    lemma_kept(all, long, i)
}

/// A range that was marked as long enough is kept, right behind the long ranges before it.
pub proof fn law_long_ranges_are_kept_in_order<S>(
    all: Seq<PathRange<S>>,
    long: Seq<bool>,
    k: int,
) -> (i: int)
    requires
        all.len() == long.len(),
        0 <= k < all.len(),
        long[k],
    ensures
        0 <= i < ranges::long_ranges(all, long).len(),
        ranges::long_ranges(all, long)[i] == all[k],
        i == ranges::long_ranges(all.take(k), long).len(),
{
    lemma_long_ranges_grow(all, long, k + 1);
    assert(all.take(k + 1).drop_last() =~= all.take(k));
    let i = ranges::long_ranges(all.take(k), long).len() as int;
    let with = ranges::long_ranges(all.take(k + 1), long);
    assert(with[i] == all[k]);
    assert(with[i] == ranges::long_ranges(all, long).subrange(0, with.len() as int)[i]);
    i
}

/// The point selected in a run is one of its own, and so it is unobstructed. This holds of every
/// offset.
pub proof fn law_selected_point_is_unobstructed(
    obstructed: Seq<bool>,
    range: [usize; 2],
    offset: usize,
)
    requires
        ranges::is_run(obstructed, range[0] as int, range[1] as int),
    ensures
        range[0] <= ranges::selected_index(range, offset) < range[1],
        !obstructed[ranges::selected_index(range, offset)],
{
}

/// The target is chosen if no point is closer. Else the choice is a point that is closer than the
/// target, no point is closer than it, and each point before it is less close.
pub proof fn law_closest_point_wins(
    target: Point,
    target_closeness: usize,
    points: Seq<Point>,
    closeness: Seq<usize>,
)
    requires
        points.len() == closeness.len(),
    ensures
        ({
            let best = selection::closest(Some((target, target_closeness)), points, closeness);
            ||| best == Some(target) && forall|j: int|
                0 <= j < closeness.len() ==> target_closeness <= #[trigger] closeness[j]
            ||| exists|i: int|
                {
                    &&& #[trigger] selection::is_first_minimum(closeness, i)
                    &&& 0 <= i < closeness.len()
                    &&& best == Some(points[i])
                    &&& closeness[i] < target_closeness
                    &&& forall|j: int|
                        0 <= j < closeness.len() ==> closeness[i] <= #[trigger] closeness[j]
                    &&& forall|j: int| 0 <= j < i ==> closeness[i] < #[trigger] closeness[j]
                }
        }),
{
    if exists|i: int| 0 <= i < closeness.len() && #[trigger] closeness[i] < target_closeness {
        let low = choose|i: int|
            0 <= i < closeness.len() && #[trigger] closeness[i] < target_closeness;
        let first = lemma_first_minimum_exists(closeness, closeness.len() as int);
        assert(closeness.take(closeness.len() as int) =~= closeness);
        assert(selection::is_first_minimum(closeness, first));
        let i = choose|i: int| selection::is_first_minimum(closeness, i);
        assert(selection::is_first_minimum(closeness, i));
        assert(closeness[i] <= closeness[low]);
    }
}

/// Without a target, the first point that is closest is chosen, if any is close at all.
pub proof fn law_closest_point_wins_without_target(
    points: Seq<Point>,
    closeness: Seq<usize>,
    i: int,
)
    requires
        points.len() == closeness.len(),
        0 <= i < closeness.len(),
        forall|j: int| 0 <= j < closeness.len() ==> closeness[i] <= #[trigger] closeness[j],
        forall|j: int| 0 <= j < i ==> closeness[i] < #[trigger] closeness[j],
        closeness[i] < usize::MAX,
    ensures
        selection::closest(None, points, closeness) == Some(points[i]),
{
    assert(selection::is_first_minimum(closeness, i));
    selection::lemma_first_minimum_unique(closeness, i);
}

proof fn lemma_first_minimum_exists(closeness: Seq<usize>, n: int) -> (i: int)
    requires
        0 < n <= closeness.len(),
    ensures
        selection::is_first_minimum(closeness.take(n), i),
    decreases n,
{
    if n == 1 {
        0
    } else {
        let before = closeness.take(n - 1);
        let i = lemma_first_minimum_exists(closeness, n - 1);
        assert(before[i] == closeness[i]);
        assert(forall|j: int| 0 <= j < n - 1 ==> before[j] == closeness.take(n)[j]);
        if closeness[n - 1] < closeness[i] {
            n - 1
        } else {
            i
        }
    }
}

/// Nothing is chosen only if there is no target and no point is close at all.
pub proof fn law_target_is_always_a_choice(
    target: Option<(Point, usize)>,
    points: Seq<Point>,
    closeness: Seq<usize>,
)
    ensures
        selection::closest(target, points, closeness) is None <==> {
            &&& target is None
            &&& forall|j: int| 0 <= j < closeness.len() ==> #[trigger] closeness[j] == usize::MAX
        },
{
}

/// As long as the camera has not been placed, the point of the first range is chosen, and the
/// voxel of the feet, if that is known, where there is no range.
pub proof fn law_first_range_is_chosen_before_any_placement<S>(
    config: CameraCollisionConfig<S>,
    state: ControllerState,
    path: Seq<Point>,
    kept: Seq<PathRange<S>>,
)
    requires
        state.previous_camera_voxel is None,
    ensures
        controller::choice_in_ranges(config, state, path, kept) == controller::cast_from(
            config,
            if kept.len() > 0 {
                Some(
                    path[ranges::selected_index(kept[0].0, config.range_point_selection_offset)],
                )
            } else {
                state.last_empty_feet_point
            },
        ),
{
    let points = ranges::selected_points(path, kept, config.range_point_selection_offset);
    let closeness = Seq::new(points.len(), |i: int| 0usize);
    if kept.len() > 0 {
        assert(closeness[0] < usize::MAX);
        assert(selection::is_first_minimum(closeness, 0));
        selection::lemma_first_minimum_unique(closeness, 0);
    }
}

} // verus!
