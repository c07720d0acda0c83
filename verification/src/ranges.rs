//! Stretches of a search path from which the eye line can be reached.
//!
//! A search path leads from the camera target towards the camera. Each of its points is projected
//! onto the eye line, and a point is obstructed when it strays from the line and its projection is
//! cut off from it. The sphere that stands for the camera is cast from a point of an unobstructed
//! range.
use vstd::prelude::*;

use crate::lattice::Point;

verus! {

/// What is known of a path point's projection onto the eye line.
#[derive(Debug, PartialEq)]
pub struct PathProjection<S> {
    /// The point deviates from the eye line by less than the smallest significant obstruction.
    pub near_line: bool,
    /// The voxel that contains the projection.
    pub voxel: Point,
    /// That voxel is empty. This is not looked at for a point near the line.
    pub voxel_is_empty: bool,
    /// The distance from the start of the eye line to the projection.
    pub distance: S,
}

/// A range `[start, end)` of path indices, and the distances along the eye line at which it starts
/// and ends.
pub type PathRange<S> = ([usize; 2], [S; 2]);

/// A point is obstructed when it strays too far from the eye line and the voxel of its projection
/// is not connected to it through empty space.
pub open spec fn is_obstructed<S>(projection: PathProjection<S>, connected: bool) -> bool {
    !projection.near_line && !(projection.voxel_is_empty && connected)
}

/// The path search that tells whether the projection of `p` is connected to `p`. None is called
/// for when `p` is near the line or its projection lies in a solid voxel.
pub open spec fn connection_of<S>(p: Point, projection: PathProjection<S>) -> Option<(
    Point,
    Point,
)> {
    if !projection.near_line && projection.voxel_is_empty {
        Some((projection.voxel, p))
    } else {
        None
    }
}

/// For each path point, whether it is obstructed.
pub open spec fn obstructions<S>(
    projections: Seq<PathProjection<S>>,
    connected: Seq<bool>,
) -> Seq<bool> {
    Seq::new(projections.len(), |i: int| is_obstructed(projections[i], connected[i]))
}

/// `[s, e)` is a longest non-empty range of unobstructed points.
pub open spec fn is_run(obstructed: Seq<bool>, s: int, e: int) -> bool {
    &&& 0 <= s < e <= obstructed.len()
    &&& forall|i: int| s <= i < e ==> !obstructed[i]
    &&& s == 0 || obstructed[s - 1]
    &&& e == obstructed.len() || obstructed[e]
}

/// A longest range of unobstructed points starts at `s`.
pub open spec fn starts_run(obstructed: Seq<bool>, s: int) -> bool {
    &&& 0 <= s < obstructed.len()
    &&& !obstructed[s]
    &&& s == 0 || obstructed[s - 1]
}

/// The first obstructed index that is not before `s`, or the length of the path.
pub open spec fn run_end(obstructed: Seq<bool>, s: int) -> int
    decreases obstructed.len() - s,
{
    if 0 <= s < obstructed.len() && !obstructed[s] {
        run_end(obstructed, s + 1)
    } else {
        s
    }
}

/// The range that starts at `s`. The first point of the path counts as lying at the start of the
/// eye line. A range ends at the distance of the point that obstructs it, or of the last point.
pub open spec fn range_from<S>(
    projections: Seq<PathProjection<S>>,
    connected: Seq<bool>,
    line_start: S,
    s: int,
) -> PathRange<S> {
    let e = run_end(obstructions(projections, connected), s);
    let start_dist = if s == 0 {
        line_start
    } else {
        projections[s].distance
    };
    let end_dist = if e < projections.len() {
        projections[e].distance
    } else {
        projections.last().distance
    };
    ([s as usize, e as usize], [start_dist, end_dist])
}

/// The ranges that start before the index `k`, in the order of the path.
pub open spec fn ranges_before<S>(
    projections: Seq<PathProjection<S>>,
    connected: Seq<bool>,
    line_start: S,
    k: int,
) -> Seq<PathRange<S>>
    decreases k,
{
    if k <= 0 {
        Seq::empty()
    } else {
        let before = ranges_before(projections, connected, line_start, k - 1);
        if starts_run(obstructions(projections, connected), k - 1) {
            before.push(range_from(projections, connected, line_start, k - 1))
        } else {
            before
        }
    }
}

/// All ranges of contiguous unobstructed points, in the order of the path.
pub open spec fn unobstructed_ranges<S>(
    projections: Seq<PathProjection<S>>,
    connected: Seq<bool>,
    line_start: S,
) -> Seq<PathRange<S>> {
    ranges_before(projections, connected, line_start, projections.len() as int)
}

/// The ranges that are marked as long enough, in their order.
pub open spec fn long_ranges<S>(ranges: Seq<PathRange<S>>, long: Seq<bool>) -> Seq<PathRange<S>>
    decreases ranges.len(),
{
    if ranges.len() == 0 {
        Seq::empty()
    } else {
        let before = long_ranges(ranges.drop_last(), long);
        if long[ranges.len() - 1] {
            before.push(ranges.last())
        } else {
            before
        }
    }
}

/// The range is a non-empty one of a path of this length.
pub open spec fn lies_on_path(path_len: nat, range: [usize; 2]) -> bool {
    range[0] < range[1] <= path_len
}

/// The path index from which the sphere is cast inside a range: `offset` before the end, or the
/// start where the range is no longer than `offset`. The end is not in the range, so the last point
/// is the closest to it that can be selected, also with an offset of zero.
pub open spec fn selected_index(range: [usize; 2], offset: usize) -> int {
    let back = if offset == 0 {
        1
    } else {
        offset as int
    };
    if range[1] - range[0] > back {
        range[1] - back
    } else {
        range[0] as int
    }
}

/// For each range, the path point that is selected in it.
pub open spec fn selected_points<S>(
    path: Seq<Point>,
    ranges: Seq<PathRange<S>>,
    offset: usize,
) -> Seq<Point> {
    Seq::new(ranges.len(), |i: int| path[selected_index(ranges[i].0, offset)])
}

proof fn lemma_run_end(obstructed: Seq<bool>, s: int, e: int)
    requires
        0 <= s <= e <= obstructed.len(),
        forall|i: int| s <= i < e ==> !obstructed[i],
        e == obstructed.len() || obstructed[e],
    ensures
        run_end(obstructed, s) == e,
    decreases e - s,
{
    if s < e {
        lemma_run_end(obstructed, s + 1, e);
    }
}

proof fn lemma_no_start_between<S>(
    projections: Seq<PathProjection<S>>,
    connected: Seq<bool>,
    line_start: S,
    a: int,
    b: int,
)
    requires
        0 <= a <= b,
        forall|i: int| a <= i < b ==> !starts_run(obstructions(projections, connected), i),
    ensures
        ranges_before(projections, connected, line_start, a) == ranges_before(
            projections,
            connected,
            line_start,
            b,
        ),
    decreases b - a,
{
    if a < b {
        lemma_no_start_between(projections, connected, line_start, a, b - 1);
    }
}

/// Closing the run that starts at `s` before the index `e` adds its range to those that start
/// before `s`, and no other starts up to `e`.
proof fn lemma_close_run<S>(
    projections: Seq<PathProjection<S>>,
    connected: Seq<bool>,
    line_start: S,
    s: int,
    e: int,
)
    requires
        projections.len() == connected.len(),
        is_run(obstructions(projections, connected), s, e),
    ensures
        run_end(obstructions(projections, connected), s) == e,
        ranges_before(projections, connected, line_start, e) == ranges_before(
            projections,
            connected,
            line_start,
            s,
        ).push(range_from(projections, connected, line_start, s)),
{
    let flags = obstructions(projections, connected);
    lemma_run_end(flags, s, e);
    assert(starts_run(flags, s));
    lemma_no_start_between(projections, connected, line_start, s + 1, e);
}

/// Decides whether the projection of `p` onto the eye line has to be connected to `p`, and between
/// which voxels a path is then to be searched.
pub fn connection_search<S: Copy>(p: &Point, projection: &PathProjection<S>) -> (search: Option<
    (Point, Point),
>)
    ensures
        search == connection_of(*p, *projection),
        !projection.near_line && projection.voxel_is_empty ==> search == Some(
            (projection.voxel, *p),
        ),
        projection.near_line || !projection.voxel_is_empty ==> search is None,
{
    if projection.near_line {
        return None;
    }
    if projection.voxel_is_empty {
        // The projection must still be path-connected to empty space.
        Some((projection.voxel, *p))
    } else {
        None
    }
}

/// Figures out if a point is obstructed, which is the case if it strays too far from the eye line
/// and the voxel of its projection on the line is not connected to it.
///
/// `connected` is the outcome of the search that `connection_search` calls for; it is not looked at
/// where none is called for.
pub fn point_is_obstructed<S: Copy>(projection: &PathProjection<S>, connected: bool) -> (obstructed:
    bool)
    ensures
        obstructed == is_obstructed(*projection, connected),
        projection.near_line ==> !obstructed,
        !projection.near_line && !projection.voxel_is_empty ==> obstructed,
        !projection.near_line && projection.voxel_is_empty ==> obstructed == !connected,
{
    if projection.near_line {
        return false;
    }
    if projection.voxel_is_empty {
        return !connected;
    }
    true
}

/// For each path point, the connection search that it calls for.
pub fn connection_searches<S: Copy>(path: &[Point], projections: &[PathProjection<S>]) -> (searches:
    Vec<Option<(Point, Point)>>)
    requires
        path@.len() == projections@.len(),
    ensures
        searches@ == Seq::new(path@.len(), |i: int| connection_of(path@[i], projections@[i])),
        forall|i: int|
            0 <= i < path@.len() ==> #[trigger] searches@[i] == if !projections@[i].near_line
                && projections@[i].voxel_is_empty {
                Some((projections@[i].voxel, path@[i]))
            } else {
                None
            },
{
    let mut searches: Vec<Option<(Point, Point)>> = Vec::new();
    let mut i: usize = 0;
    while i < path.len()
        invariant
            i <= path@.len(),
            path@.len() == projections@.len(),
            searches@ == Seq::new(i as nat, |j: int| connection_of(path@[j], projections@[j])),
        decreases path@.len() - i,
    {
        searches.push(connection_search(&path[i], &projections[i]));
        i = i + 1;
    }
    searches
}

/// Finds all contiguous ranges of points that are not obstructed. The ranges are open-ended, i.e.
/// not including the end: `[start, end)`.
///
/// `connected` holds, for each point, the outcome of its connection search.
pub fn find_unobstructed_ranges<S: Copy>(
    projections: &[PathProjection<S>],
    connected: &[bool],
    line_start: S,
) -> (ranges: Vec<PathRange<S>>)
    requires
        projections@.len() == connected@.len(),
    ensures
        ranges@ == unobstructed_ranges(projections@, connected@, line_start),
{
    let ghost flags = obstructions(projections@, connected@);
    let mut ranges: Vec<PathRange<S>> = Vec::new();
    let mut current_range_start: Option<(usize, S)> = Some((0, line_start));
    let n: usize = projections.len();
    let mut i: usize = 0;
    while i < n
        invariant
            i <= n,
            n == projections@.len(),
            n == connected@.len(),
            flags == obstructions(projections@, connected@),
            match current_range_start {
                Some((s, dist)) => {
                    &&& s <= i
                    &&& s == 0 || flags[s - 1]
                    &&& forall|j: int| s <= j < i ==> !flags[j]
                    &&& dist == if s == 0 {
                        line_start
                    } else {
                        projections@[s as int].distance
                    }
                    &&& ranges@ == ranges_before(projections@, connected@, line_start, s as int)
                },
                None => {
                    &&& 0 < i
                    &&& flags[i - 1]
                    &&& ranges@ == ranges_before(projections@, connected@, line_start, i as int)
                },
            },
        decreases n - i,
    {
        if point_is_obstructed(&projections[i], connected[i]) {
            if let Some((start, start_dist)) = current_range_start {
                if i > start {
                    proof {
                        lemma_close_run(
                            projections@,
                            connected@,
                            line_start,
                            start as int,
                            i as int,
                        );
                    }
                    ranges.push(([start, i], [start_dist, projections[i].distance]));
                }
                current_range_start = None;
            }
        } else if current_range_start.is_none() {
            // We're no longer obstructed, so start a new range.
            current_range_start = Some((i, projections[i].distance));
        }
        i = i + 1;
    }

    // Finish off the last range.
    if n > 0 {
        if let Some((start, start_dist)) = current_range_start {
            if n > start {
                proof {
                    lemma_close_run(projections@, connected@, line_start, start as int, n as int);
                }
                ranges.push(([start, n], [start_dist, projections[n - 1].distance]));
            }
        }
    }
    ranges
}

/// Keeps the ranges that are marked as long enough to give the sphere room to move.
pub fn keep_long_ranges<S: Copy>(ranges: &[PathRange<S>], long: &[bool]) -> (kept: Vec<
    PathRange<S>,
>)
    requires
        ranges@.len() == long@.len(),
    ensures
        kept@ == long_ranges(ranges@, long@),
{
    let mut kept: Vec<PathRange<S>> = Vec::new();
    let mut i: usize = 0;
    while i < ranges.len()
        invariant
            i <= ranges@.len(),
            ranges@.len() == long@.len(),
            kept@ == long_ranges(ranges@.take(i as int), long@),
        decreases ranges@.len() - i,
    {
        assert(ranges@.take(i + 1).drop_last() == ranges@.take(i as int));
        if long[i] {
            kept.push(ranges[i]);
        }
        i = i + 1;
    }
    assert(ranges@.take(i as int) == ranges@);
    kept
}

/// Chooses the point in the range that has the best chance of casting the sphere farthest, i.e. a
/// point that's close to the end of the range, but not too close.
pub fn find_start_of_sphere_cast_in_range(
    path: &[Point],
    path_range: &[usize; 2],
    selection_offset: usize,
) -> (point: Point)
    requires
        lies_on_path(path@.len(), *path_range),
    ensures
        point == path@[selected_index(*path_range, selection_offset)],
        path_range[0] <= selected_index(*path_range, selection_offset) < path_range[1],
        selection_offset > 0 && path_range[1] - path_range[0] > selection_offset ==> point
            == path@[path_range[1] - selection_offset],
        selection_offset > 0 && path_range[1] - path_range[0] <= selection_offset ==> point
            == path@[path_range[0] as int],
        selection_offset == 0 ==> point == path@[path_range[1] - 1],
{
    // The range does not include its end.
    let back: usize = if selection_offset == 0 {
        1
    } else {
        selection_offset
    };
    let chosen_index: usize = if path_range[1] - path_range[0] > back {
        path_range[1] - back
    } else {
        path_range[0]
    };
    path[chosen_index]
}

/// Chooses a point in each of the ranges.
pub fn find_starts_of_sphere_cast<S: Copy>(
    path: &[Point],
    ranges: &[PathRange<S>],
    selection_offset: usize,
) -> (points: Vec<Point>)
    requires
        forall|i: int|
            0 <= i < ranges@.len() ==> lies_on_path(path@.len(), #[trigger] ranges@[i].0),
    ensures
        points@ == selected_points(path@, ranges@, selection_offset),
{
    let mut points: Vec<Point> = Vec::new();
    let mut i: usize = 0;
    while i < ranges.len()
        invariant
            i <= ranges@.len(),
            forall|j: int|
                0 <= j < ranges@.len() ==> lies_on_path(path@.len(), #[trigger] ranges@[j].0),
            points@ == selected_points(path@, ranges@.take(i as int), selection_offset),
        decreases ranges@.len() - i,
    {
        points.push(find_start_of_sphere_cast_in_range(path, &ranges[i].0, selection_offset));
        i = i + 1;
        assert(points@ =~= selected_points(path@, ranges@.take(i as int), selection_offset));
    }
    assert(ranges@.take(i as int) == ranges@);
    points
}

} // verus!
