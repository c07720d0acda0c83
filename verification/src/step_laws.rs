//! What each answer leads to, field by field.
use vstd::prelude::*;

use crate::config::CameraCollisionConfig;
use crate::controller;
use crate::controller::ControllerState;
use crate::frame::BallStop;
use crate::frame::CastStart;
use crate::frame::Event;
use crate::frame::EventView;
use crate::frame::Frame;
use crate::frame::FrameView;
use crate::frame::Placement;
use crate::frame::RadiusChange;
use crate::frame::Zoom;
use crate::lattice::Point;
use crate::laws;
use crate::ranges;
use crate::ranges::PathProjection;
use crate::ranges::PathRange;
use crate::selection;

verus! {

/// An input is answered with a camera movement. The distance to the target is scaled if it gets
/// longer and the camera is not colliding. It is truncated and scaled if it gets shorter. Else it is
/// kept. The feet are to be checked once a voxel of theirs is remembered.
pub proof fn law_input_moves_the_camera<S>(
    config: CameraCollisionConfig<S>,
    state: ControllerState,
    radius: RadiusChange,
)
    ensures
        ({
            let event = EventView::Input { radius };
            let (after, next) = controller::step(config, state, FrameView::Idle, event);
            &&& after == state
            &&& next matches FrameView::MoveCamera { zoom, check_feet, not_worth_searching_dist }
            &&& zoom == Zoom::Scale <==> radius == RadiusChange::Longer && !state.colliding
            &&& zoom == Zoom::TruncateAndScale <==> radius == RadiusChange::Shorter
            &&& zoom == Zoom::Keep <==> radius == RadiusChange::Unchanged || (radius
                == RadiusChange::Longer && state.colliding)
            &&& check_feet <==> state.last_empty_feet_point is Some
            &&& not_worth_searching_dist == config.not_worth_searching_dist
        }),
{
}

/// When the camera has moved, the voxel of the feet is remembered if it is empty or the first. If
/// the desired camera is close to the target, the sphere is cast from the target. Else a path is
/// searched from the remembered voxel to the very voxel of the desired camera.
pub proof fn law_moved_camera_casts_or_searches<S>(
    config: CameraCollisionConfig<S>,
    state: ControllerState,
    frame: FrameView<S>,
    feet_voxel: Point,
    feet_voxel_is_empty: bool,
    target_near_camera: bool,
    camera_voxel: Point,
)
    requires
        frame is MoveCamera,
    ensures
        ({
            let event = EventView::Moved {
                feet_voxel,
                feet_voxel_is_empty,
                target_near_camera,
                camera_voxel,
            };
            let (after, next) = controller::step(config, state, frame, event);
            &&& after.colliding == state.colliding
            &&& after.previous_camera_voxel == state.previous_camera_voxel
            &&& feet_voxel_is_empty || state.last_empty_feet_point is None
                ==> after.last_empty_feet_point == Some(feet_voxel)
            &&& !feet_voxel_is_empty && state.last_empty_feet_point is Some
                ==> after.last_empty_feet_point == state.last_empty_feet_point
            &&& target_near_camera ==> {
                &&& next matches FrameView::CastSphere { cast_start, ball_radius }
                &&& cast_start == CastStart::Target
                &&& ball_radius == config.ball_radius
            }
            &&& !target_near_camera ==> {
                &&& next matches FrameView::FindPath { start, finish, max_iterations }
                &&& after.last_empty_feet_point == Some(start)
                &&& finish == camera_voxel
                &&& max_iterations == config.max_search_iterations
            }
        }),
{
}

/// The path that was found is projected as it is.
pub proof fn law_found_path_is_projected<S>(
    config: CameraCollisionConfig<S>,
    state: ControllerState,
    frame: FrameView<S>,
    path: Seq<Point>,
)
    requires
        frame is FindPath,
    ensures
        ({
            let (after, next) = controller::step(config, state, frame, EventView::PathFound { path });
            &&& after == state
            &&& next matches FrameView::ProjectPath { path: projected, min_obstruction_width }
            &&& projected == path
            &&& min_obstruction_width == config.min_obstruction_width
        }),
{
}

/// For a point that is not near the line and whose projection lies in an empty voxel, a connection
/// is searched from that voxel to that point. For any other point none is.
pub proof fn law_projected_points_are_connected<S>(
    config: CameraCollisionConfig<S>,
    state: ControllerState,
    path: Seq<Point>,
    min_obstruction_width: S,
    projections: Seq<PathProjection<S>>,
    line_start: S,
)
    requires
        path.len() == projections.len(),
    ensures
        ({
            let frame = FrameView::ProjectPath { path, min_obstruction_width };
            let event = EventView::PathProjected { projections, line_start };
            let (after, next) = controller::step(config, state, frame, event);
            &&& after == state
            &&& next matches FrameView::CheckConnections {
                path: checked,
                projections: kept,
                line_start: start,
                searches,
                max_iterations,
            }
            &&& checked == path
            &&& kept == projections
            &&& start == line_start
            &&& max_iterations == config.projection_connection_max_iterations
            &&& searches.len() == path.len()
            &&& forall|i: int|
                0 <= i < path.len() ==> {
                    let far = !projections[i].near_line;
                    let empty = projections[i].voxel_is_empty;
                    &&& far && empty ==> (#[trigger] searches[i]) == Some(
                        (projections[i].voxel, path[i]),
                    )
                    &&& !(far && empty) ==> searches[i] is None
                }
        }),
{
}

/// The ranges that are measured are those of the path, told by its points: a range is made of points
/// that are near the line or connected, it cannot be made longer, and every such point is in one.
pub proof fn law_unobstructed_ranges_are_measured<S>(
    config: CameraCollisionConfig<S>,
    state: ControllerState,
    path: Seq<Point>,
    projections: Seq<PathProjection<S>>,
    line_start: S,
    searches: Seq<Option<(Point, Point)>>,
    max_iterations: usize,
    connected: Seq<bool>,
) -> (found: Seq<PathRange<S>>)
    requires
        path.len() == projections.len(),
        path.len() == connected.len(),
        path.len() <= usize::MAX,
    ensures
        controller::step(
            config,
            state,
            FrameView::CheckConnections { path, projections, line_start, searches, max_iterations },
            EventView::ConnectionsChecked { connected },
        ) == (
            state,
            FrameView::MeasureRanges {
                path,
                ranges: found,
                min_range_length: config.min_range_length,
            },
        ),
        forall|k: int|
            0 <= k < found.len() ==> {
                let s = (#[trigger] found[k]).0[0] as int;
                let e = found[k].0[1] as int;
                &&& 0 <= s < e <= path.len()
                &&& s > 0 ==> !projections[s - 1].near_line && !(projections[s - 1].voxel_is_empty
                    && connected[s - 1])
                &&& e < path.len() ==> !projections[e].near_line && !(projections[e].voxel_is_empty
                    && connected[e])
                &&& found[k].1[0] == if s == 0 {
                    line_start
                } else {
                    projections[s].distance
                }
                &&& found[k].1[1] == if e < path.len() {
                    projections[e].distance
                } else {
                    projections[e - 1].distance
                }
            },
        forall|k: int, i: int|
            0 <= k < found.len() && (#[trigger] found[k]).0[0] <= i < found[k].0[1] ==> (
            #[trigger] projections[i]).near_line || (projections[i].voxel_is_empty && connected[i]),
        forall|j: int, k: int|
            0 <= j < k < found.len() ==> (#[trigger] found[j]).0[1] < (#[trigger] found[k]).0[0],
        forall|i: int|
            0 <= i < path.len() && ((#[trigger] projections[i]).near_line || (
            projections[i].voxel_is_empty && connected[i])) ==> exists|k: int|
                0 <= k < found.len() && (#[trigger] found[k]).0[0] <= i < found[k].0[1],
{
    laws::law_ranges_point_by_point(projections, connected, line_start);
    ranges::unobstructed_ranges(projections, connected, line_start)
}

/// One point is offered for each range that is long enough, in their order: `places` are the
/// indices of those ranges. The point lies the offset before the end of its range, or at the start
/// of a range that is no longer. An offset of zero counts as one. If the camera was placed before, a
/// path is searched from the remembered feet and from each point to the camera's voxel. Else the
/// first point is chosen, or the feet if there is none.
pub proof fn law_long_ranges_offer_their_points<S>(
    config: CameraCollisionConfig<S>,
    state: ControllerState,
    path: Seq<Point>,
    found: Seq<PathRange<S>>,
    min_range_length: S,
    long: Seq<bool>,
) -> (places: Seq<int>)
    requires
        found.len() == long.len(),
    ensures
        forall|j: int|
            0 <= j < places.len() ==> 0 <= #[trigger] places[j] < found.len() && long[places[j]],
        forall|i: int, j: int|
            0 <= i < j < places.len() ==> #[trigger] places[i] < #[trigger] places[j],
        forall|k: int| 0 <= k < found.len() && #[trigger] long[k] ==> places.contains(k),
        ({
            let frame = FrameView::MeasureRanges { path, ranges: found, min_range_length };
            let event = EventView::RangesMeasured { long };
            let (after, next) = controller::step(config, state, frame, event);
            let offset = config.range_point_selection_offset;
            let back = if offset == 0 {
                1
            } else {
                offset as int
            };
            &&& after == state
            &&& state.previous_camera_voxel matches Some(camera) ==> {
                &&& next matches FrameView::FindCameraPaths {
                    target,
                    points,
                    previous_camera,
                    max_iterations,
                }
                &&& target == state.last_empty_feet_point
                &&& previous_camera == camera
                &&& max_iterations == config.max_search_iterations
                &&& points.len() == places.len()
                &&& forall|j: int|
                    0 <= j < places.len() ==> {
                        let start = found[places[j]].0[0] as int;
                        let end = found[places[j]].0[1] as int;
                        &&& end - start > back ==> (#[trigger] points[j]) == path[end - back]
                        &&& end - start <= back ==> points[j] == path[start]
                    }
            }
            &&& state.previous_camera_voxel is None ==> {
                &&& next matches FrameView::CastSphere { cast_start, ball_radius }
                &&& ball_radius == config.ball_radius
                &&& places.len() > 0 ==> {
                    let start = found[places[0]].0[0] as int;
                    let end = found[places[0]].0[1] as int;
                    &&& end - start > back ==> cast_start == CastStart::OnEyeLine(path[end - back])
                    &&& end - start <= back ==> cast_start == CastStart::OnEyeLine(path[start])
                }
                &&& places.len() == 0 ==> match state.last_empty_feet_point {
                    Some(feet) => cast_start == CastStart::OnEyeLine(feet),
                    None => cast_start == CastStart::Target,
                }
            }
        }),
{
    let kept = ranges::long_ranges(found, long);
    let places = laws::law_kept_ranges_are_the_long_ones(found, long);
    if state.previous_camera_voxel is None {
        laws::law_first_range_is_chosen_before_any_placement(config, state, path, kept);
        if places.len() > 0 {
            assert(kept[0] == found[places[0]]);
        }
    } else {
        assert forall|j: int| 0 <= j < places.len() implies kept[j] == found[#[trigger] places[j]] by {
        }
    }
    places
}

/// The sphere is cast from the target's voxel if no point has a path of fewer voxels to where the
/// camera was. Else it is cast from the point whose path has the fewest voxels, and from the first
/// of those that have equally few.
pub proof fn law_shortest_path_is_chosen<S>(
    config: CameraCollisionConfig<S>,
    state: ControllerState,
    target: Point,
    points: Seq<Point>,
    previous_camera: Point,
    max_iterations: usize,
    target_path: Seq<Point>,
    paths: Seq<Seq<Point>>,
)
    requires
        points.len() == paths.len(),
        target_path.len() <= usize::MAX,
        forall|i: int| 0 <= i < paths.len() ==> (#[trigger] paths[i]).len() <= usize::MAX,
    ensures
        ({
            let frame = FrameView::FindCameraPaths {
                target: Some(target),
                points,
                previous_camera,
                max_iterations,
            };
            let event = EventView::CameraPathsFound { target_path: Some(target_path), paths };
            let (after, next) = controller::step(config, state, frame, event);
            &&& after == state
            &&& next matches FrameView::CastSphere {
                cast_start: CastStart::OnEyeLine(voxel),
                ball_radius,
            }
            &&& ball_radius == config.ball_radius
            &&& {
                ||| voxel == target && forall|j: int|
                    0 <= j < paths.len() ==> target_path.len() <= (#[trigger] paths[j]).len()
                ||| exists|i: int|
                    {
                        &&& 0 <= i < paths.len()
                        &&& voxel == #[trigger] points[i]
                        &&& paths[i].len() < target_path.len()
                        &&& forall|j: int|
                            0 <= j < paths.len() ==> paths[i].len() <= (#[trigger] paths[j]).len()
                        &&& forall|j: int|
                            0 <= j < i ==> paths[i].len() < (#[trigger] paths[j]).len()
                    }
            }
        }),
{
    let closeness = controller::closeness_of_all(paths);
    let target_closeness = controller::closeness_of(target_path);
    assert forall|i: int| 0 <= i < paths.len() implies #[trigger] closeness[i] == paths[i].len() by {}
    laws::law_closest_point_wins(target, target_closeness, points, closeness);
    let best = selection::closest(Some((target, target_closeness)), points, closeness);
    if forall|j: int| 0 <= j < closeness.len() ==> target_closeness <= #[trigger] closeness[j] {
        assert(best == Some(target));
        assert forall|j: int| 0 <= j < paths.len() implies target_path.len() <= (
        #[trigger] paths[j]).len() by {
            assert(target_closeness <= closeness[j]);
        }
    } else {
        let i = choose|i: int|
            {
                &&& #[trigger] selection::is_first_minimum(closeness, i)
                &&& 0 <= i < closeness.len()
                &&& best == Some(points[i])
                &&& closeness[i] < target_closeness
                &&& forall|j: int|
                    0 <= j < closeness.len() ==> closeness[i] <= #[trigger] closeness[j]
                &&& forall|j: int| 0 <= j < i ==> closeness[i] < #[trigger] closeness[j]
            };
        assert(best == Some(points[i]));
        assert(closeness[i] == paths[i].len());
        assert forall|j: int| 0 <= j < paths.len() implies paths[i].len() <= (
        #[trigger] paths[j]).len() by {
            assert(closeness[i] <= closeness[j]);
        }
        assert forall|j: int| 0 <= j < i implies paths[i].len() < (#[trigger] paths[j]).len() by {
            assert(closeness[i] < closeness[j]);
        }
    }
}

/// Without a target's voxel, the sphere is cast from the point whose path has the fewest voxels, and
/// from the target itself if there is no point.
pub proof fn law_shortest_path_is_chosen_without_target<S>(
    config: CameraCollisionConfig<S>,
    state: ControllerState,
    points: Seq<Point>,
    previous_camera: Point,
    max_iterations: usize,
    paths: Seq<Seq<Point>>,
)
    requires
        points.len() == paths.len(),
        forall|i: int| 0 <= i < paths.len() ==> (#[trigger] paths[i]).len() < usize::MAX,
    ensures
        ({
            let frame = FrameView::FindCameraPaths {
                target: None,
                points,
                previous_camera,
                max_iterations,
            };
            let event = EventView::CameraPathsFound { target_path: None, paths };
            let (after, next) = controller::step(config, state, frame, event);
            &&& after == state
            &&& next matches FrameView::CastSphere { cast_start, ball_radius }
            &&& ball_radius == config.ball_radius
            &&& paths.len() == 0 ==> cast_start == CastStart::Target
            &&& forall|i: int|
                {
                    &&& 0 <= i < paths.len()
                    &&& forall|j: int|
                        0 <= j < paths.len() ==> paths[i].len() <= (#[trigger] paths[j]).len()
                    &&& forall|j: int| 0 <= j < i ==> paths[i].len() < (#[trigger] paths[j]).len()
                } ==> cast_start == CastStart::OnEyeLine(#[trigger] points[i])
        }),
{
    let closeness = controller::closeness_of_all(paths);
    assert forall|i: int| 0 <= i < paths.len() implies #[trigger] closeness[i] == paths[i].len() by {}
    assert forall|i: int|
        {
            &&& 0 <= i < paths.len()
            &&& forall|j: int|
                0 <= j < paths.len() ==> paths[i].len() <= (#[trigger] paths[j]).len()
            &&& forall|j: int| 0 <= j < i ==> paths[i].len() < (#[trigger] paths[j]).len()
        } implies selection::closest(None, points, closeness) == Some(#[trigger] points[i]) by {
        assert forall|j: int| 0 <= j < closeness.len() implies closeness[i]
            <= #[trigger] closeness[j] by {
            assert(paths[i].len() <= paths[j].len());
        }
        assert forall|j: int| 0 <= j < i implies closeness[i] < #[trigger] closeness[j] by {
            assert(paths[i].len() < paths[j].len());
        }
        laws::law_closest_point_wins_without_target(points, closeness, i);
    }
}

/// The ball stops at the time of its impact, or at the end if it hits nothing. The camera collides
/// exactly if it hits something.
pub proof fn law_ball_moves_to_its_impact<S>(
    config: CameraCollisionConfig<S>,
    state: ControllerState,
    frame: FrameView<S>,
    impact: Option<S>,
)
    requires
        frame is CastSphere,
    ensures
        ({
            let event = EventView::SphereCast { impact };
            let (after, next) = controller::step(config, state, frame, event);
            &&& after.colliding <==> impact is Some
            &&& after.last_empty_feet_point == state.last_empty_feet_point
            &&& after.previous_camera_voxel == state.previous_camera_voxel
            &&& next matches FrameView::MoveBall { stop, camera_lock_threshold }
            &&& camera_lock_threshold == config.camera_lock_threshold
            &&& impact matches Some(time) ==> stop == BallStop::AtImpact(time)
            &&& impact is None ==> stop == BallStop::<S>::AtEnd
        }),
{
}

/// A ball that stopped close to the target locks the camera at the configured radius. Else the
/// camera goes where the ball stopped.
pub proof fn law_camera_is_placed<S>(
    config: CameraCollisionConfig<S>,
    state: ControllerState,
    frame: FrameView<S>,
    near_target: bool,
)
    requires
        frame is MoveBall,
    ensures
        ({
            let event = EventView::BallMoved { near_target };
            let (after, next) = controller::step(config, state, frame, event);
            &&& after == state
            &&& next matches FrameView::PlaceCamera { placement }
            &&& near_target ==> placement == Placement::Locked(config.camera_lock_radius)
            &&& !near_target ==> placement == Placement::<S>::AfterCollisions
        }),
{
}

/// The voxel that the camera was placed in is remembered, and the frame ends.
pub proof fn law_placement_is_remembered<S>(
    config: CameraCollisionConfig<S>,
    state: ControllerState,
    frame: FrameView<S>,
    voxel: Point,
)
    requires
        frame is PlaceCamera,
    ensures
        ({
            let event = EventView::CameraPlaced { voxel };
            let (after, next) = controller::step(config, state, frame, event);
            &&& after.previous_camera_voxel == Some(voxel)
            &&& after.colliding == state.colliding
            &&& after.last_empty_feet_point == state.last_empty_feet_point
            &&& next is Idle
        }),
{
}

/// Every length that a frame hands out is the one of that name in the configuration.
pub proof fn law_lengths_are_handed_out_as_configured<S>(
    config: CameraCollisionConfig<S>,
    state: ControllerState,
    frame: FrameView<S>,
    event: EventView<S>,
)
    requires
        frame.answered_by(event),
    ensures
        match controller::step(config, state, frame, event).1 {
            FrameView::MoveCamera { not_worth_searching_dist, .. } => not_worth_searching_dist
                == config.not_worth_searching_dist,
            FrameView::ProjectPath { min_obstruction_width, .. } => min_obstruction_width
                == config.min_obstruction_width,
            FrameView::MeasureRanges { min_range_length, .. } => min_range_length
                == config.min_range_length,
            FrameView::CastSphere { ball_radius, .. } => ball_radius == config.ball_radius,
            FrameView::MoveBall { camera_lock_threshold, .. } => camera_lock_threshold
                == config.camera_lock_threshold,
            FrameView::PlaceCamera { placement } => placement matches Placement::Locked(radius)
                ==> radius == config.camera_lock_radius,
            _ => true,
        },
{
}

/// A frame takes an answer of its own kind, and no other kind. Where it asks of each item of a list,
/// the answer has one item for each.
pub proof fn law_frames_take_their_own_answers<S>(frame: FrameView<S>, event: EventView<S>)
    ensures
        frame.answered_by(event) ==> {
            &&& frame is Idle <==> event is Input
            &&& frame is MoveCamera <==> event is Moved
            &&& frame is FindPath <==> event is PathFound
            &&& frame is ProjectPath <==> event is PathProjected
            &&& frame is CheckConnections <==> event is ConnectionsChecked
            &&& frame is MeasureRanges <==> event is RangesMeasured
            &&& frame is FindCameraPaths <==> event is CameraPathsFound
            &&& frame is CastSphere <==> event is SphereCast
            &&& frame is MoveBall <==> event is BallMoved
            &&& frame is PlaceCamera <==> event is CameraPlaced
        },
        frame is Idle && event is Input ==> frame.answered_by(event),
        frame is MoveCamera && event is Moved ==> frame.answered_by(event),
        frame is FindPath && event is PathFound ==> frame.answered_by(event),
        frame matches FrameView::ProjectPath { path, .. } ==> (
        event matches EventView::PathProjected { projections, .. } ==> (frame.answered_by(event)
            <==> path.len() == projections.len())),
        frame matches FrameView::CheckConnections { path, .. } ==> (
        event matches EventView::ConnectionsChecked { connected } ==> (frame.answered_by(event)
            <==> path.len() == connected.len())),
        frame matches FrameView::MeasureRanges { ranges, .. } ==> (
        event matches EventView::RangesMeasured { long } ==> (frame.answered_by(event)
            <==> ranges.len() == long.len())),
        frame matches FrameView::FindCameraPaths { target, points, .. } ==> (
        event matches EventView::CameraPathsFound { target_path, paths } ==> (frame.answered_by(
            event,
        ) <==> (target is Some <==> target_path is Some) && points.len() == paths.len())),
        frame is CastSphere && event is SphereCast ==> frame.answered_by(event),
        frame is MoveBall && event is BallMoved ==> frame.answered_by(event),
        frame is PlaceCamera && event is CameraPlaced ==> frame.answered_by(event),
{
}

/// A frame is well-formed unless its path is longer than a list can be, it lacks a projection of a
/// point of its path, or a range of it is empty or reaches over the end of the path.
pub proof fn law_well_formed_frames<S>(frame: FrameView<S>)
    ensures
        frame.wf() <==> match frame {
            FrameView::ProjectPath { path, .. } => path.len() <= usize::MAX,
            FrameView::CheckConnections { path, projections, .. } => path.len() <= usize::MAX
                && projections.len() == path.len(),
            FrameView::MeasureRanges { path, ranges, .. } => forall|i: int|
                0 <= i < ranges.len() ==> (#[trigger] ranges[i]).0[0] < ranges[i].0[1]
                    <= path.len(),
            _ => true,
        },
{
    if let FrameView::MeasureRanges { path, ranges, .. } = frame {
        if frame.wf() {
            assert forall|i: int| 0 <= i < ranges.len() implies (#[trigger] ranges[i]).0[0]
                < ranges[i].0[1] <= path.len() by {
                assert(ranges::lies_on_path(path.len(), ranges[i].0));
            }
        }
    }
}

/// The view of a frame has the frame's own kind and fields.
pub proof fn law_view_of_a_frame<S>(frame: Frame<S>)
    ensures
        frame is Idle <==> frame@ is Idle,
        frame matches Frame::MoveCamera { zoom, check_feet, not_worth_searching_dist } ==> (
        frame@ matches FrameView::MoveCamera {
            zoom: z,
            check_feet: c,
            not_worth_searching_dist: d,
        } && z == zoom && c == check_feet && d == not_worth_searching_dist),
        frame matches Frame::FindPath { start, finish, max_iterations } ==> (
        frame@ matches FrameView::FindPath { start: s, finish: f, max_iterations: m } && s == start
            && f == finish && m == max_iterations),
        frame matches Frame::ProjectPath { path, min_obstruction_width } ==> (
        frame@ matches FrameView::ProjectPath { path: p, min_obstruction_width: w } && p == path@
            && w == min_obstruction_width),
        frame matches Frame::CheckConnections {
            path,
            projections,
            line_start,
            searches,
            max_iterations,
        } ==> (frame@ matches FrameView::CheckConnections {
            path: p,
            projections: q,
            line_start: l,
            searches: s,
            max_iterations: m,
        } && p == path@ && q == projections@ && l == line_start && s == searches@ && m
            == max_iterations),
        frame matches Frame::MeasureRanges { path, ranges, min_range_length } ==> (
        frame@ matches FrameView::MeasureRanges { path: p, ranges: r, min_range_length: m } && p
            == path@ && r == ranges@ && m == min_range_length),
        frame matches Frame::FindCameraPaths { target, points, previous_camera, max_iterations }
            ==> (frame@ matches FrameView::FindCameraPaths {
            target: t,
            points: p,
            previous_camera: c,
            max_iterations: m,
        } && t == target && p == points@ && c == previous_camera && m == max_iterations),
        frame matches Frame::CastSphere { cast_start, ball_radius } ==> (
        frame@ matches FrameView::CastSphere { cast_start: c, ball_radius: b } && c == cast_start
            && b == ball_radius),
        frame matches Frame::MoveBall { stop, camera_lock_threshold } ==> (
        frame@ matches FrameView::MoveBall { stop: s, camera_lock_threshold: t } && s == stop && t
            == camera_lock_threshold),
        frame matches Frame::PlaceCamera { placement } ==> (frame@ matches FrameView::PlaceCamera {
            placement: p,
        } && p == placement),
{
}

/// The view of an event has the event's own kind and fields.
pub proof fn law_view_of_an_event<S>(event: Event<S>)
    ensures
        event matches Event::Input { radius } ==> (event@ matches EventView::Input { radius: r }
            && r == radius),
        event matches Event::Moved {
            feet_voxel,
            feet_voxel_is_empty,
            target_near_camera,
            camera_voxel,
        } ==> (event@ matches EventView::Moved {
            feet_voxel: f,
            feet_voxel_is_empty: e,
            target_near_camera: n,
            camera_voxel: c,
        } && f == feet_voxel && e == feet_voxel_is_empty && n == target_near_camera && c
            == camera_voxel),
        event matches Event::PathFound { path } ==> (event@ matches EventView::PathFound { path: p }
            && p == path@),
        event matches Event::PathProjected { projections, line_start } ==> (
        event@ matches EventView::PathProjected { projections: p, line_start: l } && p
            == projections@ && l == line_start),
        event matches Event::ConnectionsChecked { connected } ==> (
        event@ matches EventView::ConnectionsChecked { connected: c } && c == connected@),
        event matches Event::RangesMeasured { long } ==> (
        event@ matches EventView::RangesMeasured { long: l } && l == long@),
        event matches Event::CameraPathsFound { target_path, paths } ==> (
        event@ matches EventView::CameraPathsFound { target_path: t, paths: p } && (t is Some
            <==> target_path is Some) && (target_path is Some ==> t.unwrap()
            == target_path.unwrap()@) && p.len() == paths@.len() && forall|i: int|
            0 <= i < paths@.len() ==> #[trigger] p[i] == paths@[i]@),
        event matches Event::SphereCast { impact } ==> (event@ matches EventView::SphereCast {
            impact: i,
        } && i == impact),
        event matches Event::BallMoved { near_target } ==> (event@ matches EventView::BallMoved {
            near_target: n,
        } && n == near_target),
        event matches Event::CameraPlaced { voxel } ==> (event@ matches EventView::CameraPlaced {
            voxel: v,
        } && v == voxel),
{
}

} // verus!
