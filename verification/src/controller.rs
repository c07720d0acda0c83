//! The controller that takes a frame of camera movement from input to placement.
use vstd::prelude::*;

use crate::config::CameraCollisionConfig;
use crate::frame::BallStop;
use crate::frame::CastStart;
use crate::frame::Event;
use crate::frame::EventView;
use crate::frame::Frame;
use crate::frame::FrameView;
use crate::frame::Placement;
use crate::frame::RadiusChange;
use crate::frame::Zoom;
use crate::lattice::Point;
use crate::laws;
use crate::ranges;
use crate::ranges::PathRange;
use crate::selection;

verus! {

/// What the controller remembers from one frame to the next.
pub struct ControllerState {
    /// The last sphere cast hit something.
    pub colliding: bool,
    /// The last voxel of the feet that was empty, or the first one.
    pub last_empty_feet_point: Option<Point>,
    /// The voxel that the camera was placed in last.
    pub previous_camera_voxel: Option<Point>,
}

/// Resolves collisions to prevent occluding the target.
pub struct CollidingController {
    colliding: bool,
    last_empty_feet_point: Option<Point>,
    previous_camera_voxel: Option<Point>,
}

impl View for CollidingController {
    type V = ControllerState;

    closed spec fn view(&self) -> ControllerState {
        ControllerState {
            colliding: self.colliding,
            last_empty_feet_point: self.last_empty_feet_point,
            previous_camera_voxel: self.previous_camera_voxel,
        }
    }
}

/// The change of the desired distance. A colliding camera is not moved away from the target. When
/// the distance gets shorter, the desired distance may be longer than the actual one because of a
/// collision, so it is truncated and the camera moves at once.
pub open spec fn zoom_for(colliding: bool, radius: RadiusChange) -> Zoom {
    match radius {
        RadiusChange::Longer => if colliding {
            Zoom::Keep
        } else {
            Zoom::Scale
        },
        RadiusChange::Shorter => Zoom::TruncateAndScale,
        RadiusChange::Unchanged => Zoom::Keep,
    }
}

/// The voxel to search from, once the feet are in `new_feet`.
pub open spec fn feet_point_after(
    last: Option<Point>,
    new_feet: Point,
    new_feet_is_empty: bool,
) -> Option<Point> {
    if last is None || new_feet_is_empty {
        Some(new_feet)
    } else {
        last
    }
}

/// The voxel to search from, once the feet were in all of these, one after the other.
pub open spec fn feet_point_after_all(
    last: Option<Point>,
    feet: Seq<Point>,
    is_empty: spec_fn(Point) -> bool,
) -> Option<Point>
    decreases feet.len(),
{
    if feet.len() == 0 {
        last
    } else {
        feet_point_after(
            feet_point_after_all(last, feet.drop_last(), is_empty),
            feet.last(),
            is_empty(feet.last()),
        )
    }
}

/// The sphere is cast from the projection of the chosen voxel, or from the target.
pub open spec fn cast_from<S>(
    config: CameraCollisionConfig<S>,
    chosen: Option<Point>,
) -> FrameView<S> {
    FrameView::CastSphere {
        cast_start: match chosen {
            Some(point) => CastStart::OnEyeLine(point),
            None => CastStart::Target,
        },
        ball_radius: config.ball_radius,
    }
}

/// The closeness of a point, by the path from it to the camera's previous voxel.
pub open spec fn closeness_of(path: Seq<Point>) -> usize {
    path.len() as usize
}

/// The closeness of each of several points.
pub open spec fn closeness_of_all(paths: Seq<Seq<Point>>) -> Seq<usize> {
    Seq::new(paths.len(), |i: int| closeness_of(paths[i]))
}

/// The target's voxel with its closeness.
pub open spec fn target_with(target: Option<Point>, closeness: Option<usize>) -> Option<
    (Point, usize),
> {
    match (target, closeness) {
        (Some(point), Some(closeness)) => Some((point, closeness)),
        _ => None,
    }
}

/// The choice among the ranges. Without a previous voxel of the camera, every range is as close as
/// can be, and the target's voxel as far as can be.
pub open spec fn choice_in_ranges<S>(
    config: CameraCollisionConfig<S>,
    state: ControllerState,
    path: Seq<Point>,
    kept: Seq<PathRange<S>>,
) -> FrameView<S> {
    let points = ranges::selected_points(path, kept, config.range_point_selection_offset);
    match state.previous_camera_voxel {
        Some(previous_camera) => FrameView::FindCameraPaths {
            target: state.last_empty_feet_point,
            points,
            previous_camera,
            max_iterations: config.max_search_iterations,
        },
        None => cast_from(
            config,
            selection::closest(
                target_with(state.last_empty_feet_point, Some(usize::MAX)),
                points,
                Seq::new(points.len(), |i: int| 0usize),
            ),
        ),
    }
}

/// What the search for the start of the sphere cast waits for next.
pub open spec fn search_step<S>(
    config: CameraCollisionConfig<S>,
    state: ControllerState,
    frame: FrameView<S>,
    event: EventView<S>,
) -> FrameView<S> {
    match (frame, event) {
        (
            FrameView::MoveCamera { .. },
            EventView::Moved { target_near_camera, camera_voxel, .. },
        ) => if target_near_camera {
            cast_from(config, None)
        } else {
            FrameView::FindPath {
                start: state.last_empty_feet_point.unwrap(),
                finish: camera_voxel,
                max_iterations: config.max_search_iterations,
            }
        },
        (FrameView::FindPath { .. }, EventView::PathFound { path }) => FrameView::ProjectPath {
            path,
            min_obstruction_width: config.min_obstruction_width,
        },
        (
            FrameView::ProjectPath { path, .. },
            EventView::PathProjected { projections, line_start },
        ) => FrameView::CheckConnections {
            path,
            projections,
            line_start,
            searches: Seq::new(path.len(), |i: int| ranges::connection_of(path[i], projections[i])),
            max_iterations: config.projection_connection_max_iterations,
        },
        (
            FrameView::CheckConnections { path, projections, line_start, .. },
            EventView::ConnectionsChecked { connected },
        ) => FrameView::MeasureRanges {
            path,
            ranges: ranges::unobstructed_ranges(projections, connected, line_start),
            min_range_length: config.min_range_length,
        },
        (FrameView::MeasureRanges { path, ranges, .. }, EventView::RangesMeasured { long }) => {
            choice_in_ranges(config, state, path, ranges::long_ranges(ranges, long))
        },
        (
            FrameView::FindCameraPaths { target, points, .. },
            EventView::CameraPathsFound { target_path, paths },
        ) => cast_from(
            config,
            selection::closest(
                target_with(
                    target,
                    match target_path {
                        Some(path) => Some(closeness_of(path)),
                        None => None,
                    },
                ),
                points,
                closeness_of_all(paths),
            ),
        ),
        _ => frame,
    }
}

/// The controller and the frame after an event that answers what the frame waited for.
pub open spec fn step<S>(
    config: CameraCollisionConfig<S>,
    state: ControllerState,
    frame: FrameView<S>,
    event: EventView<S>,
) -> (ControllerState, FrameView<S>) {
    match (frame, event) {
        (FrameView::Idle, EventView::Input { radius }) => (
            state,
            FrameView::MoveCamera {
                zoom: zoom_for(state.colliding, radius),
                check_feet: state.last_empty_feet_point is Some,
                not_worth_searching_dist: config.not_worth_searching_dist,
            },
        ),
        (
            FrameView::MoveCamera { .. },
            EventView::Moved { feet_voxel, feet_voxel_is_empty, .. },
        ) => {
            let moved = ControllerState {
                last_empty_feet_point: feet_point_after(
                    state.last_empty_feet_point,
                    feet_voxel,
                    feet_voxel_is_empty,
                ),
                ..state
            };
            (moved, search_step(config, moved, frame, event))
        },
        (FrameView::CastSphere { .. }, EventView::SphereCast { impact }) => (
            ControllerState { colliding: impact is Some, ..state },
            FrameView::MoveBall {
                stop: match impact {
                    Some(time) => BallStop::AtImpact(time),
                    None => BallStop::AtEnd,
                },
                camera_lock_threshold: config.camera_lock_threshold,
            },
        ),
        (FrameView::MoveBall { .. }, EventView::BallMoved { near_target }) => (
            state,
            FrameView::PlaceCamera {
                placement: if near_target {
                    Placement::Locked(config.camera_lock_radius)
                } else {
                    Placement::AfterCollisions
                },
            },
        ),
        (FrameView::PlaceCamera { .. }, EventView::CameraPlaced { voxel }) => (
            ControllerState { previous_camera_voxel: Some(voxel), ..state },
            FrameView::Idle,
        ),
        _ => (state, search_step(config, state, frame, event)),
    }
}

/// Moves the ball along the sphere cast until it hits something. Tells whether it does, and where
/// it stops.
pub fn move_ball_until_collision<S: Copy>(impact: Option<S>) -> (moved: (bool, BallStop<S>))
    ensures
        moved.0 == (impact is Some),
        moved.1 == match impact {
            Some(time) => BallStop::AtImpact(time),
            None => BallStop::AtEnd,
        },
{
    match impact {
        Some(stop_time) => (true, BallStop::AtImpact(stop_time)),
        None => (false, BallStop::AtEnd),
    }
}

/// How close the starts of the paths are to their common end.
fn path_lengths(paths: &[Vec<Point>]) -> (closeness: Vec<usize>)
    ensures
        closeness@ == Seq::new(paths@.len(), |i: int| closeness_of(paths@[i]@)),
        forall|i: int| 0 <= i < paths@.len() ==> #[trigger] closeness@[i] == paths@[i]@.len(),
{
    let mut closeness: Vec<usize> = Vec::new();
    let mut i: usize = 0;
    while i < paths.len()
        invariant
            i <= paths@.len(),
            closeness@ == Seq::new(i as nat, |j: int| closeness_of(paths@[j]@)),
            forall|j: int| 0 <= j < i ==> #[trigger] closeness@[j] == paths@[j]@.len(),
        decreases paths@.len() - i,
    {
        closeness.push(paths[i].len());
        i = i + 1;
    }
    closeness
}

/// The sphere is cast from the projection of the chosen voxel onto the eye line, or else from the
/// target.
fn cast_sphere<S: Copy>(config: &CameraCollisionConfig<S>, chosen: Option<Point>) -> (frame: Frame<
    S,
>)
    ensures
        frame@ == cast_from(*config, chosen),
{
    let cast_start = match chosen {
        Some(point) => CastStart::OnEyeLine(point),
        None => CastStart::Target,
    };
    Frame::CastSphere { cast_start, ball_radius: config.ball_radius }
}

impl CollidingController {
    pub fn new() -> (controller: Self)
        ensures
            controller@ == (ControllerState {
                colliding: false,
                last_empty_feet_point: None,
                previous_camera_voxel: None,
            }),
    {
        Self { colliding: false, last_empty_feet_point: None, previous_camera_voxel: None }
    }

    /// Takes an event, and tells what the frame waits for next. An event that does not answer what
    /// the frame waits for changes nothing, and the frame is handed back.
    pub fn apply_input<S: Copy>(
        &mut self,
        config: &CameraCollisionConfig<S>,
        frame: Frame<S>,
        event: Event<S>,
    ) -> (next: Result<Frame<S>, Frame<S>>)
        requires
            frame@.wf(),
        ensures
            match next {
                Ok(next) => {
                    &&& frame@.answered_by(event@)
                    &&& (final(self)@, next@) == step(*config, old(self)@, frame@, event@)
                    &&& next@.wf()
                },
                Err(back) => {
                    &&& !frame@.answered_by(event@)
                    &&& back == frame
                    &&& *final(self) == *old(self)
                },
            },
    {
        match (frame, event) {
            (Frame::Idle, Event::Input { radius }) => Ok(
                Frame::MoveCamera {
                    zoom: self.set_desired_camera_position(radius),
                    check_feet: self.last_empty_feet_point.is_some(),
                    not_worth_searching_dist: config.not_worth_searching_dist,
                },
            ),
            (frame, event) => self.resolve_camera_collisions(config, frame, event),
        }
    }

    /// Decides how the desired distance between the camera and its target changes.
    pub fn set_desired_camera_position(&self, radius: RadiusChange) -> (zoom: Zoom)
        ensures
            zoom == zoom_for(self@.colliding, radius),
            zoom == Zoom::Scale <==> radius == RadiusChange::Longer && !self@.colliding,
            zoom == Zoom::TruncateAndScale <==> radius == RadiusChange::Shorter,
    {
        match radius {
            RadiusChange::Longer => {
                // Don't move the camera if it's colliding.
                if !self.colliding {
                    Zoom::Scale
                } else {
                    Zoom::Keep
                }
            },
            // If the desired radius is longer than actual because of collision, just truncate it
            // so the camera moves as soon as the player starts shortening the radius.
            RadiusChange::Shorter => Zoom::TruncateAndScale,
            RadiusChange::Unchanged => Zoom::Keep,
        }
    }

    fn resolve_camera_collisions<S: Copy>(
        &mut self,
        config: &CameraCollisionConfig<S>,
        frame: Frame<S>,
        event: Event<S>,
    ) -> (next: Result<Frame<S>, Frame<S>>)
        requires
            frame@.wf(),
            !(frame@ is Idle && event@ is Input),
        ensures
            match next {
                Ok(next) => {
                    &&& frame@.answered_by(event@)
                    &&& (final(self)@, next@) == step(*config, old(self)@, frame@, event@)
                    &&& next@.wf()
                },
                Err(back) => {
                    &&& !frame@.answered_by(event@)
                    &&& back == frame
                    &&& *final(self) == *old(self)
                },
            },
    {
        match (frame, event) {
            (
                Frame::MoveCamera { zoom, check_feet, not_worth_searching_dist },
                Event::Moved { feet_voxel, feet_voxel_is_empty, target_near_camera, camera_voxel },
            ) => {
                // Choose an empty voxel to start our search path.
                self.set_last_empty_feet_voxel(feet_voxel, feet_voxel_is_empty);
                // We always try to find a short path around voxels that occlude the target before
                // doing the sphere cast.
                self.find_start_of_sphere_cast(
                    config,
                    Frame::MoveCamera { zoom, check_feet, not_worth_searching_dist },
                    Event::Moved {
                        feet_voxel,
                        feet_voxel_is_empty,
                        target_near_camera,
                        camera_voxel,
                    },
                )
            },
            (Frame::CastSphere { .. }, Event::SphereCast { impact }) => {
                let (was_collision, stop) = move_ball_until_collision(impact);
                self.colliding = was_collision;
                Ok(
                    Frame::MoveBall { stop, camera_lock_threshold: config.camera_lock_threshold },
                )
            },
            (Frame::MoveBall { .. }, Event::BallMoved { near_target }) => {
                let placement = if near_target {
                    // If we're really close to the target, wonky stuff can happen with collisions,
                    // so just lock into a tight sphere.
                    Placement::Locked(config.camera_lock_radius)
                } else {
                    Placement::AfterCollisions
                };
                Ok(Frame::PlaceCamera { placement })
            },
            (Frame::PlaceCamera { .. }, Event::CameraPlaced { voxel }) => {
                self.previous_camera_voxel = Some(voxel);
                Ok(Frame::Idle)
            },
            (frame, event) => self.find_start_of_sphere_cast(config, frame, event),
        }
    }

    /// Tries to find the ideal location to cast a sphere from.
    fn find_start_of_sphere_cast<S: Copy>(
        &self,
        config: &CameraCollisionConfig<S>,
        frame: Frame<S>,
        event: Event<S>,
    ) -> (next: Result<Frame<S>, Frame<S>>)
        requires
            frame@.wf(),
            frame@ is MoveCamera && event@ is Moved ==> self@.last_empty_feet_point is Some,
            !(frame@ is Idle && event@ is Input),
            !(frame@ is CastSphere && event@ is SphereCast),
            !(frame@ is MoveBall && event@ is BallMoved),
            !(frame@ is PlaceCamera && event@ is CameraPlaced),
        ensures
            match next {
                Ok(next) => {
                    &&& frame@.answered_by(event@)
                    &&& next@ == search_step(*config, self@, frame@, event@)
                    &&& next@.wf()
                },
                Err(back) => {
                    &&& !frame@.answered_by(event@)
                    &&& back == frame
                },
            },
    {
        let ghost event_view = event@;
        match (frame, event) {
            (
                Frame::MoveCamera { .. },
                Event::Moved { target_near_camera, camera_voxel, .. },
            ) => {
                // If we want to be close to the camera, there's not much use in finding a path
                // around occluders.
                if target_near_camera {
                    return Ok(cast_sphere(config, None));
                }
                // Graph search away from the target to get as close to the camera as possible. It's
                // OK if we don't reach the camera, since the path that got closest still serves.
                Ok(
                    Frame::FindPath {
                        start: self.last_empty_feet_point.unwrap(),
                        finish: camera_voxel,
                        max_iterations: config.max_search_iterations,
                    },
                )
            },
            (Frame::FindPath { .. }, Event::PathFound { path }) => {
                assert(path.len() <= usize::MAX);
                Ok(Frame::ProjectPath { path, min_obstruction_width: config.min_obstruction_width })
            },
            (
                Frame::ProjectPath { path, min_obstruction_width },
                Event::PathProjected { projections, line_start },
            ) => {
                if path.len() != projections.len() {
                    return Err(Frame::ProjectPath { path, min_obstruction_width });
                }
                let searches = ranges::connection_searches(
                    path.as_slice(),
                    projections.as_slice(),
                );
                Ok(
                    Frame::CheckConnections {
                        path,
                        projections,
                        line_start,
                        searches,
                        max_iterations: config.projection_connection_max_iterations,
                    },
                )
            },
            (
                Frame::CheckConnections { path, projections, line_start, searches, max_iterations },
                Event::ConnectionsChecked { connected },
            ) => {
                if path.len() != connected.len() {
                    return Err(
                        Frame::CheckConnections {
                            path,
                            projections,
                            line_start,
                            searches,
                            max_iterations,
                        },
                    );
                }
                let found = ranges::find_unobstructed_ranges(
                    projections.as_slice(),
                    connected.as_slice(),
                    line_start,
                );
                proof {
                    assert forall|i: int| 0 <= i < found@.len() implies ranges::lies_on_path(
                        path@.len(),
                        #[trigger] found@[i].0,
                    ) by {
                        laws::law_ranges_are_longest_unobstructed_runs(
                            projections@,
                            connected@,
                            line_start,
                            i,
                        );
                    }
                }
                Ok(
                    Frame::MeasureRanges {
                        path,
                        ranges: found,
                        min_range_length: config.min_range_length,
                    },
                )
            },
            (
                Frame::MeasureRanges { path, ranges: found, min_range_length },
                Event::RangesMeasured { long },
            ) => {
                if found.len() != long.len() {
                    return Err(Frame::MeasureRanges { path, ranges: found, min_range_length });
                }
                let kept = ranges::keep_long_ranges(found.as_slice(), long.as_slice());
                proof {
                    assert forall|i: int| 0 <= i < kept@.len() implies ranges::lies_on_path(
                        path@.len(),
                        #[trigger] kept@[i].0,
                    ) by {
                        let k = laws::law_kept_ranges_were_long(found@, long@, i);
                        assert(kept@[i].0 == found@[k].0);
                    }
                }
                Ok(self.find_start_of_sphere_cast_in_ranges(config, path.as_slice(), kept.as_slice()))
            },
            (
                Frame::FindCameraPaths { target, points, previous_camera, max_iterations },
                Event::CameraPathsFound { target_path, paths },
            ) => {
                if target.is_some() != target_path.is_some() || points.len() != paths.len() {
                    return Err(
                        Frame::FindCameraPaths { target, points, previous_camera, max_iterations },
                    );
                }
                let target = match (target, target_path) {
                    (Some(point), Some(path)) => Some((point, path.len())),
                    _ => None,
                };
                let closeness = path_lengths(paths.as_slice());
                assert(closeness@ == closeness_of_all(event_view->paths));
                Ok(
                    cast_sphere(
                        config,
                        selection::closest_point(target, points.as_slice(), closeness.as_slice()),
                    ),
                )
            },
            (frame, _) => Err(frame),
        }
    }

    /// Chooses a point in each range, and asks for a path from each to where the camera was.
    fn find_start_of_sphere_cast_in_ranges<S: Copy>(
        &self,
        config: &CameraCollisionConfig<S>,
        path: &[Point],
        unobstructed_ranges: &[PathRange<S>],
    ) -> (frame: Frame<S>)
        requires
            forall|i: int|
                0 <= i < unobstructed_ranges@.len() ==> ranges::lies_on_path(
                    path@.len(),
                    #[trigger] unobstructed_ranges@[i].0,
                ),
        ensures
            frame@ == choice_in_ranges(*config, self@, path@, unobstructed_ranges@),
            frame@.wf(),
    {
        let points = ranges::find_starts_of_sphere_cast(
            path,
            unobstructed_ranges,
            config.range_point_selection_offset,
        );
        if let Some(previous_camera) = self.previous_camera_voxel {
            // If the camera is really close to the target, it might not show up in the unobstructed
            // ranges, due to their minimum length, but we still want to consider it.
            return Frame::FindCameraPaths {
                target: self.last_empty_feet_point,
                points,
                previous_camera,
                max_iterations: config.max_search_iterations,
            };
        }
        let mut closeness: Vec<usize> = Vec::new();
        while closeness.len() < points.len()
            invariant
                closeness@.len() <= points@.len(),
                closeness@ == Seq::new(closeness@.len(), |i: int| 0usize),
            decreases points@.len() - closeness@.len(),
        {
            closeness.push(0);
        }
        let target = match self.last_empty_feet_point {
            Some(point) => Some((point, usize::MAX)),
            None => None,
        };
        cast_sphere(
            config,
            selection::closest_point(target, points.as_slice(), closeness.as_slice()),
        )
    }

    /// Remembers the voxel of the feet if it is empty, or if none is remembered yet.
    pub fn set_last_empty_feet_voxel(&mut self, new_feet: Point, new_feet_is_empty: bool)
        ensures
            final(self)@ == (ControllerState {
                last_empty_feet_point: feet_point_after(
                    old(self)@.last_empty_feet_point,
                    new_feet,
                    new_feet_is_empty,
                ),
                ..old(self)@
            }),
            final(self)@.colliding == old(self)@.colliding,
            final(self)@.previous_camera_voxel == old(self)@.previous_camera_voxel,
            new_feet_is_empty || old(self)@.last_empty_feet_point is None
                ==> final(self)@.last_empty_feet_point == Some(new_feet),
            !new_feet_is_empty && old(self)@.last_empty_feet_point is Some
                ==> final(self)@.last_empty_feet_point == old(self)@.last_empty_feet_point,
    {
        // Really, the feet should never be in a non-empty voxel.
        if self.last_empty_feet_point.is_some() {
            if new_feet_is_empty {
                self.last_empty_feet_point = Some(new_feet);
            }
        } else {
            self.last_empty_feet_point = Some(new_feet);
        }
    }
}

} // verus!
