//! The questions that the controller asks of the world while it works on one frame of camera
//! movement, and the answers that it takes.
//!
//! A frame is always waiting for one thing. Whoever drives the camera looks at what the frame waits
//! for, does it with its own geometry and voxels, and reports back with an `Event`.
use vstd::prelude::*;

use crate::lattice::Point;
use crate::ranges;
use crate::ranges::PathProjection;
use crate::ranges::PathRange;

verus! {

/// How an input scales the distance between the camera and its target.
#[derive(Clone, Copy, Debug, PartialEq, Eq, Structural)]
pub enum RadiusChange {
    /// The scalar is greater than one.
    Longer,
    /// The scalar is less than one.
    Shorter,
    /// The scalar is neither.
    Unchanged,
}

/// What to do with the desired distance between the camera and its target.
#[derive(Clone, Copy, Debug, PartialEq, Eq, Structural)]
pub enum Zoom {
    /// Leave it.
    Keep,
    /// Scale it by the input's scalar.
    Scale,
    /// Set it to the actual distance, and scale that by the input's scalar.
    TruncateAndScale,
}

/// Where the sphere cast starts.
#[derive(Clone, Copy, Debug, PartialEq, Eq, Structural)]
pub enum CastStart {
    /// At the camera target.
    Target,
    /// At the projection of this voxel onto the eye line.
    OnEyeLine(Point),
}

/// Where the ball that is moved along the sphere cast stops. `S` is the type of lengths.
#[derive(Debug, PartialEq)]
pub enum BallStop<S> {
    /// At this fraction of the way, where it hits something.
    AtImpact(S),
    /// At the end of the way.
    AtEnd,
}

/// Where the camera goes in the end.
#[derive(Debug, PartialEq)]
pub enum Placement<S> {
    /// To this distance from the target.
    Locked(S),
    /// To where the ball stopped.
    AfterCollisions,
}

/// A frame of camera movement, told by what it waits for.
#[derive(Debug, PartialEq)]
pub enum Frame<S> {
    /// Waits for the next input.
    Idle,
    /// Move the feet and the target, rotate around the target, and change the desired distance.
    /// Then tell where the feet and the desired camera are, whether the camera is closer to the
    /// target than `not_worth_searching_dist`, and, if `check_feet` is set, whether the voxel of the
    /// feet is empty.
    MoveCamera { zoom: Zoom, check_feet: bool, not_worth_searching_dist: S },
    /// Search a path from one voxel to get as close to another as possible.
    FindPath { start: Point, finish: Point, max_iterations: usize },
    /// Project each point of the path onto the eye line.
    ProjectPath { path: Vec<Point>, min_obstruction_width: S },
    /// For each point of the path, find out whether the two voxels named for it, if any, are
    /// connected.
    CheckConnections {
        path: Vec<Point>,
        projections: Vec<PathProjection<S>>,
        line_start: S,
        searches: Vec<Option<(Point, Point)>>,
        max_iterations: usize,
    },
    /// Find out which ranges are longer than `min_range_length`.
    MeasureRanges { path: Vec<Point>, ranges: Vec<PathRange<S>>, min_range_length: S },
    /// Search a path to the camera's previous voxel, from the target's voxel and from each of the
    /// points.
    FindCameraPaths {
        target: Option<Point>,
        points: Vec<Point>,
        previous_camera: Point,
        max_iterations: usize,
    },
    /// Cast a sphere from here to the desired camera position.
    CastSphere { cast_start: CastStart, ball_radius: S },
    /// Move the ball along the sphere cast, and tell whether it is now closer to the target than
    /// `camera_lock_threshold`.
    MoveBall { stop: BallStop<S>, camera_lock_threshold: S },
    /// Place the camera.
    PlaceCamera { placement: Placement<S> },
}

/// An answer to what a frame waits for.
#[derive(Debug, PartialEq)]
pub enum Event<S> {
    /// An input came.
    Input { radius: RadiusChange },
    /// The camera was moved. `feet_voxel_is_empty` is not looked at unless it was asked for.
    Moved {
        feet_voxel: Point,
        feet_voxel_is_empty: bool,
        target_near_camera: bool,
        camera_voxel: Point,
    },
    /// This path got closest.
    PathFound { path: Vec<Point> },
    /// The projection of each point of the path; `line_start` is the distance at which the eye line
    /// starts.
    PathProjected { projections: Vec<PathProjection<S>>, line_start: S },
    /// For each point of the path, whether its two voxels are connected.
    ConnectionsChecked { connected: Vec<bool> },
    /// For each range, whether it is long enough.
    RangesMeasured { long: Vec<bool> },
    /// The paths to the camera's previous voxel, from the target's voxel and from each of the
    /// points. The fewer voxels a path has, the closer it starts.
    CameraPathsFound { target_path: Option<Vec<Point>>, paths: Vec<Vec<Point>> },
    /// The sphere was cast, and hit something at this fraction of the way, or nothing.
    SphereCast { impact: Option<S> },
    /// The ball was moved.
    BallMoved { near_target: bool },
    /// The camera was placed, and is now in this voxel.
    CameraPlaced { voxel: Point },
}

/// A frame, with its lists as sequences.
#[verifier::ext_equal]
pub enum FrameView<S> {
    Idle,
    MoveCamera { zoom: Zoom, check_feet: bool, not_worth_searching_dist: S },
    FindPath { start: Point, finish: Point, max_iterations: usize },
    ProjectPath { path: Seq<Point>, min_obstruction_width: S },
    CheckConnections {
        path: Seq<Point>,
        projections: Seq<PathProjection<S>>,
        line_start: S,
        searches: Seq<Option<(Point, Point)>>,
        max_iterations: usize,
    },
    MeasureRanges { path: Seq<Point>, ranges: Seq<PathRange<S>>, min_range_length: S },
    FindCameraPaths {
        target: Option<Point>,
        points: Seq<Point>,
        previous_camera: Point,
        max_iterations: usize,
    },
    CastSphere { cast_start: CastStart, ball_radius: S },
    MoveBall { stop: BallStop<S>, camera_lock_threshold: S },
    PlaceCamera { placement: Placement<S> },
}

/// An event, with its lists as sequences.
#[verifier::ext_equal]
pub enum EventView<S> {
    Input { radius: RadiusChange },
    Moved {
        feet_voxel: Point,
        feet_voxel_is_empty: bool,
        target_near_camera: bool,
        camera_voxel: Point,
    },
    PathFound { path: Seq<Point> },
    PathProjected { projections: Seq<PathProjection<S>>, line_start: S },
    ConnectionsChecked { connected: Seq<bool> },
    RangesMeasured { long: Seq<bool> },
    CameraPathsFound { target_path: Option<Seq<Point>>, paths: Seq<Seq<Point>> },
    SphereCast { impact: Option<S> },
    BallMoved { near_target: bool },
    CameraPlaced { voxel: Point },
}

impl<S> View for Frame<S> {
    type V = FrameView<S>;

    open spec fn view(&self) -> FrameView<S> {
        match *self {
            Frame::Idle => FrameView::Idle,
            Frame::MoveCamera { zoom, check_feet, not_worth_searching_dist } => {
                FrameView::MoveCamera { zoom, check_feet, not_worth_searching_dist }
            },
            Frame::FindPath { start, finish, max_iterations } => FrameView::FindPath {
                start,
                finish,
                max_iterations,
            },
            Frame::ProjectPath { path, min_obstruction_width } => FrameView::ProjectPath {
                path: path@,
                min_obstruction_width,
            },
            Frame::CheckConnections { path, projections, line_start, searches, max_iterations } => {
                FrameView::CheckConnections {
                    path: path@,
                    projections: projections@,
                    line_start,
                    searches: searches@,
                    max_iterations,
                }
            },
            Frame::MeasureRanges { path, ranges, min_range_length } => FrameView::MeasureRanges {
                path: path@,
                ranges: ranges@,
                min_range_length,
            },
            Frame::FindCameraPaths { target, points, previous_camera, max_iterations } => {
                FrameView::FindCameraPaths {
                    target,
                    points: points@,
                    previous_camera,
                    max_iterations,
                }
            },
            Frame::CastSphere { cast_start, ball_radius } => FrameView::CastSphere {
                cast_start,
                ball_radius,
            },
            Frame::MoveBall { stop, camera_lock_threshold } => FrameView::MoveBall {
                stop,
                camera_lock_threshold,
            },
            Frame::PlaceCamera { placement } => FrameView::PlaceCamera { placement },
        }
    }
}

impl<S> View for Event<S> {
    type V = EventView<S>;

    open spec fn view(&self) -> EventView<S> {
        match *self {
            Event::Input { radius } => EventView::Input { radius },
            Event::Moved { feet_voxel, feet_voxel_is_empty, target_near_camera, camera_voxel } => {
                EventView::Moved {
                    feet_voxel,
                    feet_voxel_is_empty,
                    target_near_camera,
                    camera_voxel,
                }
            },
            Event::PathFound { path } => EventView::PathFound { path: path@ },
            Event::PathProjected { projections, line_start } => EventView::PathProjected {
                projections: projections@,
                line_start,
            },
            Event::ConnectionsChecked { connected } => EventView::ConnectionsChecked {
                connected: connected@,
            },
            Event::RangesMeasured { long } => EventView::RangesMeasured { long: long@ },
            Event::CameraPathsFound { target_path, paths } => EventView::CameraPathsFound {
                target_path: match target_path {
                    Some(path) => Some(path@),
                    None => None,
                },
                paths: Seq::new(paths@.len(), |i: int| paths@[i]@),
            },
            Event::SphereCast { impact } => EventView::SphereCast { impact },
            Event::BallMoved { near_target } => EventView::BallMoved { near_target },
            Event::CameraPlaced { voxel } => EventView::CameraPlaced { voxel },
        }
    }
}

impl<S> FrameView<S> {
    /// A path is no longer than a list can be. A frame that waits for connections has a projection
    /// for each point of its path. A frame that waits for the lengths of ranges has ranges of its
    /// path.
    pub open spec fn wf(self) -> bool {
        match self {
            FrameView::ProjectPath { path, .. } => path.len() <= usize::MAX,
            FrameView::CheckConnections { path, projections, .. } => {
                &&& path.len() <= usize::MAX
                &&& projections.len() == path.len()
            },
            FrameView::MeasureRanges { path, ranges, .. } => {
                forall|i: int|
                    0 <= i < ranges.len() ==> ranges::lies_on_path(
                        path.len(),
                        #[trigger] ranges[i].0,
                    )
            },
            _ => true,
        }
    }

    /// The event answers what the frame waits for: it is of the right kind, and where the frame
    /// asks of each item of a list, there is one answer for each.
    pub open spec fn answered_by(self, event: EventView<S>) -> bool {
        match (self, event) {
            (FrameView::Idle, EventView::Input { .. }) => true,
            (FrameView::MoveCamera { .. }, EventView::Moved { .. }) => true,
            (FrameView::FindPath { .. }, EventView::PathFound { .. }) => true,
            (FrameView::ProjectPath { path, .. }, EventView::PathProjected { projections, .. }) => {
                path.len() == projections.len()
            },
            (
                FrameView::CheckConnections { path, .. },
                EventView::ConnectionsChecked { connected },
            ) => path.len() == connected.len(),
            (FrameView::MeasureRanges { ranges, .. }, EventView::RangesMeasured { long }) => {
                ranges.len() == long.len()
            },
            (
                FrameView::FindCameraPaths { target, points, .. },
                EventView::CameraPathsFound { target_path, paths },
            ) => {
                &&& target is Some <==> target_path is Some
                &&& points.len() == paths.len()
            },
            (FrameView::CastSphere { .. }, EventView::SphereCast { .. }) => true,
            (FrameView::MoveBall { .. }, EventView::BallMoved { .. }) => true,
            (FrameView::PlaceCamera { .. }, EventView::CameraPlaced { .. }) => true,
            _ => false,
        }
    }
}

} // verus!
