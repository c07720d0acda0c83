use camera_collision::config::CameraCollisionConfig;
use camera_collision::controller::{move_ball_until_collision, CollidingController};
use camera_collision::frame::{
    BallStop, CastStart, Event, Frame, Placement, RadiusChange, Zoom,
};
use camera_collision::lattice::Point;
use camera_collision::ranges::PathProjection;

const CONFIG: CameraCollisionConfig<f32> = CameraCollisionConfig {
    ball_radius: 1.0,
    min_obstruction_width: 3.0,
    min_range_length: 2.0,
    not_worth_searching_dist: 4.0,
    max_search_iterations: 2000,
    projection_connection_max_iterations: 10,
    camera_lock_threshold: 2.0,
    camera_lock_radius: 0.8,
    range_point_selection_offset: 1,
};

fn point(x: i32, y: i32, z: i32) -> Point {
    Point { x, y, z }
}

fn input(radius: RadiusChange) -> Event<f32> {
    Event::Input { radius }
}

fn moved(feet_voxel: Point, feet_voxel_is_empty: bool, target_near_camera: bool) -> Event<f32> {
    Event::Moved {
        feet_voxel,
        feet_voxel_is_empty,
        target_near_camera,
        camera_voxel: point(9, 0, 0),
    }
}

fn accept(
    controller: &mut CollidingController,
    frame: Frame<f32>,
    event: Event<f32>,
) -> Frame<f32> {
    match controller.apply_input(&CONFIG, frame, event) {
        Ok(next) => next,
        Err(frame) => panic!("{:?} was not answered", frame),
    }
}

fn refuse(controller: &mut CollidingController, frame: Frame<f32>, event: Event<f32>) -> Frame<f32> {
    match controller.apply_input(&CONFIG, frame, event) {
        Ok(next) => panic!("led to {:?}", next),
        Err(frame) => frame,
    }
}

/// A path of so many voxels.
fn path_of(len: i32) -> Vec<Point> {
    let mut path = Vec::new();
    for i in 0..len {
        path.push(point(i, 1, 1));
    }
    path
}

/// A frame near the target that casts the sphere, and leaves the camera in `voxel`.
fn near_frame(controller: &mut CollidingController, impact: Option<f32>, voxel: Point) {
    let frame = accept(controller, Frame::Idle, input(RadiusChange::Unchanged));
    let frame = accept(controller, frame, moved(point(0, 0, 0), true, true));
    assert_eq!(frame, Frame::CastSphere { cast_start: CastStart::Target, ball_radius: 1.0 });
    let frame = accept(controller, frame, Event::SphereCast { impact });
    let frame = accept(controller, frame, Event::BallMoved { near_target: false });
    let frame = accept(controller, frame, Event::CameraPlaced { voxel });
    assert_eq!(frame, Frame::Idle);
}

fn zoom_after_input(controller: &mut CollidingController, radius: RadiusChange) -> Zoom {
    match accept(controller, Frame::Idle, input(radius)) {
        Frame::MoveCamera { zoom, not_worth_searching_dist, .. } => {
            assert_eq!(not_worth_searching_dist, 4.0);
            zoom
        }
        frame => panic!("{:?}", frame),
    }
}

/// Takes a frame from the search of a path to the measuring of its ranges. The path has ten points,
/// of which the fourth is obstructed.
fn search_to_ranges(controller: &mut CollidingController) -> Frame<f32> {
    let frame = accept(controller, Frame::Idle, input(RadiusChange::Unchanged));
    let frame = accept(controller, frame, moved(point(0, 0, 0), true, false));
    assert_eq!(
        frame,
        Frame::FindPath {
            start: point(0, 0, 0),
            finish: point(9, 0, 0),
            max_iterations: 2000,
        }
    );
    let mut path = Vec::new();
    let mut projections = Vec::new();
    for i in 0..10 {
        path.push(point(i, 5, 0));
        projections.push(PathProjection {
            near_line: i != 3,
            voxel: point(i, 0, 0),
            voxel_is_empty: true,
            distance: i as f32,
        });
    }
    let frame = accept(controller, frame, Event::PathFound { path });
    match &frame {
        Frame::ProjectPath { path, min_obstruction_width } => {
            assert_eq!(path.len(), 10);
            assert_eq!(*min_obstruction_width, 3.0);
        }
        frame => panic!("{:?}", frame),
    }
    let frame = accept(controller, frame, Event::PathProjected { projections, line_start: 0.0 });
    match &frame {
        Frame::CheckConnections { searches, max_iterations, .. } => {
            let mut expected = vec![None; 10];
            expected[3] = Some((point(3, 0, 0), point(3, 5, 0)));
            assert_eq!(*searches, expected);
            assert_eq!(*max_iterations, 10);
        }
        frame => panic!("{:?}", frame),
    }
    let frame =
        accept(controller, frame, Event::ConnectionsChecked { connected: vec![false; 10] });
    match &frame {
        Frame::MeasureRanges { ranges, min_range_length, .. } => {
            assert_eq!(*ranges, vec![([0, 3], [0.0, 3.0]), ([4, 10], [4.0, 9.0])]);
            assert_eq!(*min_range_length, 2.0);
        }
        frame => panic!("{:?}", frame),
    }
    frame
}

#[test]
fn new_controller_is_not_colliding() {
    let mut controller = CollidingController::new();
    assert_eq!(zoom_after_input(&mut controller, RadiusChange::Longer), Zoom::Scale);
    assert_eq!(controller.set_desired_camera_position(RadiusChange::Longer), Zoom::Scale);
}

#[test]
fn colliding_camera_is_not_moved_away() {
    let mut controller = CollidingController::new();
    near_frame(&mut controller, Some(0.5), point(4, 0, 0));
    assert_eq!(zoom_after_input(&mut controller, RadiusChange::Longer), Zoom::Keep);
    assert_eq!(zoom_after_input(&mut controller, RadiusChange::Unchanged), Zoom::Keep);
    assert_eq!(zoom_after_input(&mut controller, RadiusChange::Shorter), Zoom::TruncateAndScale);
    near_frame(&mut controller, None, point(4, 0, 0));
    assert_eq!(zoom_after_input(&mut controller, RadiusChange::Longer), Zoom::Scale);
    assert_eq!(zoom_after_input(&mut controller, RadiusChange::Shorter), Zoom::TruncateAndScale);
}

#[test]
fn ball_stops_at_its_impact() {
    assert_eq!(move_ball_until_collision(Some(0.25)), (true, BallStop::AtImpact(0.25)));
    assert_eq!(move_ball_until_collision::<f32>(None), (false, BallStop::AtEnd));
}

#[test]
fn camera_locks_near_the_target() {
    for (near_target, expected) in
        [(true, Placement::Locked(0.8)), (false, Placement::AfterCollisions)]
    {
        let mut controller = CollidingController::new();
        let frame = accept(&mut controller, Frame::Idle, input(RadiusChange::Unchanged));
        let frame = accept(&mut controller, frame, moved(point(0, 0, 0), true, true));
        let frame = accept(&mut controller, frame, Event::SphereCast { impact: Some(0.5) });
        assert_eq!(
            frame,
            Frame::MoveBall { stop: BallStop::AtImpact(0.5), camera_lock_threshold: 2.0 }
        );
        let frame = accept(&mut controller, frame, Event::BallMoved { near_target });
        assert_eq!(frame, Frame::PlaceCamera { placement: expected });
    }
}

#[test]
fn search_starts_from_the_last_empty_feet() {
    let mut controller = CollidingController::new();
    // The feet's voxel, whether it is empty, and the voxel that is searched from.
    let steps = [
        // The first voxel is taken even if it is solid.
        (point(1, 0, 0), false, point(1, 0, 0)),
        (point(2, 0, 0), false, point(1, 0, 0)),
        (point(3, 0, 0), true, point(3, 0, 0)),
        // The same again changes nothing.
        (point(3, 0, 0), true, point(3, 0, 0)),
        (point(4, 0, 0), false, point(3, 0, 0)),
        (point(4, 0, 0), false, point(3, 0, 0)),
        (point(5, 0, 0), true, point(5, 0, 0)),
        (point(6, 0, 0), true, point(6, 0, 0)),
        (point(7, 0, 0), false, point(6, 0, 0)),
    ];
    for (i, (feet, is_empty, expected)) in steps.into_iter().enumerate() {
        let frame = accept(&mut controller, Frame::Idle, input(RadiusChange::Unchanged));
        // Whether the feet are in an empty voxel does not matter the first time.
        assert_eq!(
            frame,
            Frame::MoveCamera {
                zoom: Zoom::Keep,
                check_feet: i > 0,
                not_worth_searching_dist: 4.0,
            }
        );
        let frame = accept(&mut controller, frame, moved(feet, is_empty, false));
        assert_eq!(
            frame,
            Frame::FindPath { start: expected, finish: point(9, 0, 0), max_iterations: 2000 }
        );
    }
}

#[test]
fn same_feet_again_change_nothing() {
    let mut controller = CollidingController::new();
    // The feet's voxel, whether it is empty, and the voxel that is then remembered.
    for (feet, is_empty, expected) in [
        (point(1, 0, 0), true, point(1, 0, 0)),
        (point(2, 0, 0), false, point(1, 0, 0)),
        (point(3, 0, 0), true, point(3, 0, 0)),
    ] {
        for _ in 0..2 {
            controller.set_last_empty_feet_voxel(feet, is_empty);
            // Solid feet show what is remembered.
            let frame = accept(&mut controller, Frame::Idle, input(RadiusChange::Unchanged));
            let frame = accept(&mut controller, frame, moved(point(5, 5, 5), false, false));
            assert_eq!(
                frame,
                Frame::FindPath { start: expected, finish: point(9, 0, 0), max_iterations: 2000 }
            );
        }
    }
}

#[test]
fn first_range_is_chosen_before_any_placement() {
    let mut controller = CollidingController::new();
    let frame = search_to_ranges(&mut controller);
    let frame = accept(&mut controller, frame, Event::RangesMeasured { long: vec![true, true] });
    assert_eq!(
        frame,
        Frame::CastSphere {
            cast_start: CastStart::OnEyeLine(point(2, 5, 0)),
            ball_radius: 1.0,
        }
    );
    // Without a range, the feet serve.
    let mut controller = CollidingController::new();
    let frame = search_to_ranges(&mut controller);
    let frame = accept(&mut controller, frame, Event::RangesMeasured { long: vec![false, false] });
    assert_eq!(
        frame,
        Frame::CastSphere {
            cast_start: CastStart::OnEyeLine(point(0, 0, 0)),
            ball_radius: 1.0,
        }
    );
}

#[test]
fn point_is_chosen_inside_the_range_without_an_offset() {
    let config = CameraCollisionConfig { range_point_selection_offset: 0, ..CONFIG };
    for (long, expected) in
        [(vec![true, true], point(2, 5, 0)), (vec![false, true], point(9, 5, 0))]
    {
        let mut controller = CollidingController::new();
        let frame = search_to_ranges(&mut controller);
        let next = controller.apply_input(&config, frame, Event::RangesMeasured { long });
        assert_eq!(
            next,
            Ok(Frame::CastSphere {
                cast_start: CastStart::OnEyeLine(expected),
                ball_radius: 1.0,
            })
        );
    }
}

#[test]
fn range_closest_to_the_previous_camera_is_chosen() {
    for (target, points, expected) in [
        (30, [20, 10], point(9, 5, 0)),
        (30, [20, 20], point(2, 5, 0)),
        (10, [20, 10], point(0, 0, 0)),
    ] {
        let mut controller = CollidingController::new();
        near_frame(&mut controller, None, point(7, 7, 7));
        let frame = search_to_ranges(&mut controller);
        let frame =
            accept(&mut controller, frame, Event::RangesMeasured { long: vec![true, true] });
        assert_eq!(
            frame,
            Frame::FindCameraPaths {
                target: Some(point(0, 0, 0)),
                points: vec![point(2, 5, 0), point(9, 5, 0)],
                previous_camera: point(7, 7, 7),
                max_iterations: 2000,
            }
        );
        let event = Event::CameraPathsFound {
            target_path: Some(path_of(target)),
            paths: vec![path_of(points[0]), path_of(points[1])],
        };
        let frame = accept(&mut controller, frame, event);
        assert_eq!(
            frame,
            Frame::CastSphere { cast_start: CastStart::OnEyeLine(expected), ball_radius: 1.0 }
        );
    }
}

#[test]
fn longest_frame_takes_ten_answers() {
    let mut controller = CollidingController::new();
    near_frame(&mut controller, None, point(7, 7, 7));
    // Input, movement, path, projections and connections.
    let frame = search_to_ranges(&mut controller);
    let rest = vec![
        Event::RangesMeasured { long: vec![false, true] },
        Event::CameraPathsFound { target_path: Some(path_of(3)), paths: vec![path_of(2)] },
        Event::SphereCast { impact: Some(0.5) },
        Event::BallMoved { near_target: true },
        Event::CameraPlaced { voxel: point(8, 0, 0) },
    ];
    let mut frame = frame;
    for event in rest {
        assert_ne!(frame, Frame::Idle);
        frame = accept(&mut controller, frame, event);
    }
    assert_eq!(frame, Frame::Idle);
    // The frame is remembered.
    assert_eq!(zoom_after_input(&mut controller, RadiusChange::Longer), Zoom::Keep);
    let frame = search_to_ranges(&mut controller);
    match accept(&mut controller, frame, Event::RangesMeasured { long: vec![true, true] }) {
        Frame::FindCameraPaths { previous_camera, .. } => {
            assert_eq!(previous_camera, point(8, 0, 0));
        }
        frame => panic!("{:?}", frame),
    }
}

#[test]
fn event_that_answers_nothing_changes_nothing() {
    let mut controller = CollidingController::new();
    near_frame(&mut controller, Some(0.5), point(7, 7, 7));
    let frame = refuse(&mut controller, Frame::Idle, Event::SphereCast { impact: None });
    assert_eq!(frame, Frame::Idle);
    let frame = accept(&mut controller, Frame::Idle, input(RadiusChange::Unchanged));
    let frame = refuse(&mut controller, frame, input(RadiusChange::Shorter));
    assert_eq!(
        frame,
        Frame::MoveCamera { zoom: Zoom::Keep, check_feet: true, not_worth_searching_dist: 4.0 }
    );
    // The camera is still colliding.
    assert_eq!(zoom_after_input(&mut controller, RadiusChange::Longer), Zoom::Keep);
}

#[test]
fn answers_of_the_wrong_length_are_refused() {
    let mut controller = CollidingController::new();
    near_frame(&mut controller, None, point(7, 7, 7));
    let frame = Frame::ProjectPath { path: vec![point(0, 0, 0)], min_obstruction_width: 3.0 };
    let event = Event::PathProjected { projections: vec![], line_start: 0.0 };
    let frame = refuse(&mut controller, frame, event);
    assert_eq!(
        frame,
        Frame::ProjectPath { path: vec![point(0, 0, 0)], min_obstruction_width: 3.0 }
    );

    let frame = search_to_ranges(&mut controller);
    let frame = refuse(&mut controller, frame, Event::RangesMeasured { long: vec![true] });
    let frame = accept(&mut controller, frame, Event::RangesMeasured { long: vec![true, false] });
    let event = Event::CameraPathsFound { target_path: None, paths: vec![path_of(1)] };
    let frame = refuse(&mut controller, frame, event);
    let event = Event::CameraPathsFound { target_path: Some(path_of(1)), paths: vec![] };
    let frame = refuse(&mut controller, frame, event);
    let event =
        Event::CameraPathsFound { target_path: Some(path_of(2)), paths: vec![path_of(1)] };
    let frame = accept(&mut controller, frame, event);
    assert_eq!(
        frame,
        Frame::CastSphere {
            cast_start: CastStart::OnEyeLine(point(2, 5, 0)),
            ball_radius: 1.0,
        }
    );
}

#[test]
fn connections_of_the_wrong_length_are_refused() {
    let mut controller = CollidingController::new();
    let frame = accept(&mut controller, Frame::Idle, input(RadiusChange::Unchanged));
    let frame = accept(&mut controller, frame, moved(point(0, 0, 0), true, false));
    let frame = accept(&mut controller, frame, Event::PathFound { path: vec![] });
    let event = Event::PathProjected { projections: vec![], line_start: 0.0 };
    let frame = accept(&mut controller, frame, event);
    let event = Event::ConnectionsChecked { connected: vec![true] };
    let frame = refuse(&mut controller, frame, event);
    // An empty path has no ranges, and the sphere is cast from the feet.
    let event = Event::ConnectionsChecked { connected: vec![] };
    let frame = accept(&mut controller, frame, event);
    let frame = accept(&mut controller, frame, Event::RangesMeasured { long: vec![] });
    assert_eq!(
        frame,
        Frame::CastSphere {
            cast_start: CastStart::OnEyeLine(point(0, 0, 0)),
            ball_radius: 1.0,
        }
    );
}
