//! What holds of the controller from one event to the next, and of whole frames.
use vstd::prelude::*;

use crate::config::CameraCollisionConfig;
use crate::controller;
use crate::controller::ControllerState;
use crate::frame::CastStart;
use crate::frame::EventView;
use crate::frame::FrameView;
use crate::frame::Placement;
use crate::frame::RadiusChange;
use crate::frame::Zoom;
use crate::lattice::Point;
use crate::laws;
use crate::ranges;
use crate::selection;

verus! {

/// What a frame knows of the controller that works on it.
pub open spec fn consistent<S>(state: ControllerState, frame: FrameView<S>) -> bool {
    &&& state.last_empty_feet_point is Some || frame is Idle || frame is MoveCamera
    &&& match frame {
        FrameView::MoveCamera { check_feet, .. } => check_feet
            == (state.last_empty_feet_point is Some),
        FrameView::FindPath { start, .. } => state.last_empty_feet_point == Some(start),
        FrameView::FindCameraPaths { target, previous_camera, .. } => {
            &&& state.last_empty_feet_point == target
            &&& state.previous_camera_voxel == Some(previous_camera)
        },
        FrameView::MoveBall { stop, .. } => state.colliding == (stop is AtImpact),
        _ => true,
    }
}

/// The state of the controller and the frame after a sequence of events.
pub open spec fn run<S>(
    config: CameraCollisionConfig<S>,
    state: ControllerState,
    frame: FrameView<S>,
    events: Seq<EventView<S>>,
) -> (ControllerState, FrameView<S>)
    decreases events.len(),
{
    if events.len() == 0 {
        (state, frame)
    } else {
        let (state, frame) = run(config, state, frame, events.drop_last());
        controller::step(config, state, frame, events.last())
    }
}

/// Each event of the sequence answers what the frame waits for at its turn.
pub open spec fn all_answer<S>(
    config: CameraCollisionConfig<S>,
    state: ControllerState,
    frame: FrameView<S>,
    events: Seq<EventView<S>>,
) -> bool {
    forall|i: int|
        0 <= i < events.len() ==> run(config, state, frame, #[trigger] events.take(i)).1.answered_by(
            events[i],
        )
}

/// A path that the event brings is no longer than a list can be.
pub open spec fn path_fits<S>(event: EventView<S>) -> bool {
    event matches EventView::PathFound { path } ==> path.len() <= usize::MAX
}

/// The events take an idle controller into a frame, answering it at each turn, and the frame does
/// not end before the last of them.
pub open spec fn within_frame<S>(
    config: CameraCollisionConfig<S>,
    state: ControllerState,
    events: Seq<EventView<S>>,
) -> bool {
    &&& events.len() > 0
    &&& all_answer(config, state, FrameView::Idle, events)
    &&& forall|k: int|
        0 < k < events.len() ==> !(run(
            config,
            state,
            FrameView::Idle,
            #[trigger] events.take(k),
        ).1 is Idle)
}

/// The frame waits for a sphere cast from the target, if the events say that the desired camera is
/// close to the target. Else they bring a path, and the sphere is cast from the projection of an
/// unobstructed point of that, or of the voxel that was searched from.
pub open spec fn casts_from_the_target_or_a_clear_point<S>(
    state: ControllerState,
    frame: FrameView<S>,
    events: Seq<EventView<S>>,
) -> bool {
    &&& frame is CastSphere
    &&& events.len() >= 2
    &&& events[1] is Moved
    &&& frame->cast_start is Target <==> events[1]->target_near_camera
    &&& !events[1]->target_near_camera ==> {
        &&& events.len() >= 6
        &&& events[2] is PathFound
        &&& events[3] is PathProjected
        &&& events[4] is ConnectionsChecked
        &&& frame->cast_start matches CastStart::OnEyeLine(voxel)
        &&& state.last_empty_feet_point == Some(voxel) || exists|i: int|
            {
                &&& 0 <= i < events[2]->path.len()
                &&& voxel == events[2]->path[i]
                &&& !#[trigger] ranges::obstructions(
                    events[3]->projections,
                    events[4]->connected,
                )[i]
            }
    }
}

/// The voxels of the feet that a sequence of events reports.
pub open spec fn reported_feet<S>(events: Seq<EventView<S>>) -> Seq<Point>
    decreases events.len(),
{
    if events.len() == 0 {
        Seq::empty()
    } else {
        let before = reported_feet(events.drop_last());
        match events.last() {
            EventView::Moved { feet_voxel, .. } => before.push(feet_voxel),
            _ => before,
        }
    }
}

/// The number of answers that a frame can still take before it is idle.
pub open spec fn answers_left<S>(frame: FrameView<S>) -> int {
    match frame {
        FrameView::Idle => 0,
        FrameView::PlaceCamera { .. } => 1,
        FrameView::MoveBall { .. } => 2,
        FrameView::CastSphere { .. } => 3,
        FrameView::FindCameraPaths { .. } => 4,
        FrameView::MeasureRanges { .. } => 5,
        FrameView::CheckConnections { .. } => 6,
        FrameView::ProjectPath { .. } => 7,
        FrameView::FindPath { .. } => 8,
        FrameView::MoveCamera { .. } => 9,
    }
}

/// A camera that is colliding is not moved away from its target. One that is not is moved as the
/// input says.
pub proof fn law_colliding_camera_is_not_moved_away<S>(
    config: CameraCollisionConfig<S>,
    state: ControllerState,
)
    ensures
        ({
            let event = EventView::Input { radius: RadiusChange::Longer };
            let zoom = if state.colliding {
                Zoom::Keep
            } else {
                Zoom::Scale
            };
            controller::step(config, state, FrameView::Idle, event) == (
                state,
                FrameView::MoveCamera {
                    zoom,
                    check_feet: state.last_empty_feet_point is Some,
                    not_worth_searching_dist: config.not_worth_searching_dist,
                },
            )
        }),
{
}

/// When the distance gets shorter, the camera moves at once, whether it is colliding or not.
pub proof fn law_camera_moves_closer_at_once<S>(
    config: CameraCollisionConfig<S>,
    state: ControllerState,
)
    ensures
        ({
            let event = EventView::Input { radius: RadiusChange::Shorter };
            controller::step(config, state, FrameView::Idle, event).1 == (FrameView::MoveCamera {
                zoom: Zoom::TruncateAndScale,
                check_feet: state.last_empty_feet_point is Some,
                not_worth_searching_dist: config.not_worth_searching_dist,
            })
        }),
{
}

/// Each thing that the controller remembers is changed by one kind of event alone.
pub proof fn law_memory_changes_with_its_event<S>(
    config: CameraCollisionConfig<S>,
    state: ControllerState,
    frame: FrameView<S>,
    event: EventView<S>,
)
    requires
        frame.answered_by(event),
    ensures
        ({
            let next = controller::step(config, state, frame, event).0;
            &&& event is SphereCast || next.colliding == state.colliding
            &&& event is Moved || next.last_empty_feet_point == state.last_empty_feet_point
            &&& event is CameraPlaced || next.previous_camera_voxel == state.previous_camera_voxel
        }),
{
}

/// The voxel to search from is known once the camera has moved, and from then on. It only ever
/// changes to the voxel of the feet, and, but for the first time, only if that is empty.
pub proof fn law_feet_stay_in_empty_space<S>(
    config: CameraCollisionConfig<S>,
    state: ControllerState,
    frame: FrameView<S>,
    event: EventView<S>,
)
    requires
        frame.answered_by(event),
    ensures
        ({
            let next = controller::step(config, state, frame, event).0;
            &&& event is Moved || state.last_empty_feet_point is Some
                ==> next.last_empty_feet_point is Some
            &&& {
                ||| next.last_empty_feet_point == state.last_empty_feet_point
                ||| event matches EventView::Moved { feet_voxel, feet_voxel_is_empty, .. }
                    && next.last_empty_feet_point == Some(feet_voxel) && (feet_voxel_is_empty
                    || state.last_empty_feet_point is None)
            }
        }),
{
}

/// Where the frame does not ask whether the voxel of the feet is empty, the answer does not matter.
pub proof fn law_unasked_feet_do_not_matter<S>(
    config: CameraCollisionConfig<S>,
    state: ControllerState,
    frame: FrameView<S>,
    feet_voxel: Point,
    target_near_camera: bool,
    camera_voxel: Point,
)
    requires
        frame is MoveCamera,
        !frame->check_feet,
        consistent(state, frame),
    ensures
        controller::step(
            config,
            state,
            frame,
            EventView::Moved {
                feet_voxel,
                feet_voxel_is_empty: true,
                target_near_camera,
                camera_voxel,
            },
        ) == controller::step(
            config,
            state,
            frame,
            EventView::Moved {
                feet_voxel,
                feet_voxel_is_empty: false,
                target_near_camera,
                camera_voxel,
            },
        ),
{
}

/// If the feet are reported a second time in the same voxel, nothing changes.
pub proof fn law_same_feet_again_change_nothing(
    last: Option<Point>,
    feet_voxel: Point,
    feet_voxel_is_empty: bool,
)
    ensures
        ({
            let once = controller::feet_point_after(last, feet_voxel, feet_voxel_is_empty);
            controller::feet_point_after(once, feet_voxel, feet_voxel_is_empty) == once
        }),
{
}

/// Once the voxel to search from is empty, it stays so however often the feet move: it is the
/// latest of their voxels that was empty, or the one from before if none was.
pub proof fn law_latest_empty_feet_are_kept(
    before: Point,
    feet: Seq<Point>,
    is_empty: spec_fn(Point) -> bool,
)
    requires
        is_empty(before),
    ensures
        ({
            let after = controller::feet_point_after_all(Some(before), feet, is_empty);
            &&& after is Some
            &&& is_empty(after.unwrap())
            &&& {
                ||| after == Some(before) && forall|i: int|
                    0 <= i < feet.len() ==> !is_empty(#[trigger] feet[i])
                ||| exists|k: int|
                    {
                        &&& 0 <= k < feet.len()
                        &&& after == Some(#[trigger] feet[k])
                        &&& forall|i: int| k < i < feet.len() ==> !is_empty(#[trigger] feet[i])
                    }
            }
        }),
    decreases feet.len(),
{
    if feet.len() > 0 {
        let rest = feet.drop_last();
        let n = feet.len() - 1;
        law_latest_empty_feet_are_kept(before, rest, is_empty);
        assert(feet.last() == feet[n]);
        assert forall|i: int| 0 <= i < n implies rest[i] == feet[i] by {}
        if !is_empty(feet[n]) {
            let after = controller::feet_point_after_all(Some(before), rest, is_empty);
            if exists|k: int|
                {
                    &&& 0 <= k < rest.len()
                    &&& after == Some(#[trigger] rest[k])
                    &&& forall|i: int| k < i < rest.len() ==> !is_empty(#[trigger] rest[i])
                } {
                let k = choose|k: int|
                    {
                        &&& 0 <= k < rest.len()
                        &&& after == Some(#[trigger] rest[k])
                        &&& forall|i: int| k < i < rest.len() ==> !is_empty(#[trigger] rest[i])
                    };
                assert(after == Some(feet[k]));
                assert forall|i: int| k < i < feet.len() implies !is_empty(#[trigger] feet[i]) by {
                    if i < n {
                        assert(!is_empty(rest[i]));
                    }
                }
            } else {
                assert forall|i: int| 0 <= i < feet.len() implies !is_empty(#[trigger] feet[i]) by {
                    if i < n {
                        assert(!is_empty(rest[i]));
                    }
                }
            }
        }
    }
}

/// Over any number of frames, the voxel to search from depends on where the feet were reported and
/// on which of those voxels are empty, and on nothing else.
pub proof fn law_feet_are_remembered_over_frames<S>(
    config: CameraCollisionConfig<S>,
    state: ControllerState,
    frame: FrameView<S>,
    events: Seq<EventView<S>>,
    is_empty: spec_fn(Point) -> bool,
)
    requires
        all_answer(config, state, frame, events),
        forall|i: int|
            0 <= i < events.len() ==> ((#[trigger] events[i]) matches EventView::Moved {
                feet_voxel,
                feet_voxel_is_empty,
                ..
            } ==> feet_voxel_is_empty == is_empty(feet_voxel)),
    ensures
        run(config, state, frame, events).0.last_empty_feet_point
            == controller::feet_point_after_all(
            state.last_empty_feet_point,
            reported_feet(events),
            is_empty,
        ),
    decreases events.len(),
{
    if events.len() > 0 {
        let n = events.len() - 1;
        let rest = events.drop_last();
        assert(rest =~= events.take(n));
        assert(run(config, state, frame, events.take(n)).1.answered_by(events[n]));
        assert forall|i: int| 0 <= i < rest.len() implies run(
            config,
            state,
            frame,
            #[trigger] rest.take(i),
        ).1.answered_by(rest[i]) by {
            assert(rest.take(i) =~= events.take(i));
            assert(run(config, state, frame, events.take(i)).1.answered_by(events[i]));
        }
        assert forall|i: int| 0 <= i < rest.len() implies ((
        #[trigger] rest[i]) matches EventView::Moved { feet_voxel, feet_voxel_is_empty, .. }
            ==> feet_voxel_is_empty == is_empty(feet_voxel)) by {
            assert(rest[i] == events[i]);
        }
        law_feet_are_remembered_over_frames(config, state, frame, rest, is_empty);
        if let EventView::Moved { feet_voxel, .. } = events.last() {
            assert(reported_feet(events).drop_last() =~= reported_feet(rest));
        }
    }
}

/// What a frame knows of the controller stays true with every answer.
pub proof fn law_answers_keep_frame_and_controller_consistent<S>(
    config: CameraCollisionConfig<S>,
    state: ControllerState,
    frame: FrameView<S>,
    event: EventView<S>,
)
    requires
        consistent(state, frame),
        frame.answered_by(event),
    ensures
        consistent(
            controller::step(config, state, frame, event).0,
            controller::step(config, state, frame, event).1,
        ),
{
}

/// After a path was searched, the sphere is cast from the projection of a voxel, never from the
/// target itself. That voxel is the one the search started from, or the point selected in one of
/// the ranges that were long enough.
pub proof fn law_searched_cast_starts_on_the_path<S>(
    config: CameraCollisionConfig<S>,
    state: ControllerState,
    frame: FrameView<S>,
    long: Seq<bool>,
    target_path: Option<Seq<Point>>,
    paths: Seq<Seq<Point>>,
)
    requires
        frame is MeasureRanges,
        consistent(state, frame),
        frame.answered_by(EventView::RangesMeasured { long }),
    ensures
        ({
            let path = frame->MeasureRanges_path;
            let found = frame->MeasureRanges_ranges;
            let measured = EventView::RangesMeasured { long };
            let next = controller::step(config, state, frame, measured).1;
            let answer = EventView::CameraPathsFound { target_path, paths };
            let cast = if next is FindCameraPaths {
                controller::step(config, state, next, answer).1
            } else {
                next
            };
            (next is FindCameraPaths ==> next.answered_by(answer)) ==> {
                &&& cast matches FrameView::CastSphere { cast_start: CastStart::OnEyeLine(voxel), .. }
                &&& state.last_empty_feet_point == Some(voxel) || exists|k: int|
                    {
                        &&& 0 <= k < found.len()
                        &&& long[k]
                        &&& voxel == path[ranges::selected_index(
                            (#[trigger] found[k]).0,
                            config.range_point_selection_offset,
                        )]
                    }
            }
        }),
{
    let path = frame->MeasureRanges_path;
    let found = frame->MeasureRanges_ranges;
    let kept = ranges::long_ranges(found, long);
    let offset = config.range_point_selection_offset;
    let points = ranges::selected_points(path, kept, offset);
    let target = state.last_empty_feet_point.unwrap();
    assert forall|i: int| 0 <= i < points.len() implies exists|k: int|
        {
            &&& 0 <= k < found.len()
            &&& long[k]
            &&& #[trigger] points[i] == path[ranges::selected_index(
                (#[trigger] found[k]).0,
                offset,
            )]
        } by {
        let k = laws::law_kept_ranges_were_long(found, long, i);
        assert(points[i] == path[ranges::selected_index(found[k].0, offset)]);
    }
    if state.previous_camera_voxel is None {
        laws::law_first_range_is_chosen_before_any_placement(config, state, path, kept);
        if kept.len() > 0 {
            assert(points[0] == path[ranges::selected_index(kept[0].0, offset)]);
        }
    } else if target_path is Some && paths.len() == points.len() {
        let tc = controller::closeness_of(target_path.unwrap());
        let closeness = controller::closeness_of_all(paths);
        laws::law_closest_point_wins(target, tc, points, closeness);
        let best = selection::closest(Some((target, tc)), points, closeness);
        if best != Some(target) {
            let i = choose|i: int|
                {
                    &&& #[trigger] selection::is_first_minimum(closeness, i)
                    &&& best == Some(points[i])
                    &&& closeness[i] < tc
                };
            assert(best == Some(points[i]));
        }
    }
}

/// After a path was searched, the sphere is cast from the projection of an unobstructed point of
/// the path, or of the voxel that the search started from.
pub proof fn law_searched_cast_starts_unobstructed<S>(
    config: CameraCollisionConfig<S>,
    state: ControllerState,
    frame: FrameView<S>,
    connected: Seq<bool>,
    long: Seq<bool>,
    target_path: Option<Seq<Point>>,
    paths: Seq<Seq<Point>>,
)
    requires
        frame is CheckConnections,
        frame.wf(),
        consistent(state, frame),
        frame.answered_by(EventView::ConnectionsChecked { connected }),
    ensures
        ({
            let path = frame->CheckConnections_path;
            let checked = EventView::ConnectionsChecked { connected };
            let ranged = controller::step(config, state, frame, checked).1;
            let measured = EventView::RangesMeasured { long };
            let next = controller::step(config, state, ranged, measured).1;
            let answer = EventView::CameraPathsFound { target_path, paths };
            let cast = if next is FindCameraPaths {
                controller::step(config, state, next, answer).1
            } else {
                next
            };
            ranged.answered_by(measured) && (next is FindCameraPaths ==> next.answered_by(answer))
                ==> {
                &&& cast matches FrameView::CastSphere { cast_start: CastStart::OnEyeLine(voxel), .. }
                &&& state.last_empty_feet_point == Some(voxel) || exists|i: int|
                    {
                        &&& 0 <= i < path.len()
                        &&& voxel == path[i]
                        &&& !#[trigger] ranges::obstructions(
                            frame->CheckConnections_projections,
                            connected,
                        )[i]
                    }
            }
        }),
{
    let path = frame->CheckConnections_path;
    let projections = frame->CheckConnections_projections;
    let line_start = frame->CheckConnections_line_start;
    let offset = config.range_point_selection_offset;
    let flags = ranges::obstructions(projections, connected);
    let checked = EventView::ConnectionsChecked { connected };
    let ranged = controller::step(config, state, frame, checked).1;
    let found = ranges::unobstructed_ranges(projections, connected, line_start);
    if ranged.answered_by(EventView::RangesMeasured { long }) {
        law_searched_cast_starts_on_the_path(
            config,
            state,
            ranged,
            long,
            target_path,
            paths,
        );
        assert forall|k: int| 0 <= k < found.len() implies {
            &&& 0 <= ranges::selected_index((#[trigger] found[k]).0, offset) < path.len()
            &&& !flags[ranges::selected_index(found[k].0, offset)]
        } by {
            laws::law_ranges_are_longest_unobstructed_runs(projections, connected, line_start, k);
            laws::law_selected_point_is_unobstructed(flags, found[k].0, offset);
        }
    }
}

/// The camera locks into its fixed distance exactly if the ball stopped close to the target. Else it
/// goes where the ball stopped.
pub proof fn law_camera_locks_near_the_target<S>(
    config: CameraCollisionConfig<S>,
    state: ControllerState,
    frame: FrameView<S>,
    near_target: bool,
)
    requires
        frame is MoveBall,
    ensures
        controller::step(config, state, frame, EventView::BallMoved { near_target }) == (
            state,
            FrameView::PlaceCamera {
                placement: if near_target {
                    Placement::Locked(config.camera_lock_radius)
                } else {
                    Placement::AfterCollisions
                },
            },
        ),
{
}

/// Every search that an answer leads to is limited as configured.
pub proof fn law_searches_are_limited<S>(
    config: CameraCollisionConfig<S>,
    state: ControllerState,
    frame: FrameView<S>,
    event: EventView<S>,
)
    requires
        frame.answered_by(event),
    ensures
        match controller::step(config, state, frame, event).1 {
            FrameView::FindPath { max_iterations, .. } => max_iterations
                == config.max_search_iterations,
            FrameView::FindCameraPaths { max_iterations, .. } => max_iterations
                == config.max_search_iterations,
            FrameView::CheckConnections { max_iterations, .. } => max_iterations
                == config.projection_connection_max_iterations,
            _ => true,
        },
{
}

/// Every answer brings a frame that is under way closer to its end. The longest frame takes ten:
/// the input, and nine more.
pub proof fn law_answers_bring_a_frame_to_its_end<S>(
    config: CameraCollisionConfig<S>,
    state: ControllerState,
    frame: FrameView<S>,
    event: EventView<S>,
)
    requires
        frame.answered_by(event),
    ensures
        ({
            let next = controller::step(config, state, frame, event).1;
            if frame is Idle {
                answers_left(next) == 9
            } else {
                0 <= answers_left(next) < answers_left(frame)
            }
        }),
{
}

/// Each event answers the frame at its turn, and takes it one step on.
proof fn lemma_turn<S>(
    config: CameraCollisionConfig<S>,
    state: ControllerState,
    events: Seq<EventView<S>>,
    k: int,
)
    requires
        all_answer(config, state, FrameView::Idle, events),
        0 <= k < events.len(),
    ensures
        run(config, state, FrameView::Idle, events.take(k)).1.answered_by(events[k]),
        run(config, state, FrameView::Idle, events.take(k + 1)) == controller::step(
            config,
            run(config, state, FrameView::Idle, events.take(k)).0,
            run(config, state, FrameView::Idle, events.take(k)).1,
            events[k],
        ),
{
    assert(run(config, state, FrameView::Idle, events.take(k)).1.answered_by(events[k]));
    assert(events.take(k + 1).drop_last() =~= events.take(k));
    assert(events.take(k + 1).last() == events[k]);
}

/// A frame that is answered at each turn ends, at the latest, with its tenth answer.
pub proof fn law_every_frame_ends<S>(
    config: CameraCollisionConfig<S>,
    state: ControllerState,
    events: Seq<EventView<S>>,
)
    requires
        events.len() >= 10,
        all_answer(config, state, FrameView::Idle, events),
    ensures
        exists|k: int|
            0 < k <= 10 && run(config, state, FrameView::Idle, #[trigger] events.take(k)).1 is Idle,
{
    if forall|k: int|
        0 < k <= 10 ==> !(run(config, state, FrameView::Idle, #[trigger] events.take(k)).1
            is Idle) {
        lemma_answers_left(config, state, events, 10);
        assert(run(config, state, FrameView::Idle, events.take(10)).1 is Idle);
    }
}

proof fn lemma_answers_left<S>(
    config: CameraCollisionConfig<S>,
    state: ControllerState,
    events: Seq<EventView<S>>,
    n: int,
)
    requires
        0 < n <= events.len(),
        all_answer(config, state, FrameView::Idle, events),
        forall|k: int|
            0 < k < n ==> !(run(config, state, FrameView::Idle, #[trigger] events.take(k)).1
                is Idle),
    ensures
        0 <= answers_left(run(config, state, FrameView::Idle, events.take(n)).1) <= 10 - n,
    decreases n,
{
    let (before_state, before) = run(config, state, FrameView::Idle, events.take(n - 1));
    lemma_turn(config, state, events, n - 1);
    law_answers_bring_a_frame_to_its_end(config, before_state, before, events[n - 1]);
    if n > 1 {
        lemma_answers_left(config, state, events, n - 1);
    }
}

/// After the camera was moved, the voxel to search from stays as it is until the frame ends.
proof fn lemma_feet_within_frame<S>(
    config: CameraCollisionConfig<S>,
    state: ControllerState,
    events: Seq<EventView<S>>,
    n: int,
)
    requires
        2 <= n <= events.len(),
        all_answer(config, state, FrameView::Idle, events),
        forall|k: int|
            0 < k < n ==> !(run(config, state, FrameView::Idle, #[trigger] events.take(k)).1
                is Idle),
    ensures
        events[1] is Moved,
        !(run(config, state, FrameView::Idle, events.take(n)).1 is MoveCamera),
        run(config, state, FrameView::Idle, events.take(n)).0.last_empty_feet_point
            == controller::feet_point_after(
            state.last_empty_feet_point,
            events[1]->feet_voxel,
            events[1]->feet_voxel_is_empty,
        ),
    decreases n,
{
    lemma_turn(config, state, events, n - 1);
    let before = run(config, state, FrameView::Idle, events.take(n - 1)).1;
    if n == 2 {
        lemma_turn(config, state, events, 0);
        assert(events.take(0) =~= Seq::empty());
        assert(run(config, state, FrameView::Idle, events.take(0)).1.answered_by(events[0]));
    } else {
        lemma_feet_within_frame(config, state, events, n - 1);
        assert(!(before is Idle));
    }
}

/// What the controller remembers of a whole frame: whether the sphere cast hit something, the voxel
/// that the camera was placed in, and the voxel of the feet if that was empty or the first.
pub proof fn law_frame_is_remembered<S>(
    config: CameraCollisionConfig<S>,
    state: ControllerState,
    events: Seq<EventView<S>>,
)
    requires
        within_frame(config, state, events),
        run(config, state, FrameView::Idle, events).1 is Idle,
    ensures
        ({
            let n = events.len();
            &&& n >= 5
            &&& events[1] is Moved
            &&& run(config, state, FrameView::Idle, events.take(n - 3)).1 is CastSphere
            &&& events[n - 3] is SphereCast
            &&& events[n - 1] is CameraPlaced
            &&& run(config, state, FrameView::Idle, events).0 == (ControllerState {
                colliding: events[n - 3]->impact is Some,
                last_empty_feet_point: controller::feet_point_after(
                    state.last_empty_feet_point,
                    events[1]->feet_voxel,
                    events[1]->feet_voxel_is_empty,
                ),
                previous_camera_voxel: Some(events[n - 1]->voxel),
            })
        }),
{
    let n = events.len() as int;
    assert(events.take(n) =~= events);
    assert(events.take(0) =~= Seq::empty());
    lemma_turn(config, state, events, 0);
    assert(run(config, state, FrameView::Idle, events.take(1)).1 is MoveCamera);
    assert(n >= 2);
    lemma_turn(config, state, events, n - 1);
    assert(run(config, state, FrameView::Idle, events.take(n - 1)).1 is PlaceCamera);
    assert(n >= 3);
    lemma_turn(config, state, events, n - 2);
    assert(run(config, state, FrameView::Idle, events.take(n - 2)).1 is MoveBall);
    assert(n >= 4);
    lemma_turn(config, state, events, n - 3);
    assert(run(config, state, FrameView::Idle, events.take(n - 3)).1 is CastSphere);
    assert(n >= 5);
    lemma_feet_within_frame(config, state, events, n);
}

/// A well-formed frame stays so with every answer.
pub proof fn law_answers_keep_frames_well_formed<S>(
    config: CameraCollisionConfig<S>,
    state: ControllerState,
    frame: FrameView<S>,
    event: EventView<S>,
)
    requires
        frame.wf(),
        frame.answered_by(event),
        path_fits(event),
    ensures
        controller::step(config, state, frame, event).1.wf(),
{
    if let FrameView::CheckConnections { path, projections, line_start, .. } = frame {
        let connected = event->connected;
        let found = ranges::unobstructed_ranges(projections, connected, line_start);
        assert forall|i: int| 0 <= i < found.len() implies ranges::lies_on_path(
            path.len(),
            #[trigger] found[i].0,
        ) by {
            laws::law_ranges_are_longest_unobstructed_runs(projections, connected, line_start, i);
        }
    }
}

/// From an idle controller on, frame and controller are consistent and the frame is well-formed at
/// every turn, over any number of frames.
pub proof fn law_every_turn_is_consistent_and_well_formed<S>(
    config: CameraCollisionConfig<S>,
    state: ControllerState,
    events: Seq<EventView<S>>,
    k: int,
)
    requires
        all_answer(config, state, FrameView::Idle, events),
        forall|i: int| 0 <= i < events.len() ==> path_fits(#[trigger] events[i]),
        0 <= k <= events.len(),
    ensures
        ({
            let (state, frame) = run(config, state, FrameView::Idle, events.take(k));
            &&& consistent(state, frame)
            &&& frame.wf()
        }),
    decreases k,
{
    if k > 0 {
        law_every_turn_is_consistent_and_well_formed(config, state, events, k - 1);
        let (before_state, before) = run(config, state, FrameView::Idle, events.take(k - 1));
        assert(path_fits(events[k - 1]));
        lemma_turn(config, state, events, k - 1);
        law_answers_keep_frame_and_controller_consistent(
            config,
            before_state,
            before,
            events[k - 1],
        );
        law_answers_keep_frames_well_formed(config, before_state, before, events[k - 1]);
    }
}

/// Within a frame, every answer costs one of those that are left.
proof fn lemma_answers_left_between<S>(
    config: CameraCollisionConfig<S>,
    state: ControllerState,
    events: Seq<EventView<S>>,
    a: int,
    b: int,
)
    requires
        within_frame(config, state, events),
        0 < a <= b <= events.len(),
    ensures
        answers_left(run(config, state, FrameView::Idle, events.take(b)).1) <= answers_left(
            run(config, state, FrameView::Idle, events.take(a)).1,
        ) - (b - a),
    decreases b - a,
{
    if a < b {
        lemma_answers_left_between(config, state, events, a, b - 1);
        let (before_state, before) = run(config, state, FrameView::Idle, events.take(b - 1));
        lemma_turn(config, state, events, b - 1);
        law_answers_bring_a_frame_to_its_end(config, before_state, before, events[b - 1]);
    }
}

/// When a frame comes to its sphere cast, it casts from the target exactly if the desired camera is
/// close to the target. Else it has searched a path, and casts from the projection of an
/// unobstructed point of that, or of the voxel that it searched from.
pub proof fn law_frame_casts_from_the_target_or_a_clear_point<S>(
    config: CameraCollisionConfig<S>,
    state: ControllerState,
    events: Seq<EventView<S>>,
)
    requires
        within_frame(config, state, events),
        run(config, state, FrameView::Idle, events).1 is CastSphere,
        forall|i: int| 0 <= i < events.len() ==> path_fits(#[trigger] events[i]),
    ensures
        casts_from_the_target_or_a_clear_point(
            run(config, state, FrameView::Idle, events).0,
            run(config, state, FrameView::Idle, events).1,
            events,
        ),
{
    let idle = FrameView::<S>::Idle;
    let n = events.len() as int;
    assert(events.take(n) =~= events);
    lemma_turn(config, state, events, 0);
    assert(events.take(0) =~= Seq::empty());
    assert(run(config, state, idle, events.take(1)).1 is MoveCamera);
    assert(n >= 2);
    lemma_turn(config, state, events, 1);
    lemma_answers_left_between(config, state, events, 2, n);
    if !events[1]->target_near_camera {
        assert(run(config, state, idle, events.take(2)).1 is FindPath);
        assert(n > 2);
        lemma_turn(config, state, events, 2);
        assert(run(config, state, idle, events.take(3)).1 is ProjectPath);
        assert(n > 3);
        lemma_turn(config, state, events, 3);
        let (searching, frame) = run(config, state, idle, events.take(4));
        assert(frame is CheckConnections);
        assert(n > 4);
        lemma_turn(config, state, events, 4);
        assert(run(config, state, idle, events.take(5)).1 is MeasureRanges);
        assert(n > 5);
        lemma_turn(config, state, events, 5);
        law_every_turn_is_consistent_and_well_formed(config, state, events, 4);
        let next = run(config, state, idle, events.take(6)).1;
        let (target_path, paths) = if next is FindCameraPaths {
            assert(n > 6);
            lemma_turn(config, state, events, 6);
            lemma_answers_left_between(config, state, events, 7, n);
            (events[6]->target_path, events[6]->paths)
        } else {
            lemma_answers_left_between(config, state, events, 6, n);
            (None, Seq::empty())
        };
        law_searched_cast_starts_unobstructed(
            config,
            searching,
            frame,
            events[4]->connected,
            events[5]->long,
            target_path,
            paths,
        );
    }
}

/// Every frame that ends has cast its sphere, two answers before the last: from the target exactly
/// if the desired camera was close to the target, else from the projection of an unobstructed point
/// of the path, or of the voxel that was searched from.
pub proof fn law_whole_frame_casts_from_the_target_or_a_clear_point<S>(
    config: CameraCollisionConfig<S>,
    state: ControllerState,
    events: Seq<EventView<S>>,
)
    requires
        within_frame(config, state, events),
        run(config, state, FrameView::Idle, events).1 is Idle,
        forall|i: int| 0 <= i < events.len() ==> path_fits(#[trigger] events[i]),
    ensures
        ({
            let before_cast = events.take(events.len() - 3);
            let (state, frame) = run(config, state, FrameView::Idle, before_cast);
            &&& events[events.len() - 3] is SphereCast
            &&& casts_from_the_target_or_a_clear_point(state, frame, before_cast)
        }),
{
    law_frame_is_remembered(config, state, events);
    let before_cast = events.take(events.len() - 3);
    assert forall|i: int| 0 <= i < before_cast.len() implies run(
        config,
        state,
        FrameView::Idle,
        #[trigger] before_cast.take(i),
    ).1.answered_by(before_cast[i]) by {
        assert(before_cast.take(i) =~= events.take(i));
        lemma_turn(config, state, events, i);
    }
    assert forall|k: int| 0 < k < before_cast.len() implies !(run(
        config,
        state,
        FrameView::Idle,
        #[trigger] before_cast.take(k),
    ).1 is Idle) by {
        assert(before_cast.take(k) =~= events.take(k));
    }
    assert forall|i: int| 0 <= i < before_cast.len() implies path_fits(
        #[trigger] before_cast[i],
    ) by {
        assert(path_fits(events[i]));
    }
    law_frame_casts_from_the_target_or_a_clear_point(config, state, before_cast);
}

/// If the desired camera is close to the target, the frame searches nothing: it casts the sphere
/// from the target, and takes five answers.
pub proof fn law_nearby_camera_is_cast_from_the_target<S>(
    config: CameraCollisionConfig<S>,
    state: ControllerState,
    frame: FrameView<S>,
    feet_voxel: Point,
    feet_voxel_is_empty: bool,
    camera_voxel: Point,
)
    requires
        frame is MoveCamera,
    ensures
        ({
            let event = EventView::Moved {
                feet_voxel,
                feet_voxel_is_empty,
                target_near_camera: true,
                camera_voxel,
            };
            let next = controller::step(config, state, frame, event).1;
            &&& next == (FrameView::CastSphere {
                cast_start: CastStart::Target,
                ball_radius: config.ball_radius,
            })
            &&& answers_left(next) == 3
        }),
{
}

} // verus!
