use camera_collision::lattice::Point;
use camera_collision::selection::closest_point;

fn point(x: i32) -> Point {
    Point { x, y: 0, z: 0 }
}

#[test]
fn closest_point_wins() {
    let points = [point(1), point(2), point(3)];
    assert_eq!(closest_point(Some((point(0), 9)), &points, &[5, 4, 6]), Some(point(2)));
}

#[test]
fn first_of_equally_close_points_wins() {
    let points = [point(1), point(2), point(3)];
    assert_eq!(closest_point(Some((point(0), 9)), &points, &[5, 4, 4]), Some(point(2)));
}

#[test]
fn target_wins_ties() {
    let points = [point(1), point(2)];
    assert_eq!(closest_point(Some((point(0), 4)), &points, &[4, 5]), Some(point(0)));
    assert_eq!(closest_point(Some((point(0), 4)), &[], &[]), Some(point(0)));
}

#[test]
fn nothing_is_chosen_without_target_and_close_points() {
    assert_eq!(closest_point(None, &[], &[]), None);
    assert_eq!(closest_point(None, &[point(1)], &[usize::MAX]), None);
    assert_eq!(closest_point(None, &[point(1)], &[usize::MAX - 1]), Some(point(1)));
}
