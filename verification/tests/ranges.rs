use std::collections::HashMap;

use camera_collision::config::CameraCollisionConfig;
use camera_collision::lattice::Point;
use camera_collision::ranges::{
    connection_search, connection_searches, find_start_of_sphere_cast_in_range,
    find_starts_of_sphere_cast, find_unobstructed_ranges, keep_long_ranges, point_is_obstructed,
    PathProjection, PathRange,
};

const TEST_CONFIG: CameraCollisionConfig<f32> = CameraCollisionConfig {
    ball_radius: 1.0,
    min_obstruction_width: 3.0,
    min_range_length: 0.0,
    not_worth_searching_dist: 4.0,
    max_search_iterations: 2000,
    projection_connection_max_iterations: 10,
    camera_lock_threshold: 2.0,
    camera_lock_radius: 0.8,
    range_point_selection_offset: 1,
};

fn point(x: i32, y: i32, z: i32) -> Point {
    Point { x, y, z }
}

/// A line through `p` in the direction of the unit vector `v`.
struct Line {
    p: [f32; 3],
    v: [f32; 3],
}

impl Line {
    fn from_endpoints(start: [f32; 3], end: [f32; 3]) -> Line {
        let d = diff(end, start);
        let norm = dot(d, d).sqrt();
        Line { p: start, v: [d[0] / norm, d[1] / norm, d[2] / norm] }
    }

    fn project(&self, q: [f32; 3]) -> [f32; 3] {
        let t = dot(diff(q, self.p), self.v);
        [self.p[0] + t * self.v[0], self.p[1] + t * self.v[1], self.p[2] + t * self.v[2]]
    }
}

fn diff(a: [f32; 3], b: [f32; 3]) -> [f32; 3] {
    [a[0] - b[0], a[1] - b[1], a[2] - b[2]]
}

fn dot(a: [f32; 3], b: [f32; 3]) -> f32 {
    a[0] * b[0] + a[1] * b[1] + a[2] * b[2]
}

fn l1(a: Point, b: Point) -> f32 {
    ((a.x - b.x).abs() + (a.y - b.y).abs() + (a.z - b.z).abs()) as f32
}

/// Searches from `start` for `finish`, taking the voxel with the best score first.
fn find_path(
    start: Point,
    finish: Point,
    is_empty: &dyn Fn(&Point) -> bool,
    max_iterations: usize,
    score: &dyn Fn(Point) -> f32,
) -> (bool, Vec<Point>) {
    let key = |p: Point| (p.x, p.y, p.z);
    let mut came_from = HashMap::new();
    came_from.insert(key(start), None);
    let mut open = vec![start];
    let mut best = start;
    for _ in 0..max_iterations {
        let mut next = 0;
        for i in 0..open.len() {
            if score(open[i]) < score(open[next]) {
                next = i;
            }
        }
        if open.is_empty() {
            break;
        }
        let p = open.remove(next);
        if score(p) < score(best) {
            best = p;
        }
        if p == finish {
            best = p;
            break;
        }
        for (dx, dy, dz) in
            [(1, 0, 0), (-1, 0, 0), (0, 1, 0), (0, -1, 0), (0, 0, 1), (0, 0, -1)]
        {
            let q = point(p.x + dx, p.y + dy, p.z + dz);
            if !came_from.contains_key(&key(q)) && is_empty(&q) {
                came_from.insert(key(q), Some(p));
                open.push(q);
            }
        }
    }
    let mut path = vec![best];
    while let Some(Some(p)) = came_from.get(&key(path[path.len() - 1])) {
        path.push(*p);
    }
    path.reverse();
    (best == finish, path)
}

fn unobstructed_ranges(
    path: &[Point],
    eye_line: &Line,
    is_empty: &dyn Fn(&Point) -> bool,
    config: &CameraCollisionConfig<f32>,
) -> Vec<PathRange<f32>> {
    let mut projections = Vec::new();
    for p in path {
        let q = [p.x as f32, p.y as f32, p.z as f32];
        let projection = eye_line.project(q);
        let rejection = diff(q, projection);
        let along = diff(projection, eye_line.p);
        let voxel = point(
            projection[0].floor() as i32,
            projection[1].floor() as i32,
            projection[2].floor() as i32,
        );
        projections.push(PathProjection {
            near_line: dot(rejection, rejection) < config.min_obstruction_width.powi(2),
            voxel,
            voxel_is_empty: is_empty(&voxel),
            distance: dot(along, along).sqrt(),
        });
    }
    let mut connected = Vec::new();
    for search in connection_searches(path, &projections) {
        connected.push(match search {
            Some((from, to)) => {
                let limit = config.projection_connection_max_iterations;
                find_path(from, to, is_empty, limit, &|p| l1(p, to)).0
            }
            None => false,
        });
    }
    let all = find_unobstructed_ranges(&projections, &connected, 0.0);
    let mut long = Vec::new();
    for range in &all {
        long.push(range.1[1] - range.1[0] > config.min_range_length);
    }
    keep_long_ranges(&all, &long)
}

#[test]
fn test_best_unobstructed_range_without_obstructions() {
    let voxel_is_empty_fn = |_p: &Point| true;

    let eye_line = Line::from_endpoints([0.0, 0.0, 0.0], [10.0, 0.0, 0.0]);

    let mut path = Vec::new();
    for i in 0..10 {
        path.push(point(i, 0, 0));
    }

    let ranges = unobstructed_ranges(&path, &eye_line, &voxel_is_empty_fn, &TEST_CONFIG);

    assert_eq!(ranges, vec![([0, 10], [0.0, 9.0])]);
}

#[test]
fn test_best_unobstructed_range_with_one_obstruction() {
    // Put a spherical obstruction centered at (0, 0, 0).
    let voxel_is_empty_fn = |p: &Point| {
        let dot = p.x * p.x + p.y * p.y + p.z * p.z;

        dot > (TEST_CONFIG.min_obstruction_width as i32 + 1).pow(2)
    };

    let eye_line = Line::from_endpoints([0.0, 0.0, 0.0], [1.0, 0.0, 0.0]);

    let start = point(-20, 0, 0);
    let finish = point(100, 0, 0);
    let (reached_finish, path) = find_path(start, finish, &voxel_is_empty_fn, 300, &|p| {
        l1(p, finish) + ((p.y * p.y + p.z * p.z) as f32).sqrt()
    });
    assert!(reached_finish);

    let ranges = unobstructed_ranges(&path, &eye_line, &voxel_is_empty_fn, &TEST_CONFIG);

    assert_eq!(ranges.len(), 2);

    // Second range should start just after the obstacle, which is much closer to the start
    // than the finish, and extend to the very end.
    assert!(ranges[1].0[0] <= 60, "{:?}", ranges[1]);
    assert_eq!(ranges[1].0[1], path.len());
}

/// A point near the line where the flag is clear, and one in front of a solid voxel where it is
/// set.
fn projections(obstructed: &[bool]) -> Vec<PathProjection<i32>> {
    let mut projections = Vec::new();
    for (i, o) in obstructed.iter().enumerate() {
        projections.push(PathProjection {
            near_line: !*o,
            voxel: point(i as i32, 0, 0),
            voxel_is_empty: false,
            distance: 10 + i as i32,
        });
    }
    projections
}

fn ranges_of(obstructed: &[bool]) -> Vec<PathRange<i32>> {
    find_unobstructed_ranges(&projections(obstructed), &vec![false; obstructed.len()], 0)
}

#[test]
fn empty_path_has_no_range() {
    assert_eq!(ranges_of(&[]), vec![]);
}

#[test]
fn obstructed_path_has_no_range() {
    assert_eq!(ranges_of(&[true, true, true]), vec![]);
}

#[test]
fn clear_path_is_one_range() {
    assert_eq!(ranges_of(&[false]), vec![([0, 1], [0, 10])]);
    assert_eq!(ranges_of(&[false, false, false]), vec![([0, 3], [0, 12])]);
}

#[test]
fn range_ends_at_the_distance_of_its_obstruction() {
    assert_eq!(ranges_of(&[false, false, true]), vec![([0, 2], [0, 12])]);
}

#[test]
fn range_starts_at_the_distance_of_its_first_point() {
    assert_eq!(ranges_of(&[true, false, false]), vec![([1, 3], [11, 12])]);
}

#[test]
fn ranges_are_ordered_and_separated() {
    assert_eq!(
        ranges_of(&[false, true, true, false, true, false, false]),
        vec![([0, 1], [0, 11]), ([3, 4], [13, 14]), ([5, 7], [15, 16])]
    );
}

#[test]
fn point_near_the_line_is_not_obstructed() {
    let p = point(1, 2, 3);
    let projection =
        PathProjection { near_line: true, voxel: point(1, 0, 0), voxel_is_empty: true, distance: 1 };
    assert_eq!(connection_search(&p, &projection), None);
    assert!(!point_is_obstructed(&projection, false));
    assert!(!point_is_obstructed(&projection, true));
}

#[test]
fn point_with_solid_projection_is_obstructed() {
    let p = point(1, 2, 3);
    let projection = PathProjection {
        near_line: false,
        voxel: point(1, 0, 0),
        voxel_is_empty: false,
        distance: 1,
    };
    assert_eq!(connection_search(&p, &projection), None);
    assert!(point_is_obstructed(&projection, false));
    assert!(point_is_obstructed(&projection, true));
}

#[test]
fn point_with_empty_projection_is_obstructed_unless_connected() {
    let p = point(1, 2, 3);
    let projection = PathProjection {
        near_line: false,
        voxel: point(1, 0, 0),
        voxel_is_empty: true,
        distance: 1,
    };
    assert_eq!(connection_search(&p, &projection), Some((point(1, 0, 0), p)));
    assert!(point_is_obstructed(&projection, false));
    assert!(!point_is_obstructed(&projection, true));
}

#[test]
fn long_ranges_are_kept_in_order() {
    let all = ranges_of(&[false, true, false, true, false]);
    assert_eq!(all.len(), 3);
    assert_eq!(
        keep_long_ranges(&all, &[true, false, true]),
        vec![([0, 1], [0, 11]), ([4, 5], [14, 14])]
    );
    assert_eq!(keep_long_ranges(&all, &[false, false, false]), vec![]);
}

#[test]
fn point_is_selected_before_the_end_of_a_range() {
    let mut path = Vec::new();
    for i in 0..10 {
        path.push(point(i, 0, 0));
    }
    assert_eq!(find_start_of_sphere_cast_in_range(&path, &[2, 8], 3), point(5, 0, 0));
    // As long as the offset, or shorter.
    assert_eq!(find_start_of_sphere_cast_in_range(&path, &[2, 5], 3), point(2, 0, 0));
    assert_eq!(find_start_of_sphere_cast_in_range(&path, &[2, 4], 3), point(2, 0, 0));
    // Without an offset, the last point of the range is selected, also at the end of the path.
    assert_eq!(find_start_of_sphere_cast_in_range(&path, &[2, 8], 0), point(7, 0, 0));
    assert_eq!(find_start_of_sphere_cast_in_range(&path, &[2, 8], 1), point(7, 0, 0));
    assert_eq!(find_start_of_sphere_cast_in_range(&path, &[6, 10], 0), point(9, 0, 0));
    assert_eq!(find_start_of_sphere_cast_in_range(&path, &[4, 5], 0), point(4, 0, 0));
    assert_eq!(find_start_of_sphere_cast_in_range(&path, &[2, 8], usize::MAX), point(2, 0, 0));
    assert_eq!(
        find_starts_of_sphere_cast(&path, &[([0, 4], [0, 4]), ([6, 10], [6, 9])], 1),
        vec![point(3, 0, 0), point(9, 0, 0)]
    );
}
