use tower_defense::geometry::Vec3i;
use tower_defense::track::{Path, PERCENT_SCALE};

fn p(x: i64, y: i64, z: i64) -> Vec3i {
    Vec3i::new(x, y, z)
}

#[test]
fn test_total_length() {
    let path = Path::new(0, vec![p(0, 0, 0), p(10, 0, 0), p(30, 0, 0)]);
    assert_eq!(path.total_length(), 30);
}

#[test]
fn test_total_length_2() {
    let path = Path::new(0, vec![p(0, 0, 0), p(10, 0, 0), p(10, 30, 0)]);
    assert_eq!(path.total_length(), 40);
}

#[test]
fn test_get_point_along_path_percent() {
    let path = Path::new(0, vec![p(0, 0, 0), p(10, 0, 0), p(30, 0, 0)]);
    assert_eq!(path.node_percent(0), 0);
    assert_eq!(path.node_percent(1), PERCENT_SCALE / 3);
    assert_eq!(path.node_percent(2), PERCENT_SCALE);
    assert_eq!(path.get_point_along_path_percent(0), p(0, 0, 0));
    assert_eq!(path.get_point_along_path_percent(PERCENT_SCALE / 2), p(15, 0, 0));
}

#[test]
fn test_get_point_along_path_distance() {
    let path = Path::new(0, vec![p(0, 0, 0), p(10, 0, 0), p(30, 0, 0)]);
    assert_eq!(path.node_distance(0), 0);
    assert_eq!(path.node_distance(1), 10);
    assert_eq!(path.node_distance(2), 30);
    assert_eq!(path.get_point_along_path(0), p(0, 0, 0));
    assert_eq!(path.get_point_along_path(5), p(5, 0, 0));
}

#[test]
fn test_percents_monotone_on_bent_path() {
    let path = Path::new(7, vec![p(0, 0, 0), p(3, 4, 0), p(3, 4, 12), p(3, 4, 12), p(9, 4, 12)]);
    assert_eq!(path.node_percent(0), 0);
    for i in 1..path.node_count() {
        assert!(path.node_percent(i - 1) <= path.node_percent(i));
    }
    assert_eq!(path.node_percent(path.node_count() - 1), PERCENT_SCALE);
}

#[test]
fn test_point_query_idempotent_and_monotone() {
    let path = Path::new(0, vec![p(0, 0, 0), p(10, 0, 0), p(30, 0, 0)]);
    let a = path.get_point_along_path(12);
    let b = path.get_point_along_path(12);
    assert_eq!(a, b);
    // Points for growing distances advance along the single axis of this
    // path, never backwards.
    let mut last_x = i64::MIN;
    for d in [0u64, 1, 5, 10, 11, 20, 29, 30] {
        let q = path.get_point_along_path(d);
        assert!(q.x >= last_x);
        last_x = q.x;
    }
}

#[test]
fn test_degenerate_paths_clamp() {
    // A single-point path returns its sole point for any query.
    let single = Path::new(1, vec![p(4, 5, 6)]);
    assert_eq!(single.total_length(), 0);
    assert_eq!(single.get_point_along_path(0), p(4, 5, 6));
    assert_eq!(single.get_point_along_path(99), p(4, 5, 6));
    assert_eq!(single.get_point_along_path_percent(123), p(4, 5, 6));
    // A zero-length multi-node path never divides by zero.
    let flat = Path::new(2, vec![p(1, 1, 1), p(1, 1, 1), p(1, 1, 1)]);
    assert_eq!(flat.total_length(), 0);
    assert_eq!(flat.node_percent(0), 0);
    assert_eq!(flat.node_percent(2), PERCENT_SCALE);
    assert_eq!(flat.get_point_along_path(17), p(1, 1, 1));
    // Queries beyond the end clamp to the final point.
    let path = Path::new(3, vec![p(0, 0, 0), p(10, 0, 0)]);
    assert_eq!(path.get_point_along_path(1000), p(10, 0, 0));
    assert_eq!(path.get_point_along_path_percent(2 * PERCENT_SCALE), p(10, 0, 0));
}
