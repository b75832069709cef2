use keyframes::point::{Point3D, Point4D};
use keyframes::trajectory::Trajectory;

fn p(t: i64, x: i64, y: i64, z: i64) -> Point4D {
    Point4D::new(t, x, y, z)
}

#[test]
fn new_sorts_by_timestamp() {
    let t = Trajectory::new(vec![p(2, 9, 9, 9), p(0, 1, 1, 1), p(1, 5, 5, 5)]);
    let times: Vec<i64> = t.points.iter().map(|q| q.get_t()).collect();
    assert_eq!(times, vec![0, 1, 2]);
    for w in times.windows(2) {
        assert!(w[0] <= w[1]);
    }
}

#[test]
fn new_sort_is_stable_on_ties() {
    let t = Trajectory::new(vec![p(1, 10, 0, 0), p(0, 0, 0, 0), p(1, 20, 0, 0)]);
    assert_eq!(t.points[0].get_x(), 0);
    assert_eq!(t.points[1].get_x(), 10);
    assert_eq!(t.points[2].get_x(), 20);
}

#[test]
fn simplify_collapses_collinear_points() {
    // positions at t=0 (0,0,0), t=1 (1,1,1), t=2 (2,2,2): the middle
    // point lies exactly on the line, so it is dropped
    let t = Trajectory::new(vec![p(0, 0, 0, 0), p(1, 1, 1, 1), p(2, 2, 2, 2)]);
    let r = t.simplify(0);
    assert_eq!(r.points.len(), 2);
    assert_eq!(r.points[0], p(0, 0, 0, 0));
    assert_eq!(r.points[1], p(2, 2, 2, 2));
}

#[test]
fn simplify_keeps_rate_changes_at_zero_eps() {
    // the rate changes at the middle point, so nothing is dropped
    let t = Trajectory::new(vec![p(0, 0, 0, 0), p(1, 5, 5, 5), p(2, 1, 1, 1)]);
    let r = t.simplify(0);
    assert_eq!(r.points.len(), 3);
    assert_eq!(r.points[0], p(0, 0, 0, 0));
    assert_eq!(r.points[1], p(1, 5, 5, 5));
    assert_eq!(r.points[2], p(2, 1, 1, 1));
}

#[test]
fn simplify_with_huge_eps_collapses_to_two() {
    let t = Trajectory::new(vec![
        p(0, 0, 0, 0),
        p(1, 500, -300, 80),
        p(2, -90, 444, 17),
        p(3, 3, 3, 3),
        p(4, 12, -12, 12),
    ]);
    let r = t.simplify(i64::MAX);
    assert_eq!(r.points.len(), 2);
    assert_eq!(r.points[0], p(0, 0, 0, 0));
    assert_eq!(r.points[1], p(4, 12, -12, 12));
}

#[test]
fn simplify_returns_short_inputs_unchanged() {
    let empty = Trajectory::new(vec![]);
    assert_eq!(empty.simplify(i64::MAX).points.len(), 0);

    let single = Trajectory::new(vec![p(0, 7, 7, 7)]);
    let r1 = single.simplify(i64::MAX);
    assert_eq!(r1.points.len(), 1);
    assert_eq!(r1.points[0], p(0, 7, 7, 7));

    let pair = Trajectory::new(vec![p(0, 7, 7, 7), p(1, 8, 8, 8)]);
    let r2 = pair.simplify(i64::MAX);
    assert_eq!(r2.points.len(), 2);
    assert_eq!(r2.points[0], p(0, 7, 7, 7));
    assert_eq!(r2.points[1], p(1, 8, 8, 8));
}

#[test]
fn simplify_keeps_first_and_last() {
    let t = Trajectory::new(vec![
        p(0, 4, 4, 4),
        p(1, 0, 0, 0),
        p(2, 9, 1, 2),
        p(3, 5, 5, 5),
    ]);
    for eps in [0, 1, 10, 1000] {
        let r = t.simplify(eps);
        assert!(r.points.len() >= 2);
        assert_eq!(r.points[0], p(0, 4, 4, 4));
        assert_eq!(*r.points.last().unwrap(), p(3, 5, 5, 5));
    }
}

#[test]
fn simplify_duplicate_timestamps_use_fallback_denominator() {
    // all three points share a timestamp: the degenerate fallback
    // compares plain value differences against eps
    let t = Trajectory::new(vec![p(0, 0, 0, 0), p(0, 7, 0, 0), p(0, 4, 0, 0)]);
    let kept = t.simplify(5);
    assert_eq!(kept.points.len(), 3);
    let collapsed = t.simplify(7);
    assert_eq!(collapsed.points.len(), 2);
    assert_eq!(collapsed.points[0], p(0, 0, 0, 0));
    assert_eq!(collapsed.points[1], p(0, 4, 0, 0));
}

#[test]
fn append_rejects_non_causal_points() {
    let mut t = Trajectory::new(vec![p(0, 0, 0, 0), p(5, 1, 1, 1)]);
    t.append(p(5, 2, 2, 2));
    assert_eq!(t.points.len(), 2);
    t.append(p(3, 2, 2, 2));
    assert_eq!(t.points.len(), 2);
    t.append(p(6, 2, 2, 2));
    assert_eq!(t.points.len(), 3);
    assert_eq!(t.points[2], p(6, 2, 2, 2));
}

#[test]
fn duration_is_last_minus_first() {
    let t = Trajectory::new(vec![p(2, 0, 0, 0), p(10, 1, 1, 1), p(4, 2, 2, 2)]);
    assert_eq!(t.duration(), 8);
    let single = Trajectory::new(vec![p(3, 0, 0, 0)]);
    assert_eq!(single.duration(), 0);
    let empty = Trajectory::new(vec![]);
    assert_eq!(empty.duration(), 0);
}

#[test]
fn shift_translates_coordinates_and_keeps_times() {
    let t = Trajectory::new(vec![p(0, 1, 2, 3), p(1, 4, 5, 6)]);
    let s = t.shift_in_place(Point3D::new(10, -20, 30));
    assert_eq!(s.points[0], p(0, 11, -18, 33));
    assert_eq!(s.points[1], p(1, 14, -15, 36));
}

#[test]
fn shift_round_trip_restores_coordinates() {
    let t = Trajectory::new(vec![p(0, 1, 2, 3), p(1, -4, 5, -6), p(2, 7, -8, 9)]);
    let offset = Point3D::new(123, -456, 789);
    let back = t
        .shift_in_place(offset)
        .shift_in_place(Point3D::new(-123, 456, -789));
    assert_eq!(back.points, t.points);
}

#[test]
fn shift_time_translates_timestamps() {
    let t = Trajectory::new(vec![p(0, 1, 1, 1), p(5, 2, 2, 2)]);
    let s = t.shift_time_in_place(100);
    assert_eq!(s.points[0], p(100, 1, 1, 1));
    assert_eq!(s.points[1], p(105, 2, 2, 2));
    assert_eq!(s.duration(), 5);
}

#[test]
fn simplify_in_place_collapses_runs_of_duplicates() {
    // three consecutive identical points followed by a distinct one:
    // the run survives as a single representative
    let a = p(1, 2, 3, 4);
    let b = p(5, 6, 7, 8);
    let t = Trajectory { points: vec![a, a, a, b] };
    let r = t.simplify_in_place();
    assert_eq!(r.points, vec![a, b]);
}

#[test]
fn simplify_in_place_keeps_distinct_points() {
    let pts = vec![p(0, 0, 0, 0), p(1, 0, 0, 0), p(2, 5, 5, 5)];
    let t = Trajectory::new(pts.clone());
    let r = t.simplify_in_place();
    assert_eq!(r.points, pts);
    let empty = Trajectory::new(vec![]);
    assert_eq!(empty.simplify_in_place().points.len(), 0);
}
