use keyframes::point::{Point4D, COORD_LIMIT};
use keyframes::trajectory::Trajectory;
use keyframes::yaw::{YawSetPoint, YawSetpointList, ANGLE_LIMIT};

#[test]
fn simplify_at_coordinate_limits() {
    let t = Trajectory::new(vec![
        Point4D::new(0, COORD_LIMIT, -COORD_LIMIT, COORD_LIMIT),
        Point4D::new(1, 0, 0, 0),
        Point4D::new(2, -COORD_LIMIT, COORD_LIMIT, -COORD_LIMIT),
    ]);
    // the middle point lies exactly on the line between the extremes
    let collapsed = t.simplify(0);
    assert_eq!(collapsed.points.len(), 2);

    let bent = Trajectory::new(vec![
        Point4D::new(0, COORD_LIMIT, 0, 0),
        Point4D::new(1, COORD_LIMIT, 0, 0),
        Point4D::new(2, -COORD_LIMIT, 0, 0),
    ]);
    assert_eq!(bent.simplify(0).points.len(), 3);
    assert_eq!(bent.simplify(i64::MAX).points.len(), 2);
}

#[test]
fn yaw_simplify_at_angle_limit() {
    // angles near the storage bound with a tiny spread: 2^32 - 1000
    // leaves remainder 336 modulo 360, so the list shifts down to 336
    let big = ANGLE_LIMIT - 1000;
    let mut l = YawSetpointList::new(vec![
        YawSetPoint::new(0, big),
        YawSetPoint::new(1, big),
    ]);
    let r = l.simplify();
    assert_eq!(r.len(), 2);
    assert_eq!(r[0].get_angle(), 336);
    assert_eq!(r[1].get_angle(), 336);
}

#[test]
fn yaw_simplify_twice_is_stable() {
    // after one pass the first angle is already in [0, 360), so a
    // second pass shifts by zero and merges nothing further
    let mut l = YawSetpointList::new(vec![
        YawSetPoint::new(0, 725),
        YawSetPoint::new(1, 735),
        YawSetPoint::new(2, 745),
        YawSetPoint::new(3, 800),
    ]);
    let first = l.simplify();
    let second = l.simplify();
    assert_eq!(
        first.iter().map(|s| (s.get_time(), s.get_angle())).collect::<Vec<_>>(),
        vec![(0, 5), (2, 25), (3, 80)]
    );
    assert_eq!(
        second.iter().map(|s| (s.get_time(), s.get_angle())).collect::<Vec<_>>(),
        vec![(0, 5), (2, 25), (3, 80)]
    );
}

#[test]
fn unwrap_yaw_at_angle_limit() {
    let mut l = YawSetpointList::new(vec![
        YawSetPoint::new(0, ANGLE_LIMIT),
        YawSetPoint::new(1, 0),
    ]);
    let r = l.unwrap_yaw(180, 180);
    // the difference of -2^32 is brought within 180 by whole multiples
    // of 180: 23860929 cycles of 180 degrees
    assert_eq!(r[0].get_angle(), ANGLE_LIMIT);
    assert_eq!(r[1].get_angle(), 4294967220);
    let diff = r[1].get_angle() - r[0].get_angle();
    assert!(-180 <= diff && diff <= 180);
}
