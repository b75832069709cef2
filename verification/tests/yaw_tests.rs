use keyframes::yaw::{YawSetPoint, YawSetpointList};

fn sp(time: i64, angle: i64) -> YawSetPoint {
    YawSetPoint::new(time, angle)
}

fn angles(l: &[YawSetPoint]) -> Vec<(i64, i64)> {
    l.iter().map(|s| (s.get_time(), s.get_angle())).collect()
}

#[test]
fn new_sorts_setpoints_by_timestamp() {
    let l = YawSetpointList::new(vec![sp(3, 30), sp(1, 10), sp(2, 20)]);
    assert_eq!(angles(&l.setpoints), vec![(1, 10), (2, 20), (3, 30)]);
}

#[test]
fn append_rejects_non_causal_setpoints() {
    let mut l = YawSetpointList::new(vec![]);
    // appending to an empty list is rejected as well
    l.append(sp(0, 0));
    assert_eq!(l.setpoints.len(), 0);

    let mut l = YawSetpointList::new(vec![sp(0, 0), sp(1, 10)]);
    l.append(sp(1, 20));
    assert_eq!(l.setpoints.len(), 2);
    l.append(sp(0, 20));
    assert_eq!(l.setpoints.len(), 2);
    l.append(sp(2, 20));
    assert_eq!(l.setpoints.len(), 3);
    assert_eq!(l.setpoints[2], sp(2, 20));
}

#[test]
fn shift_translates_every_angle() {
    let mut l = YawSetpointList::new(vec![sp(0, 10), sp(1, -20)]);
    l.shift(100);
    assert_eq!(angles(&l.setpoints), vec![(0, 110), (1, 80)]);
}

#[test]
fn simplify_merges_constant_speed_ramps() {
    // setpoints at t=0 angle=0, t=1 angle=10, t=2 angle=20 share the
    // speed of 10 degrees per second and merge; the t=3 angle=35 point
    // has a different speed and is retained
    let mut l = YawSetpointList::new(vec![sp(0, 0), sp(1, 10), sp(2, 20), sp(3, 35)]);
    let r = l.simplify();
    assert_eq!(angles(&r), vec![(0, 0), (2, 20), (3, 35)]);
    assert_eq!(angles(&l.setpoints), vec![(0, 0), (2, 20), (3, 35)]);
}

#[test]
fn simplify_merges_long_ramps_to_endpoints() {
    let mut l = YawSetpointList::new(vec![
        sp(0, 0),
        sp(1, 10),
        sp(2, 20),
        sp(3, 30),
        sp(4, 40),
    ]);
    let r = l.simplify();
    assert_eq!(angles(&r), vec![(0, 0), (4, 40)]);
}

#[test]
fn simplify_normalizes_first_angle_and_shifts_list() {
    // first angle 370 normalizes to 10; the whole list shifts by -360
    let mut l = YawSetpointList::new(vec![sp(0, 370), sp(1, 380)]);
    let r = l.simplify();
    assert_eq!(angles(&r), vec![(0, 10), (1, 20)]);

    // a negative first angle normalizes into [0, 360) as well
    let mut l = YawSetpointList::new(vec![sp(0, -10), sp(1, 5)]);
    let r = l.simplify();
    assert_eq!(angles(&r), vec![(0, 350), (1, 365)]);
}

#[test]
fn simplify_drops_non_causal_setpoints() {
    // two setpoints share a timestamp: the later duplicate is dropped
    // with a diagnostic rather than dividing by a zero timespan
    let mut l = YawSetpointList::new(vec![sp(0, 0), sp(0, 50), sp(1, 10)]);
    let r = l.simplify();
    assert_eq!(angles(&r), vec![(0, 0), (1, 10)]);
}

#[test]
fn simplify_of_empty_list_is_empty() {
    let mut l = YawSetpointList::new(vec![]);
    let r = l.simplify();
    assert_eq!(r.len(), 0);
    assert_eq!(l.setpoints.len(), 0);
}

#[test]
fn unwrap_yaw_subtracts_cycles_above_threshold() {
    // setpoints [(0, 0), (1, 190)]: the difference of 190 exceeds the
    // threshold of 180, so one whole 180-degree cycle is subtracted
    // and the second angle becomes 10
    let mut l = YawSetpointList::new(vec![sp(0, 0), sp(1, 190)]);
    let r = l.unwrap_yaw(180, 180);
    assert_eq!(angles(&r), vec![(0, 0), (1, 10)]);
}

#[test]
fn unwrap_yaw_adds_cycles_below_negative_threshold() {
    let mut l = YawSetpointList::new(vec![sp(0, 0), sp(1, -190)]);
    let r = l.unwrap_yaw(180, 180);
    assert_eq!(angles(&r), vec![(0, 0), (1, -10)]);
}

#[test]
fn unwrap_yaw_bounds_every_adjacent_pair() {
    let mut l = YawSetpointList::new(vec![sp(0, 0), sp(1, 190), sp(2, 380), sp(3, -400)]);
    let r = l.unwrap_yaw(180, 180);
    assert_eq!(r.len(), 4);
    for w in r.windows(2) {
        let diff = w[1].get_angle() - w[0].get_angle();
        assert!(-180 <= diff && diff <= 180);
    }
    // the caller-supplied arguments are ignored: the fixed constants
    // give the same result whatever is passed
    let mut l2 = YawSetpointList::new(vec![sp(0, 0), sp(1, 190), sp(2, 380), sp(3, -400)]);
    let r2 = l2.unwrap_yaw(9999, 1);
    assert_eq!(angles(&r), angles(&r2));
}

#[test]
fn unwrap_yaw_leaves_short_lists_unchanged() {
    let mut empty = YawSetpointList::new(vec![]);
    assert_eq!(empty.unwrap_yaw(180, 180).len(), 0);
    let mut single = YawSetpointList::new(vec![sp(0, 5000)]);
    let r = single.unwrap_yaw(180, 180);
    assert_eq!(angles(&r), vec![(0, 5000)]);
}

#[test]
fn unwrap_yaw_leaves_in_threshold_pairs_unchanged() {
    let mut l = YawSetpointList::new(vec![sp(0, 0), sp(1, 170), sp(2, 340)]);
    let r = l.unwrap_yaw(180, 180);
    assert_eq!(angles(&r), vec![(0, 0), (1, 170), (2, 340)]);
}

#[test]
fn setpoint_accessors_and_change_angle() {
    let mut s = sp(7, 42);
    assert_eq!(s.get_time(), 7);
    assert_eq!(s.get_angle(), 42);
    s.change_angle(-50);
    assert_eq!(s.get_angle(), -8);
    assert_eq!(s.get_time(), 7);
}
