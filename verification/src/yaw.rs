//! Causal yaw setpoint lists: angular setpoints over time, with angle
//! shifting, angular-speed-based merging and angle unwrapping. Angles
//! are integer degrees, clockwise-positive and unbounded (they are not
//! normalized to [0, 360) except for the first setpoint at the start of
//! simplification); the yaw rate is assumed constant between setpoints.

use vstd::prelude::*;
use crate::metric::lemma_mul_bound;
use crate::point::COORD_LIMIT;
use crate::series::{copy_keyframes, sort_by_time, sorted_by_time, stable_sort_by_time, Timed,
    lemma_sort_by_time_elems};
use vstd::arithmetic::div_mod::{lemma_fundamental_div_mod, lemma_mod_bound,
    lemma_mod_multiples_basic, lemma_mod_multiples_vanish};

verus! {

/// Bound on stored yaw angles, in degrees.
pub const ANGLE_LIMIT: i64 = 0x1_0000_0000;

/// Bound on how far a list's angles may spread around its first angle
/// when simplification starts, so that normalizing the first angle and
/// shifting the whole list stays within `ANGLE_LIMIT`.
pub const SIMPLIFY_SPREAD_LIMIT: i64 = 0x1_0000_0000 - 360;

/// The threshold on adjacent angular differences enforced by
/// `unwrap_yaw`, in degrees. The caller-supplied arguments are ignored
/// in favor of this fixed constant.
pub const UNWRAP_THRESHOLD: i64 = 180;

/// The cycle length that `unwrap_yaw` adds or subtracts in whole
/// multiples, in degrees. Deliberately 180 rather than 360: the
/// caller-supplied argument is ignored in favor of this fixed constant.
pub const UNWRAP_FULL_CYCLE: i64 = 180;

/// A yaw setpoint: a timestamp and an angle in degrees.
#[derive(Clone, Copy, PartialEq, Eq, Structural, Debug)]
pub struct YawSetPoint {
    pub time: i64,
    pub angle: i64,
}

impl YawSetPoint {
    pub open spec fn wf(self) -> bool {
        &&& -COORD_LIMIT <= self.time <= COORD_LIMIT
        &&& -ANGLE_LIMIT <= self.angle <= ANGLE_LIMIT
    }

    pub fn new(time: i64, angle: i64) -> (p: Self)
        requires
            -COORD_LIMIT <= time <= COORD_LIMIT,
            -ANGLE_LIMIT <= angle <= ANGLE_LIMIT,
        ensures
            p == (YawSetPoint { time, angle }),
            p.wf(),
    {
        YawSetPoint { time, angle }
    }

    pub fn get_time(&self) -> (t: i64)
        ensures
            t == self.time,
    {
        self.time
    }

    pub fn get_angle(&self) -> (a: i64)
        ensures
            a == self.angle,
    {
        self.angle
    }

    /// Increase the angle by `delta`.
    pub fn change_angle(&mut self, delta: i64)
        requires
            -ANGLE_LIMIT <= old(self).angle as int + delta as int <= ANGLE_LIMIT,
        ensures
            final (self).time == old(self).time,
            final (self).angle as int == old(self).angle as int + delta as int,
    {
        self.angle = self.angle + delta;
    }
}

impl Timed for YawSetPoint {
    open spec fn time(self) -> int {
        self.time as int
    }

    fn time_exec(&self) -> (t: i64)
        ensures
            t as int == self.time(),
    {
        self.time
    }
}

/// Every setpoint of the sequence is within the time and angle bounds.
pub open spec fn all_setpoints_wf(s: Seq<YawSetPoint>) -> bool {
    forall|i: int| 0 <= i < s.len() ==> (#[trigger] s[i]).wf()
}

/// `s` with `delta` added to every angle, timestamps preserved.
pub open spec fn shift_angles(s: Seq<YawSetPoint>, delta: int) -> Seq<YawSetPoint> {
    Seq::new(
        s.len(),
        |i: int| YawSetPoint { time: s[i].time, angle: (s[i].angle as int + delta) as i64 },
    )
}

/// Two angular speeds `da1 / dt1` and `da2 / dt2` are equal, decided by
/// cross-multiplication (exact for positive denominators).
pub open spec fn speed_eq(da1: int, dt1: int, da2: int, dt2: int) -> bool {
    da1 * dt2 == da2 * dt1
}

/// One left-to-right merging pass over `s` from position `i`: setpoints
/// already kept are in `acc` and the angular speed of the most recent
/// causal step is in `sp` (`None` before any step). A setpoint whose
/// timestamp does not strictly exceed the last kept setpoint's is
/// dropped (a reported causality violation); a setpoint continuing the
/// previous constant-rate ramp replaces the last kept setpoint, so only
/// the first and last setpoints of each ramp survive.
pub open spec fn merge_from(
    s: Seq<YawSetPoint>,
    i: int,
    acc: Seq<YawSetPoint>,
    sp: Option<(int, int)>,
) -> Seq<YawSetPoint>
    decreases s.len() - i,
{
    if !(0 <= i < s.len()) {
        acc
    } else {
        let p = s[i];
        if acc.len() == 0 {
            merge_from(s, i + 1, acc.push(p), sp)
        } else {
            let last = acc.last();
            let dt = p.time as int - last.time as int;
            if dt <= 0 {
                merge_from(s, i + 1, acc, sp)
            } else {
                let da = p.angle as int - last.angle as int;
                let merged = match sp {
                    Option::Some(prev) => speed_eq(da, dt, prev.0, prev.1),
                    Option::None => false,
                };
                if merged {
                    merge_from(s, i + 1, acc.update(acc.len() - 1, p), Option::Some((da, dt)))
                } else {
                    merge_from(s, i + 1, acc.push(p), Option::Some((da, dt)))
                }
            }
        }
    }
}

/// The merging pass over all of `s`.
pub open spec fn merge_setpoints(s: Seq<YawSetPoint>) -> Seq<YawSetPoint> {
    merge_from(s, 0, Seq::empty(), Option::None)
}

/// The shift that brings the first angle of `s` into [0, 360).
pub open spec fn normalize_delta(s: Seq<YawSetPoint>) -> int {
    (s[0].angle as int) % 360 - s[0].angle as int
}

/// What `simplify` leaves in the list: the whole series shifted so its
/// first angle is normalized into [0, 360), then merged.
pub open spec fn simplified_setpoints(s: Seq<YawSetPoint>) -> Seq<YawSetPoint> {
    if s.len() == 0 {
        s
    } else {
        merge_setpoints(shift_angles(s, normalize_delta(s)))
    }
}

proof fn lemma_merge_from_boundaries(
    s: Seq<YawSetPoint>,
    i: int,
    acc: Seq<YawSetPoint>,
    sp: Option<(int, int)>,
)
    requires
        1 <= i <= s.len(),
        acc.len() >= 1,
        acc.last() == s[i - 1],
        acc.len() == 1 ==> sp is None,
        forall|j: int| 0 <= j < s.len() - 1 ==> (#[trigger] s[j]).time < s[j + 1].time,
    ensures
        merge_from(s, i, acc, sp).len() >= 1,
        merge_from(s, i, acc, sp)[0] == acc[0],
        merge_from(s, i, acc, sp).last() == s.last(),
    decreases s.len() - i,
{
    if i < s.len() {
        let p = s[i];
        let last = acc.last();
        assert(s[i - 1].time < s[i].time);
        let dt = p.time as int - last.time as int;
        let da = p.angle as int - last.angle as int;
        let merged = match sp {
            Option::Some(prev) => speed_eq(da, dt, prev.0, prev.1),
            Option::None => false,
        };
        let acc2 = if merged {
            acc.update(acc.len() - 1, p)
        } else {
            acc.push(p)
        };
        lemma_merge_from_boundaries(s, i + 1, acc2, Option::Some((da, dt)));
    }
}

/// Both reduction strategies preserve their boundaries: like the
/// divide-and-conquer simplifier, the angular-speed merge over a
/// strictly causal series always retains the first and last setpoint.
pub proof fn lemma_merge_boundaries(s: Seq<YawSetPoint>)
    requires
        s.len() > 0,
        forall|j: int| 0 <= j < s.len() - 1 ==> (#[trigger] s[j]).time < s[j + 1].time,
    ensures
        merge_setpoints(s).len() >= 1,
        merge_setpoints(s)[0] == s[0],
        merge_setpoints(s).last() == s.last(),
{
    assert(merge_setpoints(s) == merge_from(s, 1, seq![s[0]], Option::None));
    lemma_merge_from_boundaries(s, 1, seq![s[0]], Option::None);
}

/// The speed state carried by the merge loop.
pub open spec fn speed_state(has_speed: bool, da: i64, dt: i64) -> Option<(int, int)> {
    if has_speed {
        Option::Some((da as int, dt as int))
    } else {
        Option::None
    }
}

/// One unwrapping step: where the angular difference between the
/// time-adjacent setpoints at `i` and `i + 1` exceeds the threshold in
/// either direction, whole multiples of the cycle are subtracted from
/// (or added to) the later setpoint until the difference no longer
/// exceeds it.
pub open spec fn unwrap_step(s: Seq<YawSetPoint>, i: int) -> Seq<YawSetPoint> {
    let prev = s[i];
    let curr = s[i + 1];
    let diff = curr.angle as int - prev.angle as int;
    if diff > UNWRAP_THRESHOLD as int {
        s.update(
            i + 1,
            YawSetPoint {
                time: curr.time,
                angle: (curr.angle as int - (diff / (UNWRAP_FULL_CYCLE as int)) * (
                UNWRAP_FULL_CYCLE as int)) as i64,
            },
        )
    } else if diff < -(UNWRAP_THRESHOLD as int) {
        s.update(
            i + 1,
            YawSetPoint {
                time: curr.time,
                angle: (curr.angle as int + ((-diff) / (UNWRAP_FULL_CYCLE as int)) * (
                UNWRAP_FULL_CYCLE as int)) as i64,
            },
        )
    } else {
        s
    }
}

/// The unwrapping pass over every adjacent pair from position `i` on.
pub open spec fn unwrap_from(s: Seq<YawSetPoint>, i: int) -> Seq<YawSetPoint>
    decreases s.len() - i,
{
    if !(0 <= i && i + 1 < s.len()) {
        s
    } else {
        unwrap_from(unwrap_step(s, i), i + 1)
    }
}

/// No two time-adjacent setpoints differ by more than `limit` degrees.
pub open spec fn adjacent_within(s: Seq<YawSetPoint>, limit: int) -> bool {
    forall|i: int|
        0 <= i < s.len() - 1 ==> -limit <= (#[trigger] s[i + 1]).angle as int - s[i].angle as int
            <= limit
}

/// A causal yaw setpoint list: a time-sorted sequence of setpoints.
pub struct YawSetpointList {
    pub setpoints: Vec<YawSetPoint>,
}

impl View for YawSetpointList {
    type V = Seq<YawSetPoint>;

    open spec fn view(&self) -> Seq<YawSetPoint> {
        self.setpoints@
    }
}

impl YawSetpointList {
    /// The series invariant: sorted by time, values in bounds.
    pub open spec fn wf(self) -> bool {
        &&& sorted_by_time(self.setpoints@)
        &&& all_setpoints_wf(self.setpoints@)
    }

    /// Build a setpoint list from an arbitrary collection, stable-
    /// sorting it by timestamp. Never fails.
    pub fn new(setpoints: Vec<YawSetPoint>) -> (l: Self)
        requires
            all_setpoints_wf(setpoints@),
        ensures
            l@ == sort_by_time(setpoints@),
            l@.len() == setpoints@.len(),
            l.wf(),
    {
        let new_points = stable_sort_by_time(&setpoints);
        proof {
            lemma_sort_by_time_elems(setpoints@);
            assert forall|i: int| 0 <= i < new_points@.len() implies (
            #[trigger] new_points@[i]).wf() by {
                assert(setpoints@.contains(new_points@[i]));
                let k = choose|k: int| 0 <= k < setpoints@.len() && setpoints@[k] == new_points@[i];
                assert(setpoints@[k].wf());
            }
        }
        YawSetpointList { setpoints: new_points }
    }

    /// Add a setpoint at the end of the list. A setpoint appended to an
    /// empty list, or whose timestamp does not strictly exceed the
    /// current last timestamp, is a causality violation: it is dropped
    /// and the list is left unchanged, observable as an unchanged
    /// length.
    pub fn append(&mut self, setpoint: YawSetPoint)
        requires
            old(self).wf(),
            setpoint.wf(),
        ensures
            final (self).wf(),
            old(self)@.len() == 0 ==> final (self)@ == old(self)@,
            old(self)@.len() > 0 && setpoint.time <= old(self)@.last().time ==> final (self)@
                == old(self)@,
            old(self)@.len() > 0 && setpoint.time > old(self)@.last().time ==> final (self)@
                == old(self)@.push(setpoint),
    {
        let n = self.setpoints.len();
        if n == 0 || self.setpoints[n - 1].get_time() >= setpoint.get_time() {
            // rejected: the new setpoint must come after the existing
            // setpoints in time
        } else {
            self.setpoints.push(setpoint);
            proof {
                assert forall|i: int, j: int|
                    0 <= i < j < self.setpoints@.len() implies self.setpoints@[i].time()
                    <= self.setpoints@[j].time() by {
                    if j < self.setpoints@.len() - 1 {
                        assert(old(self)@[i].time() <= old(self)@[j].time());
                    } else {
                        assert(old(self)@[i].time() <= old(self)@[n - 1].time());
                    }
                }
            }
        }
    }

    /// Translate every setpoint's angle by `delta`, in place.
    pub fn shift(&mut self, delta: i64)
        requires
            old(self).wf(),
            forall|i: int|
                0 <= i < old(self)@.len() ==> -ANGLE_LIMIT <= (#[trigger] old(self)@[i]).angle
                    as int + delta as int <= ANGLE_LIMIT,
        ensures
            final (self).wf(),
            final (self)@ == shift_angles(old(self)@, delta as int),
    {
        let mut index: usize = 0;
        while index < self.setpoints.len()
            invariant
                index <= old(self)@.len(),
                self.setpoints@.len() == old(self)@.len(),
                sorted_by_time(old(self)@),
                all_setpoints_wf(old(self)@),
                forall|i: int|
                    0 <= i < old(self)@.len() ==> -ANGLE_LIMIT <= (#[trigger] old(self)@[i]).angle as int
                        + delta as int <= ANGLE_LIMIT,
                forall|i: int| index <= i < old(self)@.len() ==> self.setpoints@[i] == old(self)@[i],
                forall|i: int|
                    0 <= i < index ==> #[trigger] self.setpoints@[i] == (YawSetPoint {
                        time: old(self)@[i].time,
                        angle: (old(self)@[i].angle as int + delta as int) as i64,
                    }),
            decreases old(self)@.len() - index,
        {
            proof {
                assert(old(self)@[index as int].wf());
            }
            let p = self.setpoints[index];
            self.setpoints[index] = YawSetPoint { time: p.time, angle: p.angle + delta };
            index = index + 1;
        }
        proof {
            assert(self.setpoints@ =~= shift_angles(old(self)@, delta as int));
            assert forall|i: int, j: int|
                0 <= i < j < self.setpoints@.len() implies self.setpoints@[i].time()
                <= self.setpoints@[j].time() by {
                assert(old(self)@[i].time() <= old(self)@[j].time());
            }
            assert forall|i: int| 0 <= i < self.setpoints@.len() implies (
            #[trigger] self.setpoints@[i]).wf() by {
                assert(old(self)@[i].wf());
            }
        }
    }

    /// Simplify the setpoint list in place: normalize the first angle
    /// into [0, 360) and shift the entire series by the same delta,
    /// then merge consecutive setpoints that share the same angular
    /// speed, so that only the first and last setpoint of each
    /// constant-rate ramp survive. Setpoints whose timestamps are not
    /// strictly increasing are dropped (a reported causality
    /// violation). The result replaces the list's contents and is also
    /// returned.
    pub fn simplify(&mut self) -> (r: Vec<YawSetPoint>)
        requires
            old(self).wf(),
            forall|i: int|
                0 <= i < old(self)@.len() ==> -SIMPLIFY_SPREAD_LIMIT <= (
                #[trigger] old(self)@[i]).angle as int - old(self)@[0].angle as int
                    <= SIMPLIFY_SPREAD_LIMIT,
        ensures
            final (self).wf(),
            final (self)@ == simplified_setpoints(old(self)@),
            r@ == final (self)@,
    {
        if self.setpoints.len() == 0 {
            return copy_keyframes(&self.setpoints);
        }
        // set the first yaw angle in the [0, 360) range and shift the
        // entire list accordingly
        let a0 = self.setpoints[0].get_angle();
        proof {
            assert(old(self)@[0].wf());
        }
        let na = euclid_mod_360(a0);
        let delta = na - a0;
        let mut shifted: Vec<YawSetPoint> = Vec::new();
        let mut index: usize = 0;
        while index < self.setpoints.len()
            invariant
                index <= old(self)@.len(),
                self.setpoints@ == old(self)@,
                sorted_by_time(old(self)@),
                all_setpoints_wf(old(self)@),
                old(self)@.len() > 0,
                forall|i: int|
                    0 <= i < old(self)@.len() ==> -SIMPLIFY_SPREAD_LIMIT <= (#[trigger] old(self)@[i]).angle as int
                        - old(self)@[0].angle as int <= SIMPLIFY_SPREAD_LIMIT,
                a0 == old(self)@[0].angle,
                -ANGLE_LIMIT <= a0 <= ANGLE_LIMIT,
                delta as int == normalize_delta(old(self)@),
                0 <= (a0 as int) + (delta as int) < 360,
                -ANGLE_LIMIT - 360 <= delta <= ANGLE_LIMIT + 360,
                shifted@.len() == index,
                forall|i: int| 0 <= i < index ==> shifted@[i] == shift_angles(old(self)@, delta as int)[i],
                all_setpoints_wf(shifted@),
                sorted_by_time(shifted@),
            decreases old(self)@.len() - index,
        {
            proof {
                assert(old(self)@[index as int].wf());
            }
            let p = self.setpoints[index];
            let q = YawSetPoint { time: p.time, angle: p.angle + delta };
            shifted.push(q);
            proof {
                assert forall|i: int, j: int|
                    0 <= i < j < shifted@.len() implies shifted@[i].time()
                    <= shifted@[j].time() by {
                    assert(old(self)@[i].time() <= old(self)@[j].time());
                }
            }
            index = index + 1;
        }
        proof {
            assert(shifted@ =~= shift_angles(old(self)@, delta as int));
        }
        // remove intermediate setpoints on constant angular speed
        // segments
        let mut new_setpoints: Vec<YawSetPoint> = Vec::new();
        let mut has_speed = false;
        let mut last_da: i64 = 0;
        let mut last_dt: i64 = 0;
        let mut i: usize = 0;
        while i < shifted.len()
            invariant
                i <= shifted@.len(),
                all_setpoints_wf(shifted@),
                all_setpoints_wf(new_setpoints@),
                sorted_by_time(new_setpoints@),
                merge_setpoints(shifted@) == merge_from(
                    shifted@,
                    i as int,
                    new_setpoints@,
                    speed_state(has_speed, last_da, last_dt),
                ),
                has_speed ==> -0x2_0000_0001 <= last_da <= 0x2_0000_0001 && 0 < last_dt
                    <= 0x1_0000_0000,
            decreases shifted@.len() - i,
        {
            let ghost acc_pre = new_setpoints@;
            let ghost sp_pre = speed_state(has_speed, last_da, last_dt);
            let p = shifted[i];
            proof {
                assert(shifted@[i as int].wf());
            }
            let n = new_setpoints.len();
            if n == 0 {
                new_setpoints.push(p);
            } else {
                let last = new_setpoints[n - 1];
                proof {
                    assert(new_setpoints@[n - 1].wf());
                }
                let dt = p.get_time() - last.get_time();
                if dt <= 0 {
                    // causality violation among the timestamps: this
                    // setpoint is dropped
                } else {
                    let da = p.get_angle() - last.get_angle();
                    let same = if has_speed {
                        proof {
                            lemma_mul_bound(
                                da as int,
                                last_dt as int,
                                0x2_0000_0001,
                                0x1_0000_0000,
                            );
                            lemma_mul_bound(
                                last_da as int,
                                dt as int,
                                0x2_0000_0001,
                                0x1_0000_0000,
                            );
                        }
                        (da as i128) * (last_dt as i128) == (last_da as i128) * (dt as i128)
                    } else {
                        false
                    };
                    if same {
                        let li = new_setpoints.len() - 1;
                        new_setpoints[li] = p;
                        proof {
                            assert forall|a: int, b: int|
                                0 <= a < b < new_setpoints@.len() implies new_setpoints@[a].time()
                                <= new_setpoints@[b].time() by {
                                if b < li {
                                    assert(acc_pre[a].time() <= acc_pre[b].time());
                                } else {
                                    assert(acc_pre[a].time() <= acc_pre[li as int].time());
                                }
                            }
                        }
                    } else {
                        new_setpoints.push(p);
                        proof {
                            assert forall|a: int, b: int|
                                0 <= a < b < new_setpoints@.len() implies new_setpoints@[a].time()
                                <= new_setpoints@[b].time() by {
                                if b < n {
                                    assert(acc_pre[a].time() <= acc_pre[b].time());
                                } else {
                                    assert(acc_pre[a].time() <= acc_pre[n - 1].time());
                                }
                            }
                        }
                    }
                    has_speed = true;
                    last_da = da;
                    last_dt = dt;
                }
            }
            proof {
                assert(merge_from(shifted@, i as int, acc_pre, sp_pre) == merge_from(
                    shifted@,
                    i as int + 1,
                    new_setpoints@,
                    speed_state(has_speed, last_da, last_dt),
                ));
            }
            i = i + 1;
        }
        self.setpoints = new_setpoints;
        copy_keyframes(&self.setpoints)
    }

    /// Unwrap the yaw angles in place: wherever the angular difference
    /// between two time-adjacent setpoints exceeds the fixed threshold
    /// of 180 degrees in either direction, whole multiples of the fixed
    /// 180-degree cycle are added to or subtracted from the later
    /// setpoint so that the difference no longer exceeds the threshold.
    /// Every adjacent pair where both indices exist is visited, so
    /// afterwards no two time-adjacent setpoints differ by more than
    /// the threshold. The caller-supplied `threshold` and `full_cycle`
    /// are accepted but ignored in favor of the fixed constants. The
    /// updated list is also returned.
    #[allow(unused_variables)]
    pub fn unwrap_yaw(&mut self, threshold: i64, full_cycle: i64) -> (r: Vec<YawSetPoint>)
        requires
            old(self).wf(),
        ensures
            final (self).wf(),
            final (self)@ == unwrap_from(old(self)@, 0),
            r@ == final (self)@,
            final (self)@.len() == old(self)@.len(),
            forall|i: int|
                0 <= i < old(self)@.len() ==> (#[trigger] final (self)@[i]).time == old(
                    self,
                )@[i].time,
            forall|i: int|
                0 <= i < old(self)@.len() ==> ((#[trigger] final (self)@[i]).angle as int - old(
                    self,
                )@[i].angle as int) % (UNWRAP_FULL_CYCLE as int) == 0,
            adjacent_within(final (self)@, UNWRAP_THRESHOLD as int),
    {
        let n = self.setpoints.len();
        if n >= 2 {
            let last_pair = n - 1;
            let mut index: usize = 0;
            while index < last_pair
                invariant
                    last_pair == self.setpoints@.len() - 1,
                    self.setpoints@.len() == old(self)@.len(),
                    self.setpoints@.len() >= 2,
                    index <= last_pair,
                    unwrap_from(old(self)@, 0) == unwrap_from(self.setpoints@, index as int),
                    all_setpoints_wf(self.setpoints@),
                    sorted_by_time(self.setpoints@),
                    forall|j: int|
                        0 <= j < self.setpoints@.len() ==> (#[trigger] self.setpoints@[j]).time
                            == old(self)@[j].time,
                    forall|j: int|
                        0 <= j < self.setpoints@.len() ==> ((
                        #[trigger] self.setpoints@[j]).angle as int - old(self)@[j].angle as int)
                            % (UNWRAP_FULL_CYCLE as int) == 0,
                    forall|j: int|
                        index < j < self.setpoints@.len() ==> #[trigger] self.setpoints@[j] == old(
                            self,
                        )@[j],
                    forall|j: int|
                        0 <= j < index ==> -(UNWRAP_THRESHOLD as int) <= (
                        #[trigger] self.setpoints@[j + 1]).angle as int
                            - self.setpoints@[j].angle as int <= UNWRAP_THRESHOLD as int,
                decreases last_pair - index,
            {
                let ghost pre = self.setpoints@;
                let prev = self.setpoints[index];
                let curr = self.setpoints[index + 1];
                proof {
                    assert(pre[index as int].wf());
                    assert(pre[index as int + 1].wf());
                }
                let diff = curr.angle - prev.angle;
                if diff > UNWRAP_THRESHOLD {
                    let q = ((diff as u64) / (UNWRAP_FULL_CYCLE as u64)) as i64;
                    proof {
                        lemma_fundamental_div_mod(diff as int, UNWRAP_FULL_CYCLE as int);
                        lemma_mod_bound(diff as int, UNWRAP_FULL_CYCLE as int);
                    }
                    let adjusted = curr.angle - q * UNWRAP_FULL_CYCLE;
                    self.setpoints[index + 1] = YawSetPoint { time: curr.time, angle: adjusted };
                    proof {
                        lemma_mod_multiples_basic(-(q as int), UNWRAP_FULL_CYCLE as int);
                        assert(self.setpoints@ =~= unwrap_step(pre, index as int));
                    }
                } else if diff < -UNWRAP_THRESHOLD {
                    let q = (((-diff) as u64) / (UNWRAP_FULL_CYCLE as u64)) as i64;
                    proof {
                        lemma_fundamental_div_mod(-(diff as int), UNWRAP_FULL_CYCLE as int);
                        lemma_mod_bound(-(diff as int), UNWRAP_FULL_CYCLE as int);
                    }
                    let adjusted = curr.angle + q * UNWRAP_FULL_CYCLE;
                    self.setpoints[index + 1] = YawSetPoint { time: curr.time, angle: adjusted };
                    proof {
                        lemma_mod_multiples_basic(q as int, UNWRAP_FULL_CYCLE as int);
                        assert(self.setpoints@ =~= unwrap_step(pre, index as int));
                    }
                } else {
                    proof {
                        assert(self.setpoints@ =~= unwrap_step(pre, index as int));
                    }
                }
                proof {
                    assert(unwrap_from(pre, index as int) == unwrap_from(
                        self.setpoints@,
                        index as int + 1,
                    ));
                    assert forall|a: int, b: int|
                        0 <= a < b < self.setpoints@.len() implies self.setpoints@[a].time()
                        <= self.setpoints@[b].time() by {
                        assert(pre[a].time() <= pre[b].time());
                        assert(self.setpoints@[a].time == pre[a].time);
                        assert(self.setpoints@[b].time == pre[b].time);
                    }
                }
                index = index + 1;
            }
        }
        copy_keyframes(&self.setpoints)
    }
}

/// The Euclidean remainder of `a` modulo 360, in [0, 360).
fn euclid_mod_360(a: i64) -> (r: i64)
    requires
        -ANGLE_LIMIT <= a <= ANGLE_LIMIT,
    ensures
        r as int == (a as int) % 360,
        0 <= r < 360,
{
    // adding a multiple of the cycle makes the value nonnegative
    // without changing the remainder
    let shifted: i64 = a + 360 * 12000000;
    proof {
        lemma_mod_multiples_vanish(12000000, a as int, 360);
    }
    ((shifted as u64) % 360) as i64
}

} // verus!
