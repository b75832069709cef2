//! Causal trajectories in space and time: positions between keyframes
//! are linearly interpolated both in space and time, and the distance
//! metric driving simplification is the maximum absolute per-axis
//! difference between the interpolated and the actual coordinate.

use vstd::prelude::*;
use crate::metric::{axis_dev_exec, axis_dev_scale, axis_scale_exec, axis_scaled_dev,
    lemma_axis_dev_bound, max3, max3_exec};
use crate::point::{COORD_LIMIT, Point3D, Point4D};
use crate::series::{sort_by_time, sorted_by_time, stable_sort_by_time, Timed,
    lemma_sort_by_time_elems};
use crate::simplify::{elem_of_segment, rdp, simplify_path, Keypoint, lemma_rdp_shape,
    lemma_rdp_subseq, lemma_subseq_within};

verus! {

impl Keypoint for Point4D {
    open spec fn scaled_dev(s: Self, e: Self, p: Self) -> int {
        max3(
            axis_scaled_dev(s.t as int, e.t as int, s.x as int, e.x as int, p.t as int, p.x as int),
            axis_scaled_dev(s.t as int, e.t as int, s.y as int, e.y as int, p.t as int, p.y as int),
            axis_scaled_dev(s.t as int, e.t as int, s.z as int, e.z as int, p.t as int, p.z as int),
        )
    }

    open spec fn dev_scale(s: Self, e: Self) -> int {
        axis_dev_scale(s.t as int, e.t as int)
    }

    open spec fn in_range(self) -> bool {
        self.wf()
    }

    proof fn lemma_metric(s: Self, e: Self, p: Self) {
        lemma_axis_dev_bound(
            s.t as int, e.t as int, s.x as int, e.x as int, p.t as int, p.x as int,
            COORD_LIMIT as int,
        );
        lemma_axis_dev_bound(
            s.t as int, e.t as int, s.y as int, e.y as int, p.t as int, p.y as int,
            COORD_LIMIT as int,
        );
        lemma_axis_dev_bound(
            s.t as int, e.t as int, s.z as int, e.z as int, p.t as int, p.z as int,
            COORD_LIMIT as int,
        );
    }

    fn dev_exec(s: &Self, e: &Self, p: &Self) -> (d: i128) {
        let dx = axis_dev_exec(s.t, e.t, s.x, e.x, p.t, p.x);
        let dy = axis_dev_exec(s.t, e.t, s.y, e.y, p.t, p.y);
        let dz = axis_dev_exec(s.t, e.t, s.z, e.z, p.t, p.z);
        max3_exec(dx, dy, dz)
    }

    fn scale_exec(s: &Self, e: &Self) -> (k: i128) {
        axis_scale_exec(s.t, e.t)
    }
}

/// Every point of the sequence is within the coordinate bounds.
pub open spec fn all_points_wf(s: Seq<Point4D>) -> bool {
    forall|i: int| 0 <= i < s.len() ==> (#[trigger] s[i]).wf()
}

/// `r` is `s` with every spatial coordinate translated by the offset.
pub open spec fn is_shift_of(r: Seq<Point4D>, s: Seq<Point4D>, ox: int, oy: int, oz: int) -> bool {
    &&& r.len() == s.len()
    &&& forall|i: int|
        0 <= i < s.len() ==> (#[trigger] r[i]).t == s[i].t && r[i].x as int == s[i].x as int + ox
            && r[i].y as int == s[i].y as int + oy && r[i].z as int == s[i].z as int + oz
}

/// `r` is `s` with every timestamp translated by `dt`.
pub open spec fn is_time_shift_of(r: Seq<Point4D>, s: Seq<Point4D>, dt: int) -> bool {
    &&& r.len() == s.len()
    &&& forall|i: int|
        0 <= i < s.len() ==> (#[trigger] r[i]).t as int == s[i].t as int + dt && r[i].x == s[i].x
            && r[i].y == s[i].y && r[i].z == s[i].z
}

/// Consecutive identical points collapsed to one representative per
/// run (each member of a run is the same value, so the survivor equals
/// the last of the run), scanning from `i` with the kept points in
/// `acc`.
pub open spec fn dedup_from(s: Seq<Point4D>, i: int, acc: Seq<Point4D>) -> Seq<Point4D>
    decreases s.len() - i,
{
    if !(0 <= i < s.len()) {
        acc
    } else if acc.len() > 0 && acc.last() == s[i] {
        dedup_from(s, i + 1, acc)
    } else {
        dedup_from(s, i + 1, acc.push(s[i]))
    }
}

/// `s` with every run of consecutive identical points reduced to a
/// single representative.
pub open spec fn dedup_points(s: Seq<Point4D>) -> Seq<Point4D> {
    dedup_from(s, 0, Seq::empty())
}

/// Duration of a trajectory: last timestamp minus first, zero for
/// fewer than two points.
pub open spec fn duration_of(s: Seq<Point4D>) -> int {
    if s.len() < 2 {
        0
    } else {
        s.last().t - s[0].t
    }
}

/// A causal trajectory: a time-sorted sequence of 4D points.
pub struct Trajectory {
    pub points: Vec<Point4D>,
}

impl View for Trajectory {
    type V = Seq<Point4D>;

    open spec fn view(&self) -> Seq<Point4D> {
        self.points@
    }
}

impl Trajectory {
    /// The series invariant: sorted by time, coordinates in bounds.
    pub open spec fn wf(self) -> bool {
        &&& sorted_by_time(self.points@)
        &&& all_points_wf(self.points@)
    }

    /// Build a trajectory from an arbitrary collection of points,
    /// stable-sorting them by timestamp. Never fails.
    pub fn new(points: Vec<Point4D>) -> (t: Self)
        requires
            all_points_wf(points@),
        ensures
            t@ == sort_by_time(points@),
            t@.len() == points@.len(),
            t.wf(),
    {
        let sorted_points = stable_sort_by_time(&points);
        proof {
            lemma_sort_by_time_elems(points@);
            assert forall|i: int| 0 <= i < sorted_points@.len() implies (
            #[trigger] sorted_points@[i]).wf() by {
                assert(points@.contains(sorted_points@[i]));
                let k = choose|k: int| 0 <= k < points@.len() && points@[k] == sorted_points@[i];
                assert(points@[k].wf());
            }
        }
        Trajectory { points: sorted_points }
    }

    /// Add a point at the end of the trajectory. A point whose
    /// timestamp does not strictly exceed the current last timestamp
    /// is a causality violation: it is dropped and the series is left
    /// unchanged, observable as an unchanged length.
    pub fn append(&mut self, point: Point4D)
        requires
            old(self).wf(),
            old(self)@.len() > 0,
            point.wf(),
        ensures
            final (self).wf(),
            point.t <= old(self)@.last().t ==> final (self)@ == old(self)@,
            point.t > old(self)@.last().t ==> final (self)@ == old(self)@.push(point),
    {
        let n = self.points.len();
        if self.points[n - 1].get_t() >= point.get_t() {
            // rejected: the new point must come after the existing
            // trajectory in time
        } else {
            self.points.push(point);
            proof {
                assert forall|i: int, j: int|
                    0 <= i < j < self.points@.len() implies self.points@[i].time()
                    <= self.points@[j].time() by {
                    if j < self.points@.len() - 1 {
                        assert(old(self)@[i].time() <= old(self)@[j].time());
                    } else {
                        assert(old(self)@[i].time() <= old(self)@[n - 1].time());
                    }
                }
            }
        }
    }

    /// Duration of the trajectory in time units.
    pub fn duration(&self) -> (d: i64)
        requires
            self.wf(),
        ensures
            d as int == duration_of(self@),
    {
        if self.points.len() < 2 {
            0
        } else {
            let n = self.points.len();
            proof {
                assert(self.points@[n - 1].wf());
                assert(self.points@[0].wf());
            }
            self.points[n - 1].get_t() - self.points[0].get_t()
        }
    }

    /// A new trajectory with every point translated by the given
    /// spatial offset, timestamps preserved.
    pub fn shift_in_place(&self, offset: Point3D) -> (r: Self)
        requires
            self.wf(),
            forall|i: int|
                0 <= i < self@.len() ==> -COORD_LIMIT <= (#[trigger] self@[i]).x as int
                    + offset.x as int <= COORD_LIMIT && -COORD_LIMIT <= self@[i].y as int
                    + offset.y as int <= COORD_LIMIT && -COORD_LIMIT <= self@[i].z as int
                    + offset.z as int <= COORD_LIMIT,
        ensures
            is_shift_of(r@, self@, offset.x as int, offset.y as int, offset.z as int),
            r.wf(),
    {
        let mut offset_points: Vec<Point4D> = Vec::new();
        let mut i: usize = 0;
        while i < self.points.len()
            invariant
                self.wf(),
                i <= self@.len(),
                offset_points@.len() == i,
                forall|k: int|
                    0 <= k < self@.len() ==> -COORD_LIMIT <= (#[trigger] self@[k]).x as int
                        + offset.x as int <= COORD_LIMIT && -COORD_LIMIT <= self@[k].y as int
                        + offset.y as int <= COORD_LIMIT && -COORD_LIMIT <= self@[k].z as int
                        + offset.z as int <= COORD_LIMIT,
                forall|k: int|
                    0 <= k < i ==> (#[trigger] offset_points@[k]).t == self@[k].t
                        && offset_points@[k].x as int == self@[k].x as int + offset.x as int
                        && offset_points@[k].y as int == self@[k].y as int + offset.y as int
                        && offset_points@[k].z as int == self@[k].z as int + offset.z as int,
            decreases self@.len() - i,
        {
            let point = self.points[i];
            proof {
                assert(self@[i as int].wf());
            }
            offset_points.push(
                Point4D {
                    t: point.t,
                    x: point.x + offset.x,
                    y: point.y + offset.y,
                    z: point.z + offset.z,
                },
            );
            i = i + 1;
        }
        let r = Trajectory { points: offset_points };
        proof {
            assert forall|a: int, b: int| 0 <= a < b < r@.len() implies r@[a].time()
                <= r@[b].time() by {
                assert(self@[a].time() <= self@[b].time());
            }
            assert forall|k: int| 0 <= k < r@.len() implies (#[trigger] r@[k]).wf() by {
                assert(self@[k].wf());
            }
        }
        r
    }

    /// A new trajectory with every timestamp translated by `delta`,
    /// coordinates preserved.
    pub fn shift_time_in_place(&self, delta: i64) -> (r: Self)
        requires
            self.wf(),
            forall|i: int|
                0 <= i < self@.len() ==> -COORD_LIMIT <= (#[trigger] self@[i]).t as int
                    + delta as int <= COORD_LIMIT,
        ensures
            is_time_shift_of(r@, self@, delta as int),
            r.wf(),
    {
        let mut delta_points: Vec<Point4D> = Vec::new();
        let mut i: usize = 0;
        while i < self.points.len()
            invariant
                self.wf(),
                i <= self@.len(),
                delta_points@.len() == i,
                forall|k: int|
                    0 <= k < self@.len() ==> -COORD_LIMIT <= (#[trigger] self@[k]).t as int
                        + delta as int <= COORD_LIMIT,
                forall|k: int|
                    0 <= k < i ==> (#[trigger] delta_points@[k]).t as int == self@[k].t as int
                        + delta as int && delta_points@[k].x == self@[k].x && delta_points@[k].y
                        == self@[k].y && delta_points@[k].z == self@[k].z,
            decreases self@.len() - i,
        {
            let point = self.points[i];
            proof {
                assert(self@[i as int].wf());
            }
            delta_points.push(
                Point4D { t: point.t + delta, x: point.x, y: point.y, z: point.z },
            );
            i = i + 1;
        }
        let r = Trajectory { points: delta_points };
        proof {
            assert forall|a: int, b: int| 0 <= a < b < r@.len() implies r@[a].time()
                <= r@[b].time() by {
                assert(self@[a].time() <= self@[b].time());
            }
            assert forall|k: int| 0 <= k < r@.len() implies (#[trigger] r@[k]).wf() by {
                assert(self@[k].wf());
            }
        }
        r
    }

    /// Reduce the trajectory with the divide-and-conquer simplifier,
    /// keeping every surviving point within `eps` (in scaled deviation
    /// units) of the interpolation line between its retained neighbors.
    /// Returns a new trajectory; the receiver is not mutated.
    pub fn simplify(&self, eps: i64) -> (r: Self)
        requires
            self.wf(),
        ensures
            r@ == rdp(self@, 0, self@.len() as int, eps as int),
            r.wf(),
            self@.len() >= 1 ==> r@.len() >= 1 && r@[0] == self@[0] && r@.last() == self@.last(),
            self@.len() >= 2 ==> r@.len() >= 2,
    {
        proof {
            assert(forall|i: int|
                0 <= i < self.points@.len() ==> (#[trigger] self.points@[i]).in_range());
        }
        let pts = simplify_path(&self.points, eps);
        let r = Trajectory { points: pts };
        proof {
            let n = self@.len() as int;
            if n >= 1 {
                lemma_rdp_shape(self@, 0, n, eps as int);
                lemma_rdp_subseq(self@, 0, n, eps as int);
                lemma_subseq_within(r@, self@, 0, n);
                assert forall|k: int| 0 <= k < r@.len() implies (#[trigger] r@[k]).wf() by {
                    assert(elem_of_segment(r@[k], self@, 0, n));
                    let j = choose|j: int| 0 <= j < n && r@[k] == self@[j];
                    assert(self@[j].wf());
                }
            } else {
                assert(r@ =~= Seq::<Point4D>::empty());
            }
        }
        r
    }

    /// Collapse consecutive keyframes with identical timestamp and
    /// coordinates, keeping exactly one representative per run of
    /// exact duplicates. This is a distinct, cheaper pass than the
    /// deviation-driven `simplify`; it returns a new trajectory.
    pub fn simplify_in_place(&self) -> (r: Self)
        requires
            self.wf(),
        ensures
            r@ == dedup_points(self@),
            r.wf(),
            forall|j: int| 0 <= j < r@.len() - 1 ==> #[trigger] r@[j] != r@[j + 1],
            self@.len() > 0 ==> r@.len() > 0 && r@[0] == self@[0] && r@.last() == self@.last(),
            self@.len() == 0 ==> r@.len() == 0,
    {
        let mut new_points: Vec<Point4D> = Vec::new();
        let mut i: usize = 0;
        while i < self.points.len()
            invariant
                self.wf(),
                i <= self@.len(),
                dedup_points(self@) == dedup_from(self@, i as int, new_points@),
                sorted_by_time(new_points@),
                all_points_wf(new_points@),
                i > 0 ==> new_points@.len() > 0 && new_points@.last() == self@[i - 1],
                i == 0 ==> new_points@.len() == 0,
                new_points@.len() > 0 ==> new_points@[0] == self@[0],
                forall|j: int| 0 <= j < new_points@.len() - 1 ==> #[trigger] new_points@[j] != new_points@[j + 1],
            decreases self@.len() - i,
        {
            let point = self.points[i];
            let n = new_points.len();
            if n == 0 {
                new_points.push(point);
                proof {
                    assert(self@[i as int].wf());
                }
            } else {
                let last = new_points[n - 1];
                if last == point {
                    // the run continues: the kept representative
                    // already equals this duplicate
                } else {
                    proof {
                        assert(self@[i as int].wf());
                        assert(new_points@.last() == self@[i - 1]);
                        assert(self@[i - 1].time() <= self@[i as int].time());
                        assert forall|a: int, b: int|
                            0 <= a < b < new_points@.len() + 1 implies new_points@.push(
                            point)[a].time() <= new_points@.push(point)[b].time() by {
                            if b < new_points@.len() {
                                assert(new_points@[a].time() <= new_points@[b].time());
                            } else {
                                assert(new_points@[a].time() <= new_points@.last().time());
                            }
                        }
                    }
                    new_points.push(point);
                }
            }
            i = i + 1;
        }
        Trajectory { points: new_points }
    }
}

/// Shifting a trajectory by an offset and then by the opposite offset
/// reproduces the original coordinates exactly (round-trip law).
pub proof fn lemma_shift_round_trip(
    s: Seq<Point4D>,
    s1: Seq<Point4D>,
    s2: Seq<Point4D>,
    ox: int,
    oy: int,
    oz: int,
)
    requires
        is_shift_of(s1, s, ox, oy, oz),
        is_shift_of(s2, s1, -ox, -oy, -oz),
    ensures
        s2 == s,
{
    assert forall|i: int| 0 <= i < s.len() implies s2[i] == s[i] by {
        assert(s1[i].t == s[i].t);
        assert(s2[i].x as int == s[i].x as int);
        assert(s2[i].y as int == s[i].y as int);
        assert(s2[i].z as int == s[i].z as int);
    }
    assert(s2 =~= s);
}

} // verus!
