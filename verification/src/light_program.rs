//! Causal light programs in time: RGB color keyframes whose values are
//! linearly interpolated or held constant according to each keyframe's
//! fade flag. The distance metric for simplification applies the same
//! time-fractional interpolation and maximum per-channel deviation
//! convention as the trajectory metric, to the three color channels.

use vstd::prelude::*;
use crate::color::Color4D;
use crate::metric::{axis_dev_exec, axis_dev_scale, axis_scale_exec, axis_scaled_dev,
    lemma_axis_dev_bound, max3, max3_exec};
use crate::point::COORD_LIMIT;
use crate::series::{sort_by_time, sorted_by_time, stable_sort_by_time, Timed,
    lemma_sort_by_time_elems};
use crate::simplify::{elem_of_segment, rdp, simplify_path, Keypoint, lemma_rdp_shape,
    lemma_rdp_subseq, lemma_subseq_within};

verus! {

/// The error tolerance used by `LightProgram::simplify`.
pub const DEFAULT_SIMPLIFY_EPS: i64 = 4;

impl Keypoint for Color4D {
    open spec fn scaled_dev(s: Self, e: Self, p: Self) -> int {
        max3(
            axis_scaled_dev(s.t as int, e.t as int, s.r as int, e.r as int, p.t as int, p.r as int),
            axis_scaled_dev(s.t as int, e.t as int, s.g as int, e.g as int, p.t as int, p.g as int),
            axis_scaled_dev(s.t as int, e.t as int, s.b as int, e.b as int, p.t as int, p.b as int),
        )
    }

    open spec fn dev_scale(s: Self, e: Self) -> int {
        axis_dev_scale(s.t as int, e.t as int)
    }

    open spec fn in_range(self) -> bool {
        self.wf()
    }

    proof fn lemma_metric(s: Self, e: Self, p: Self) {
        lemma_axis_dev_bound(
            s.t as int, e.t as int, s.r as int, e.r as int, p.t as int, p.r as int,
            COORD_LIMIT as int,
        );
        lemma_axis_dev_bound(
            s.t as int, e.t as int, s.g as int, e.g as int, p.t as int, p.g as int,
            COORD_LIMIT as int,
        );
        lemma_axis_dev_bound(
            s.t as int, e.t as int, s.b as int, e.b as int, p.t as int, p.b as int,
            COORD_LIMIT as int,
        );
    }

    fn dev_exec(s: &Self, e: &Self, p: &Self) -> (d: i128) {
        let dr = axis_dev_exec(s.t, e.t, s.r as i64, e.r as i64, p.t, p.r as i64);
        let dg = axis_dev_exec(s.t, e.t, s.g as i64, e.g as i64, p.t, p.g as i64);
        let db = axis_dev_exec(s.t, e.t, s.b as i64, e.b as i64, p.t, p.b as i64);
        max3_exec(dr, dg, db)
    }

    fn scale_exec(s: &Self, e: &Self) -> (k: i128) {
        axis_scale_exec(s.t, e.t)
    }
}

/// Every color keyframe of the sequence has its timestamp in bounds.
pub open spec fn all_colors_wf(s: Seq<Color4D>) -> bool {
    forall|i: int| 0 <= i < s.len() ==> (#[trigger] s[i]).wf()
}

/// A causal light program: a time-sorted sequence of color keyframes.
pub struct LightProgram {
    pub colors: Vec<Color4D>,
}

impl View for LightProgram {
    type V = Seq<Color4D>;

    open spec fn view(&self) -> Seq<Color4D> {
        self.colors@
    }
}

impl LightProgram {
    /// The series invariant: sorted by time, timestamps in bounds.
    pub open spec fn wf(self) -> bool {
        &&& sorted_by_time(self.colors@)
        &&& all_colors_wf(self.colors@)
    }

    /// Build a light program from an arbitrary collection of color
    /// keyframes, stable-sorting them by timestamp. Never fails.
    pub fn new(colors: Vec<Color4D>) -> (l: Self)
        requires
            all_colors_wf(colors@),
        ensures
            l@ == sort_by_time(colors@),
            l@.len() == colors@.len(),
            l.wf(),
    {
        let sorted_colors = stable_sort_by_time(&colors);
        proof {
            lemma_sort_by_time_elems(colors@);
            assert forall|i: int| 0 <= i < sorted_colors@.len() implies (
            #[trigger] sorted_colors@[i]).wf() by {
                assert(colors@.contains(sorted_colors@[i]));
                let k = choose|k: int| 0 <= k < colors@.len() && colors@[k] == sorted_colors@[i];
                assert(colors@[k].wf());
            }
        }
        LightProgram { colors: sorted_colors }
    }

    /// Add a color at the end of the light program. A keyframe whose
    /// timestamp is not strictly after the series' last timestamp is a
    /// causality violation: it is dropped and the series is left
    /// unchanged, observable as an unchanged length.
    pub fn append(&mut self, color: Color4D)
        requires
            old(self).wf(),
            old(self)@.len() > 0,
            color.wf(),
        ensures
            final (self).wf(),
            color.t <= old(self)@.last().t ==> final (self)@ == old(self)@,
            color.t > old(self)@.last().t ==> final (self)@ == old(self)@.push(color),
    {
        let n = self.colors.len();
        if self.colors[n - 1].time_exec() >= color.time_exec() {
            // rejected: the new keyframe must come strictly after the
            // existing program in time
        } else {
            self.colors.push(color);
            proof {
                assert forall|i: int, j: int|
                    0 <= i < j < self.colors@.len() implies self.colors@[i].time()
                    <= self.colors@[j].time() by {
                    if j < self.colors@.len() - 1 {
                        assert(old(self)@[i].time() <= old(self)@[j].time());
                    } else {
                        assert(old(self)@[i].time() <= old(self)@[n - 1].time());
                    }
                }
            }
        }
    }

    /// Simplify the light program by removing keyframes that deviate
    /// from the interpolation line between their retained neighbors by
    /// at most the default tolerance. Returns a new program; the
    /// receiver is not mutated. The fade flags of the surviving
    /// keyframes are carried through untouched.
    pub fn simplify(&self) -> (r: Self)
        requires
            self.wf(),
        ensures
            r@ == rdp(self@, 0, self@.len() as int, DEFAULT_SIMPLIFY_EPS as int),
            r.wf(),
            self@.len() >= 1 ==> r@.len() >= 1 && r@[0] == self@[0] && r@.last() == self@.last(),
            self@.len() >= 2 ==> r@.len() >= 2,
    {
        proof {
            assert(forall|i: int|
                0 <= i < self.colors@.len() ==> (#[trigger] self.colors@[i]).in_range());
        }
        let items = simplify_path(&self.colors, DEFAULT_SIMPLIFY_EPS);
        let r = LightProgram { colors: items };
        proof {
            let n = self@.len() as int;
            if n >= 1 {
                lemma_rdp_shape(self@, 0, n, DEFAULT_SIMPLIFY_EPS as int);
                lemma_rdp_subseq(self@, 0, n, DEFAULT_SIMPLIFY_EPS as int);
                lemma_subseq_within(r@, self@, 0, n);
                assert forall|k: int| 0 <= k < r@.len() implies (#[trigger] r@[k]).wf() by {
                    assert(elem_of_segment(r@[k], self@, 0, n));
                    let j = choose|j: int| 0 <= j < n && r@[k] == self@[j];
                    assert(self@[j].wf());
                }
            } else {
                assert(r@ =~= Seq::<Color4D>::empty());
            }
        }
        r
    }
}

} // verus!
