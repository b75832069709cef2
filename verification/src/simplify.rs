//! Generic keyframe simplification: the recursive divide-and-conquer
//! path-reduction algorithm (Ramer-Douglas-Peucker), parameterized by a
//! per-domain distance metric.
//!
//! A point is redundant with respect to two anchor points when it is
//! closer to the straight interpolation line between them than the
//! caller's error tolerance `eps`. All deviations are exact rationals:
//! a metric reports, for a segment, an integer scale (its common
//! denominator) and one scaled integer deviation per candidate point,
//! so `deviation <= eps` is decided as `scaled_dev <= eps * scale`
//! without any rounding.

use vstd::prelude::*;
use crate::series::{Timed, sorted_by_time};

verus! {

/// Largest scaled deviation any metric may report.
pub const DEV_LIMIT: i128 = 0x40_0000_0000_0000_0000;

/// Largest deviation scale (common denominator) any metric may report.
pub const SCALE_LIMIT: i128 = 0x4_0000_0000;

/// A keyframe kind that supplies the distance metric driving its
/// simplification: the deviation of a candidate point from the straight
/// interpolation line between a start and an end anchor.
pub trait Keypoint: Timed {
    /// The deviation of `p` from the line from `s` to `e`, multiplied
    /// by `dev_scale(s, e)` so that it is an exact integer.
    spec fn scaled_dev(s: Self, e: Self, p: Self) -> int;

    /// The positive common denominator of this segment's deviations.
    spec fn dev_scale(s: Self, e: Self) -> int;

    /// Keyframes a metric can evaluate without overflow.
    spec fn in_range(self) -> bool;

    proof fn lemma_metric(s: Self, e: Self, p: Self)
        requires
            s.in_range(),
            e.in_range(),
            p.in_range(),
        ensures
            0 <= Self::scaled_dev(s, e, p) <= DEV_LIMIT as int,
            0 < Self::dev_scale(s, e) <= SCALE_LIMIT as int,
    ;

    fn dev_exec(s: &Self, e: &Self, p: &Self) -> (d: i128)
        requires
            s.in_range(),
            e.in_range(),
            p.in_range(),
        ensures
            d as int == Self::scaled_dev(*s, *e, *p),
    ;

    fn scale_exec(s: &Self, e: &Self) -> (k: i128)
        requires
            s.in_range(),
            e.in_range(),
        ensures
            k as int == Self::dev_scale(*s, *e),
    ;
}

/// Scaled deviation of element `i` of the segment `[lo, hi)` of `s`
/// from the line between the segment's first and last elements.
pub open spec fn seg_dev<T: Keypoint>(s: Seq<T>, lo: int, hi: int, i: int) -> int {
    T::scaled_dev(s[lo], s[hi - 1], s[i])
}

/// Index of the interior element of `[lo, hi)` with the maximum
/// deviation, scanning from `i` with the best index so far in `best`;
/// on ties the first occurrence (lowest index) wins.
pub open spec fn pivot_from<T: Keypoint>(s: Seq<T>, lo: int, hi: int, i: int, best: int) -> int
    decreases hi - i,
{
    if i < hi - 1 {
        let nb = if seg_dev(s, lo, hi, i) > seg_dev(s, lo, hi, best) {
            i
        } else {
            best
        };
        pivot_from(s, lo, hi, i + 1, nb)
    } else {
        best
    }
}

/// First index of the maximum deviation among the interior elements of
/// the segment `[lo, hi)`. The segment's own endpoints always survive
/// simplification, so they are not candidates.
pub open spec fn pivot<T: Keypoint>(s: Seq<T>, lo: int, hi: int) -> int {
    pivot_from(s, lo, hi, lo + 2, lo + 1)
}

/// The simplified form of the segment `[lo, hi)` of `s`: the recursive
/// divide-and-conquer reduction. Segments of at most two elements are
/// returned unchanged; otherwise, when the maximum interior deviation
/// is within `eps` the whole segment collapses to its two endpoints,
/// and when it is not, both halves around the maximum-deviation element
/// are reduced and joined, the shared pivot element de-duplicated.
pub open spec fn rdp<T: Keypoint>(s: Seq<T>, lo: int, hi: int, eps: int) -> Seq<T>
    decreases hi - lo,
{
    if !(0 <= lo && lo <= hi && hi <= s.len()) {
        Seq::empty()
    } else if hi - lo <= 2 {
        s.subrange(lo, hi)
    } else {
        let p = pivot(s, lo, hi);
        // the pivot scan stays strictly inside the segment by
        // construction; the guard makes that structurally evident, so
        // both halves below are shorter than the whole
        let m = if lo + 1 <= p && p <= hi - 2 {
            p
        } else {
            lo + 1
        };
        if seg_dev(s, lo, hi, m) <= eps * T::dev_scale(s[lo], s[hi - 1]) {
            seq![s[lo], s[hi - 1]]
        } else {
            rdp(s, lo, m + 1, eps) + rdp(s, m, hi, eps).drop_first()
        }
    }
}

/// Simplification always retains the first and last element of its
/// input segment.
pub proof fn lemma_rdp_shape<T: Keypoint>(s: Seq<T>, lo: int, hi: int, eps: int)
    requires
        0 <= lo < hi <= s.len(),
    ensures
        rdp(s, lo, hi, eps).len() >= 1,
        rdp(s, lo, hi, eps)[0] == s[lo],
        rdp(s, lo, hi, eps).last() == s[hi - 1],
        hi - lo >= 2 ==> rdp(s, lo, hi, eps).len() >= 2,
    decreases hi - lo,
{
    if hi - lo <= 2 {
    } else {
        let p = pivot(s, lo, hi);
        let m = if lo + 1 <= p && p <= hi - 2 {
            p
        } else {
            lo + 1
        };
        if seg_dev(s, lo, hi, m) <= eps * T::dev_scale(s[lo], s[hi - 1]) {
        } else {
            lemma_rdp_shape(s, lo, m + 1, eps);
            lemma_rdp_shape(s, m, hi, eps);
        }
    }
}

/// `f` lists, in strictly increasing order, the positions in `[lo, hi)`
/// of `s` that the elements of `a` were taken from.
pub open spec fn is_index_map<T>(f: Seq<int>, a: Seq<T>, s: Seq<T>, lo: int, hi: int) -> bool {
    &&& f.len() == a.len()
    &&& forall|i: int| 0 <= i < f.len() ==> lo <= #[trigger] f[i] < hi
    &&& forall|i: int| 0 <= i < f.len() ==> a[i] == s[#[trigger] f[i]]
    &&& forall|i: int, j: int| 0 <= i < j < f.len() ==> f[i] < f[j]
}

/// `a` is a subsequence of the segment `[lo, hi)` of `s`.
pub open spec fn subseq_within<T>(a: Seq<T>, s: Seq<T>, lo: int, hi: int) -> bool {
    exists|f: Seq<int>| is_index_map(f, a, s, lo, hi)
}

/// Simplification returns a subsequence of its input segment.
pub proof fn lemma_rdp_subseq<T: Keypoint>(s: Seq<T>, lo: int, hi: int, eps: int)
    requires
        0 <= lo < hi <= s.len(),
    ensures
        subseq_within(rdp(s, lo, hi, eps), s, lo, hi),
    decreases hi - lo,
{
    let r = rdp(s, lo, hi, eps);
    if hi - lo <= 2 {
        let f = Seq::new(r.len(), |i: int| lo + i);
        assert(is_index_map(f, r, s, lo, hi));
    } else {
        let p = pivot(s, lo, hi);
        let m = if lo + 1 <= p && p <= hi - 2 {
            p
        } else {
            lo + 1
        };
        if seg_dev(s, lo, hi, m) <= eps * T::dev_scale(s[lo], s[hi - 1]) {
            let f = seq![lo, hi - 1];
            assert(is_index_map(f, r, s, lo, hi));
        } else {
            lemma_rdp_subseq(s, lo, m + 1, eps);
            lemma_rdp_subseq(s, m, hi, eps);
            lemma_rdp_shape(s, m, hi, eps);
            let pre = rdp(s, lo, m + 1, eps);
            let post = rdp(s, m, hi, eps);
            let m1 = m + 1;
            let f1 = choose|f1: Seq<int>| #[trigger] is_index_map(f1, pre, s, lo, m1);
            let f2 = choose|f2: Seq<int>| #[trigger] is_index_map(f2, post, s, m, hi);
            let f = f1 + f2.subrange(1, f2.len() as int);
            assert forall|i: int| 0 <= i < f.len() implies lo <= #[trigger] f[i] < hi && r[i]
                == s[f[i]] by {
                if i < f1.len() {
                    assert(f[i] == f1[i]);
                    assert(r[i] == pre[i]);
                } else {
                    assert(f[i] == f2[i - f1.len() + 1]);
                    assert(r[i] == post.drop_first()[i - f1.len()]);
                    assert(post.drop_first()[i - f1.len()] == post[i - f1.len() + 1]);
                }
            }
            assert forall|i: int, j: int| 0 <= i < j < f.len() implies f[i] < f[j] by {
                if j < f1.len() {
                } else if i >= f1.len() {
                    assert(f[i] == f2[i - f1.len() + 1]);
                    assert(f[j] == f2[j - f1.len() + 1]);
                } else {
                    assert(f[i] == f1[i]);
                    assert(f[j] == f2[j - f1.len() + 1]);
                    assert(f1[i] < m + 1);
                    if j - f1.len() + 1 > 0 {
                        assert(f2[0] < f2[j - f1.len() + 1]);
                    }
                    assert(f2[j - f1.len() + 1] > f2[0] >= m);
                }
            }
            assert(is_index_map(f, r, s, lo, hi));
        }
    }
}

/// `x` occurs in the segment `[lo, hi)` of `s`.
pub open spec fn elem_of_segment<T>(x: T, s: Seq<T>, lo: int, hi: int) -> bool {
    exists|k: int| lo <= k < hi && x == s[k]
}

/// A subsequence of a time-sorted sequence is time-sorted, and every
/// one of its elements is an element of the segment it was taken from.
pub proof fn lemma_subseq_within<T: Timed>(a: Seq<T>, s: Seq<T>, lo: int, hi: int)
    requires
        subseq_within(a, s, lo, hi),
        0 <= lo <= hi <= s.len(),
    ensures
        sorted_by_time(s) ==> sorted_by_time(a),
        forall|i: int| 0 <= i < a.len() ==> #[trigger] elem_of_segment(a[i], s, lo, hi),
{
    let f = choose|f: Seq<int>| #[trigger] is_index_map(f, a, s, lo, hi);
    assert(is_index_map(f, a, s, lo, hi));
    assert forall|i: int| 0 <= i < a.len() implies #[trigger] elem_of_segment(a[i], s, lo, hi) by {
        assert(a[i] == s[f[i]]);
    }
    if sorted_by_time(s) {
        assert forall|i: int, j: int| 0 <= i < j < a.len() implies a[i].time() <= a[j].time() by {
            assert(a[i] == s[f[i]]);
            assert(a[j] == s[f[j]]);
            assert(f[i] < f[j]);
        }
    }
}

/// When `eps` is at least every interior deviation of the segment (for
/// instance, any value exceeding all deviations), the whole segment
/// collapses to exactly its two endpoints.
pub proof fn lemma_rdp_collapse<T: Keypoint>(s: Seq<T>, lo: int, hi: int, eps: int)
    requires
        0 <= lo,
        lo + 3 <= hi <= s.len(),
        forall|i: int|
            lo < i < hi - 1 ==> #[trigger] seg_dev(s, lo, hi, i) <= eps * T::dev_scale(
                s[lo],
                s[hi - 1],
            ),
    ensures
        rdp(s, lo, hi, eps) == seq![s[lo], s[hi - 1]],
{
    let p = pivot(s, lo, hi);
    let m = if lo + 1 <= p && p <= hi - 2 {
        p
    } else {
        lo + 1
    };
    assert(seg_dev(s, lo, hi, m) <= eps * T::dev_scale(s[lo], s[hi - 1]));
}

/// A segment with no exact redundancy is returned unchanged: when every
/// point strictly between any two others deviates from their line by
/// more than `eps`, nothing is dropped.
pub proof fn lemma_rdp_no_redundancy_kept<T: Keypoint>(s: Seq<T>, lo: int, hi: int, eps: int)
    requires
        0 <= lo < hi <= s.len(),
        forall|a: int, j: int, b: int|
            lo <= a < j < b < hi ==> #[trigger] T::scaled_dev(s[a], s[b], s[j]) > eps
                * T::dev_scale(s[a], s[b]),
    ensures
        rdp(s, lo, hi, eps) == s.subrange(lo, hi),
    decreases hi - lo,
{
    if hi - lo <= 2 {
    } else {
        let p = pivot(s, lo, hi);
        let m = if lo + 1 <= p && p <= hi - 2 {
            p
        } else {
            lo + 1
        };
        assert(T::scaled_dev(s[lo], s[hi - 1], s[m]) > eps * T::dev_scale(s[lo], s[hi - 1]));
        lemma_rdp_no_redundancy_kept(s, lo, m + 1, eps);
        lemma_rdp_no_redundancy_kept(s, m, hi, eps);
        assert(rdp(s, lo, hi, eps) =~= s.subrange(lo, hi));
    }
}

fn max_interior_index<T: Keypoint>(points: &Vec<T>, lo: usize, hi: usize) -> (m: usize)
    requires
        forall|i: int| 0 <= i < points@.len() ==> (#[trigger] points@[i]).in_range(),
        lo + 3 <= hi,
        hi <= points@.len(),
    ensures
        lo < m < hi - 1,
        m as int == pivot(points@, lo as int, hi as int),
{
    let mut best: usize = lo + 1;
    let mut dbest: i128 = T::dev_exec(&points[lo], &points[hi - 1], &points[lo + 1]);
    let mut i: usize = lo + 2;
    while i < hi - 1
        invariant
            forall|k: int| 0 <= k < points@.len() ==> (#[trigger] points@[k]).in_range(),
            lo + 3 <= hi <= points@.len(),
            lo + 1 <= best <= hi - 2,
            lo + 2 <= i <= hi - 1,
            dbest as int == seg_dev(points@, lo as int, hi as int, best as int),
            pivot(points@, lo as int, hi as int) == pivot_from(
                points@,
                lo as int,
                hi as int,
                i as int,
                best as int,
            ),
        decreases hi - i,
    {
        let d = T::dev_exec(&points[lo], &points[hi - 1], &points[i]);
        proof {
            assert(pivot_from(points@, lo as int, hi as int, i as int, best as int)
                == pivot_from(
                points@,
                lo as int,
                hi as int,
                i as int + 1,
                if seg_dev(points@, lo as int, hi as int, i as int) > seg_dev(
                    points@,
                    lo as int,
                    hi as int,
                    best as int,
                ) {
                    i as int
                } else {
                    best as int
                },
            ));
        }
        if d > dbest {
            best = i;
            dbest = d;
        }
        i = i + 1;
    }
    best
}

fn simplify_seg<T: Keypoint>(points: &Vec<T>, lo: usize, hi: usize, eps: i64) -> (r: Vec<T>)
    requires
        forall|i: int| 0 <= i < points@.len() ==> (#[trigger] points@[i]).in_range(),
        lo < hi,
        hi <= points@.len(),
    ensures
        r@ == rdp(points@, lo as int, hi as int, eps as int),
    decreases hi - lo,
{
    if hi - lo <= 2 {
        let mut r: Vec<T> = Vec::new();
        r.push(points[lo]);
        if hi - lo == 2 {
            r.push(points[hi - 1]);
        }
        proof {
            assert(r@ =~= points@.subrange(lo as int, hi as int));
        }
        r
    } else {
        let m = max_interior_index(points, lo, hi);
        let d = T::dev_exec(&points[lo], &points[hi - 1], &points[m]);
        let k = T::scale_exec(&points[lo], &points[hi - 1]);
        proof {
            T::lemma_metric(points@[lo as int], points@[hi as int - 1], points@[m as int]);
            let e = eps as int;
            let kk = k as int;
            assert((-0x8000_0000_0000_0000) * 0x4_0000_0000 <= e * kk <= 0x8000_0000_0000_0000
                * 0x4_0000_0000) by (nonlinear_arith)
                requires
                    -0x8000_0000_0000_0000 <= e <= 0x7fff_ffff_ffff_ffff,
                    0 < kk <= 0x4_0000_0000,
            ;
        }
        if d <= (eps as i128) * k {
            let mut r: Vec<T> = Vec::new();
            r.push(points[lo]);
            r.push(points[hi - 1]);
            proof {
                assert(r@ =~= seq![points@[lo as int], points@[hi as int - 1]]);
            }
            r
        } else {
            let mut r = simplify_seg(points, lo, m + 1, eps);
            let post = simplify_seg(points, m, hi, eps);
            proof {
                lemma_rdp_shape(points@, m as int, hi as int, eps as int);
            }
            let mut i: usize = 1;
            while i < post.len()
                invariant
                    1 <= i <= post@.len(),
                    r@ == rdp(points@, lo as int, m as int + 1, eps as int) + post@.subrange(
                        1,
                        i as int,
                    ),
                    post@ == rdp(points@, m as int, hi as int, eps as int),
                decreases post@.len() - i,
            {
                r.push(post[i]);
                proof {
                    assert(post@.subrange(1, i as int + 1) =~= post@.subrange(1, i as int).push(
                        post@[i as int],
                    ));
                }
                i = i + 1;
            }
            proof {
                assert(post@.subrange(1, post@.len() as int) =~= post@.drop_first());
            }
            r
        }
    }
}

/// Reduce a sequence of keyframes to a similar sequence with fewer
/// keyframes, keeping every surviving point within the error term `eps`
/// of the straight interpolation line between its retained neighbors.
/// The first and last keyframes always survive; an empty input returns
/// an empty result and a single keyframe is returned unchanged.
pub fn simplify_path<T: Keypoint>(points: &Vec<T>, eps: i64) -> (r: Vec<T>)
    requires
        forall|i: int| 0 <= i < points@.len() ==> (#[trigger] points@[i]).in_range(),
    ensures
        r@ == rdp(points@, 0, points@.len() as int, eps as int),
{
    if points.len() == 0 {
        let r: Vec<T> = Vec::new();
        proof {
            assert(r@ =~= rdp(points@, 0, points@.len() as int, eps as int));
        }
        r
    } else {
        simplify_seg(points, 0, points.len(), eps)
    }
}

} // verus!
