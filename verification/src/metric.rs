//! The per-axis deviation formula shared by the position and color
//! metrics: a candidate value is compared against the time-fractional
//! linear interpolation between the segment anchors, and the deviation
//! of a keyframe is the maximum absolute per-axis difference.
//!
//! For anchors at times `st < et` the interpolated value at time `pt`
//! is `sv + (pt - st) / (et - st) * (ev - sv)`; multiplying through by
//! the timespan `et - st` keeps everything an exact integer. When the
//! anchors share a timestamp (degenerate geometry) a fixed fallback
//! denominator of one half is used instead of failing, which makes the
//! scaled ratio `2 * (pt - st)` and the scale one.

use vstd::prelude::*;

verus! {

/// Absolute value.
pub open spec fn abs_of(v: int) -> int {
    if v < 0 {
        -v
    } else {
        v
    }
}

/// Maximum of three values.
pub open spec fn max3(a: int, b: int, c: int) -> int {
    if a >= b && a >= c {
        a
    } else if b >= c {
        b
    } else {
        c
    }
}

/// Scaled deviation of the value `pv` at time `pt` from the line that
/// interpolates from `sv` at time `st` to `ev` at time `et`.
pub open spec fn axis_scaled_dev(st: int, et: int, sv: int, ev: int, pt: int, pv: int) -> int {
    if et > st {
        abs_of((sv - pv) * (et - st) + (pt - st) * (ev - sv))
    } else {
        abs_of(sv + 2 * (pt - st) * (ev - sv) - pv)
    }
}

/// The common denominator matching `axis_scaled_dev`.
pub open spec fn axis_dev_scale(st: int, et: int) -> int {
    if et > st {
        et - st
    } else {
        1
    }
}

/// The product of values bounded in magnitude is bounded by the product
/// of the bounds.
pub proof fn lemma_mul_bound(a: int, b: int, ba: int, bb: int)
    by (nonlinear_arith)
    requires
        -ba <= a <= ba,
        -bb <= b <= bb,
        0 <= ba,
        0 <= bb,
    ensures
        -(ba * bb) <= a * b <= ba * bb,
{
}

/// Bound on the scaled axis deviation for values and times of magnitude
/// at most `bound`.
pub proof fn lemma_axis_dev_bound(st: int, et: int, sv: int, ev: int, pt: int, pv: int, bound: int)
    requires
        0 <= bound,
        -bound <= st <= bound,
        -bound <= et <= bound,
        -bound <= sv <= bound,
        -bound <= ev <= bound,
        -bound <= pt <= bound,
        -bound <= pv <= bound,
    ensures
        0 <= axis_scaled_dev(st, et, sv, ev, pt, pv) <= 8 * (bound * bound) + 2 * bound,
        0 < axis_dev_scale(st, et) <= 2 * bound + 1,
{
    if et > st {
        lemma_mul_bound(sv - pv, et - st, 2 * bound, 2 * bound);
        lemma_mul_bound(pt - st, ev - sv, 2 * bound, 2 * bound);
        assert((2 * bound) * (2 * bound) == 4 * (bound * bound)) by (nonlinear_arith);
    } else {
        lemma_mul_bound(2 * (pt - st), ev - sv, 4 * bound, 2 * bound);
        assert((4 * bound) * (2 * bound) == 8 * (bound * bound)) by (nonlinear_arith);
    }
}

/// Executable form of `axis_scaled_dev`, exact in 128-bit arithmetic
/// for inputs of magnitude at most `0x1_0000_0000`.
pub fn axis_dev_exec(st: i64, et: i64, sv: i64, ev: i64, pt: i64, pv: i64) -> (d: i128)
    requires
        -0x1_0000_0000 <= st <= 0x1_0000_0000,
        -0x1_0000_0000 <= et <= 0x1_0000_0000,
        -0x1_0000_0000 <= sv <= 0x1_0000_0000,
        -0x1_0000_0000 <= ev <= 0x1_0000_0000,
        -0x1_0000_0000 <= pt <= 0x1_0000_0000,
        -0x1_0000_0000 <= pv <= 0x1_0000_0000,
    ensures
        d as int == axis_scaled_dev(st as int, et as int, sv as int, ev as int, pt as int, pv as int),
{
    let stl = st as i128;
    let etl = et as i128;
    let svl = sv as i128;
    let evl = ev as i128;
    let ptl = pt as i128;
    let pvl = pv as i128;
    if et > st {
        proof {
            lemma_mul_bound(svl as int - pvl as int, etl as int - stl as int, 0x2_0000_0000, 0x2_0000_0000);
            lemma_mul_bound(ptl as int - stl as int, evl as int - svl as int, 0x2_0000_0000, 0x2_0000_0000);
        }
        let v = (svl - pvl) * (etl - stl) + (ptl - stl) * (evl - svl);
        if v < 0 {
            -v
        } else {
            v
        }
    } else {
        proof {
            lemma_mul_bound(2 * (ptl as int - stl as int), evl as int - svl as int, 0x4_0000_0000, 0x2_0000_0000);
        }
        let v = svl + 2 * (ptl - stl) * (evl - svl) - pvl;
        if v < 0 {
            -v
        } else {
            v
        }
    }
}

/// Executable form of `axis_dev_scale`.
pub fn axis_scale_exec(st: i64, et: i64) -> (k: i128)
    requires
        -0x1_0000_0000 <= st <= 0x1_0000_0000,
        -0x1_0000_0000 <= et <= 0x1_0000_0000,
    ensures
        k as int == axis_dev_scale(st as int, et as int),
{
    if et > st {
        (et as i128) - (st as i128)
    } else {
        1
    }
}

/// Executable maximum of three deviations.
pub fn max3_exec(a: i128, b: i128, c: i128) -> (r: i128)
    ensures
        r as int == max3(a as int, b as int, c as int),
{
    if a >= b && a >= c {
        a
    } else if b >= c {
        b
    } else {
        c
    }
}

} // verus!
