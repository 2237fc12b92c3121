//! Per-axis pieces shared by the two- and three-dimensional traversal
//! engines: the stepping invariant, the step-count measure, and the scalar
//! helpers of the bounding-box pre-clip.

use vstd::prelude::*;
use crate::fx::{SCALE, COORD_LIMIT, SIZE_LIMIT, nneg, udiv};
use vstd::arithmetic::div_mod::{lemma_div_is_ordered, lemma_div_multiples_vanish};
use vstd::arithmetic::mul::{lemma_mul_inequality, lemma_mul_nonnegative};

verus! {

/// Upper bound on the travel cap a cursor can be built with.
pub(crate) const MAXD_CAP: i64 = 0x40_0000_0000;

/// Upper bound on the travelled distance `t` across a cursor's lifetime.
pub(crate) const T_CAP: i64 = 0x40_0000_0000 + 65536 * 65536;

/// Slack constant tying a voxel coordinate to the accumulated boundary
/// distance on its axis; it dominates every possible starting position.
pub(crate) const I_BASE: i64 = 0x30_0000_0000;

/// The per-axis invariant: the step sign is a unit, the stride (when the
/// axis moves at all) is between one voxel and one whole unit of strides,
/// the next boundary lies no further than one stride ahead of the travelled
/// distance, and the voxel coordinate is tied to the accumulated boundary
/// distance so it cannot run away.
pub(crate) open spec fn axis_ok(
    t: int,
    i_c: int,
    step_c: int,
    delta_c: Option<i64>,
    t_max_c: Option<i64>,
) -> bool {
    &&& (step_c == 1 || step_c == -1)
    &&& (delta_c is Some <==> t_max_c is Some)
    &&& match (delta_c, t_max_c) {
        (Some(d), Some(tm)) => {
            &&& SCALE <= d <= SCALE * SCALE
            &&& t <= tm <= t + d
            &&& i_c * SCALE <= I_BASE + tm
            &&& (-i_c) * SCALE <= I_BASE + tm
        },
        _ => -I_BASE <= i_c * SCALE <= I_BASE,
    }
}

/// One axis's share of the step-count measure: how far its next boundary
/// still is from the point where the travel cap cuts the traversal off.
pub(crate) open spec fn axis_measure(max_d: int, delta_c: Option<i64>, t_max_c: Option<i64>) -> int {
    match (delta_c, t_max_c) {
        (Some(d), Some(tm)) => nneg(max_d + d - tm),
        _ => 0,
    }
}

/// Quotient `num * SCALE / den` with truncation toward zero, as a
/// mathematical function.
pub(crate) open spec fn signed_div_fx_spec(num: int, den: int) -> int {
    if num >= 0 {
        (num * SCALE as int) / den
    } else {
        -(((-num) * SCALE as int) / den)
    }
}

/// Quotient `num * SCALE / den` with truncation toward zero.
pub(crate) fn signed_div_fx(num: i64, den: i64) -> (t: i64)
    requires
        -0x30_0000_0000 <= num <= 0x30_0000_0000,
        1 <= den <= SCALE,
    ensures
        -0x30_0000_0000_0000 <= t <= 0x30_0000_0000_0000,
        t == signed_div_fx_spec(num as int, den as int),
{
    if num >= 0 {
        udiv(num * SCALE, den)
    } else {
        -udiv((-num) * SCALE, den)
    }
}

/// Distance along the ray (in fixed-point steps) at which it crosses the
/// axis plane gated by the sign of `d_c`, as a mathematical function.
pub(crate) open spec fn plane_distance_spec(from_c: int, d_c: int, hi: int) -> int {
    if d_c > 0 {
        signed_div_fx_spec(-from_c, d_c)
    } else if d_c < 0 {
        signed_div_fx_spec(from_c - hi, -d_c)
    } else {
        -1
    }
}

/// Distance along the ray (in fixed-point steps) at which it crosses the
/// axis plane gated by the sign of `d_c`: the near plane at zero when moving
/// up the axis, the far plane at `hi` when moving down.  A zero component
/// never crosses a plane, so its axis never gates entry; the guard-band check
/// on the entry point covers it.
pub(crate) fn plane_distance(from_c: i64, d_c: i64, hi: i64) -> (t: i64)
    requires
        -COORD_LIMIT <= from_c <= COORD_LIMIT,
        -SCALE <= d_c <= SCALE,
        0 <= hi <= (SIZE_LIMIT as i64) * SCALE,
    ensures
        -0x30_0000_0000_0000 <= t <= 0x30_0000_0000_0000,
        t == plane_distance_spec(from_c as int, d_c as int, hi as int),
{
    if d_c > 0 {
        signed_div_fx(0 - from_c, d_c)
    } else if d_c < 0 {
        signed_div_fx(from_c - hi, -d_c)
    } else {
        -1
    }
}

/// The point `from + dir * t / SCALE` on a ray, one axis at a time, as a
/// mathematical function (`t` non-negative).
pub(crate) open spec fn point_along_spec(from_c: int, d_c: int, t: int) -> int {
    if d_c < 0 {
        from_c - ((-d_c) * t) / (SCALE as int)
    } else {
        from_c + (d_c * t) / (SCALE as int)
    }
}

/// The point `from + dir * t / SCALE` on a ray, one axis at a time.
pub(crate) fn point_along(from_c: i64, d_c: i64, t: i64) -> (p: i64)
    requires
        -COORD_LIMIT <= from_c <= COORD_LIMIT,
        -SCALE <= d_c <= SCALE,
        0 <= t <= 0x30_0000_0000_0000,
    ensures
        -COORD_LIMIT - 0x30_0000_0000_0000 <= p <= COORD_LIMIT + 0x30_0000_0000_0000,
        p == point_along_spec(from_c as int, d_c as int, t as int),
{
    let ad: i64 = if d_c < 0 { -d_c } else { d_c };
    proof {
        lemma_mul_inequality(ad as int, SCALE as int, t as int);
        lemma_div_is_ordered(ad as int * t as int, SCALE as int * t as int, SCALE as int);
        lemma_div_multiples_vanish(t as int, SCALE as int);
        assert(SCALE as int * t as int == t as int * SCALE as int);
        lemma_mul_nonnegative(ad as int, t as int);
    }
    let prod: u128 = (ad as u128) * (t as u128);
    let q: i64 = (prod / 65536) as i64;
    if d_c < 0 {
        from_c - q
    } else {
        from_c + q
    }
}

} // verus!
