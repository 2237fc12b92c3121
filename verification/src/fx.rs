//! Fixed-point scalars and the few arithmetic facts the traversal engines
//! need.
//!
//! Every coordinate in this crate is an `i64` counting `1/SCALE`-ths of a
//! grid unit, so one voxel is exactly `SCALE` steps wide.  All executable
//! division is routed through [`udiv`], which divides non-negative values
//! only; there Rust's truncating division and the mathematical (Euclidean)
//! division used in specifications coincide.

use vstd::prelude::*;
use vstd::arithmetic::div_mod::{
    lemma_div_is_ordered, lemma_div_nonincreasing, lemma_div_pos_is_pos,
    lemma_fundamental_div_mod, lemma_fundamental_div_mod_converse_div,
    lemma_div_multiples_vanish,
};
use vstd::arithmetic::mul::{lemma_mul_inequality, lemma_mul_nonnegative};

verus! {

/// Number of fixed-point steps per grid unit (16 fractional bits).
pub const SCALE: i64 = 65536;

/// Largest magnitude (in fixed-point steps) accepted for a ray origin or a
/// finite ray length: 2^36 steps, i.e. about a million grid units.
pub const COORD_LIMIT: i64 = 0x10_0000_0000;

/// Largest magnitude accepted for a raw (un-normalized) direction component.
pub const DIR_LIMIT: i64 = 0x4000_0000;

/// Largest grid extent, in voxels, accepted on one axis.
pub const SIZE_LIMIT: i32 = 0x10_0000;

/// Clamp an integer to be non-negative; used by the step-count measures.
pub open spec fn nneg(x: int) -> int {
    if x < 0 {
        0
    } else {
        x
    }
}

/// Quotient of two non-negative machine integers; agrees exactly with the
/// mathematical division of the specification.
pub fn udiv(a: i64, b: i64) -> (q: i64)
    requires
        0 <= a,
        0 < b,
    ensures
        q == a as int / b as int,
        0 <= q <= a,
{
    proof {
        lemma_div_pos_is_pos(a as int, b as int);
        lemma_div_nonincreasing(a as int, b as int);
    }
    ((a as u64) / (b as u64)) as i64
}

/// Floor of `p / SCALE`: the grid coordinate of the voxel containing the
/// fixed-point coordinate `p`.
pub fn fx_floor(p: i64) -> (q: i64)
    requires
        -0x1000_0000_0000_0000 <= p <= 0x1000_0000_0000_0000,
    ensures
        q == p as int / SCALE as int,
        q * SCALE <= p < (q + 1) * SCALE,
{
    let q: i64;
    if p >= 0 {
        q = udiv(p, SCALE);
        proof {
            lemma_fundamental_div_mod(p as int, SCALE as int);
        }
    } else {
        let m = -p;
        let a = udiv(m + SCALE - 1, SCALE);
        proof {
            lemma_fundamental_div_mod((m + SCALE - 1) as int, SCALE as int);
            // a * SCALE - m lies in [0, SCALE), so -a is the floor quotient.
            lemma_fundamental_div_mod_converse_div(
                p as int,
                SCALE as int,
                -(a as int),
                a as int * SCALE as int - m as int,
            );
        }
        q = -a;
    }
    proof {
        lemma_fundamental_div_mod(p as int, SCALE as int);
    }
    q
}

/// `(a * b) / d` stays at or below `a` whenever `b` is at most `d`.
pub proof fn lemma_mul_div_le(a: int, b: int, d: int)
    requires
        0 <= a,
        0 <= b <= d,
        0 < d,
    ensures
        0 <= (a * b) / d <= a,
{
    lemma_mul_nonnegative(a, b);
    lemma_div_pos_is_pos(a * b, d);
    lemma_mul_inequality(b, d, a);
    assert(a * b == b * a) by (nonlinear_arith);
    assert(a * d == d * a) by (nonlinear_arith);
    lemma_div_is_ordered(a * b, a * d, d);
    lemma_div_multiples_vanish(a, d);
}

/// The integer square root, as a mathematical function: the unique `r` with
/// `r * r <= x < (r + 1) * (r + 1)` for non-negative `x`.
pub closed spec fn isqrt_spec(x: int) -> int
    decreases x,
{
    if x < 1 {
        0
    } else if (isqrt_spec(x - 1) + 1) * (isqrt_spec(x - 1) + 1) <= x {
        isqrt_spec(x - 1) + 1
    } else {
        isqrt_spec(x - 1)
    }
}

/// The defining bounds of [`isqrt_spec`].
pub proof fn lemma_isqrt_spec(x: int)
    requires
        0 <= x,
    ensures
        0 <= isqrt_spec(x),
        isqrt_spec(x) * isqrt_spec(x) <= x,
        x < (isqrt_spec(x) + 1) * (isqrt_spec(x) + 1),
    decreases x,
{
    if x == 0 {
    } else {
        lemma_isqrt_spec(x - 1);
        let p = isqrt_spec(x - 1);
        if (p + 1) * (p + 1) <= x {
            // here x == (p + 1) * (p + 1), one step past the previous square
            assert(x < (p + 2) * (p + 2)) by (nonlinear_arith)
                requires
                    0 <= p,
                    x - 1 < (p + 1) * (p + 1),
            ;
        }
    }
}

/// Integer square root: the unique `r` with `r * r <= x < (r + 1) * (r + 1)`.
pub fn isqrt(x: i64) -> (r: i64)
    requires
        0 <= x < 0x4000_0000_0000_0000,
    ensures
        0 <= r,
        r * r <= x,
        x < (r + 1) * (r + 1),
        r < 0x8000_0000,
        r == isqrt_spec(x as int),
{
    let mut lo: i64 = 0;
    let mut hi: i64 = 0x8000_0000;
    proof {
        assert(0x8000_0000i64 * 0x8000_0000i64 == 0x4000_0000_0000_0000) by (nonlinear_arith);
    }
    while lo + 1 < hi
        invariant
            0 <= lo < hi <= 0x8000_0000,
            lo * lo <= x,
            x < hi * hi,
        decreases hi - lo,
    {
        let mid = lo + udiv(hi - lo, 2);
        proof {
            lemma_fundamental_div_mod((hi - lo) as int, 2);
            assert(lo < mid < hi);
            assert(mid * mid <= 0x8000_0000i64 * 0x8000_0000i64) by (nonlinear_arith)
                requires 0 <= mid <= 0x8000_0000i64;
        }
        if mid * mid <= x {
            lo = mid;
        } else {
            hi = mid;
        }
    }
    proof {
        // both `lo` and the mathematical square root satisfy the defining
        // bounds, which pin the value uniquely
        lemma_isqrt_spec(x as int);
        assert(lo == isqrt_spec(x as int)) by (nonlinear_arith)
            requires
                0 <= lo,
                lo * lo <= x,
                x < (lo + 1) * (lo + 1),
                0 <= isqrt_spec(x as int),
                isqrt_spec(x as int) * isqrt_spec(x as int) <= x,
                x < (isqrt_spec(x as int) + 1) * (isqrt_spec(x as int) + 1),
        ;
    }
    lo
}

} // verus!
