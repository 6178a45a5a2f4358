//! Small verified arithmetic helpers shared by the indicator kernels:
//! non-negative fixed-point division, integer square root, and the
//! Wilder recursive moving average.

use vstd::prelude::*;

verus! {

/// Floor of the real square root of a non-negative integer.
pub open spec fn sqrt_floor(n: int) -> int
    recommends
        n >= 0,
{
    choose|r: int| 0 <= r && #[trigger] (r * r) <= n && n < (r + 1) * (r + 1)
}

/// `r` is the floor square root of `n`.
pub open spec fn is_sqrt_floor(n: int, r: int) -> bool {
    0 <= r && r * r <= n && n < (r + 1) * (r + 1)
}

pub proof fn lemma_sqrt_floor_unique(n: int, a: int, b: int)
    by (nonlinear_arith)
    requires
        is_sqrt_floor(n, a),
        is_sqrt_floor(n, b),
    ensures
        a == b,
{
}

/// Integer square root by binary search.
pub fn isqrt_u128(n: u128) -> (r: u128)
    requires
        n < 1u128 << 126,
    ensures
        is_sqrt_floor(n as int, r as int),
        r == sqrt_floor(n as int),
{
    let mut lo: u128 = 0;
    let mut hi: u128 = 1u128 << 63;
    proof {
        assert((1u128 << 63) * (1u128 << 63) == 1u128 << 126) by (bit_vector);
    }
    while lo + 1 < hi
        invariant
            lo < hi <= 1u128 << 63,
            lo * lo <= n,
            hi * hi > n,
        decreases hi - lo,
    {
        let mid: u128 = lo + (hi - lo) / 2;
        proof {
            assert(mid * mid < (1u128 << 63) * (1u128 << 63)) by (nonlinear_arith)
                requires 0 <= mid < (1u128 << 63);
            assert((1u128 << 63) * (1u128 << 63) <= u128::MAX) by (bit_vector);
        }
        if mid * mid <= n {
            lo = mid;
        } else {
            hi = mid;
        }
    }
    proof {
        assert(lo + 1 == hi);
        assert(is_sqrt_floor(n as int, lo as int));
        let w = choose|r: int| 0 <= r && #[trigger] (r * r) <= n as int && (n as int) < (r + 1) * (r + 1);
        lemma_sqrt_floor_unique(n as int, lo as int, w);
    }
    lo
}

/// Divide non-negative `a` by positive `b`, exactly as mathematical
/// floor division.
pub fn div_nn_i64(a: i64, b: i64) -> (r: i64)
    requires
        a >= 0,
        b > 0,
    ensures
        r == a as int / b as int,
        0 <= r <= a,
{
    proof {
        lemma_div_range(a as int, b as int);
    }
    (a as u64 / b as u64) as i64
}

/// Divide non-negative `a` by positive `b` in 128-bit arithmetic.
pub fn div_nn_i128(a: i128, b: i128) -> (r: i128)
    requires
        a >= 0,
        b > 0,
    ensures
        r == a as int / b as int,
        0 <= r <= a,
{
    proof {
        lemma_div_range(a as int, b as int);
    }
    (a as u128 / b as u128) as i128
}

/// Floor division of a non-negative value by a positive one stays
/// between zero and the dividend.
pub proof fn lemma_div_range(a: int, b: int)
    by (nonlinear_arith)
    requires
        a >= 0,
        b > 0,
    ensures
        0 <= a / b <= a,
{
}

/// Scaling a quotient: if `0 <= a <= b` and `b > 0` then
/// `c * a / b <= c` for non-negative `c`.
pub proof fn lemma_scaled_ratio_le(a: int, b: int, c: int)
    by (nonlinear_arith)
    requires
        0 <= a <= b,
        b > 0,
        c >= 0,
    ensures
        0 <= c * a / b <= c,
{
}

/// One step of Wilder's recursive moving average over values that
/// already carry the smoothing scale: `(prev * (n - 1) + v) / n`.
pub open spec fn rma_step(prev: int, v: int, n: int) -> int
    recommends
        n >= 1,
{
    (prev * (n - 1) + v) / n
}

/// The Wilder average of two values inside a band stays inside it.
pub proof fn lemma_rma_bounds(prev: int, v: int, n: int, bound: int)
    by (nonlinear_arith)
    requires
        n >= 1,
        0 <= prev <= bound,
        0 <= v <= bound,
    ensures
        0 <= rma_step(prev, v, n) <= bound,
{
    assert(prev * (n - 1) + v <= bound * (n - 1) + bound);
}

/// The Wilder average preserves an ordering of its inputs.
pub proof fn lemma_rma_monotone(p1: int, v1: int, p2: int, v2: int, n: int)
    by (nonlinear_arith)
    requires
        n >= 1,
        0 <= p1 <= p2,
        0 <= v1 <= v2,
    ensures
        rma_step(p1, v1, n) <= rma_step(p2, v2, n),
{
}

/// Executable Wilder step on scaled values, bounded by `bound`.
pub fn rma_step_i64(prev: i64, v: i64, n: i64, Ghost(bound): Ghost<int>) -> (r: i64)
    requires
        n >= 1,
        0 <= prev <= bound,
        0 <= v <= bound,
        bound <= i64::MAX,
    ensures
        r == rma_step(prev as int, v as int, n as int),
        0 <= r <= bound,
{
    proof {
        lemma_rma_bounds(prev as int, v as int, n as int, bound);
        assert(prev as int * (n - 1) as int <= bound * (n - 1)) by (nonlinear_arith)
            requires 0 <= prev as int <= bound, n as int >= 1;
        assert(bound * (n - 1) + bound <= i128::MAX) by (nonlinear_arith)
            requires 0 <= bound <= i64::MAX, 1 <= n as int <= i64::MAX;
    }
    let num: i128 = (prev as i128) * ((n - 1) as i128) + (v as i128);
    let q: i128 = div_nn_i128(num, n as i128);
    q as i64
}

} // verus!
