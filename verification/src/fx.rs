//! Fixed-point scalar arithmetic: truncated division, fixed-point
//! multiplication, clamping, and an integer square root.
//!
//! A scalar is an `i64` holding `FX` subunits per world unit.

use vstd::prelude::*;
use crate::FX;

verus! {

/// Truncated (round-toward-zero) division of `n` by positive `d`,
/// as Rust's `/` computes it on signed integers.
pub open spec fn tdiv(n: int, d: int) -> int {
    if n >= 0 {
        n / d
    } else {
        -((-n) / d)
    }
}

/// Fixed-point product: `a` times `b`, both in `FX` subunits, truncated
/// back to `FX` subunits.
pub open spec fn fxm(a: int, b: int) -> int {
    tdiv(a * b, FX as int)
}

/// `max(lo, min(x, hi))`.
pub open spec fn clamp_spec(x: int, lo: int, hi: int) -> int {
    if x < lo {
        lo
    } else if x > hi {
        hi
    } else {
        x
    }
}

/// Magnitude bound carried through truncated division: if `-m <= n <= m`
/// then `-m/d <= tdiv(n, d) <= m/d`.
pub proof fn lemma_tdiv_bound(n: int, m: int, d: int)
    requires
        d > 0,
        0 <= m,
        -m <= n <= m,
    ensures
        -(m / d) <= tdiv(n, d) <= m / d,
{
    if n >= 0 {
        vstd::arithmetic::div_mod::lemma_div_is_ordered(n, m, d);
        vstd::arithmetic::div_mod::lemma_div_pos_is_pos(n, d);
    } else {
        vstd::arithmetic::div_mod::lemma_div_is_ordered(-n, m, d);
        vstd::arithmetic::div_mod::lemma_div_pos_is_pos(-n, d);
    }
}

/// Truncated division stays put under a widening of the numerator bound:
/// `|n| <= k * d` gives `|tdiv(n, d)| <= k`.
pub proof fn lemma_tdiv_mul_bound(n: int, k: int, d: int)
    requires
        d > 0,
        0 <= k,
        -(k * d) <= n <= k * d,
    ensures
        -k <= tdiv(n, d) <= k,
{
    lemma_tdiv_bound(n, k * d, d);
    vstd::arithmetic::div_mod::lemma_div_multiples_vanish(k, d);
    vstd::arithmetic::mul::lemma_mul_is_commutative(k, d);
}

/// A numerator strictly under `k * d` divides to strictly under `k`.
pub proof fn lemma_div_lt(n: int, k: int, d: int)
    requires
        0 <= n,
        0 < d,
        0 < k,
        n < k * d,
    ensures
        n / d < k,
{
    vstd::arithmetic::div_mod::lemma_fundamental_div_mod(n, d);
    let q = n / d;
    let m = n % d;
    if q >= k {
        assert(d * q >= d * k) by (nonlinear_arith)
            requires q >= k, d > 0,
        ;
        assert(d * k == k * d) by (nonlinear_arith);
        assert(false);
    }
}

/// A numerator at least `k * d` in magnitude divides to at least `k` in
/// magnitude, on the same side of zero.
pub proof fn lemma_tdiv_mag_lower(n: int, k: int, d: int)
    requires
        0 < d,
        0 <= k,
        n >= k * d || n <= -(k * d),
    ensures
        n >= k * d ==> tdiv(n, d) >= k,
        n <= -(k * d) ==> tdiv(n, d) <= -k,
{
    if n >= k * d {
        vstd::arithmetic::mul::lemma_mul_is_commutative(k, d);
        vstd::arithmetic::div_mod::lemma_div_is_ordered(k * d, n, d);
        vstd::arithmetic::div_mod::lemma_div_multiples_vanish(k, d);
        assert(k * d >= 0) by (nonlinear_arith)
            requires k >= 0, d > 0,
        ;
    }
    if n <= -(k * d) {
        vstd::arithmetic::mul::lemma_mul_is_commutative(k, d);
        vstd::arithmetic::div_mod::lemma_div_is_ordered(k * d, -n, d);
        vstd::arithmetic::div_mod::lemma_div_multiples_vanish(k, d);
        assert(k * d >= 0) by (nonlinear_arith)
            requires k >= 0, d > 0,
        ;
    }
}

/// Truncated division by a positive divisor, the executable counterpart
/// of `tdiv`. Works on magnitudes so that no signed division is needed.
pub fn div_trunc(n: i64, d: i64) -> (r: i64)
    requires
        0 < d,
        -0x4000_0000_0000_0000 < n < 0x4000_0000_0000_0000,
    ensures
        r == tdiv(n as int, d as int),
{
    if n >= 0 {
        let q: u64 = (n as u64) / (d as u64);
        q as i64
    } else {
        let m: i64 = -n;
        let q: u64 = (m as u64) / (d as u64);
        -(q as i64)
    }
}

/// Fixed-point multiply, truncating toward zero.
pub fn fx_mul(a: i64, b: i64) -> (r: i64)
    requires
        -0x4000_0000_0000_0000 < a * b < 0x4000_0000_0000_0000,
    ensures
        r == fxm(a as int, b as int),
{
    let p: i64 = a * b;
    div_trunc(p, FX)
}

/// Clamp `x` into `[lo, hi]`.
pub fn clamp(x: i64, lo: i64, hi: i64) -> (r: i64)
    requires
        lo <= hi,
    ensures
        r == clamp_spec(x as int, lo as int, hi as int),
{
    if x < lo {
        lo
    } else if x > hi {
        hi
    } else {
        x
    }
}

/// Floor of the real square root of `n` (and 0 for negative `n`).
pub open spec fn sqrt_floor(n: int) -> int
    decreases n,
{
    if n <= 0 {
        0
    } else {
        let r = sqrt_floor(n - 1);
        if (r + 1) * (r + 1) <= n {
            r + 1
        } else {
            r
        }
    }
}

/// `sqrt_floor` is exactly the integer square root: its square is at
/// most `n` and the next square is beyond `n`.
pub proof fn lemma_sqrt_floor_correct(n: int)
    requires
        n >= 0,
    ensures
        0 <= sqrt_floor(n),
        sqrt_floor(n) * sqrt_floor(n) <= n,
        n < (sqrt_floor(n) + 1) * (sqrt_floor(n) + 1),
    decreases n,
{
    reveal_with_fuel(sqrt_floor, 2);
    if n > 0 {
        lemma_sqrt_floor_correct(n - 1);
        let r = sqrt_floor(n - 1);
        assert(r * r <= n - 1);
        assert(n - 1 < (r + 1) * (r + 1));
        if (r + 1) * (r + 1) <= n {
            assert(sqrt_floor(n) == r + 1);
            assert((r + 1 + 1) * (r + 1 + 1) > (r + 1) * (r + 1)) by (nonlinear_arith)
                requires r >= 0,
            ;
        } else {
            assert(sqrt_floor(n) == r);
        }
    }
}

/// Any integer whose square brackets `n` the same way is `sqrt_floor(n)`.
pub proof fn lemma_sqrt_floor_unique(n: int, r: int)
    requires
        0 <= n,
        0 <= r,
        r * r <= n,
        n < (r + 1) * (r + 1),
    ensures
        r == sqrt_floor(n),
{
    lemma_sqrt_floor_correct(n);
    let s = sqrt_floor(n);
    if r < s {
        assert((r + 1) * (r + 1) <= s * s) by (nonlinear_arith)
            requires 0 <= r, r + 1 <= s,
        ;
    }
    if s < r {
        assert((s + 1) * (s + 1) <= r * r) by (nonlinear_arith)
            requires 0 <= s, s + 1 <= r,
        ;
    }
}

/// Integer square root by bisection.
pub fn isqrt(n: u64) -> (r: u64)
    ensures
        r == sqrt_floor(n as int),
        r * r <= n < (r + 1) * (r + 1),
        r <= 0x1_0000_0000,
{
    let mut lo: u64 = 0;
    let mut hi: u64 = 0x1_0000_0000;
    proof {
        assert((0x1_0000_0000 as int) * (0x1_0000_0000 as int) > n as int);
    }
    while hi - lo > 1
        invariant
            lo < hi <= 0x1_0000_0000,
            lo * lo <= n,
            n < hi * hi,
        decreases hi - lo,
    {
        let mid: u64 = lo + (hi - lo) / 2;
        proof {
            assert((mid as int) * (mid as int) <= 0x1_0000_0000_0000_0000) by (nonlinear_arith)
                requires 0 <= mid <= 0x1_0000_0000,
            ;
        }
        let sq: u128 = (mid as u128) * (mid as u128);
        if sq <= n as u128 {
            lo = mid;
        } else {
            hi = mid;
        }
    }
    proof {
        lemma_sqrt_floor_unique(n as int, lo as int);
    }
    lo
}

} // verus!
