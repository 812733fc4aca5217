//! Fixed-point sine and cosine over binary angle units.
//!
//! An angle is an `i64` with `TURN` (4096) units per revolution. The sine
//! of an angle in the first half revolution is a rational approximation
//! whose value stays inside `[0, FX]` and hits `FX` exactly at a quarter
//! revolution; the second half is its mirror image. This keeps the whole
//! simulation in integers while behaving like the real functions closely
//! enough for play.

use vstd::prelude::*;

verus! {

/// Sine over the first half revolution, `x` in `[0, HALF_TURN]`,
/// scaled by `FX`.
pub open spec fn sin_half_spec(x: int) -> int {
    16 * x * (2048 - x) * 1024 / (20971520 - 4 * x * (2048 - x))
}

/// Sine of a normalized angle `a` in `[0, TURN)`, scaled by `FX`.
pub open spec fn sin_spec(a: int) -> int {
    if a < 2048 {
        sin_half_spec(a)
    } else {
        -sin_half_spec(a - 2048)
    }
}

/// Cosine of a normalized angle `a` in `[0, TURN)`, scaled by `FX`:
/// the sine a quarter revolution ahead.
pub open spec fn cos_spec(a: int) -> int {
    if a + 1024 < 4096 {
        sin_spec(a + 1024)
    } else {
        sin_spec(a + 1024 - 4096)
    }
}

/// The half-revolution sine stays inside `[0, FX]`.
pub proof fn lemma_sin_half_range(x: int)
    requires
        0 <= x <= 2048,
    ensures
        0 <= sin_half_spec(x) <= 1024,
{
    assert(0 <= x * (2048 - x) <= 1048576) by (nonlinear_arith)
        requires 0 <= x <= 2048,
    ;
    assert(16 * x * (2048 - x) * 1024 == 16384 * (x * (2048 - x))) by (nonlinear_arith);
    assert(4 * x * (2048 - x) == 4 * (x * (2048 - x))) by (nonlinear_arith);
    let p = x * (2048 - x);
    let num = 16 * x * (2048 - x) * 1024;
    let den = 20971520 - 4 * x * (2048 - x);
    assert(num == 16384 * p);
    assert(den == 20971520 - 4 * p);
    assert(den >= 16777216);
    vstd::arithmetic::div_mod::lemma_div_pos_is_pos(num, den);
    vstd::arithmetic::div_mod::lemma_fundamental_div_mod(num, den);
    let q = num / den;
    let m = num % den;
    assert(num == den * q + m);
    if q > 1024 {
        assert(den * q >= den * 1025) by (nonlinear_arith)
            requires q >= 1025, den >= 16777216,
        ;
        assert(num <= 16384 * 1048576);
        assert(false);
    }
    assert(sin_half_spec(x) == q);
}

/// Sine and cosine of any normalized angle stay inside `[-FX, FX]`.
pub proof fn lemma_sin_cos_range(a: int)
    requires
        0 <= a < 4096,
    ensures
        -1024 <= sin_spec(a) <= 1024,
        -1024 <= cos_spec(a) <= 1024,
{
    if a < 2048 {
        lemma_sin_half_range(a);
    } else {
        lemma_sin_half_range(a - 2048);
    }
    let b = if a + 1024 < 4096 { a + 1024 } else { a + 1024 - 4096 };
    if b < 2048 {
        lemma_sin_half_range(b);
    } else {
        lemma_sin_half_range(b - 2048);
    }
}

/// The half-revolution sine is symmetric about the quarter revolution.
pub proof fn lemma_sin_half_symmetry(x: int)
    requires
        0 <= x <= 2048,
    ensures
        sin_half_spec(x) == sin_half_spec(2048 - x),
{
    assert(16 * x * (2048 - x) * 1024 == 16 * (2048 - x) * (2048 - (2048 - x)) * 1024)
        by (nonlinear_arith);
    assert(4 * x * (2048 - x) == 4 * (2048 - x) * (2048 - (2048 - x))) by (nonlinear_arith);
}

/// Negating a normalized angle negates its sine: the sine of the
/// mirrored angle `TURN - a` is the opposite of the sine of `a`.
pub proof fn lemma_sin_neg(a: int)
    requires
        0 < a < 4096,
    ensures
        sin_spec(4096 - a) == -sin_spec(a),
{
    if a < 2048 {
        // the mirror lands in the second half revolution
        lemma_sin_half_symmetry(a);
        assert(sin_spec(4096 - a) == -sin_half_spec(4096 - a - 2048));
        assert(4096 - a - 2048 == 2048 - a);
    } else if a == 2048 {
        assert(sin_half_spec(0) == 0);
        assert(sin_half_spec(2048) == 0) by {
            assert(16 * 2048 * (2048 - 2048) * 1024 == 0) by (nonlinear_arith);
        }
    } else {
        // a in (2048, 4096): 4096 - a in (0, 2048)
        lemma_sin_half_symmetry(a - 2048);
        assert(sin_spec(a) == -sin_half_spec(a - 2048));
        assert(sin_spec(4096 - a) == sin_half_spec(4096 - a));
        assert(2048 - (a - 2048) == 4096 - a);
    }
}

/// Negating a normalized angle keeps its cosine: the cosine of the
/// mirrored angle `TURN - a` equals the cosine of `a`.
pub proof fn lemma_cos_neg(a: int)
    requires
        0 < a < 4096,
    ensures
        cos_spec(4096 - a) == cos_spec(a),
{
    if a < 1024 {
        // both cosines are sines in the first half revolution
        lemma_sin_half_symmetry(a + 1024);
        assert(2048 - (a + 1024) == 1024 - a);
    } else if a == 1024 {
        lemma_sin_half_symmetry(2048);
    } else if a < 3072 {
        // both cosines are negated sines of mirrored first-half angles
        if a == 2048 {
        } else {
            lemma_sin_half_symmetry(a - 1024);
            assert(2048 - (a - 1024) == 3072 - a);
        }
    } else if a == 3072 {
        lemma_sin_half_symmetry(0);
    } else {
        // both cosines are sines again, one from each side of the quarter
        lemma_sin_half_symmetry(a - 3072);
        assert(2048 - (a - 3072) == 5120 - a);
    }
}

/// Sine over binary angle units, exactly `sin_spec`.
pub fn sin_bam(a: i64) -> (r: i64)
    requires
        0 <= a < 4096,
    ensures
        r == sin_spec(a as int),
        -1024 <= r <= 1024,
{
    proof {
        lemma_sin_cos_range(a as int);
    }
    if a < 2048 {
        sin_half(a)
    } else {
        -sin_half(a - 2048)
    }
}

/// Cosine over binary angle units, exactly `cos_spec`.
pub fn cos_bam(a: i64) -> (r: i64)
    requires
        0 <= a < 4096,
    ensures
        r == cos_spec(a as int),
        -1024 <= r <= 1024,
{
    proof {
        lemma_sin_cos_range(a as int);
    }
    let b: i64 = if a + 1024 < 4096 { a + 1024 } else { a + 1024 - 4096 };
    if b < 2048 {
        sin_half(b)
    } else {
        -sin_half(b - 2048)
    }
}

/// Sine over the first half revolution.
fn sin_half(x: i64) -> (r: i64)
    requires
        0 <= x <= 2048,
    ensures
        r == sin_half_spec(x as int),
        0 <= r <= 1024,
{
    proof {
        lemma_sin_half_range(x as int);
        assert(0 <= (x as int) * (2048 - x as int) <= 1048576) by (nonlinear_arith)
            requires 0 <= x <= 2048,
        ;
        assert(16 * (x as int) * (2048 - x as int) * 1024 == 16384 * ((x as int) * (2048 - x as int)))
            by (nonlinear_arith);
        assert(4 * (x as int) * (2048 - x as int) == 4 * ((x as int) * (2048 - x as int)))
            by (nonlinear_arith);
    }
    let p: i64 = x * (2048 - x);
    let num: u64 = (16384 * p) as u64;
    let den: u64 = (20971520 - 4 * p) as u64;
    let q: u64 = num / den;
    q as i64
}

} // verus!
