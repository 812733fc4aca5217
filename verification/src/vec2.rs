//! 2D vectors in fixed-point subunits: addition, scaling, rotation and
//! normalisation.

use vstd::prelude::*;
use vstd::math::abs;
use crate::fx::{tdiv, fxm, fx_mul, div_trunc, sqrt_floor, lemma_tdiv_mul_bound,
    lemma_sqrt_floor_correct, isqrt};
use crate::trig::{sin_spec, cos_spec, sin_bam, cos_bam};

verus! {

/// A point or direction in the plane, both coordinates in `FX` subunits.
#[derive(Clone, Copy, PartialEq, Eq, Structural, Debug)]
pub struct Vec2 {
    pub x: i64,
    pub y: i64,
}

/// Wrapper for Vec2::new
pub fn vec2(x: i64, y: i64) -> (r: Vec2)
    ensures
        r.x == x,
        r.y == y,
{
    Vec2::new(x, y)
}

/// First coordinate of a vector rotated by an angle with cosine `c` and
/// sine `s`, all in `FX` subunits.
pub open spec fn rot_x_spec(x: int, y: int, c: int, s: int) -> int {
    tdiv(x * c - y * s, 1024)
}

/// Second coordinate of a vector rotated by an angle with cosine `c` and
/// sine `s`, all in `FX` subunits.
pub open spec fn rot_y_spec(x: int, y: int, c: int, s: int) -> int {
    tdiv(y * c + x * s, 1024)
}

/// Fixed-point length of the vector `(x, y)`.
pub open spec fn len_spec(x: int, y: int) -> int {
    sqrt_floor(x * x + y * y)
}

/// First coordinate of the normalised vector `(x, y)`.
pub open spec fn norm_x_spec(x: int, y: int) -> int {
    tdiv(x * 1024, len_spec(x, y))
}

/// Second coordinate of the normalised vector `(x, y)`.
pub open spec fn norm_y_spec(x: int, y: int) -> int {
    tdiv(y * 1024, len_spec(x, y))
}

impl Vec2 {
    pub fn new(x: i64, y: i64) -> (r: Self)
        ensures
            r.x == x,
            r.y == y,
    {
        Self { x, y }
    }

    /// Componentwise sum.
    pub fn add(self, rhs: Vec2) -> (r: Vec2)
        requires
            i64::MIN <= self.x + rhs.x <= i64::MAX,
            i64::MIN <= self.y + rhs.y <= i64::MAX,
        ensures
            r.x == self.x + rhs.x,
            r.y == self.y + rhs.y,
    {
        Vec2 { x: self.x + rhs.x, y: self.y + rhs.y }
    }

    /// Scale by a fixed-point factor `k`.
    pub fn mul(self, k: i64) -> (r: Vec2)
        requires
            abs(self.x as int) <= 0x4000_0000,
            abs(self.y as int) <= 0x4000_0000,
            abs(k as int) <= 0x4000_0000,
        ensures
            r.x == fxm(self.x as int, k as int),
            r.y == fxm(self.y as int, k as int),
    {
        proof {
            assert(-0x1000_0000_0000_0000 <= (self.x as int) * (k as int) <= 0x1000_0000_0000_0000)
                by (nonlinear_arith)
                requires abs(self.x as int) <= 0x4000_0000, abs(k as int) <= 0x4000_0000,
            ;
            assert(-0x1000_0000_0000_0000 <= (self.y as int) * (k as int) <= 0x1000_0000_0000_0000)
                by (nonlinear_arith)
                requires abs(self.y as int) <= 0x4000_0000, abs(k as int) <= 0x4000_0000,
            ;
        }
        Vec2 { x: fx_mul(self.x, k), y: fx_mul(self.y, k) }
    }

    /// Rotate by a normalized angle in binary angle units. The result's
    /// coordinates are bounded by the sum of the input's magnitudes.
    pub fn rotate(self, rot: i64) -> (r: Vec2)
        requires
            0 <= rot < 4096,
            abs(self.x as int) <= 0x200_0000,
            abs(self.y as int) <= 0x200_0000,
        ensures
            r.x == rot_x_spec(self.x as int, self.y as int, cos_spec(rot as int), sin_spec(rot as int)),
            r.y == rot_y_spec(self.x as int, self.y as int, cos_spec(rot as int), sin_spec(rot as int)),
            abs(r.x as int) <= abs(self.x as int) + abs(self.y as int),
            abs(r.y as int) <= abs(self.x as int) + abs(self.y as int),
    {
        let c: i64 = cos_bam(rot);
        let s: i64 = sin_bam(rot);
        let x = self.x;
        let y = self.y;
        proof {
            lemma_rot_products_bounded(x as int, y as int, c as int, s as int);
            lemma_tdiv_mul_bound((x as int) * (c as int) - (y as int) * (s as int),
                (abs(x as int) + abs(y as int)) as int, 1024);
            lemma_tdiv_mul_bound((y as int) * (c as int) + (x as int) * (s as int),
                (abs(x as int) + abs(y as int)) as int, 1024);
        }
        let nx: i64 = div_trunc(x * c - y * s, 1024);
        let ny: i64 = div_trunc(y * c + x * s, 1024);
        Vec2 { x: nx, y: ny }
    }

    /// Rotate in place.
    pub fn rotate_mut(&mut self, rot: i64)
        requires
            0 <= rot < 4096,
            abs(old(self).x as int) <= 0x200_0000,
            abs(old(self).y as int) <= 0x200_0000,
        ensures
            final(self).x == rot_x_spec(old(self).x as int, old(self).y as int,
                cos_spec(rot as int), sin_spec(rot as int)),
            final(self).y == rot_y_spec(old(self).x as int, old(self).y as int,
                cos_spec(rot as int), sin_spec(rot as int)),
            abs(final(self).x as int) <= abs(old(self).x as int) + abs(old(self).y as int),
            abs(final(self).y as int) <= abs(old(self).x as int) + abs(old(self).y as int),
    {
        let v = *self;
        *self = v.rotate(rot);
    }

    /// Scale to (approximately) unit length, `FX` subunits long. The
    /// zero vector is excluded: it has no direction.
    pub fn normalise(self) -> (r: Vec2)
        requires
            self.x != 0 || self.y != 0,
            abs(self.x as int) <= 0x200_0000,
            abs(self.y as int) <= 0x200_0000,
        ensures
            r.x == norm_x_spec(self.x as int, self.y as int),
            r.y == norm_y_spec(self.x as int, self.y as int),
            abs(r.x as int) <= 1024,
            abs(r.y as int) <= 1024,
            abs(r.x as int) >= 512 || abs(r.y as int) >= 512,
            1 <= len_spec(self.x as int, self.y as int),
    {
        let x = self.x;
        let y = self.y;
        proof {
            assert(0 <= (x as int) * (x as int) <= 0x4_0000_0000_0000) by (nonlinear_arith)
                requires abs(x as int) <= 0x200_0000,
            ;
            assert(0 <= (y as int) * (y as int) <= 0x4_0000_0000_0000) by (nonlinear_arith)
                requires abs(y as int) <= 0x200_0000,
            ;
            assert(1 <= (x as int) * (x as int) + (y as int) * (y as int)) by (nonlinear_arith)
                requires x != 0 || y != 0,
            ;
        }
        let sq: u64 = (x * x + y * y) as u64;
        let l: u64 = isqrt(sq);
        proof {
            let xi = x as int;
            let yi = y as int;
            let li = l as int;
            assert(li >= 1) by (nonlinear_arith)
                requires li >= 0, xi * xi + yi * yi >= 1, xi * xi + yi * yi < (li + 1) * (li + 1),
            ;
            assert(abs(xi) <= li && abs(yi) <= li) by (nonlinear_arith)
                requires li >= 0, xi * xi + yi * yi < (li + 1) * (li + 1),
            ;
            assert(-(1024 * li) <= xi * 1024 <= 1024 * li) by (nonlinear_arith)
                requires abs(xi) <= li,
            ;
            assert(-(1024 * li) <= yi * 1024 <= 1024 * li) by (nonlinear_arith)
                requires abs(yi) <= li,
            ;
            lemma_tdiv_mul_bound(xi * 1024, 1024, li);
            lemma_tdiv_mul_bound(yi * 1024, 1024, li);
            // the larger component normalises to at least half a unit:
            // the length is under twice the larger magnitude
            let mi = if abs(xi) >= abs(yi) { abs(xi) as int } else { abs(yi) as int };
            assert((abs(xi) as int) * (abs(xi) as int) == xi * xi
                && (abs(yi) as int) * (abs(yi) as int) == yi * yi) by (nonlinear_arith);
            assert(li <= 2 * mi) by (nonlinear_arith)
                requires
                    li >= 0,
                    mi >= 1,
                    li * li <= xi * xi + yi * yi,
                    mi >= abs(xi) as int,
                    mi >= abs(yi) as int,
                    (abs(xi) as int) * (abs(xi) as int) == xi * xi,
                    (abs(yi) as int) * (abs(yi) as int) == yi * yi,
            ;
            assert(mi * 1024 >= 512 * li) by (nonlinear_arith)
                requires li <= 2 * mi,
            ;
            if abs(xi) >= abs(yi) {
                assert(xi * 1024 >= 512 * li || xi * 1024 <= -(512 * li)) by (nonlinear_arith)
                    requires mi == abs(xi), mi * 1024 >= 512 * li,
                ;
                crate::fx::lemma_tdiv_mag_lower(xi * 1024, 512, li);
            } else {
                assert(yi * 1024 >= 512 * li || yi * 1024 <= -(512 * li)) by (nonlinear_arith)
                    requires mi == abs(yi), mi * 1024 >= 512 * li,
                ;
                crate::fx::lemma_tdiv_mag_lower(yi * 1024, 512, li);
            }
        }
        let li: i64 = l as i64;
        let nx: i64 = div_trunc(x * 1024, li);
        let ny: i64 = div_trunc(y * 1024, li);
        Vec2 { x: nx, y: ny }
    }

    /// Normalise in place.
    pub fn normalise_mut(&mut self)
        requires
            old(self).x != 0 || old(self).y != 0,
            abs(old(self).x as int) <= 0x200_0000,
            abs(old(self).y as int) <= 0x200_0000,
        ensures
            final(self).x == norm_x_spec(old(self).x as int, old(self).y as int),
            final(self).y == norm_y_spec(old(self).x as int, old(self).y as int),
            abs(final(self).x as int) <= 1024,
            abs(final(self).y as int) <= 1024,
    {
        let v = *self;
        *self = v.normalise();
    }
}

impl Default for Vec2 {
    /// The origin.
    fn default() -> (r: Self)
        ensures
            r.x == 0,
            r.y == 0,
    {
        Vec2 { x: 0, y: 0 }
    }
}

/// The rotation round trip: applying the rotation matrix of a normalized
/// angle `a` and then of its mirror `TURN - a` (the rotation by `-a`)
/// returns the vector scaled by `cos^2 + sin^2` of `a` - exactly the
/// identity up to the approximation's deviation of `cos^2 + sin^2` from
/// `FX^2`, stated here on the matrix products before fixed-point
/// truncation.
pub proof fn lemma_rotate_round_trip(x: int, y: int, a: int)
    requires
        0 < a < 4096,
    ensures
        ({
            let c = cos_spec(a);
            let s = sin_spec(a);
            let rx = x * c - y * s;
            let ry = y * c + x * s;
            let cb = cos_spec(4096 - a);
            let sb = sin_spec(4096 - a);
            rx * cb - ry * sb == x * (c * c + s * s)
                && ry * cb + rx * sb == y * (c * c + s * s)
        }),
{
    crate::trig::lemma_sin_neg(a);
    crate::trig::lemma_cos_neg(a);
    let c = cos_spec(a);
    let s = sin_spec(a);
    let rx = x * c - y * s;
    let ry = y * c + x * s;
    assert((x * c - y * s) * c - (y * c + x * s) * (-s) == x * (c * c + s * s)) by (nonlinear_arith);
    assert((y * c + x * s) * c + (x * c - y * s) * (-s) == y * (c * c + s * s)) by (nonlinear_arith);
}

/// Normalising lands near unit length: for any nonzero in-range vector,
/// the squared length of the normalised result is at least
/// `FX^2 - 4094`, and at most `FX^2` scaled by `((L+1)/L)^2`, where `L`
/// is the fixed-point length of the input.
pub proof fn lemma_normalise_near_unit(x: int, y: int)
    requires
        x != 0 || y != 0,
        -0x200_0000 <= x <= 0x200_0000,
        -0x200_0000 <= y <= 0x200_0000,
    ensures
        ({
            let l = len_spec(x, y);
            let nx = norm_x_spec(x, y);
            let ny = norm_y_spec(x, y);
            1 <= l
                && 1044482 <= nx * nx + ny * ny
                && (l * l) * (nx * nx + ny * ny) <= 1048576 * ((l + 1) * (l + 1))
        }),
{
    let sq = x * x + y * y;
    assert(1 <= sq) by (nonlinear_arith)
        requires sq == x * x + y * y, x != 0 || y != 0,
    ;
    lemma_sqrt_floor_correct(sq);
    let l = len_spec(x, y);
    assert(l >= 1) by (nonlinear_arith)
        requires l >= 0, sq >= 1, sq < (l + 1) * (l + 1),
    ;
    let ax = abs(x) as int;
    let ay = abs(y) as int;
    assert(ax * ax == x * x && ay * ay == y * y) by (nonlinear_arith)
        requires ax == abs(x), ay == abs(y),
    ;
    assert(ax <= l && ay <= l) by (nonlinear_arith)
        requires l >= 0, ax * ax + ay * ay < (l + 1) * (l + 1), 0 <= ax, 0 <= ay,
    ;
    let qx = (ax * 1024) / l;
    let qy = (ay * 1024) / l;
    lemma_norm_sign(x, l);
    lemma_norm_sign(y, l);
    let nx = norm_x_spec(x, y);
    let ny = norm_y_spec(x, y);
    assert(nx * nx == qx * qx && ny * ny == qy * qy) by (nonlinear_arith)
        requires nx == qx || nx == -qx, ny == qy || ny == -qy,
    ;
    vstd::arithmetic::div_mod::lemma_fundamental_div_mod(ax * 1024, l);
    vstd::arithmetic::div_mod::lemma_fundamental_div_mod(ay * 1024, l);
    vstd::arithmetic::div_mod::lemma_div_pos_is_pos(ax * 1024, l);
    vstd::arithmetic::div_mod::lemma_div_pos_is_pos(ay * 1024, l);
    // floor bracketing of each scaled magnitude
    assert(qx * l <= ax * 1024 && ax * 1024 < qx * l + l) by (nonlinear_arith)
        requires ax * 1024 == l * qx + (ax * 1024) % l, 0 <= (ax * 1024) % l < l,
    ;
    assert(qy * l <= ay * 1024 && ay * 1024 < qy * l + l) by (nonlinear_arith)
        requires ay * 1024 == l * qy + (ay * 1024) % l, 0 <= (ay * 1024) % l < l,
    ;
    assert((qx * l) * (qx * l) + (qy * l) * (qy * l) == (l * l) * (qx * qx + qy * qy))
        by (nonlinear_arith);
    // upper bound
    assert((qx * l) * (qx * l) <= (ax * 1024) * (ax * 1024)) by (nonlinear_arith)
        requires 0 <= qx * l <= ax * 1024,
    ;
    assert((qy * l) * (qy * l) <= (ay * 1024) * (ay * 1024)) by (nonlinear_arith)
        requires 0 <= qy * l <= ay * 1024,
    ;
    assert((ax * 1024) * (ax * 1024) + (ay * 1024) * (ay * 1024) == 1048576 * (ax * ax + ay * ay))
        by (nonlinear_arith);
    assert(1048576 * (ax * ax + ay * ay) <= 1048576 * ((l + 1) * (l + 1))) by (nonlinear_arith)
        requires ax * ax + ay * ay < (l + 1) * (l + 1),
    ;
    // lower bound, by cases on whether a scaled magnitude is under one length
    if ax * 1024 >= l && ay * 1024 >= l {
        assert((qx * l) * (qx * l) >= (ax * 1024 - l) * (ax * 1024 - l)) by (nonlinear_arith)
            requires qx * l + l > ax * 1024, ax * 1024 >= l, 0 <= qx, 0 < l,
        ;
        assert((qy * l) * (qy * l) >= (ay * 1024 - l) * (ay * 1024 - l)) by (nonlinear_arith)
            requires qy * l + l > ay * 1024, ay * 1024 >= l, 0 <= qy, 0 < l,
        ;
        assert((ax * 1024 - l) * (ax * 1024 - l) + (ay * 1024 - l) * (ay * 1024 - l)
                >= (l * l) * 1044482) by (nonlinear_arith)
            requires
                0 <= ax <= l, 0 <= ay <= l, ax * ax + ay * ay >= l * l, 0 < l,
        ;
    } else if ax * 1024 < l {
        assert(ay * 1024 >= l) by (nonlinear_arith)
            requires
                0 <= ax * 1024 < l, 0 <= ay, ax * ax + ay * ay >= l * l, l >= 1,
        ;
        assert((qy * l) * (qy * l) >= (ay * 1024 - l) * (ay * 1024 - l)) by (nonlinear_arith)
            requires qy * l + l > ay * 1024, ay * 1024 >= l, 0 <= qy, 0 < l,
        ;
        assert((ay * 1024 - l) * (ay * 1024 - l) >= (l * l) * 1044482) by (nonlinear_arith)
            requires
                0 <= ax * 1024 < l, 0 <= ay <= l, ax * ax + ay * ay >= l * l, l >= 1,
                ay * 1024 >= l,
        ;
        assert((qx * l) * (qx * l) >= 0) by (nonlinear_arith);
    } else {
        assert(ax * 1024 >= l) by (nonlinear_arith)
            requires
                0 <= ay * 1024 < l, 0 <= ax, ax * ax + ay * ay >= l * l, l >= 1,
        ;
        assert((qx * l) * (qx * l) >= (ax * 1024 - l) * (ax * 1024 - l)) by (nonlinear_arith)
            requires qx * l + l > ax * 1024, ax * 1024 >= l, 0 <= qx, 0 < l,
        ;
        assert((ax * 1024 - l) * (ax * 1024 - l) >= (l * l) * 1044482) by (nonlinear_arith)
            requires
                0 <= ay * 1024 < l, 0 <= ax <= l, ax * ax + ay * ay >= l * l, l >= 1,
                ax * 1024 >= l,
        ;
        assert((qy * l) * (qy * l) >= 0) by (nonlinear_arith);
    }
    assert((l * l) * (qx * qx + qy * qy) >= (l * l) * 1044482);
    assert(qx * qx + qy * qy >= 1044482) by (nonlinear_arith)
        requires (l * l) * (qx * qx + qy * qy) >= (l * l) * 1044482, 0 < l,
    ;
}

/// A normalised component carries the sign of its input over the
/// normalised magnitude.
proof fn lemma_norm_sign(v: int, l: int)
    requires
        l >= 1,
    ensures
        tdiv(v * 1024, l) == (
            if v >= 0 { ((abs(v) as int) * 1024) / l } else { -(((abs(v) as int) * 1024) / l) }),
{
    if v >= 0 {
        assert(v * 1024 >= 0) by (nonlinear_arith)
            requires v >= 0,
        ;
    } else {
        assert(v * 1024 < 0 && -(v * 1024) == (abs(v) as int) * 1024) by (nonlinear_arith)
            requires v < 0, abs(v) == -v,
        ;
    }
}

/// The two rotation numerators are bounded by `(|x| + |y|) * FX`.
proof fn lemma_rot_products_bounded(x: int, y: int, c: int, s: int)
    requires
        abs(c) <= 1024,
        abs(s) <= 1024,
    ensures
        -((abs(x) + abs(y)) * 1024) <= x * c - y * s <= (abs(x) + abs(y)) * 1024,
        -((abs(x) + abs(y)) * 1024) <= y * c + x * s <= (abs(x) + abs(y)) * 1024,
        -(abs(x) * 1024) <= x * c <= abs(x) * 1024,
        -(abs(x) * 1024) <= x * s <= abs(x) * 1024,
        -(abs(y) * 1024) <= y * c <= abs(y) * 1024,
        -(abs(y) * 1024) <= y * s <= abs(y) * 1024,
{
    assert(-(abs(x) * 1024) <= x * c <= abs(x) * 1024) by (nonlinear_arith)
        requires abs(c) <= 1024,
    ;
    assert(-(abs(y) * 1024) <= y * s <= abs(y) * 1024) by (nonlinear_arith)
        requires abs(s) <= 1024,
    ;
    assert(-(abs(y) * 1024) <= y * c <= abs(y) * 1024) by (nonlinear_arith)
        requires abs(c) <= 1024,
    ;
    assert(-(abs(x) * 1024) <= x * s <= abs(x) * 1024) by (nonlinear_arith)
        requires abs(s) <= 1024,
    ;
    assert((abs(x) + abs(y)) * 1024 == abs(x) * 1024 + abs(y) * 1024) by (nonlinear_arith);
}

} // verus!
