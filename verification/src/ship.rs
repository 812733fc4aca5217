//! The player craft: a placed triangle, a velocity, an acceleration, and
//! a derived world-space hitbox used for collision.

use vstd::prelude::*;
use vstd::math::abs;
use crate::{ARENA_W, ARENA_H, DT_MAX, QUARTER_TURN, wrap_spec, wrap_coord};
use crate::fx::{tdiv, fxm, fx_mul, div_trunc, clamp, clamp_spec, lemma_tdiv_mul_bound};
use crate::trig::{sin_spec, cos_spec, sin_bam, cos_bam};
use crate::vec2::{Vec2, vec2, rot_x_spec, rot_y_spec};
use crate::transform::{Transform, placement_ok, applied_ok};

verus! {

/// Default craft acceleration, subunits per second squared (25 units/s^2).
pub const DEFAULT_ACCELERATION: i64 = 25600;

/// Ceiling for the difficulty-ramped acceleration.
pub const ACC_MAX: i64 = 262144;

/// Ceiling for either velocity component (512 units/s).
pub const VEL_MAX: i64 = 524288;

/// Craft scale in subunits (10 world units).
pub const SHIP_SCALE: i64 = 10240;

/// Turn rate in binary angle units per second (about 3.5 rad/s).
pub const TURN_RATE: i64 = 2281;

/// Velocity deadzone: a decaying component this close to zero snaps to
/// exactly zero (0.75 units/s).
pub const MIN_VEL: i64 = 768;

/// Fixed-point factor of the velocity decay rate (1/1.2).
pub const DECAY_FACTOR: i64 = 853;

/// The player craft.
pub struct Ship {
    pub transform: Transform,
    pub velocity: Vec2,
    pub acc: i64,
    pub hitbox: Vec<Vec2>,
}

/// Half the craft scale, the hitbox's local half-extent.
pub open spec fn half_scale(s: Ship) -> int {
    tdiv(s.transform.scale as int, 2)
}

/// First local coordinate of hitbox corner `k` before rotation, from
/// the craft triangle `vs` and the half scale `h`.
pub open spec fn hb_lx_raw(vs: Seq<Vec2>, h: int, k: int) -> int {
    if k == 0 || k == 2 {
        fxm(vs[0].x as int, h)
    } else {
        fxm(vs[1].x as int, h)
    }
}

/// Second local coordinate of hitbox corner `k` before rotation.
pub open spec fn hb_ly_raw(vs: Seq<Vec2>, h: int, k: int) -> int {
    if k == 2 || k == 3 {
        fxm(vs[0].y as int, h)
    } else {
        fxm(vs[2].y as int, h)
    }
}

/// First world coordinate of hitbox corner `k` for a craft with
/// triangle `vs`, scale `scale`, rotation `rot` and position `px`.
pub open spec fn hb_wx_raw(vs: Seq<Vec2>, scale: int, rot: int, px: int, k: int) -> int {
    let h = tdiv(scale, 2);
    rot_x_spec(hb_lx_raw(vs, h, k), hb_ly_raw(vs, h, k), cos_spec(rot), sin_spec(rot)) + px
}

/// Second world coordinate of hitbox corner `k`.
pub open spec fn hb_wy_raw(vs: Seq<Vec2>, scale: int, rot: int, py: int, k: int) -> int {
    let h = tdiv(scale, 2);
    rot_y_spec(hb_lx_raw(vs, h, k), hb_ly_raw(vs, h, k), cos_spec(rot), sin_spec(rot)) + py
}

/// First local coordinate of hitbox corner `k` before rotation.
pub open spec fn hb_lx(s: Ship, k: int) -> int {
    hb_lx_raw(s.transform.vertices@, half_scale(s), k)
}

/// Second local coordinate of hitbox corner `k` before rotation.
pub open spec fn hb_ly(s: Ship, k: int) -> int {
    hb_ly_raw(s.transform.vertices@, half_scale(s), k)
}

/// First world coordinate of hitbox corner `k`.
pub open spec fn hb_wx(s: Ship, k: int) -> int {
    hb_wx_raw(s.transform.vertices@, s.transform.scale as int, s.transform.rot as int,
        s.transform.pos.x as int, k)
}

/// Second world coordinate of hitbox corner `k`.
pub open spec fn hb_wy(s: Ship, k: int) -> int {
    hb_wy_raw(s.transform.vertices@, s.transform.scale as int, s.transform.rot as int,
        s.transform.pos.y as int, k)
}

/// The cached hitbox corners agree with the craft's current placement.
pub open spec fn hitbox_ok(s: Ship) -> bool {
    &&& s.hitbox@.len() == 4
    &&& forall|k: int| 0 <= k < 4 ==> (#[trigger] s.hitbox@[k]).x == hb_wx(s, k)
    &&& forall|k: int| 0 <= k < 4 ==> (#[trigger] s.hitbox@[k]).y == hb_wy(s, k)
}

/// Field bounds every craft the simulation holds satisfies.
pub open spec fn ship_core_ok(s: Ship) -> bool {
    &&& s.transform.vertices@.len() == 3
    &&& placement_ok(s.transform)
    &&& s.transform.scale <= 16384
    &&& 0 <= s.transform.pos.x <= ARENA_W - 1024
    &&& 0 <= s.transform.pos.y <= ARENA_H - 1024
    &&& abs(s.velocity.x as int) <= VEL_MAX
    &&& abs(s.velocity.y as int) <= VEL_MAX
    &&& 0 <= s.acc <= ACC_MAX
}

/// A craft in a consistent state: bounded fields, hitbox and cached
/// world vertices both derived from the current placement.
pub open spec fn ship_ok(s: Ship) -> bool {
    &&& ship_core_ok(s)
    &&& hitbox_ok(s)
    &&& applied_ok(s.transform)
}

/// First coordinate of the unit heading of a craft rotation: the cosine
/// a quarter revolution ahead.
pub open spec fn heading_x_of_rot(rot: int) -> int {
    cos_spec((rot + 1024) % 4096)
}

/// Second coordinate of the unit heading of a craft rotation.
pub open spec fn heading_y_of_rot(rot: int) -> int {
    sin_spec((rot + 1024) % 4096)
}

/// First coordinate of the craft heading: the unit vector a quarter
/// revolution ahead of the craft rotation.
pub open spec fn heading_x_spec(s: Ship) -> int {
    heading_x_of_rot(s.transform.rot as int)
}

/// Second coordinate of the craft heading.
pub open spec fn heading_y_spec(s: Ship) -> int {
    heading_y_of_rot(s.transform.rot as int)
}

/// The craft rotation after one tick's steering: moved by the turn rate
/// times the elapsed time and normalized.
pub open spec fn rot_after_steer(s: Ship, left: bool, right: bool, dt: int) -> int {
    let delta = fxm(TURN_RATE as int, dt);
    (s.transform.rot + (if right { delta } else { 0int }) - (if left { delta } else { 0int })) % 4096
}

/// One velocity component after one tick's thrust or decay, given the
/// matching heading component `h` of the post-steer rotation.
pub open spec fn vel_after_thrust(v: int, h: int, acc: int, up: bool, down: bool, dt: int) -> int {
    if up || down {
        let dv = fxm(fxm(h, acc), dt);
        clamp_spec(v + (if up { dv } else { 0int }) - (if down { dv } else { 0int }),
            -(VEL_MAX as int), VEL_MAX as int)
    } else {
        decay_spec(v, fxm(fxm(acc, DECAY_FACTOR as int), dt))
    }
}

/// Every hitbox corner stays within one craft scale of the craft
/// position, componentwise.
pub proof fn lemma_hitbox_extent(s: Ship, k: int)
    requires
        ship_ok(s),
        0 <= k < 4,
    ensures
        abs(s.hitbox@[k].x - s.transform.pos.x) <= s.transform.scale,
        abs(s.hitbox@[k].y - s.transform.pos.y) <= s.transform.scale,
{
    let sc = s.transform.scale as int;
    let h = half_scale(s);
    assert(0 <= h <= 8192);
    assert(2 * h <= sc) by {
        vstd::arithmetic::div_mod::lemma_fundamental_div_mod(sc, 2);
    }
    lemma_hb_local_bound(s, k);
    crate::trig::lemma_sin_cos_range(s.transform.rot as int);
    let c = cos_spec(s.transform.rot as int);
    let si = sin_spec(s.transform.rot as int);
    let lx = hb_lx(s, k);
    let ly = hb_ly(s, k);
    assert(-(sc * 1024) <= lx * c - ly * si <= sc * 1024) by (nonlinear_arith)
        requires
            abs(lx) <= h, abs(ly) <= h, 2 * h <= sc, 0 <= h,
            -1024 <= c <= 1024, -1024 <= si <= 1024,
    ;
    assert(-(sc * 1024) <= ly * c + lx * si <= sc * 1024) by (nonlinear_arith)
        requires
            abs(lx) <= h, abs(ly) <= h, 2 * h <= sc, 0 <= h,
            -1024 <= c <= 1024, -1024 <= si <= 1024,
    ;
    lemma_tdiv_mul_bound(lx * c - ly * si, sc, 1024);
    lemma_tdiv_mul_bound(ly * c + lx * si, sc, 1024);
}

/// The local hitbox corners stay within the half scale, componentwise.
proof fn lemma_hb_local_bound(s: Ship, k: int)
    requires
        ship_core_ok(s),
        0 <= k < 4,
    ensures
        abs(hb_lx(s, k)) <= half_scale(s),
        abs(hb_ly(s, k)) <= half_scale(s),
        0 <= half_scale(s) <= 8192,
{
    let h = half_scale(s);
    vstd::arithmetic::div_mod::lemma_div_pos_is_pos(s.transform.scale as int, 2);
    vstd::arithmetic::div_mod::lemma_div_is_ordered(s.transform.scale as int, 16384, 2);
    let v0 = s.transform.vertices@[0];
    let v1 = s.transform.vertices@[1];
    let v2 = s.transform.vertices@[2];
    assert(-(h * 1024) <= (v0.x as int) * h <= h * 1024) by (nonlinear_arith)
        requires abs(v0.x as int) <= 1024, 0 <= h,
    ;
    assert(-(h * 1024) <= (v1.x as int) * h <= h * 1024) by (nonlinear_arith)
        requires abs(v1.x as int) <= 1024, 0 <= h,
    ;
    assert(-(h * 1024) <= (v0.y as int) * h <= h * 1024) by (nonlinear_arith)
        requires abs(v0.y as int) <= 1024, 0 <= h,
    ;
    assert(-(h * 1024) <= (v2.y as int) * h <= h * 1024) by (nonlinear_arith)
        requires abs(v2.y as int) <= 1024, 0 <= h,
    ;
    lemma_tdiv_mul_bound((v0.x as int) * h, h, 1024);
    lemma_tdiv_mul_bound((v1.x as int) * h, h, 1024);
    lemma_tdiv_mul_bound((v0.y as int) * h, h, 1024);
    lemma_tdiv_mul_bound((v2.y as int) * h, h, 1024);
    assert(h * 1024 == 1024 * h) by (nonlinear_arith);
}

impl Ship {
    /// A fresh craft at the arena center: zero velocity, default
    /// acceleration, default rotation, unit triangle at craft scale.
    pub fn new() -> (s: Ship)
        ensures
            ship_ok(s),
            s.transform.pos.x == ARENA_W / 2,
            s.transform.pos.y == ARENA_H / 2,
            s.velocity.x == 0 && s.velocity.y == 0,
            s.acc == DEFAULT_ACCELERATION,
            s.transform.rot == 0,
            s.transform.scale == SHIP_SCALE,
    {
        let v0: Vec2 = vec2(-1024, -1024).normalise();
        let v1: Vec2 = vec2(1024, -1024).normalise();
        let v2: Vec2 = vec2(0, 1024);
        let mut vertices: Vec<Vec2> = Vec::new();
        vertices.push(v0);
        vertices.push(v1);
        vertices.push(v2);
        let transform = Transform {
            pos: vec2(ARENA_W / 2, ARENA_H / 2),
            vertices,
            transform: Vec::new(),
            scale: SHIP_SCALE,
            rot: 0,
        };
        let mut s = Ship {
            transform,
            velocity: vec2(0, 0),
            acc: DEFAULT_ACCELERATION,
            hitbox: Vec::new(),
        };
        s.refresh_hitbox();
        s.transform.apply();
        s
    }

    /// Turn under the left/right inputs: the rotation changes by the
    /// turn rate times the elapsed time, and stays normalized.
    pub fn steer(&mut self, left: bool, right: bool, dt: i64)
        requires
            ship_ok(*old(self)),
            0 < dt <= DT_MAX,
        ensures
            ship_core_ok(*final(self)),
            final(self).transform.rot == ({
                let delta = fxm(TURN_RATE as int, dt as int);
                let moved = old(self).transform.rot
                    + (if right { delta } else { 0 }) - (if left { delta } else { 0 });
                moved % 4096
            }),
            final(self).transform.pos == old(self).transform.pos,
            final(self).transform.vertices == old(self).transform.vertices,
            final(self).transform.scale == old(self).transform.scale,
            final(self).velocity == old(self).velocity,
            final(self).acc == old(self).acc,
            final(self).hitbox == old(self).hitbox,
    {
        proof {
            lemma_tdiv_mul_bound((TURN_RATE as int) * (dt as int), 9124, 1024);
            assert(-(9124 * 1024) <= (TURN_RATE as int) * (dt as int) <= 9124 * 1024)
                by (nonlinear_arith)
                requires TURN_RATE == 2281, 0 < dt <= 4096,
            ;
        }
        let delta: i64 = fx_mul(TURN_RATE, dt);
        let mut rot: i64 = self.transform.rot;
        if right {
            rot = rot + delta;
        }
        if left {
            rot = rot - delta;
        }
        self.transform.rot = norm_angle(rot);
    }

    /// The unit vector the craft nose points along.
    pub fn heading(&self) -> (r: Vec2)
        requires
            0 <= self.transform.rot < 4096,
        ensures
            r.x == heading_x_spec(*self),
            r.y == heading_y_spec(*self),
            abs(r.x as int) <= 1024,
            abs(r.y as int) <= 1024,
    {
        let h: i64 = norm_angle(self.transform.rot + QUARTER_TURN);
        let c: i64 = cos_bam(h);
        let s: i64 = sin_bam(h);
        vec2(c, s)
    }

    /// Accelerate along the heading under the thrust inputs, or decay
    /// toward rest when neither is held: each velocity component moves
    /// toward zero at 1/1.2 of the acceleration, snapping to zero inside
    /// the deadzone. Either way both components stay clamped.
    pub fn thrust(&mut self, up: bool, down: bool, dt: i64)
        requires
            ship_core_ok(*old(self)),
            0 < dt <= DT_MAX,
        ensures
            ship_core_ok(*final(self)),
            final(self).transform == old(self).transform,
            final(self).acc == old(self).acc,
            final(self).hitbox == old(self).hitbox,
            (up || down) ==> ({
                let dvx = fxm(fxm(heading_x_spec(*old(self)), old(self).acc as int), dt as int);
                let dvy = fxm(fxm(heading_y_spec(*old(self)), old(self).acc as int), dt as int);
                let sx = old(self).velocity.x + (if up { dvx } else { 0 }) - (if down { dvx } else { 0 });
                let sy = old(self).velocity.y + (if up { dvy } else { 0 }) - (if down { dvy } else { 0 });
                final(self).velocity.x == clamp_spec(sx, -VEL_MAX as int, VEL_MAX as int)
                    && final(self).velocity.y == clamp_spec(sy, -VEL_MAX as int, VEL_MAX as int)
            }),
            (!up && !down) ==> ({
                let dec = fxm(fxm(old(self).acc as int, DECAY_FACTOR as int), dt as int);
                final(self).velocity.x == decay_spec(old(self).velocity.x as int, dec)
                    && final(self).velocity.y == decay_spec(old(self).velocity.y as int, dec)
            }),
    {
        let moving: bool = up || down;
        if moving {
            let h: Vec2 = self.heading();
            proof {
                lemma_acc_step_bounds(h.x as int, self.acc as int, dt as int);
                lemma_acc_step_bounds(h.y as int, self.acc as int, dt as int);
            }
            let dvx: i64 = fx_mul(fx_mul(h.x, self.acc), dt);
            let dvy: i64 = fx_mul(fx_mul(h.y, self.acc), dt);
            let mut vx: i64 = self.velocity.x;
            let mut vy: i64 = self.velocity.y;
            if up {
                vx = vx + dvx;
                vy = vy + dvy;
            }
            if down {
                vx = vx - dvx;
                vy = vy - dvy;
            }
            self.velocity = vec2(clamp(vx, -VEL_MAX, VEL_MAX), clamp(vy, -VEL_MAX, VEL_MAX));
        } else {
            proof {
                lemma_acc_step_bounds(1024, self.acc as int, dt as int);
                lemma_decay_prod_bounds(self.acc as int, dt as int);
            }
            let dec: i64 = fx_mul(fx_mul(self.acc, DECAY_FACTOR), dt);
            self.velocity = vec2(decay_component(self.velocity.x, dec),
                decay_component(self.velocity.y, dec));
        }
    }

    /// Integrate position from velocity, wrap it back into the arena,
    /// and refresh the hitbox and the cached world vertices so that
    /// both agree with the wrapped position before any collision test
    /// reads them.
    pub fn update(&mut self, dt: i64)
        requires
            ship_core_ok(*old(self)),
            0 < dt <= DT_MAX,
        ensures
            ship_ok(*final(self)),
            final(self).transform.pos.x == wrap_spec(
                old(self).transform.pos.x + fxm(old(self).velocity.x as int, dt as int),
                ARENA_W as int),
            final(self).transform.pos.y == wrap_spec(
                old(self).transform.pos.y + fxm(old(self).velocity.y as int, dt as int),
                ARENA_H as int),
            final(self).velocity == old(self).velocity,
            final(self).acc == old(self).acc,
            final(self).transform.rot == old(self).transform.rot,
            final(self).transform.scale == old(self).transform.scale,
            final(self).transform.vertices == old(self).transform.vertices,
    {
        proof {
            lemma_vel_step_bounds(self.velocity.x as int, dt as int);
            lemma_vel_step_bounds(self.velocity.y as int, dt as int);
        }
        let dx: i64 = fx_mul(self.velocity.x, dt);
        let dy: i64 = fx_mul(self.velocity.y, dt);
        self.transform.pos.x = wrap_coord(self.transform.pos.x + dx, ARENA_W);
        self.transform.pos.y = wrap_coord(self.transform.pos.y + dy, ARENA_H);
        self.refresh_hitbox();
        self.transform.apply();
    }

    /// Point the craft at a given normalized rotation, refreshing the
    /// hitbox and the cached world vertices to match.
    pub fn set_rotation(&mut self, rot: i64)
        requires
            ship_core_ok(*old(self)),
            0 <= rot < 4096,
        ensures
            ship_ok(*final(self)),
            final(self).transform.rot == rot,
            final(self).transform.pos == old(self).transform.pos,
            final(self).transform.vertices == old(self).transform.vertices,
            final(self).transform.scale == old(self).transform.scale,
            final(self).velocity == old(self).velocity,
            final(self).acc == old(self).acc,
    {
        self.transform.rot = rot;
        self.refresh_hitbox();
        self.transform.apply();
    }

    /// Recompute the four world-space hitbox corners from the craft's
    /// triangle, scale, rotation and position.
    pub fn refresh_hitbox(&mut self)
        requires
            ship_core_ok(*old(self)),
        ensures
            final(self).transform == old(self).transform,
            final(self).velocity == old(self).velocity,
            final(self).acc == old(self).acc,
            ship_core_ok(*final(self)),
            hitbox_ok(*final(self)),
    {
        proof {
            lemma_hb_local_bound(*self, 0);
            lemma_hb_local_bound(*self, 1);
            lemma_hb_local_bound(*self, 2);
            lemma_hb_local_bound(*self, 3);
        }
        let half: i64 = div_trunc(self.transform.scale, 2);
        let v0: Vec2 = self.transform.vertices[0];
        let v1: Vec2 = self.transform.vertices[1];
        let v2: Vec2 = self.transform.vertices[2];
        let c2: Vec2 = v0.mul(half);
        let c3: Vec2 = vec2(v1.mul(half).x, c2.y);
        let c0: Vec2 = vec2(c2.x, v2.mul(half).y);
        let c1: Vec2 = vec2(c3.x, c0.y);
        let rot: i64 = self.transform.rot;
        let pos: Vec2 = self.transform.pos;
        let w0: Vec2 = c0.rotate(rot).add(pos);
        let w1: Vec2 = c1.rotate(rot).add(pos);
        let w2: Vec2 = c2.rotate(rot).add(pos);
        let w3: Vec2 = c3.rotate(rot).add(pos);
        let mut hb: Vec<Vec2> = Vec::new();
        hb.push(w0);
        hb.push(w1);
        hb.push(w2);
        hb.push(w3);
        self.hitbox = hb;
    }
}

/// A decaying velocity component: snaps to zero inside the deadzone,
/// otherwise moves toward zero by `dec`, clamped.
pub open spec fn decay_spec(v: int, dec: int) -> int {
    if v >= MIN_VEL {
        clamp_spec(v - dec, -VEL_MAX as int, VEL_MAX as int)
    } else if v <= -MIN_VEL {
        clamp_spec(v + dec, -VEL_MAX as int, VEL_MAX as int)
    } else {
        0
    }
}

/// Executable counterpart of `decay_spec`.
fn decay_component(v: i64, dec: i64) -> (r: i64)
    requires
        abs(v as int) <= VEL_MAX,
        0 <= dec <= 0x100_0000,
    ensures
        r == decay_spec(v as int, dec as int),
        abs(r as int) <= VEL_MAX,
{
    if v >= MIN_VEL {
        clamp(v - dec, -VEL_MAX, VEL_MAX)
    } else if v <= -MIN_VEL {
        clamp(v + dec, -VEL_MAX, VEL_MAX)
    } else {
        0
    }
}

/// Bounds for one acceleration step `fxm(fxm(h, acc), dt)`: with a unit
/// heading component, a clamped acceleration and a bounded tick it stays
/// within `2^24`.
proof fn lemma_acc_step_bounds(h: int, acc: int, dt: int)
    requires
        abs(h) <= 1024,
        0 <= acc <= ACC_MAX,
        0 < dt <= DT_MAX,
    ensures
        abs(fxm(h, acc)) <= ACC_MAX,
        -0x4000_0000_0000_0000 < h * acc < 0x4000_0000_0000_0000,
        abs(fxm(fxm(h, acc), dt)) <= 0x100_0000,
        -0x4000_0000_0000_0000 < fxm(h, acc) * dt < 0x4000_0000_0000_0000,
{
    assert(-(262144 * 1024) <= h * acc <= 262144 * 1024) by (nonlinear_arith)
        requires abs(h) <= 1024, 0 <= acc <= 262144,
    ;
    lemma_tdiv_mul_bound(h * acc, 262144, 1024);
    let inner = fxm(h, acc);
    assert(-(0x100_0000 * 1024) <= inner * dt <= 0x100_0000 * 1024) by (nonlinear_arith)
        requires abs(inner) <= 262144, 0 < dt <= 4096,
    ;
    lemma_tdiv_mul_bound(inner * dt, 0x100_0000, 1024);
}

/// Bounds for the decay step `fxm(fxm(acc, DECAY_FACTOR), dt)`.
proof fn lemma_decay_prod_bounds(acc: int, dt: int)
    requires
        0 <= acc <= ACC_MAX,
        0 < dt <= DT_MAX,
    ensures
        0 <= fxm(acc, DECAY_FACTOR as int) <= ACC_MAX,
        -0x4000_0000_0000_0000 < acc * (DECAY_FACTOR as int) < 0x4000_0000_0000_0000,
        0 <= fxm(fxm(acc, DECAY_FACTOR as int), dt) <= 0x100_0000,
        -0x4000_0000_0000_0000 < fxm(acc, DECAY_FACTOR as int) * dt < 0x4000_0000_0000_0000,
{
    assert(0 <= acc * 853 <= 262144 * 1024) by (nonlinear_arith)
        requires 0 <= acc <= 262144,
    ;
    lemma_tdiv_mul_bound(acc * 853, 262144, 1024);
    vstd::arithmetic::div_mod::lemma_div_pos_is_pos(acc * 853, 1024);
    let inner = fxm(acc, 853);
    assert(0 <= inner * dt <= 0x100_0000 * 1024) by (nonlinear_arith)
        requires 0 <= inner <= 262144, 0 < dt <= 4096,
    ;
    lemma_tdiv_mul_bound(inner * dt, 0x100_0000, 1024);
    vstd::arithmetic::div_mod::lemma_div_pos_is_pos(inner * dt, 1024);
}

/// Bounds for one position step `fxm(v, dt)` under the velocity clamp.
proof fn lemma_vel_step_bounds(v: int, dt: int)
    requires
        abs(v) <= VEL_MAX,
        0 < dt <= DT_MAX,
    ensures
        abs(fxm(v, dt)) <= 0x20_0000,
        -0x4000_0000_0000_0000 < v * dt < 0x4000_0000_0000_0000,
{
    assert(-(0x20_0000 * 1024) <= v * dt <= 0x20_0000 * 1024) by (nonlinear_arith)
        requires abs(v) <= 524288, 0 < dt <= 4096,
    ;
    lemma_tdiv_mul_bound(v * dt, 0x20_0000, 1024);
}

/// Bring any nearby angle back into `[0, TURN)`; the result is the
/// Euclidean remainder of the input by a full revolution.
pub fn norm_angle(a: i64) -> (r: i64)
    requires
        -0x10_0000 <= a <= 0x10_0000,
    ensures
        r == (a as int) % 4096,
        0 <= r < 4096,
{
    let mut r: i64 = a;
    while r < 0
        invariant
            (r as int) % 4096 == (a as int) % 4096,
            -0x10_0000 <= r < 4096 + 0x10_0000,
        decreases 0x10_0000 - r,
    {
        proof {
            vstd::arithmetic::div_mod::lemma_mod_add_multiples_vanish(r as int, 4096);
        }
        r = r + 4096;
    }
    while r >= 4096
        invariant
            (r as int) % 4096 == (a as int) % 4096,
            0 <= r < 4096 + 0x10_0000,
        decreases r,
    {
        proof {
            vstd::arithmetic::div_mod::lemma_mod_add_multiples_vanish((r - 4096) as int, 4096);
        }
        r = r - 4096;
    }
    proof {
        vstd::arithmetic::div_mod::lemma_small_mod(r as nat, 4096);
    }
    r
}

} // verus!
