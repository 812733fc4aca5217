//! Projectiles: a point, a unit direction, and a count of boundary
//! crossings that bounds their lifetime spatially.

use vstd::prelude::*;
use vstd::math::abs;
use crate::{ARENA_W, ARENA_H, BULLET_SPEED, DT_MAX};
use crate::fx::{fxm, fx_mul};
use crate::vec2::Vec2;

verus! {

/// A fired projectile. `dir` is the craft heading at fire time, unit
/// length in `FX` subunits. `wrap_count` counts boundary crossings; a
/// projectile that has crossed five times is spent.
#[derive(Clone, Copy)]
pub struct Bullet {
    pub pos: Vec2,
    pub dir: Vec2,
    pub wrap_count: u8,
}

/// A projectile the simulation may hold: inside the closed arena box,
/// unit-bounded direction, not yet spent.
pub open spec fn bullet_ok(b: Bullet) -> bool {
    &&& 0 <= b.pos.x <= ARENA_W
    &&& 0 <= b.pos.y <= ARENA_H
    &&& abs(b.dir.x as int) <= 1024
    &&& abs(b.dir.y as int) <= 1024
    &&& b.wrap_count < 5
}

/// Where the projectile's first coordinate moves in one tick, before
/// the wrap.
pub open spec fn moved_x(b: Bullet, dt: int) -> int {
    b.pos.x + fxm(fxm(b.dir.x as int, BULLET_SPEED as int), dt)
}

/// Where the projectile's second coordinate moves in one tick, before
/// the wrap.
pub open spec fn moved_y(b: Bullet, dt: int) -> int {
    b.pos.y + fxm(fxm(b.dir.y as int, BULLET_SPEED as int), dt)
}

/// Where a projectile coordinate lands after the wrap: leaving past an
/// edge re-enters exactly at the opposite edge.
pub open spec fn bullet_wrap_spec(x: int, max: int) -> int {
    if x < 0 {
        max
    } else if x > max {
        0
    } else {
        x
    }
}

/// Whether a projectile coordinate crossed a boundary this tick.
pub open spec fn crossed(x: int, max: int) -> bool {
    x < 0 || x > max
}

impl Bullet {
    pub fn new(pos: Vec2, dir: Vec2) -> (r: Self)
        ensures
            r.pos == pos,
            r.dir == dir,
            r.wrap_count == 0,
    {
        Self { pos, dir, wrap_count: 0 }
    }

    /// Advance one tick: move along `dir`, wrap across any crossed edge
    /// (counting each crossing, never past five), and report whether the
    /// projectile is still live. A projectile's count reaches exactly
    /// five before removal, never more, even when a corner tick crosses
    /// both edges at once.
    pub fn advance(&mut self, dt: i64) -> (keep: bool)
        requires
            bullet_ok(*old(self)),
            0 < dt <= DT_MAX,
        ensures
            final(self).pos.x == bullet_wrap_spec(moved_x(*old(self), dt as int), ARENA_W as int),
            final(self).pos.y == bullet_wrap_spec(moved_y(*old(self), dt as int), ARENA_H as int),
            final(self).dir == old(self).dir,
            final(self).wrap_count == ({
                let total = old(self).wrap_count
                    + (if crossed(moved_x(*old(self), dt as int), ARENA_W as int) { 1int } else { 0int })
                    + (if crossed(moved_y(*old(self), dt as int), ARENA_H as int) { 1int } else { 0int });
                if total >= 5 { 5int } else { total }
            }),
            final(self).wrap_count <= 5,
            keep == (final(self).wrap_count < 5),
            0 <= final(self).pos.x <= ARENA_W,
            0 <= final(self).pos.y <= ARENA_H,
            abs(final(self).dir.x as int) <= 1024,
            abs(final(self).dir.y as int) <= 1024,
    {
        proof {
            assert(-(1024 * 158720) <= (self.dir.x as int) * (BULLET_SPEED as int) <= 1024 * 158720)
                by (nonlinear_arith)
                requires abs(self.dir.x as int) <= 1024, BULLET_SPEED == 158720,
            ;
            assert(-(1024 * 158720) <= (self.dir.y as int) * (BULLET_SPEED as int) <= 1024 * 158720)
                by (nonlinear_arith)
                requires abs(self.dir.y as int) <= 1024, BULLET_SPEED == 158720,
            ;
            crate::fx::lemma_tdiv_mul_bound((self.dir.x as int) * (BULLET_SPEED as int), 158720, 1024);
            crate::fx::lemma_tdiv_mul_bound((self.dir.y as int) * (BULLET_SPEED as int), 158720, 1024);
        }
        let vx: i64 = fx_mul(self.dir.x, BULLET_SPEED);
        let vy: i64 = fx_mul(self.dir.y, BULLET_SPEED);
        proof {
            assert(-(158720 * 4096) <= (vx as int) * (dt as int) <= 158720 * 4096) by (nonlinear_arith)
                requires -158720 <= vx <= 158720, 0 < dt <= 4096,
            ;
            assert(-(158720 * 4096) <= (vy as int) * (dt as int) <= 158720 * 4096) by (nonlinear_arith)
                requires -158720 <= vy <= 158720, 0 < dt <= 4096,
            ;
            crate::fx::lemma_tdiv_mul_bound((vx as int) * (dt as int), 634880, 1024);
            crate::fx::lemma_tdiv_mul_bound((vy as int) * (dt as int), 634880, 1024);
        }
        let dx: i64 = fx_mul(vx, dt);
        let dy: i64 = fx_mul(vy, dt);
        let mx: i64 = self.pos.x + dx;
        let my: i64 = self.pos.y + dy;
        let mut crossings: u8 = 0;
        if mx < 0 {
            self.pos.x = ARENA_W;
            crossings = crossings + 1;
        } else if mx > ARENA_W {
            self.pos.x = 0;
            crossings = crossings + 1;
        } else {
            self.pos.x = mx;
        }
        if my < 0 {
            self.pos.y = ARENA_H;
            crossings = crossings + 1;
        } else if my > ARENA_H {
            self.pos.y = 0;
            crossings = crossings + 1;
        } else {
            self.pos.y = my;
        }
        if self.wrap_count + crossings >= 5 {
            self.wrap_count = 5;
        } else {
            self.wrap_count = self.wrap_count + crossings;
        }
        self.wrap_count < 5
    }
}

/// A projectile is spent at the fifth crossing exactly: whatever a tick
/// crossed, a removed projectile's count is exactly five, never more.
pub proof fn lemma_spent_at_exactly_five(b: Bullet, after: Bullet, dt: int)
    requires
        bullet_ok(b),
        after.wrap_count == ({
            let total = b.wrap_count
                + (if crossed(moved_x(b, dt), ARENA_W as int) { 1int } else { 0int })
                + (if crossed(moved_y(b, dt), ARENA_H as int) { 1int } else { 0int });
            if total >= 5 { 5int } else { total }
        }),
        after.wrap_count >= 5,
    ensures
        after.wrap_count == 5,
{
}

} // verus!
