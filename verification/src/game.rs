//! The whole simulation state and its tick: steering, thrust, movement
//! and wrap, firing, projectile flight, reseeding, collision with
//! fragmentation and scoring, and the atomic reset on a craft crash.

use vstd::prelude::*;
use vstd::math::abs;
use crate::{ARENA_W, ARENA_H, DT_MAX, wrap_spec};
use crate::fx::{fxm, fx_mul, clamp, clamp_spec, lemma_tdiv_mul_bound};
use crate::vec2::{Vec2, vec2};
use crate::ship::{Ship, ship_ok, ship_core_ok, heading_x_spec, heading_y_spec,
    heading_x_of_rot, heading_y_of_rot, rot_after_steer, vel_after_thrust,
    hb_wx_raw, hb_wy_raw, DEFAULT_ACCELERATION, ACC_MAX};
use crate::asteroid::{Asteroid, asteroid_ok, hits_ship, hits_ship_spec, fragment,
    drifted_hits_ship, drifted_hits_pose, lemma_drifted_pose,
    lemma_hits_after_advance, lemma_hits_ship_same_frame,
    MIN_ASTEROID_SCALE};
use crate::bullet::{Bullet, bullet_ok};

verus! {

/// Starting (and largest) delay between shots, in milliseconds.
pub const DEFAULT_BULLET_COOLDOWN: u64 = 1100;

/// The cooldown floor the difficulty ramp can never go under.
pub const MIN_BULLET_COOLDOWN: u64 = 700;

/// One tick's input snapshot. Movement flags are level-triggered; fire
/// and the hitbox toggle act on a rising edge against the previous
/// snapshot.
#[derive(Clone, Copy)]
pub struct Input {
    pub left: bool,
    pub right: bool,
    pub up: bool,
    pub down: bool,
    pub fire: bool,
    pub toggle_hitbox: bool,
}

impl Default for Input {
    /// All flags released.
    fn default() -> (r: Self)
        ensures
            !r.left && !r.right && !r.up && !r.down && !r.fire && !r.toggle_hitbox,
    {
        Input { left: false, right: false, up: false, down: false, fire: false, toggle_hitbox: false }
    }
}

/// What one tick reports back: whether the craft crashed, how many
/// bodies were destroyed, and the score as it stood after those kills
/// (and before any reset zeroed it).
pub struct TickReport {
    pub ship_hit: bool,
    pub destroyed: usize,
    pub score: u32,
}

/// The full simulation state.
pub struct Game {
    pub ship: Ship,
    pub asteroids: Vec<Asteroid>,
    pub bullets: Vec<Bullet>,
    pub score: u32,
    pub high_score: u32,
    pub bullet_cooldown: u64,
    pub last_bullet: u64,
    pub show_hitbox: bool,
}

/// The simulation invariant: a consistent craft inside the arena, every
/// body consistent, inside the arena and above the minimum scale, every
/// projectile live and inside the arena box, and the cooldown between
/// its floor and its default.
pub open spec fn game_ok(g: Game) -> bool {
    &&& ship_ok(g.ship)
    &&& forall|i: int| 0 <= i < g.asteroids@.len() ==> asteroid_ok(#[trigger] g.asteroids@[i])
    &&& forall|i: int| 0 <= i < g.asteroids@.len() ==>
            (#[trigger] g.asteroids@[i]).transform.scale > MIN_ASTEROID_SCALE
    &&& forall|i: int| 0 <= i < g.bullets@.len() ==> bullet_ok(#[trigger] g.bullets@[i])
    &&& MIN_BULLET_COOLDOWN <= g.bullet_cooldown <= DEFAULT_BULLET_COOLDOWN
}

/// The cooldown after a kill: every fifth point shaves 200 ms off,
/// floored at the minimum.
pub open spec fn cooldown_after(c: int, score: int) -> int {
    if score % 5 == 0 {
        if c - 200 >= MIN_BULLET_COOLDOWN { c - 200 } else { MIN_BULLET_COOLDOWN as int }
    } else {
        c
    }
}

/// The score after `k` kills, saturating at the counter's ceiling.
pub open spec fn score_plus(s: int, k: int) -> int {
    if s + k <= u32::MAX { s + k } else { u32::MAX as int }
}

/// Whether, on a tick with this input snapshot, some body of the game's
/// collection drifts into the craft as the craft stands after this
/// tick's steering, thrust, integration and wrap.
pub open spec fn crash_on_tick(g: Game, input: Input, dt: int) -> bool {
    let rot1 = rot_after_steer(g.ship, input.left, input.right, dt);
    let vx = vel_after_thrust(g.ship.velocity.x as int, heading_x_of_rot(rot1),
        g.ship.acc as int, input.up, input.down, dt);
    let vy = vel_after_thrust(g.ship.velocity.y as int, heading_y_of_rot(rot1),
        g.ship.acc as int, input.up, input.down, dt);
    let px = wrap_spec(g.ship.transform.pos.x + fxm(vx, dt), ARENA_W as int);
    let py = wrap_spec(g.ship.transform.pos.y + fxm(vy, dt), ARENA_H as int);
    let vs = g.ship.transform.vertices@;
    let sc = g.ship.transform.scale as int;
    exists|i: int| 0 <= i < g.asteroids@.len() && drifted_hits_pose(
        #[trigger] g.asteroids@[i], dt,
        hb_wx_raw(vs, sc, rot1, px, 0), hb_wy_raw(vs, sc, rot1, py, 0),
        hb_wx_raw(vs, sc, rot1, px, 1), hb_wy_raw(vs, sc, rot1, py, 1),
        hb_wx_raw(vs, sc, rot1, px, 2), hb_wy_raw(vs, sc, rot1, py, 2),
        hb_wx_raw(vs, sc, rot1, px, 3), hb_wy_raw(vs, sc, rot1, py, 3),
        px, py)
}

/// On a tick whose opening body list is nonempty, the collision pass's
/// crash flag equals the drifted-collision predicate of the opening
/// state: the craft at the pass is the opening craft steered, thrust
/// and moved, and the body list at the pass is the opening list.
proof fn lemma_step_crash_flag(start: Game, pre: Game, input: Input, dt: int, flag: bool)
    requires
        start.asteroids@.len() > 0,
        ship_ok(pre.ship),
        pre.asteroids@ == start.asteroids@,
        pre.ship.transform.vertices@ == start.ship.transform.vertices@,
        pre.ship.transform.scale == start.ship.transform.scale,
        pre.ship.transform.rot == rot_after_steer(start.ship, input.left, input.right, dt),
        pre.ship.velocity.x == vel_after_thrust(start.ship.velocity.x as int,
            heading_x_of_rot(rot_after_steer(start.ship, input.left, input.right, dt)),
            start.ship.acc as int, input.up, input.down, dt),
        pre.ship.velocity.y == vel_after_thrust(start.ship.velocity.y as int,
            heading_y_of_rot(rot_after_steer(start.ship, input.left, input.right, dt)),
            start.ship.acc as int, input.up, input.down, dt),
        pre.ship.transform.pos.x == wrap_spec(
            start.ship.transform.pos.x + fxm(pre.ship.velocity.x as int, dt), ARENA_W as int),
        pre.ship.transform.pos.y == wrap_spec(
            start.ship.transform.pos.y + fxm(pre.ship.velocity.y as int, dt), ARENA_H as int),
        flag == (exists|i: int| 0 <= i < pre.asteroids@.len()
            && drifted_hits_ship(#[trigger] pre.asteroids@[i], dt, pre.ship)),
    ensures
        flag == crash_on_tick(start, input, dt),
{
    let rot1 = rot_after_steer(start.ship, input.left, input.right, dt);
    let vx = vel_after_thrust(start.ship.velocity.x as int, heading_x_of_rot(rot1),
        start.ship.acc as int, input.up, input.down, dt);
    let vy = vel_after_thrust(start.ship.velocity.y as int, heading_y_of_rot(rot1),
        start.ship.acc as int, input.up, input.down, dt);
    let px = wrap_spec(start.ship.transform.pos.x + fxm(vx, dt), ARENA_W as int);
    let py = wrap_spec(start.ship.transform.pos.y + fxm(vy, dt), ARENA_H as int);
    let vs = start.ship.transform.vertices@;
    let sc = start.ship.transform.scale as int;
    assert(pre.ship.transform.pos.x == px && pre.ship.transform.pos.y == py);
    assert forall|i: int| 0 <= i < start.asteroids@.len() implies
        (drifted_hits_ship(#[trigger] start.asteroids@[i], dt, pre.ship)
            == drifted_hits_pose(start.asteroids@[i], dt,
                hb_wx_raw(vs, sc, rot1, px, 0), hb_wy_raw(vs, sc, rot1, py, 0),
                hb_wx_raw(vs, sc, rot1, px, 1), hb_wy_raw(vs, sc, rot1, py, 1),
                hb_wx_raw(vs, sc, rot1, px, 2), hb_wy_raw(vs, sc, rot1, py, 2),
                hb_wx_raw(vs, sc, rot1, px, 3), hb_wy_raw(vs, sc, rot1, py, 3),
                px, py)) by {
        lemma_drifted_pose(start.asteroids@[i], dt, pre.ship);
    }
    if flag {
        let w = choose|i: int| 0 <= i < pre.asteroids@.len()
            && drifted_hits_ship(#[trigger] pre.asteroids@[i], dt, pre.ship);
        assert(pre.asteroids@[w] == start.asteroids@[w]);
        assert(drifted_hits_pose(start.asteroids@[w], dt,
            hb_wx_raw(vs, sc, rot1, px, 0), hb_wy_raw(vs, sc, rot1, py, 0),
            hb_wx_raw(vs, sc, rot1, px, 1), hb_wy_raw(vs, sc, rot1, py, 1),
            hb_wx_raw(vs, sc, rot1, px, 2), hb_wy_raw(vs, sc, rot1, py, 2),
            hb_wx_raw(vs, sc, rot1, px, 3), hb_wy_raw(vs, sc, rot1, py, 3),
            px, py));
        assert(crash_on_tick(start, input, dt));
    } else {
        if crash_on_tick(start, input, dt) {
            let w = choose|i: int| 0 <= i < start.asteroids@.len()
                && drifted_hits_pose(#[trigger] start.asteroids@[i], dt,
                    hb_wx_raw(vs, sc, rot1, px, 0), hb_wy_raw(vs, sc, rot1, py, 0),
                    hb_wx_raw(vs, sc, rot1, px, 1), hb_wy_raw(vs, sc, rot1, py, 1),
                    hb_wx_raw(vs, sc, rot1, px, 2), hb_wy_raw(vs, sc, rot1, py, 2),
                    hb_wx_raw(vs, sc, rot1, px, 3), hb_wy_raw(vs, sc, rot1, py, 3),
                    px, py);
            assert(drifted_hits_ship(pre.asteroids@[w], dt, pre.ship));
            assert(false);
        }
    }
}

impl Game {
    /// A fresh game: craft at the center, one body spawned clear of it,
    /// no projectiles, zero score, default cooldown.
    pub fn new(rng: &mut rand::rngs::ThreadRng, now: u64) -> (g: Game)
        ensures
            game_ok(g),
            g.score == 0,
            g.high_score == 0,
            g.bullet_cooldown == DEFAULT_BULLET_COOLDOWN,
            g.asteroids@.len() == 1,
            g.bullets@.len() == 0,
            !g.show_hitbox,
            g.ship.transform.pos.x == ARENA_W / 2,
            g.ship.transform.pos.y == ARENA_H / 2,
            !hits_ship_spec(g.asteroids@[0], g.ship),
    {
        let ship = Ship::new();
        let first = Asteroid::random(rng, &ship);
        let mut asteroids: Vec<Asteroid> = Vec::new();
        asteroids.push(first);
        Game {
            ship,
            asteroids,
            bullets: Vec::new(),
            score: 0,
            high_score: 0,
            bullet_cooldown: DEFAULT_BULLET_COOLDOWN,
            last_bullet: if now >= DEFAULT_BULLET_COOLDOWN { now - DEFAULT_BULLET_COOLDOWN } else { 0 },
            show_hitbox: false,
        }
    }

    /// One simulation tick: steer and thrust the craft, integrate and
    /// wrap every position, fire on a rising edge past the cooldown,
    /// advance projectiles and drop the spent ones, reseed an emptied
    /// arena, resolve collisions with fragmentation and scoring, and on
    /// a craft crash perform the whole reset within this same tick.
    pub fn step(&mut self, input: &Input, prev: &Input, dt: i64, now: u64,
        rng: &mut rand::rngs::ThreadRng) -> (r: TickReport)
        requires
            game_ok(*old(self)),
            0 < dt <= DT_MAX,
        ensures
            game_ok(*final(self)),
            final(self).high_score >= old(self).high_score,
            final(self).bullet_cooldown >= MIN_BULLET_COOLDOWN,
            r.score >= old(self).score,
            r.score == score_plus(old(self).score as int, r.destroyed as int),
            old(self).asteroids@.len() > 0 ==> r.ship_hit == crash_on_tick(*old(self), *input, dt as int),
            (old(self).asteroids@.len() == 0 && r.destroyed == 0 && !r.ship_hit)
                ==> final(self).asteroids@.len() == 4,
            !r.ship_hit ==> ({
                let rot1 = rot_after_steer(old(self).ship, input.left, input.right, dt as int);
                let vx = vel_after_thrust(old(self).ship.velocity.x as int, heading_x_of_rot(rot1),
                    old(self).ship.acc as int, input.up, input.down, dt as int);
                let vy = vel_after_thrust(old(self).ship.velocity.y as int, heading_y_of_rot(rot1),
                    old(self).ship.acc as int, input.up, input.down, dt as int);
                &&& final(self).ship.transform.rot == rot1
                &&& final(self).ship.velocity.x == vx
                &&& final(self).ship.velocity.y == vy
                &&& final(self).ship.transform.pos.x == wrap_spec(
                        old(self).ship.transform.pos.x + fxm(vx, dt as int), ARENA_W as int)
                &&& final(self).ship.transform.pos.y == wrap_spec(
                        old(self).ship.transform.pos.y + fxm(vy, dt as int), ARENA_H as int)
                &&& final(self).ship.acc >= old(self).ship.acc
            }),
            !r.ship_hit ==> final(self).score == r.score
                && final(self).high_score == old(self).high_score,
            r.ship_hit ==> final(self).score == 0
                && final(self).high_score == (
                    if r.score > old(self).high_score { r.score as int } else { old(self).high_score as int })
                && final(self).bullets@.len() == 0
                && final(self).asteroids@.len() == 1
                && final(self).bullet_cooldown == DEFAULT_BULLET_COOLDOWN
                && final(self).ship.transform.pos.x == ARENA_W / 2
                && final(self).ship.transform.pos.y == ARENA_H / 2
                && final(self).ship.velocity.x == 0
                && final(self).ship.velocity.y == 0
                && final(self).ship.acc == DEFAULT_ACCELERATION
                && final(self).ship.transform.rot == 2048,
    {
        if input.toggle_hitbox && !prev.toggle_hitbox {
            self.show_hitbox = !self.show_hitbox;
        }
        self.ship.steer(input.left, input.right, dt);
        self.ship.thrust(input.up, input.down, dt);
        self.ship.update(dt);
        let ghost ship_mid = self.ship;
        self.maybe_fire(input.fire, prev.fire, now);
        self.advance_bullets(dt);
        if self.asteroids.len() == 0 {
            let mut k: u64 = 0;
            while k < 4
                invariant
                    game_ok(*self),
                    self.score == old(self).score,
                    self.high_score == old(self).high_score,
                    self.ship == ship_mid,
                    k <= 4,
                    self.asteroids@.len() == k,
                decreases 4 - k,
            {
                let fresh = Asteroid::random(rng, &self.ship);
                self.asteroids.push(fresh);
                k = k + 1;
            }
        }
        let ghost pre_collide = *self;
        let (ship_hit, destroyed) = self.collide_and_fragment(dt, rng);
        proof {
            if old(self).asteroids@.len() > 0 {
                lemma_step_crash_flag(*old(self), pre_collide, *input, dt as int, ship_hit);
            }
        }
        let score_after = self.score;
        if ship_hit {
            self.reset(rng, now);
        }
        TickReport { ship_hit, destroyed, score: score_after }
    }

    /// Spawn a projectile on a rising fire edge once the cooldown has
    /// elapsed: it starts one craft scale ahead of the craft along the
    /// heading (clamped into the arena box) and flies along the heading.
    fn maybe_fire(&mut self, fire: bool, prev_fire: bool, now: u64)
        requires
            ship_ok(old(self).ship),
            forall|i: int| 0 <= i < old(self).bullets@.len() ==> bullet_ok(#[trigger] old(self).bullets@[i]),
        ensures
            final(self).ship == old(self).ship,
            final(self).asteroids == old(self).asteroids,
            final(self).score == old(self).score,
            final(self).high_score == old(self).high_score,
            final(self).bullet_cooldown == old(self).bullet_cooldown,
            final(self).show_hitbox == old(self).show_hitbox,
            forall|i: int| 0 <= i < final(self).bullets@.len() ==> bullet_ok(#[trigger] final(self).bullets@[i]),
            ({
                let can = fire && !prev_fire && now >= old(self).last_bullet
                    && now - old(self).last_bullet >= old(self).bullet_cooldown;
                if can {
                    let hx = heading_x_spec(old(self).ship);
                    let hy = heading_y_spec(old(self).ship);
                    let sc = old(self).ship.transform.scale as int;
                    let b = final(self).bullets@.last();
                    &&& final(self).bullets@ == old(self).bullets@.push(b)
                    &&& b.dir.x == hx
                    &&& b.dir.y == hy
                    &&& b.wrap_count == 0
                    &&& b.pos.x == clamp_spec(
                            old(self).ship.transform.pos.x + fxm(hx, sc), 0, ARENA_W as int)
                    &&& b.pos.y == clamp_spec(
                            old(self).ship.transform.pos.y + fxm(hy, sc), 0, ARENA_H as int)
                    &&& final(self).last_bullet == now
                } else {
                    final(self).bullets == old(self).bullets
                        && final(self).last_bullet == old(self).last_bullet
                }
            }),
    {
        let can: bool = fire && !prev_fire && now >= self.last_bullet
            && now - self.last_bullet >= self.bullet_cooldown;
        if can {
            let dir: Vec2 = self.ship.heading();
            let sc: i64 = self.ship.transform.scale;
            proof {
                assert(-(16384 * 1024) <= (dir.x as int) * (sc as int) <= 16384 * 1024)
                    by (nonlinear_arith)
                    requires abs(dir.x as int) <= 1024, 0 < sc <= 16384,
                ;
                assert(-(16384 * 1024) <= (dir.y as int) * (sc as int) <= 16384 * 1024)
                    by (nonlinear_arith)
                    requires abs(dir.y as int) <= 1024, 0 < sc <= 16384,
                ;
                lemma_tdiv_mul_bound((dir.x as int) * (sc as int), 16384, 1024);
                lemma_tdiv_mul_bound((dir.y as int) * (sc as int), 16384, 1024);
            }
            let ox: i64 = fx_mul(dir.x, sc);
            let oy: i64 = fx_mul(dir.y, sc);
            let px: i64 = clamp(self.ship.transform.pos.x + ox, 0, ARENA_W);
            let py: i64 = clamp(self.ship.transform.pos.y + oy, 0, ARENA_H);
            let b = Bullet::new(vec2(px, py), dir);
            self.bullets.push(b);
            self.last_bullet = now;
        }
    }

    /// Fly every projectile one tick and keep exactly those that are
    /// still live: a projectile is dropped once its boundary crossings
    /// reach five.
    fn advance_bullets(&mut self, dt: i64)
        requires
            0 < dt <= DT_MAX,
            forall|i: int| 0 <= i < old(self).bullets@.len() ==> bullet_ok(#[trigger] old(self).bullets@[i]),
        ensures
            final(self).ship == old(self).ship,
            final(self).asteroids == old(self).asteroids,
            final(self).score == old(self).score,
            final(self).high_score == old(self).high_score,
            final(self).bullet_cooldown == old(self).bullet_cooldown,
            final(self).last_bullet == old(self).last_bullet,
            final(self).show_hitbox == old(self).show_hitbox,
            forall|i: int| 0 <= i < final(self).bullets@.len() ==> bullet_ok(#[trigger] final(self).bullets@[i]),
            final(self).bullets@.len() <= old(self).bullets@.len(),
    {
        let mut kept: Vec<Bullet> = Vec::new();
        let mut i: usize = 0;
        let n: usize = self.bullets.len();
        while i < n
            invariant
                n == self.bullets@.len(),
                0 <= i <= n,
                0 < dt <= DT_MAX,
                forall|j: int| 0 <= j < n ==> bullet_ok(#[trigger] self.bullets@[j]),
                forall|j: int| 0 <= j < kept@.len() ==> bullet_ok(#[trigger] kept@[j]),
                kept@.len() <= i,
            decreases n - i,
        {
            let mut b: Bullet = self.bullets[i];
            let keep: bool = b.advance(dt);
            if keep {
                kept.push(b);
            }
            i = i + 1;
        }
        self.bullets = kept;
    }

    /// Award one destroyed body: the score rises by one, the craft
    /// acceleration ramps with the score, and every fifth point shortens
    /// the cooldown by 200 ms down to its floor.
    pub fn register_kill(&mut self)
        requires
            ship_ok(old(self).ship),
            MIN_BULLET_COOLDOWN <= old(self).bullet_cooldown <= DEFAULT_BULLET_COOLDOWN,
        ensures
            ship_ok(final(self).ship),
            final(self).ship.transform == old(self).ship.transform,
            final(self).ship.velocity == old(self).ship.velocity,
            final(self).ship.hitbox == old(self).ship.hitbox,
            final(self).asteroids == old(self).asteroids,
            final(self).bullets == old(self).bullets,
            final(self).high_score == old(self).high_score,
            final(self).last_bullet == old(self).last_bullet,
            final(self).show_hitbox == old(self).show_hitbox,
            old(self).score < u32::MAX ==> final(self).score == old(self).score + 1,
            old(self).score == u32::MAX ==> final(self).score == old(self).score,
            final(self).score >= old(self).score,
            final(self).bullet_cooldown == cooldown_after(old(self).bullet_cooldown as int,
                final(self).score as int),
            MIN_BULLET_COOLDOWN <= final(self).bullet_cooldown <= DEFAULT_BULLET_COOLDOWN,
            final(self).ship.acc == clamp_spec(
                old(self).ship.acc + (final(self).score as int) * 32, 0, ACC_MAX as int),
    {
        if self.score < 0xFFFF_FFFF {
            self.score = self.score + 1;
        }
        let bump: i64 = (self.score as i64) * 32;
        self.ship.acc = clamp(self.ship.acc + bump, 0, ACC_MAX);
        if self.score % 5 == 0 {
            if self.bullet_cooldown >= 900 {
                self.bullet_cooldown = self.bullet_cooldown - 200;
            } else {
                self.bullet_cooldown = MIN_BULLET_COOLDOWN;
            }
        }
    }

    /// Resolve this tick's collisions: move and wrap every body, note
    /// whether any touches the craft, let each body consume at most one
    /// projectile (destroying the body into staged fragments and
    /// scoring it), and keep the rest. Fragments join the collection
    /// only after the pass, and only above the minimum scale.
    fn collide_and_fragment(&mut self, dt: i64, rng: &mut rand::rngs::ThreadRng) -> (r: (bool, usize))
        requires
            game_ok(*old(self)),
            0 < dt <= DT_MAX,
        ensures
            game_ok(*final(self)),
            final(self).ship.transform == old(self).ship.transform,
            final(self).ship.velocity == old(self).ship.velocity,
            final(self).ship.hitbox == old(self).ship.hitbox,
            final(self).ship.acc >= old(self).ship.acc,
            final(self).high_score == old(self).high_score,
            final(self).last_bullet == old(self).last_bullet,
            final(self).show_hitbox == old(self).show_hitbox,
            final(self).score >= old(self).score,
            r.0 == (exists|i: int| 0 <= i < old(self).asteroids@.len()
                && drifted_hits_ship(#[trigger] old(self).asteroids@[i], dt as int, old(self).ship)),
            r.1 <= old(self).asteroids@.len(),
            final(self).bullets@.len() == old(self).bullets@.len() - r.1,
            final(self).score == score_plus(old(self).score as int, r.1 as int),
            r.1 == 0 ==> final(self).asteroids@.len() == old(self).asteroids@.len()
                && final(self).bullets == old(self).bullets,
    {
        let ghost orig = old(self).asteroids@;
        let mut pool: Vec<Asteroid> = Vec::new();
        pool.append(&mut self.asteroids);
        let total: usize = pool.len();
        proof {
            assert(pool@ =~= orig.take(orig.len() as int));
            assert(total == orig.len());
        }
        let mut kept: Vec<Asteroid> = Vec::new();
        let mut staged: Vec<Asteroid> = Vec::new();
        let mut ship_hit: bool = false;
        let mut destroyed: usize = 0;
        while pool.len() > 0
            invariant
                0 < dt <= DT_MAX,
                ship_ok(self.ship),
                self.ship.transform == old(self).ship.transform,
                self.ship.velocity == old(self).ship.velocity,
                self.ship.hitbox == old(self).ship.hitbox,
                self.high_score == old(self).high_score,
                self.last_bullet == old(self).last_bullet,
                self.show_hitbox == old(self).show_hitbox,
                self.ship.acc >= old(self).ship.acc,
                total == orig.len(),
                destroyed + pool@.len() <= total,
                self.bullets@.len() == old(self).bullets@.len() - destroyed,
                self.score == score_plus(old(self).score as int, destroyed as int),
                destroyed == 0 ==> self.bullets == old(self).bullets,
                destroyed == 0 ==> staged@.len() == 0,
                destroyed == 0 ==> kept@.len() == orig.len() - pool@.len(),
                MIN_BULLET_COOLDOWN <= self.bullet_cooldown <= DEFAULT_BULLET_COOLDOWN,
                forall|i: int| 0 <= i < pool@.len() ==> asteroid_ok(#[trigger] pool@[i]),
                forall|i: int| 0 <= i < pool@.len() ==>
                    (#[trigger] pool@[i]).transform.scale > MIN_ASTEROID_SCALE,
                forall|i: int| 0 <= i < kept@.len() ==> asteroid_ok(#[trigger] kept@[i]),
                forall|i: int| 0 <= i < kept@.len() ==>
                    (#[trigger] kept@[i]).transform.scale > MIN_ASTEROID_SCALE,
                forall|i: int| 0 <= i < staged@.len() ==> asteroid_ok(#[trigger] staged@[i]),
                forall|i: int| 0 <= i < staged@.len() ==>
                    (#[trigger] staged@[i]).transform.scale > MIN_ASTEROID_SCALE,
                forall|i: int| 0 <= i < self.bullets@.len() ==> bullet_ok(#[trigger] self.bullets@[i]),
                self.asteroids@.len() == 0,
                pool@.len() <= orig.len(),
                pool@ == orig.take(pool@.len() as int),
                ship_hit == (exists|i: int| pool@.len() <= i < orig.len()
                    && drifted_hits_ship(#[trigger] orig[i], dt as int, old(self).ship)),
            decreases pool@.len(),
        {
            let mut a: Asteroid = pool.pop().unwrap();
            let ghost i0 = pool@.len() as int;
            proof {
                assert(0 <= i0 && i0 + 1 <= orig.len());
                assert(orig.take(i0 + 1).len() == i0 + 1);
                assert(orig.take(i0 + 1).last() == orig[i0]);
                assert(orig.take(i0 + 1).drop_last() =~= orig.take(i0));
                assert(a == orig[i0]);
            }
            let ghost pre = a;
            a.advance(dt);
            let hit_now: bool = hits_ship(&a, &self.ship);
            proof {
                lemma_hits_after_advance(pre, a, dt as int, self.ship);
                lemma_hits_ship_same_frame(a, self.ship, old(self).ship);
                lemma_hits_after_advance(pre, a, dt as int, old(self).ship);
                assert(hit_now == drifted_hits_ship(orig[i0], dt as int, old(self).ship));
            }
            if hit_now {
                ship_hit = true;
            }
            proof {
                if hit_now {
                    assert(i0 <= i0 < orig.len()
                        && drifted_hits_ship(orig[i0], dt as int, old(self).ship));
                    assert(ship_hit == (exists|i: int| i0 <= i < orig.len()
                        && drifted_hits_ship(#[trigger] orig[i], dt as int, old(self).ship)));
                } else {
                    if ship_hit {
                        let w = choose|i: int| i0 + 1 <= i < orig.len()
                            && drifted_hits_ship(#[trigger] orig[i], dt as int, old(self).ship);
                        assert(i0 <= w < orig.len()
                            && drifted_hits_ship(orig[w], dt as int, old(self).ship));
                    } else {
                        if exists|i: int| i0 <= i < orig.len()
                            && drifted_hits_ship(#[trigger] orig[i], dt as int, old(self).ship) {
                            let w = choose|i: int| i0 <= i < orig.len()
                                && drifted_hits_ship(#[trigger] orig[i], dt as int, old(self).ship);
                            assert(w != i0);
                            assert(i0 + 1 <= w < orig.len()
                                && drifted_hits_ship(orig[w], dt as int, old(self).ship));
                            assert(false);
                        }
                    }
                    assert(ship_hit == (exists|i: int| i0 <= i < orig.len()
                        && drifted_hits_ship(#[trigger] orig[i], dt as int, old(self).ship)));
                }
            }
            let mut found: bool = false;
            let mut hit_idx: usize = 0;
            let mut j: usize = 0;
            while j < self.bullets.len() && !found
                invariant
                    asteroid_ok(a),
                    0 <= j <= self.bullets@.len(),
                    found ==> hit_idx < self.bullets@.len(),
                decreases self.bullets@.len() - j, (if found { 0int } else { 1int }),
            {
                if a.contains(self.bullets[j].pos.x, self.bullets[j].pos.y) {
                    found = true;
                    hit_idx = j;
                } else {
                    j = j + 1;
                }
            }
            if found {
                self.bullets.swap_remove(hit_idx);
                self.register_kill();
                proof {
                    assert(destroyed < total);
                }
                destroyed = destroyed + 1;
                let mut kids: Vec<Asteroid> = fragment(&a, rng);
                staged.append(&mut kids);
            } else {
                if a.transform.scale > MIN_ASTEROID_SCALE {
                    kept.push(a);
                }
            }
        }
        self.asteroids.append(&mut kept);
        self.asteroids.append(&mut staged);
        (ship_hit, destroyed)
    }

    /// The atomic reset after a crash, applied within the same tick:
    /// fold the score into the high score, clear projectiles, reseed a
    /// single body clear of the recentered craft, restore the craft to
    /// the center at rest with default acceleration and the default
    /// facing, restore the cooldown and rebase the fire timer so the
    /// craft may fire at once, and zero the score.
    fn reset(&mut self, rng: &mut rand::rngs::ThreadRng, now: u64)
        ensures
            game_ok(*final(self)),
            final(self).high_score == (
                if old(self).score > old(self).high_score { old(self).score as int } else { old(self).high_score as int }),
            final(self).score == 0,
            final(self).bullets@.len() == 0,
            final(self).asteroids@.len() == 1,
            !hits_ship_spec(final(self).asteroids@[0], final(self).ship),
            final(self).bullet_cooldown == DEFAULT_BULLET_COOLDOWN,
            final(self).ship.transform.pos.x == ARENA_W / 2,
            final(self).ship.transform.pos.y == ARENA_H / 2,
            final(self).ship.velocity.x == 0,
            final(self).ship.velocity.y == 0,
            final(self).ship.acc == DEFAULT_ACCELERATION,
            final(self).ship.transform.rot == 2048,
            final(self).show_hitbox == old(self).show_hitbox,
    {
        if self.score > self.high_score {
            self.high_score = self.score;
        }
        let mut ship = Ship::new();
        ship.set_rotation(2048);
        self.ship = ship;
        self.bullets = Vec::new();
        let reseeded = Asteroid::random(rng, &self.ship);
        let mut asteroids: Vec<Asteroid> = Vec::new();
        asteroids.push(reseeded);
        self.asteroids = asteroids;
        self.bullet_cooldown = DEFAULT_BULLET_COOLDOWN;
        self.last_bullet = if now >= DEFAULT_BULLET_COOLDOWN { now - DEFAULT_BULLET_COOLDOWN } else { 0 };
        self.score = 0;
    }
}

} // verus!
