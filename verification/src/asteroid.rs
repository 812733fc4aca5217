//! Hostile drifting bodies: rejection-sampled spawning inside the danger
//! zone away from the craft, axis-aligned bounding-box containment, and
//! fragmentation into strictly smaller children.

use vstd::prelude::*;
use vstd::math::{abs, min, max};
use crate::{ARENA_W, ARENA_H, DT_MAX, wrap_spec, wrap_coord};
use crate::fx::{fxm, fx_mul, div_trunc, lemma_tdiv_mul_bound, lemma_tdiv_mag_lower, lemma_div_lt};
use crate::vec2::{Vec2, vec2, rot_x_spec, rot_y_spec};
use crate::transform::{Transform, placement_ok, applied_ok, world_x_spec, world_y_spec};
use crate::trig::{sin_spec, cos_spec};
use crate::ship::{Ship, ship_ok, hitbox_ok, hb_wx, hb_wy, lemma_hitbox_extent};
use crate::rng::{rand_below, rand_signed};

verus! {

/// Width of the danger zone, the margin band where bodies may first
/// appear (a twentieth of the arena height).
pub const DANGER_ZONE: i64 = 14745;

/// Smallest body scale: a body at or below it is removed, never kept.
pub const MIN_ASTEROID_SCALE: i64 = 3072;

/// Largest magnitude of a body velocity component (25 units/s).
pub const AST_VEL_MAX: i64 = 25600;

/// Cap on the rejection-sampling attempts before the deterministic
/// far-side fallback placement is used.
pub const SPAWN_ATTEMPTS: u64 = 64;

/// A hostile drifting body: a placed quadrilateral and a velocity.
pub struct Asteroid {
    pub transform: Transform,
    pub velocity: Vec2,
}

/// Field bounds every body the simulation holds satisfies.
pub open spec fn asteroid_core_ok(a: Asteroid) -> bool {
    &&& a.transform.vertices@.len() == 4
    &&& placement_ok(a.transform)
    &&& a.transform.scale <= 16384
    &&& 0 <= a.transform.pos.x <= ARENA_W - 1024
    &&& 0 <= a.transform.pos.y <= ARENA_H - 1024
    &&& abs(a.velocity.x as int) <= AST_VEL_MAX
    &&& abs(a.velocity.y as int) <= AST_VEL_MAX
}

/// A body in a consistent state: bounded fields and cached world
/// vertices derived from the current placement.
pub open spec fn asteroid_ok(a: Asteroid) -> bool {
    &&& asteroid_core_ok(a)
    &&& applied_ok(a.transform)
}

/// Least first coordinate over a vertex sequence.
pub open spec fn min_x_seq(s: Seq<Vec2>) -> int
    decreases s.len(),
{
    if s.len() <= 1 {
        s[0].x as int
    } else {
        min(min_x_seq(s.drop_last()), s.last().x as int)
    }
}

/// Greatest first coordinate over a vertex sequence.
pub open spec fn max_x_seq(s: Seq<Vec2>) -> int
    decreases s.len(),
{
    if s.len() <= 1 {
        s[0].x as int
    } else {
        max(max_x_seq(s.drop_last()), s.last().x as int)
    }
}

/// Least second coordinate over a vertex sequence.
pub open spec fn min_y_seq(s: Seq<Vec2>) -> int
    decreases s.len(),
{
    if s.len() <= 1 {
        s[0].y as int
    } else {
        min(min_y_seq(s.drop_last()), s.last().y as int)
    }
}

/// Greatest second coordinate over a vertex sequence.
pub open spec fn max_y_seq(s: Seq<Vec2>) -> int
    decreases s.len(),
{
    if s.len() <= 1 {
        s[0].y as int
    } else {
        max(max_y_seq(s.drop_last()), s.last().y as int)
    }
}

/// First world coordinate, relative to the body position, of local
/// vertex `k` under the body's rotation and scale.
pub open spec fn shape_x(vs: Seq<Vec2>, rot: int, sc: int, k: int) -> int {
    fxm(rot_x_spec(vs[k].x as int, vs[k].y as int, cos_spec(rot), sin_spec(rot)), sc)
}

/// Second world coordinate, relative to the body position, of local
/// vertex `k`.
pub open spec fn shape_y(vs: Seq<Vec2>, rot: int, sc: int, k: int) -> int {
    fxm(rot_y_spec(vs[k].x as int, vs[k].y as int, cos_spec(rot), sin_spec(rot)), sc)
}

/// Least `shape_x` over the first `n` local vertices.
pub open spec fn shape_min_x(vs: Seq<Vec2>, rot: int, sc: int, n: int) -> int
    decreases n,
{
    if n <= 1 {
        shape_x(vs, rot, sc, 0)
    } else {
        min(shape_min_x(vs, rot, sc, n - 1), shape_x(vs, rot, sc, n - 1))
    }
}

/// Greatest `shape_x` over the first `n` local vertices.
pub open spec fn shape_max_x(vs: Seq<Vec2>, rot: int, sc: int, n: int) -> int
    decreases n,
{
    if n <= 1 {
        shape_x(vs, rot, sc, 0)
    } else {
        max(shape_max_x(vs, rot, sc, n - 1), shape_x(vs, rot, sc, n - 1))
    }
}

/// Least `shape_y` over the first `n` local vertices.
pub open spec fn shape_min_y(vs: Seq<Vec2>, rot: int, sc: int, n: int) -> int
    decreases n,
{
    if n <= 1 {
        shape_y(vs, rot, sc, 0)
    } else {
        min(shape_min_y(vs, rot, sc, n - 1), shape_y(vs, rot, sc, n - 1))
    }
}

/// Greatest `shape_y` over the first `n` local vertices.
pub open spec fn shape_max_y(vs: Seq<Vec2>, rot: int, sc: int, n: int) -> int
    decreases n,
{
    if n <= 1 {
        shape_y(vs, rot, sc, 0)
    } else {
        max(shape_max_y(vs, rot, sc, n - 1), shape_y(vs, rot, sc, n - 1))
    }
}

/// Where the body's first coordinate lands after one tick's drift and
/// wrap.
pub open spec fn drifted_x(a: Asteroid, dt: int) -> int {
    wrap_spec(a.transform.pos.x + fxm(a.velocity.x as int, dt), ARENA_W as int)
}

/// Where the body's second coordinate lands after one tick's drift and
/// wrap.
pub open spec fn drifted_y(a: Asteroid, dt: int) -> int {
    wrap_spec(a.transform.pos.y + fxm(a.velocity.y as int, dt), ARENA_H as int)
}

/// Whether the body, after one tick's drift and wrap, touches the
/// craft: its drifted box holds a hitbox corner or the craft center, or
/// the craft's box holds the drifted position.
pub open spec fn drifted_hits_ship(a: Asteroid, dt: int, s: Ship) -> bool {
    let vs = a.transform.vertices@;
    let rot = a.transform.rot as int;
    let sc = a.transform.scale as int;
    let n = vs.len() as int;
    let lo_x = shape_min_x(vs, rot, sc, n) + drifted_x(a, dt);
    let hi_x = shape_max_x(vs, rot, sc, n) + drifted_x(a, dt);
    let lo_y = shape_min_y(vs, rot, sc, n) + drifted_y(a, dt);
    let hi_y = shape_max_y(vs, rot, sc, n) + drifted_y(a, dt);
    ||| (exists|k: int| 0 <= k < 4
            && lo_x <= (#[trigger] s.hitbox@[k]).x < hi_x
            && lo_y <= s.hitbox@[k].y < hi_y)
    ||| (lo_x <= s.transform.pos.x < hi_x && lo_y <= s.transform.pos.y < hi_y)
    ||| box_contains_spec(s.hitbox@, drifted_x(a, dt), drifted_y(a, dt))
}

/// The cached world box of a consistent body is its shape box shifted
/// by its position.
proof fn lemma_box_is_shifted_shape(t: Transform, n: int)
    requires
        applied_ok(t),
        1 <= n <= t.vertices@.len(),
    ensures
        min_x_seq(t.transform@.take(n)) == shape_min_x(t.vertices@, t.rot as int, t.scale as int, n) + t.pos.x,
        max_x_seq(t.transform@.take(n)) == shape_max_x(t.vertices@, t.rot as int, t.scale as int, n) + t.pos.x,
        min_y_seq(t.transform@.take(n)) == shape_min_y(t.vertices@, t.rot as int, t.scale as int, n) + t.pos.y,
        max_y_seq(t.transform@.take(n)) == shape_max_y(t.vertices@, t.rot as int, t.scale as int, n) + t.pos.y,
    decreases n,
{
    if n == 1 {
        assert(t.transform@.take(1)[0] == t.transform@[0]);
        assert(t.transform@[0].x == world_x_spec(t.vertices@[0], t.rot as int, t.scale as int, t.pos));
    } else {
        lemma_box_is_shifted_shape(t, n - 1);
        assert(t.transform@.take(n).drop_last() =~= t.transform@.take(n - 1));
        assert(t.transform@.take(n).last() == t.transform@[n - 1]);
        assert(t.transform@[n - 1].x == world_x_spec(t.vertices@[n - 1], t.rot as int, t.scale as int, t.pos));
        assert(t.transform@[n - 1].y == world_y_spec(t.vertices@[n - 1], t.rot as int, t.scale as int, t.pos));
    }
}

/// After a body advances one tick, touching the craft is exactly the
/// drifted-collision predicate on its pre-tick state.
pub proof fn lemma_hits_after_advance(pre: Asteroid, post: Asteroid, dt: int, s: Ship)
    requires
        asteroid_ok(post),
        post.transform.vertices@ == pre.transform.vertices@,
        post.transform.rot == pre.transform.rot,
        post.transform.scale == pre.transform.scale,
        post.velocity == pre.velocity,
        post.transform.pos.x == drifted_x(pre, dt),
        post.transform.pos.y == drifted_y(pre, dt),
        pre.transform.vertices@.len() == 4,
        s.hitbox@.len() == 4,
    ensures
        hits_ship_spec(post, s) == drifted_hits_ship(pre, dt, s),
{
    lemma_box_is_shifted_shape(post.transform, 4);
    assert(post.transform.transform@.take(4) =~= post.transform.transform@);
}

/// Whether the body, after one tick's drift and wrap, touches a craft
/// given by its four world hitbox corners and its center: the same
/// condition as `drifted_hits_ship`, spelled over the raw pose so that
/// callers can speak of a craft not yet built.
pub open spec fn drifted_hits_pose(a: Asteroid, dt: int,
    x0: int, y0: int, x1: int, y1: int, x2: int, y2: int, x3: int, y3: int,
    cx: int, cy: int) -> bool {
    let vs = a.transform.vertices@;
    let rot = a.transform.rot as int;
    let sc = a.transform.scale as int;
    let n = vs.len() as int;
    let lo_x = shape_min_x(vs, rot, sc, n) + drifted_x(a, dt);
    let hi_x = shape_max_x(vs, rot, sc, n) + drifted_x(a, dt);
    let lo_y = shape_min_y(vs, rot, sc, n) + drifted_y(a, dt);
    let hi_y = shape_max_y(vs, rot, sc, n) + drifted_y(a, dt);
    ||| (lo_x <= x0 < hi_x && lo_y <= y0 < hi_y)
    ||| (lo_x <= x1 < hi_x && lo_y <= y1 < hi_y)
    ||| (lo_x <= x2 < hi_x && lo_y <= y2 < hi_y)
    ||| (lo_x <= x3 < hi_x && lo_y <= y3 < hi_y)
    ||| (lo_x <= cx < hi_x && lo_y <= cy < hi_y)
    ||| (min(min(min(x0, x1), x2), x3) <= drifted_x(a, dt) < max(max(max(x0, x1), x2), x3)
            && min(min(min(y0, y1), y2), y3) <= drifted_y(a, dt) < max(max(max(y0, y1), y2), y3))
}

/// For a craft whose cached hitbox matches its placement, the drifted
/// collision test equals the raw-pose test on its corner coordinates.
pub proof fn lemma_drifted_pose(a: Asteroid, dt: int, s: Ship)
    requires
        hitbox_ok(s),
    ensures
        drifted_hits_ship(a, dt, s) == drifted_hits_pose(a, dt,
            hb_wx(s, 0), hb_wy(s, 0), hb_wx(s, 1), hb_wy(s, 1),
            hb_wx(s, 2), hb_wy(s, 2), hb_wx(s, 3), hb_wy(s, 3),
            s.transform.pos.x as int, s.transform.pos.y as int),
{
    let vs = a.transform.vertices@;
    let rot = a.transform.rot as int;
    let sc = a.transform.scale as int;
    let n = vs.len() as int;
    let lo_x = shape_min_x(vs, rot, sc, n) + drifted_x(a, dt);
    let hi_x = shape_max_x(vs, rot, sc, n) + drifted_x(a, dt);
    let lo_y = shape_min_y(vs, rot, sc, n) + drifted_y(a, dt);
    let hi_y = shape_max_y(vs, rot, sc, n) + drifted_y(a, dt);
    // the corner disjuncts correspond one-to-one
    if exists|k: int| 0 <= k < 4
        && lo_x <= (#[trigger] s.hitbox@[k]).x < hi_x
        && lo_y <= s.hitbox@[k].y < hi_y {
        let k = choose|k: int| 0 <= k < 4
            && lo_x <= (#[trigger] s.hitbox@[k]).x < hi_x
            && lo_y <= s.hitbox@[k].y < hi_y;
        assert(s.hitbox@[k].x == hb_wx(s, k) && s.hitbox@[k].y == hb_wy(s, k));
        assert(k == 0 || k == 1 || k == 2 || k == 3);
    }
    assert(s.hitbox@[0].x == hb_wx(s, 0) && s.hitbox@[0].y == hb_wy(s, 0));
    assert(s.hitbox@[1].x == hb_wx(s, 1) && s.hitbox@[1].y == hb_wy(s, 1));
    assert(s.hitbox@[2].x == hb_wx(s, 2) && s.hitbox@[2].y == hb_wy(s, 2));
    assert(s.hitbox@[3].x == hb_wx(s, 3) && s.hitbox@[3].y == hb_wy(s, 3));
    // the craft-box disjunct: the box over the hitbox sequence is the
    // nested min/max of the four corner coordinates
    let hb = s.hitbox@;
    assert(hb.len() == 4);
    reveal_with_fuel(min_x_seq, 5);
    reveal_with_fuel(max_x_seq, 5);
    reveal_with_fuel(min_y_seq, 5);
    reveal_with_fuel(max_y_seq, 5);
    assert(hb.drop_last() =~= hb.take(3));
    assert(hb.take(3).drop_last() =~= hb.take(2));
    assert(hb.take(2).drop_last() =~= hb.take(1));
    assert(hb.take(1)[0] == hb[0]);
    assert(hb.take(2).last() == hb[1]);
    assert(hb.take(3).last() == hb[2]);
    assert(hb.last() == hb[3]);
    assert(min_x_seq(hb) == min(min(min(hb[0].x as int, hb[1].x as int), hb[2].x as int), hb[3].x as int));
    assert(max_x_seq(hb) == max(max(max(hb[0].x as int, hb[1].x as int), hb[2].x as int), hb[3].x as int));
    assert(min_y_seq(hb) == min(min(min(hb[0].y as int, hb[1].y as int), hb[2].y as int), hb[3].y as int));
    assert(max_y_seq(hb) == max(max(max(hb[0].y as int, hb[1].y as int), hb[2].y as int), hb[3].y as int));
}

/// Craft values that share a hitbox and a position collide with the
/// same bodies.
pub proof fn lemma_hits_ship_same_frame(a: Asteroid, s1: Ship, s2: Ship)
    requires
        s1.hitbox@ == s2.hitbox@,
        s1.transform.pos == s2.transform.pos,
    ensures
        hits_ship_spec(a, s1) == hits_ship_spec(a, s2),
{
    if exists|k: int| 0 <= k < 4
        && contains_spec(a, (#[trigger] s1.hitbox@[k]).x as int, s1.hitbox@[k].y as int) {
        let k = choose|k: int| 0 <= k < 4
            && contains_spec(a, (#[trigger] s1.hitbox@[k]).x as int, s1.hitbox@[k].y as int);
        assert(s2.hitbox@[k] == s1.hitbox@[k]);
        assert(contains_spec(a, (s2.hitbox@[k]).x as int, s2.hitbox@[k].y as int));
    }
    if exists|k: int| 0 <= k < 4
        && contains_spec(a, (#[trigger] s2.hitbox@[k]).x as int, s2.hitbox@[k].y as int) {
        let k = choose|k: int| 0 <= k < 4
            && contains_spec(a, (#[trigger] s2.hitbox@[k]).x as int, s2.hitbox@[k].y as int);
        assert(s1.hitbox@[k] == s2.hitbox@[k]);
        assert(contains_spec(a, (s1.hitbox@[k]).x as int, s1.hitbox@[k].y as int));
    }
}

/// Whether the point `(x, y)` lies inside the axis-aligned bounding box
/// of a vertex list, half-open on the right and bottom.
pub open spec fn box_contains_spec(s: Seq<Vec2>, x: int, y: int) -> bool {
    &&& min_x_seq(s) <= x < max_x_seq(s)
    &&& min_y_seq(s) <= y < max_y_seq(s)
}

/// Whether the point `(x, y)` lies inside the body's axis-aligned
/// bounding box.
pub open spec fn contains_spec(a: Asteroid, x: int, y: int) -> bool {
    box_contains_spec(a.transform.transform@, x, y)
}

/// Whether the body touches the craft: the body's box holds a hitbox
/// corner or the craft center, or the craft's box holds the body's
/// position.
pub open spec fn hits_ship_spec(a: Asteroid, s: Ship) -> bool {
    ||| exists|k: int| 0 <= k < 4 && contains_spec(a, (#[trigger] s.hitbox@[k]).x as int, s.hitbox@[k].y as int)
    ||| contains_spec(a, s.transform.pos.x as int, s.transform.pos.y as int)
    ||| box_contains_spec(s.hitbox@, a.transform.pos.x as int, a.transform.pos.y as int)
}

/// Whether the point `(x, y)` lies inside the axis-aligned bounding box
/// of the given vertices, exactly `box_contains_spec`.
pub fn point_in_box(ts: &Vec<Vec2>, x: i64, y: i64) -> (r: bool)
    requires
        ts@.len() >= 1,
    ensures
        r == box_contains_spec(ts@, x as int, y as int),
{
    let n: usize = ts.len();
    let first: Vec2 = ts[0];
    let mut left: i64 = first.x;
    let mut right: i64 = first.x;
    let mut top: i64 = first.y;
    let mut bottom: i64 = first.y;
    let mut i: usize = 1;
    proof {
        assert(ts@.take(1).len() == 1);
        assert(ts@.take(1)[0] == ts@[0]);
    }
    while i < n
        invariant
            ts@.len() == n,
            1 <= i <= n,
            left == min_x_seq(ts@.take(i as int)),
            right == max_x_seq(ts@.take(i as int)),
            top == min_y_seq(ts@.take(i as int)),
            bottom == max_y_seq(ts@.take(i as int)),
        decreases n - i,
    {
        let v: Vec2 = ts[i];
        proof {
            let pre = ts@.take(i as int);
            let cur = ts@.take(i + 1);
            assert(cur.drop_last() =~= pre);
            assert(cur.last() == ts@[i as int]);
        }
        if v.x < left {
            left = v.x;
        }
        if v.x > right {
            right = v.x;
        }
        if v.y < top {
            top = v.y;
        }
        if v.y > bottom {
            bottom = v.y;
        }
        i = i + 1;
    }
    proof {
        assert(ts@.take(n as int) =~= ts@);
    }
    left <= x && x < right && top <= y && y < bottom
}

impl Asteroid {
    /// Axis-aligned bounding-box containment of a point, the deliberate
    /// collision approximation: the box is the min/max rectangle of the
    /// cached world vertices, half-open on its right and bottom edges.
    pub fn contains(&self, x: i64, y: i64) -> (r: bool)
        requires
            self.transform.transform@.len() >= 1,
        ensures
            r == contains_spec(*self, x as int, y as int),
    {
        point_in_box(&self.transform.transform, x, y)
    }

    /// Move along the velocity for one tick, wrap back into the arena,
    /// and refresh the cached world vertices.
    pub fn advance(&mut self, dt: i64)
        requires
            asteroid_ok(*old(self)),
            0 < dt <= DT_MAX,
        ensures
            asteroid_ok(*final(self)),
            final(self).transform.pos.x == wrap_spec(
                old(self).transform.pos.x + fxm(old(self).velocity.x as int, dt as int),
                ARENA_W as int),
            final(self).transform.pos.y == wrap_spec(
                old(self).transform.pos.y + fxm(old(self).velocity.y as int, dt as int),
                ARENA_H as int),
            final(self).velocity == old(self).velocity,
            final(self).transform.rot == old(self).transform.rot,
            final(self).transform.scale == old(self).transform.scale,
            final(self).transform.vertices == old(self).transform.vertices,
    {
        proof {
            assert(-(25600 * 4096) <= (self.velocity.x as int) * (dt as int) <= 25600 * 4096)
                by (nonlinear_arith)
                requires abs(self.velocity.x as int) <= 25600, 0 < dt <= 4096,
            ;
            assert(-(25600 * 4096) <= (self.velocity.y as int) * (dt as int) <= 25600 * 4096)
                by (nonlinear_arith)
                requires abs(self.velocity.y as int) <= 25600, 0 < dt <= 4096,
            ;
            lemma_tdiv_mul_bound((self.velocity.x as int) * (dt as int), 102400, 1024);
            lemma_tdiv_mul_bound((self.velocity.y as int) * (dt as int), 102400, 1024);
        }
        let dx: i64 = fx_mul(self.velocity.x, dt);
        let dy: i64 = fx_mul(self.velocity.y, dt);
        self.transform.pos.x = wrap_coord(self.transform.pos.x + dx, ARENA_W);
        self.transform.pos.y = wrap_coord(self.transform.pos.y + dy, ARENA_H);
        self.transform.apply();
    }

    /// Rejection-sampled spawn: draw candidates placed in the danger
    /// zone, drifting inward, until one's bounding box avoids the craft
    /// hitbox and center. Attempts are capped; past the cap, a
    /// deterministic candidate on the far side of the arena from the
    /// craft is used, which the margins prove collision-free. The
    /// returned body never touches the craft.
    pub fn random(rng: &mut rand::rngs::ThreadRng, ship: &Ship) -> (a: Asteroid)
        requires
            ship_ok(*ship),
        ensures
            asteroid_ok(a),
            !hits_ship_spec(a, *ship),
            8192 <= a.transform.scale < 16384,
            MIN_ASTEROID_SCALE < a.transform.scale,
            a.transform.rot == 0,
            a.velocity.x >= 0 ==> a.transform.pos.x <= DANGER_ZONE,
            a.velocity.x < 0 ==> a.transform.pos.x >= ARENA_W - 1024 - DANGER_ZONE,
            a.velocity.y >= 0 ==> a.transform.pos.y <= DANGER_ZONE,
            a.velocity.y < 0 ==> a.transform.pos.y >= ARENA_H - 1024 - DANGER_ZONE,
    {
        let mut attempts: u64 = 0;
        while attempts < SPAWN_ATTEMPTS
            invariant
                ship_ok(*ship),
            decreases SPAWN_ATTEMPTS - attempts,
        {
            let cand: Asteroid = Self::sample(rng);
            if !hits_ship(&cand, ship) {
                return cand;
            }
            attempts = attempts + 1;
        }
        Self::far_side_fallback(ship)
    }

    /// One random candidate: velocity drawn uniformly per axis, position
    /// in the danger-zone band on the edge its velocity drifts away
    /// from, a near-circular random quadrilateral, and a random scale
    /// between eight and sixteen world units.
    fn sample(rng: &mut rand::rngs::ThreadRng) -> (a: Asteroid)
        ensures
            asteroid_ok(a),
            8192 <= a.transform.scale < 16384,
            a.transform.rot == 0,
            a.velocity.x >= 0 ==> a.transform.pos.x < DANGER_ZONE,
            a.velocity.x < 0 ==> a.transform.pos.x >= ARENA_W - 1024 - DANGER_ZONE,
            a.velocity.y >= 0 ==> a.transform.pos.y < DANGER_ZONE,
            a.velocity.y < 0 ==> a.transform.pos.y >= ARENA_H - 1024 - DANGER_ZONE,
    {
        let vx: i64 = rand_signed(rng, AST_VEL_MAX);
        let vy: i64 = rand_signed(rng, AST_VEL_MAX);
        let px: i64 = if vx >= 0 {
            rand_below(rng, DANGER_ZONE)
        } else {
            ARENA_W - 1024 - rand_below(rng, DANGER_ZONE)
        };
        let py: i64 = if vy >= 0 {
            rand_below(rng, DANGER_ZONE)
        } else {
            ARENA_H - 1024 - rand_below(rng, DANGER_ZONE)
        };
        let v0: Vec2 = shape_vertex(rng, false, false);
        let v1: Vec2 = shape_vertex(rng, false, true);
        let v2: Vec2 = shape_vertex(rng, true, true);
        let v3: Vec2 = shape_vertex(rng, true, false);
        let mut vertices: Vec<Vec2> = Vec::new();
        vertices.push(v0);
        vertices.push(v1);
        vertices.push(v2);
        vertices.push(v3);
        let scale: i64 = 8192 + rand_below(rng, 8192);
        let mut a = Asteroid {
            transform: Transform {
                pos: vec2(px, py),
                vertices,
                transform: Vec::new(),
                scale,
                rot: 0,
            },
            velocity: vec2(vx, vy),
        };
        a.transform.apply();
        a
    }

    /// The capped-sampling fallback: a fixed diamond in the danger zone,
    /// half the arena away from the craft horizontally and drifting back
    /// inward. Its box stays clear of the craft by construction.
    fn far_side_fallback(ship: &Ship) -> (a: Asteroid)
        requires
            ship_ok(*ship),
        ensures
            asteroid_ok(a),
            !hits_ship_spec(a, *ship),
            a.transform.scale == 8192,
            a.transform.rot == 0,
            a.velocity.x >= 0 ==> a.transform.pos.x <= DANGER_ZONE,
            a.velocity.x < 0 ==> a.transform.pos.x >= ARENA_W - 1024 - DANGER_ZONE,
            a.velocity.y >= 0,
            a.transform.pos.y == DANGER_ZONE,
    {
        let craft_left: bool = ship.transform.pos.x < ARENA_W / 2;
        let px: i64 = if craft_left { ARENA_W - DANGER_ZONE } else { DANGER_ZONE };
        let vx: i64 = if craft_left { -AST_VEL_MAX } else { AST_VEL_MAX };
        let mut vertices: Vec<Vec2> = Vec::new();
        vertices.push(vec2(1024, 0));
        vertices.push(vec2(0, -1024));
        vertices.push(vec2(-1024, 0));
        vertices.push(vec2(0, 1024));
        let mut a = Asteroid {
            transform: Transform {
                pos: vec2(px, DANGER_ZONE),
                vertices,
                transform: Vec::new(),
                scale: 8192,
                rot: 0,
            },
            velocity: vec2(vx, AST_VEL_MAX),
        };
        a.transform.apply();
        proof {
            lemma_fallback_clear(a, *ship, craft_left);
        }
        a
    }
}

/// Whether the body's box currently touches the craft, exactly
/// `hits_ship_spec`.
pub fn hits_ship(a: &Asteroid, ship: &Ship) -> (r: bool)
    requires
        a.transform.transform@.len() >= 1,
        ship.hitbox@.len() == 4,
    ensures
        r == hits_ship_spec(*a, *ship),
{
    let mut hit: bool = false;
    if a.contains(ship.hitbox[0].x, ship.hitbox[0].y) {
        hit = true;
    }
    if a.contains(ship.hitbox[1].x, ship.hitbox[1].y) {
        hit = true;
    }
    if a.contains(ship.hitbox[2].x, ship.hitbox[2].y) {
        hit = true;
    }
    if a.contains(ship.hitbox[3].x, ship.hitbox[3].y) {
        hit = true;
    }
    if a.contains(ship.transform.pos.x, ship.transform.pos.y) {
        hit = true;
    }
    if point_in_box(&ship.hitbox, a.transform.pos.x, a.transform.pos.y) {
        hit = true;
    }
    proof {
        if hit == false {
            assert(forall|k: int| 0 <= k < 4 ==>
                !contains_spec(*a, (#[trigger] ship.hitbox@[k]).x as int, ship.hitbox@[k].y as int));
        }
    }
    hit
}

/// A random near-unit vertex in the chosen quadrant; a degenerate zero
/// draw is replaced by the diagonal before normalising, as required of
/// callers of `normalise`.
fn shape_vertex(rng: &mut rand::rngs::ThreadRng, neg_x: bool, neg_y: bool) -> (v: Vec2)
    ensures
        abs(v.x as int) <= 1024,
        abs(v.y as int) <= 1024,
{
    let mut sx: i64 = rand_below(rng, 2049);
    let mut sy: i64 = rand_below(rng, 2049);
    if sx == 0 && sy == 0 {
        sx = 1024;
        sy = 1024;
    }
    if neg_x {
        sx = -sx;
    }
    if neg_y {
        sy = -sy;
    }
    vec2(sx, sy).normalise()
}

/// An exact copy of a vertex list.
fn copy_vertices(v: &Vec<Vec2>) -> (r: Vec<Vec2>)
    ensures
        r@ == v@,
{
    let mut r: Vec<Vec2> = Vec::new();
    let mut i: usize = 0;
    while i < v.len()
        invariant
            0 <= i <= v.len(),
            r@ == v@.take(i as int),
        decreases v.len() - i,
    {
        r.push(v[i]);
        proof {
            assert(v@.take(i + 1) =~= v@.take(i as int).push(v@[i as int]));
        }
        i = i + 1;
    }
    proof {
        assert(v@.take(v@.len() as int) =~= v@);
    }
    r
}

/// Fragment a struck body: one to three children inherit the parent's
/// shape and position, each with an independently random rotation, a
/// strictly smaller scale (the parent's divided by a factor greater than
/// one), and a unit-random drift velocity. A child at or below the
/// minimum scale is removed outright: it is never produced.
pub fn fragment(parent: &Asteroid, rng: &mut rand::rngs::ThreadRng) -> (children: Vec<Asteroid>)
    requires
        asteroid_ok(*parent),
        MIN_ASTEROID_SCALE < parent.transform.scale,
    ensures
        children@.len() <= 3,
        forall|i: int| 0 <= i < children@.len() ==> asteroid_ok(#[trigger] children@[i]),
        forall|i: int| 0 <= i < children@.len() ==>
            (#[trigger] children@[i]).transform.scale < parent.transform.scale,
        forall|i: int| 0 <= i < children@.len() ==>
            MIN_ASTEROID_SCALE < (#[trigger] children@[i]).transform.scale,
        forall|i: int| 0 <= i < children@.len() ==>
            (#[trigger] children@[i]).transform.pos == parent.transform.pos,
        forall|i: int| 0 <= i < children@.len() ==>
            (#[trigger] children@[i]).transform.vertices@ == parent.transform.vertices@,
        forall|i: int| 0 <= i < children@.len() ==>
            abs((#[trigger] children@[i]).velocity.x as int) >= 12800
                || abs(children@[i].velocity.y as int) >= 12800,
        parent.transform.scale > 9218 ==> children@.len() >= 1,
{
    let n: i64 = 1 + rand_below(rng, 3);
    let mut children: Vec<Asteroid> = Vec::new();
    let mut j: i64 = 0;
    while j < n
        invariant
            asteroid_ok(*parent),
            MIN_ASTEROID_SCALE < parent.transform.scale,
            children@.len() <= j,
            0 <= j <= n <= 3,
            forall|i: int| 0 <= i < children@.len() ==> asteroid_ok(#[trigger] children@[i]),
            forall|i: int| 0 <= i < children@.len() ==>
                (#[trigger] children@[i]).transform.scale < parent.transform.scale,
            forall|i: int| 0 <= i < children@.len() ==>
                MIN_ASTEROID_SCALE < (#[trigger] children@[i]).transform.scale,
            forall|i: int| 0 <= i < children@.len() ==>
                (#[trigger] children@[i]).transform.pos == parent.transform.pos,
            forall|i: int| 0 <= i < children@.len() ==>
                (#[trigger] children@[i]).transform.vertices@ == parent.transform.vertices@,
            forall|i: int| 0 <= i < children@.len() ==>
                abs((#[trigger] children@[i]).velocity.x as int) >= 12800
                    || abs(children@[i].velocity.y as int) >= 12800,
            parent.transform.scale > 9218 ==> children@.len() >= j,
        decreases n - j,
    {
        let divisor: i64 = 1025 + rand_below(rng, 2048);
        let sc: i64 = parent.transform.scale;
        proof {
            let p = sc as int;
            let d = divisor as int;
            assert(0 <= p * 1024 < 0x4000_0000_0000_0000) by (nonlinear_arith)
                requires 0 < p <= 16384,
            ;
            assert(p * 1024 < p * d) by (nonlinear_arith)
                requires 0 < p, 1024 < d,
            ;
            lemma_div_lt(p * 1024, p, d);
            vstd::arithmetic::div_mod::lemma_div_pos_is_pos(p * 1024, d);
            if p > 9218 {
                // a large enough parent always yields a child above the
                // minimum: the divisor never exceeds three full units
                assert(3073 * d <= p * 1024) by (nonlinear_arith)
                    requires p >= 9219, d <= 3072,
                ;
                vstd::arithmetic::div_mod::lemma_div_is_ordered(3073 * d, p * 1024, d);
                vstd::arithmetic::div_mod::lemma_div_multiples_vanish(3073, d);
                vstd::arithmetic::mul::lemma_mul_is_commutative(3073, d);
                assert(p * 1024 / d >= 3073);
            }
        }
        let child_scale: i64 = div_trunc(sc * 1024, divisor);
        if child_scale > MIN_ASTEROID_SCALE {
            let rot: i64 = rand_below(rng, 4096);
            let mut dx: i64 = rand_signed(rng, 1024);
            let mut dy: i64 = rand_signed(rng, 1024);
            if dx == 0 && dy == 0 {
                dx = 1024;
            }
            let dir: Vec2 = vec2(dx, dy).normalise();
            proof {
                assert(-(25600 * 1024) <= (dir.x as int) * 25600 <= 25600 * 1024)
                    by (nonlinear_arith)
                    requires abs(dir.x as int) <= 1024,
                ;
                assert(-(25600 * 1024) <= (dir.y as int) * 25600 <= 25600 * 1024)
                    by (nonlinear_arith)
                    requires abs(dir.y as int) <= 1024,
                ;
                lemma_tdiv_mul_bound((dir.x as int) * 25600, 25600, 1024);
                lemma_tdiv_mul_bound((dir.y as int) * 25600, 25600, 1024);
                // the child drifts at a real speed: the direction's larger
                // component is at least half a unit, so the matching
                // velocity component is at least half the fragment speed
                if abs(dir.x as int) >= 512 {
                    assert((dir.x as int) * 25600 >= 12800 * 1024
                            || (dir.x as int) * 25600 <= -(12800 * 1024)) by (nonlinear_arith)
                        requires abs(dir.x as int) >= 512,
                    ;
                    lemma_tdiv_mag_lower((dir.x as int) * 25600, 12800, 1024);
                } else {
                    assert((dir.y as int) * 25600 >= 12800 * 1024
                            || (dir.y as int) * 25600 <= -(12800 * 1024)) by (nonlinear_arith)
                        requires abs(dir.y as int) >= 512,
                    ;
                    lemma_tdiv_mag_lower((dir.y as int) * 25600, 12800, 1024);
                }
            }
            let vel: Vec2 = dir.mul(AST_VEL_MAX);
            let mut child = Asteroid {
                transform: Transform {
                    pos: parent.transform.pos,
                    vertices: copy_vertices(&parent.transform.vertices),
                    transform: Vec::new(),
                    scale: child_scale,
                    rot,
                },
                velocity: vel,
            };
            child.transform.apply();
            children.push(child);
        }
        j = j + 1;
    }
    children
}

/// The fallback body's box cannot touch the craft: the two sit at least
/// a quarter arena apart horizontally, while box and hitbox extend at
/// most a craft scale plus a body scale.
proof fn lemma_fallback_clear(a: Asteroid, s: Ship, craft_left: bool)
    requires
        ship_ok(s),
        asteroid_ok(a),
        a.transform.vertices@.len() == 4,
        a.transform.vertices@[0] == (Vec2 { x: 1024i64, y: 0i64 }),
        a.transform.vertices@[1] == (Vec2 { x: 0i64, y: -1024i64 }),
        a.transform.vertices@[2] == (Vec2 { x: -1024i64, y: 0i64 }),
        a.transform.vertices@[3] == (Vec2 { x: 0i64, y: 1024i64 }),
        a.transform.rot == 0,
        a.transform.scale == 8192,
        craft_left == (s.transform.pos.x < ARENA_W / 2),
        a.transform.pos.x == (if craft_left { ARENA_W - DANGER_ZONE } else { DANGER_ZONE as int }),
    ensures
        !hits_ship_spec(a, s),
{
    let tr = a.transform.transform@;
    let px = a.transform.pos.x as int;
    assert(cos_0_is_unit() && sin_0_is_zero()) by {
        lemma_trig_at_zero();
    }
    assert(tr.len() == 4);
    assert(tr[0].x == world_x_spec(a.transform.vertices@[0], 0, 8192, a.transform.pos));
    assert(tr[1].x == world_x_spec(a.transform.vertices@[1], 0, 8192, a.transform.pos));
    assert(tr[2].x == world_x_spec(a.transform.vertices@[2], 0, 8192, a.transform.pos));
    assert(tr[3].x == world_x_spec(a.transform.vertices@[3], 0, 8192, a.transform.pos));
    assert(tr[0].x == px + 8192) by {
        lemma_world_x_diamond(a.transform.vertices@[0], a.transform.pos);
    }
    assert(tr[1].x == px) by {
        lemma_world_x_diamond(a.transform.vertices@[1], a.transform.pos);
    }
    assert(tr[2].x == px - 8192) by {
        lemma_world_x_diamond(a.transform.vertices@[2], a.transform.pos);
    }
    assert(tr[3].x == px) by {
        lemma_world_x_diamond(a.transform.vertices@[3], a.transform.pos);
    }
    reveal_with_fuel(min_x_seq, 5);
    reveal_with_fuel(max_x_seq, 5);
    assert(tr.drop_last().drop_last().drop_last() =~= tr.take(1));
    assert(tr.take(1)[0] == tr[0]);
    assert(tr.drop_last().drop_last() =~= tr.take(2));
    assert(tr.drop_last() =~= tr.take(3));
    assert(min_x_seq(tr) == px - 8192);
    assert(max_x_seq(tr) == px + 8192);
    let sx = s.transform.pos.x as int;
    lemma_hitbox_extent(s, 0);
    lemma_hitbox_extent(s, 1);
    lemma_hitbox_extent(s, 2);
    lemma_hitbox_extent(s, 3);
    let hb = s.hitbox@;
    assert(hb.len() == 4);
    assert(hb.drop_last() =~= hb.take(3));
    assert(hb.take(3).drop_last() =~= hb.take(2));
    assert(hb.take(2).drop_last() =~= hb.take(1));
    assert(hb.take(1)[0] == hb[0]);
    assert(hb.take(2).last() == hb[1]);
    assert(hb.take(3).last() == hb[2]);
    assert(hb.last() == hb[3]);
    assert(min_x_seq(hb) >= sx - 16384);
    assert(max_x_seq(hb) <= sx + 16384);
    if craft_left {
        assert(forall|k: int| 0 <= k < 4 ==> (#[trigger] s.hitbox@[k]).x < min_x_seq(tr));
        assert(sx < min_x_seq(tr));
        assert(a.transform.pos.x >= max_x_seq(hb));
    } else {
        assert(forall|k: int| 0 <= k < 4 ==> (#[trigger] s.hitbox@[k]).x >= max_x_seq(tr));
        assert(sx >= max_x_seq(tr));
        assert(a.transform.pos.x < min_x_seq(hb));
    }
}

/// At angle zero the cosine is exactly `FX`.
pub open spec fn cos_0_is_unit() -> bool {
    crate::trig::cos_spec(0) == 1024
}

/// At angle zero the sine is exactly zero.
pub open spec fn sin_0_is_zero() -> bool {
    crate::trig::sin_spec(0) == 0
}

/// Evaluate the trig approximation at angle zero.
proof fn lemma_trig_at_zero()
    ensures
        cos_0_is_unit(),
        sin_0_is_zero(),
{
    assert(crate::trig::sin_half_spec(0) == 0);
    assert(crate::trig::sin_half_spec(1024) == 1024) by {
        assert(16 * 1024 * (2048 - 1024) * 1024 == 17179869184) by (nonlinear_arith);
        assert(4 * 1024 * (2048 - 1024) == 4194304) by (nonlinear_arith);
        assert(17179869184int / 16777216int == 1024);
    }
}

/// World first coordinates of the diamond's vertices at rotation zero
/// and scale eight units: exactly the position shifted by the scaled
/// local vertex.
proof fn lemma_world_x_diamond(v: Vec2, pos: Vec2)
    requires
        v.x == 1024 && v.y == 0 || v.x == 0 && v.y == -1024
            || v.x == -1024 && v.y == 0 || v.x == 0 && v.y == 1024,
        cos_0_is_unit(),
        sin_0_is_zero(),
    ensures
        world_x_spec(v, 0, 8192, pos) == pos.x + 8 * v.x,
        world_y_spec(v, 0, 8192, pos) == pos.y + 8 * v.y,
{
}

} // verus!
