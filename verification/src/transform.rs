//! A placed polygon: local unit-scale vertices plus position, rotation and
//! scale, with a cached world-space vertex array.

use vstd::prelude::*;
use vstd::math::abs;
use crate::fx::{fxm, lemma_tdiv_mul_bound};
use crate::trig::{sin_spec, cos_spec};
use crate::vec2::{Vec2, rot_x_spec, rot_y_spec};

verus! {

/// A polygon in local coordinates together with its placement in the
/// arena. `vertices` are unit-scale local points; `transform` caches the
/// world-space points they map to under rotate, then scale, then
/// translate.
pub struct Transform {
    pub pos: Vec2,
    pub vertices: Vec<Vec2>,
    pub transform: Vec<Vec2>,
    pub scale: i64,
    pub rot: i64,
}

/// First world coordinate of the local vertex `v` under rotation `rot`,
/// scale `scale` and translation `pos`.
pub open spec fn world_x_spec(v: Vec2, rot: int, scale: int, pos: Vec2) -> int {
    fxm(rot_x_spec(v.x as int, v.y as int, cos_spec(rot), sin_spec(rot)), scale) + pos.x
}

/// Second world coordinate of the local vertex `v`.
pub open spec fn world_y_spec(v: Vec2, rot: int, scale: int, pos: Vec2) -> int {
    fxm(rot_y_spec(v.x as int, v.y as int, cos_spec(rot), sin_spec(rot)), scale) + pos.y
}

/// Placement parameters a transform keeps inside machine range: a
/// normalized angle, a bounded positive scale, unit-scale local vertices
/// and an in-range position.
pub open spec fn placement_ok(t: Transform) -> bool {
    &&& 0 <= t.rot < 4096
    &&& 0 < t.scale <= 32768
    &&& abs(t.pos.x as int) <= 0x8_0000
    &&& abs(t.pos.y as int) <= 0x8_0000
    &&& forall|i: int| 0 <= i < t.vertices@.len() ==> abs(#[trigger] t.vertices@[i].x as int) <= 1024
    &&& forall|i: int| 0 <= i < t.vertices@.len() ==> abs(#[trigger] t.vertices@[i].y as int) <= 1024
}

/// The cached world vertices agree with the current placement.
pub open spec fn applied_ok(t: Transform) -> bool {
    &&& t.transform@.len() == t.vertices@.len()
    &&& forall|i: int| 0 <= i < t.vertices@.len() ==>
            (#[trigger] t.transform@[i]).x == world_x_spec(t.vertices@[i], t.rot as int, t.scale as int, t.pos)
    &&& forall|i: int| 0 <= i < t.vertices@.len() ==>
            (#[trigger] t.transform@[i]).y == world_y_spec(t.vertices@[i], t.rot as int, t.scale as int, t.pos)
}

/// A world vertex of a well-placed transform lies within twice the scale
/// of the position, componentwise.
pub proof fn lemma_world_extent(v: Vec2, rot: int, scale: int, pos: Vec2)
    requires
        0 <= rot < 4096,
        0 < scale <= 32768,
        abs(v.x as int) <= 1024,
        abs(v.y as int) <= 1024,
    ensures
        abs(world_x_spec(v, rot, scale, pos) - pos.x) <= 2 * scale,
        abs(world_y_spec(v, rot, scale, pos) - pos.y) <= 2 * scale,
{
    crate::trig::lemma_sin_cos_range(rot);
    let c = cos_spec(rot);
    let s = sin_spec(rot);
    let rx = rot_x_spec(v.x as int, v.y as int, c, s);
    let ry = rot_y_spec(v.x as int, v.y as int, c, s);
    lemma_rot_unit_bound(v, c, s);
    assert(-(2 * scale) * 1024 <= rx * scale <= (2 * scale) * 1024) by (nonlinear_arith)
        requires -2048 <= rx <= 2048, 0 < scale,
    ;
    assert(-(2 * scale) * 1024 <= ry * scale <= (2 * scale) * 1024) by (nonlinear_arith)
        requires -2048 <= ry <= 2048, 0 < scale,
    ;
    lemma_tdiv_mul_bound(rx * scale, 2 * scale, 1024);
    lemma_tdiv_mul_bound(ry * scale, 2 * scale, 1024);
}

/// Rotating a unit-scale vertex keeps both coordinates within `2 * FX`.
proof fn lemma_rot_unit_bound(v: Vec2, c: int, s: int)
    requires
        abs(v.x as int) <= 1024,
        abs(v.y as int) <= 1024,
        -1024 <= c <= 1024,
        -1024 <= s <= 1024,
    ensures
        -2048 <= rot_x_spec(v.x as int, v.y as int, c, s) <= 2048,
        -2048 <= rot_y_spec(v.x as int, v.y as int, c, s) <= 2048,
{
    let x = v.x as int;
    let y = v.y as int;
    assert(-(2048 * 1024) <= x * c - y * s <= 2048 * 1024) by (nonlinear_arith)
        requires abs(x) <= 1024, abs(y) <= 1024, -1024 <= c <= 1024, -1024 <= s <= 1024,
    ;
    assert(-(2048 * 1024) <= y * c + x * s <= 2048 * 1024) by (nonlinear_arith)
        requires abs(x) <= 1024, abs(y) <= 1024, -1024 <= c <= 1024, -1024 <= s <= 1024,
    ;
    lemma_tdiv_mul_bound(x * c - y * s, 2048, 1024);
    lemma_tdiv_mul_bound(y * c + x * s, 2048, 1024);
}

impl Transform {
    /// Recompute the cached world-space vertices from the current
    /// position, rotation and scale: rotate, then scale, then translate,
    /// for every local vertex.
    pub fn apply(&mut self)
        requires
            placement_ok(*old(self)),
        ensures
            applied_ok(*final(self)),
            final(self).pos == old(self).pos,
            final(self).vertices == old(self).vertices,
            final(self).scale == old(self).scale,
            final(self).rot == old(self).rot,
    {
        let n: usize = self.vertices.len();
        let mut out: Vec<Vec2> = Vec::new();
        let mut i: usize = 0;
        while i < n
            invariant
                n == self.vertices@.len(),
                placement_ok(*self),
                0 <= i <= n,
                out@.len() == i,
                forall|j: int| 0 <= j < i ==>
                    (#[trigger] out@[j]).x == world_x_spec(self.vertices@[j], self.rot as int, self.scale as int, self.pos),
                forall|j: int| 0 <= j < i ==>
                    (#[trigger] out@[j]).y == world_y_spec(self.vertices@[j], self.rot as int, self.scale as int, self.pos),
            decreases n - i,
        {
            let v: Vec2 = self.vertices[i];
            let rotated: Vec2 = v.rotate(self.rot);
            proof {
                lemma_world_extent(v, self.rot as int, self.scale as int, self.pos);
            }
            let scaled: Vec2 = rotated.mul(self.scale);
            let world: Vec2 = scaled.add(self.pos);
            out.push(world);
            i = i + 1;
        }
        self.transform = out;
    }
}

} // verus!
