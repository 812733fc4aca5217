//! Simulation core of a top-down wrap-around arcade shooter: a player craft,
//! drifting hostile bodies, and projectiles, advanced one tick at a time.
//!
//! All geometry is fixed-point: a world coordinate is an `i64` holding
//! `FX` subunits per world unit, and an angle is an `i64` in binary angle
//! units (`TURN` units per full revolution). The tick function is a pure
//! state transition of (state, input snapshot, elapsed time); the window,
//! the renderer and the clock live outside this crate.

use vstd::prelude::*;

pub mod fx;
pub mod trig;
pub mod vec2;
pub mod transform;
pub mod bullet;
pub mod ship;
pub mod rng;
pub mod asteroid;
pub mod game;

verus! {

/// Fixed-point subunits per world unit.
pub const FX: i64 = 1024;

/// Arena width in fixed-point subunits (320 world units).
pub const ARENA_W: i64 = 327680;

/// Arena height in fixed-point subunits (288 world units).
pub const ARENA_H: i64 = 294912;

/// Binary angle units in a full revolution.
pub const TURN: i64 = 4096;

/// Binary angle units in a half revolution.
pub const HALF_TURN: i64 = 2048;

/// Binary angle units in a quarter revolution.
pub const QUARTER_TURN: i64 = 1024;

/// Projectile speed in subunits per second (155 world units per second).
pub const BULLET_SPEED: i64 = 158720;

/// Longest tick the simulation accepts, in fixed-point seconds (4 s).
pub const DT_MAX: i64 = 4096;

/// Where a craft or body coordinate lands after the toroidal wrap:
/// leaving past either edge re-enters one world unit inside the
/// opposite edge.
pub open spec fn wrap_spec(x: int, max: int) -> int {
    if x < 0 {
        max - 1024
    } else if x > max - 1024 {
        0
    } else {
        x
    }
}

/// Apply the toroidal wrap to one craft or body coordinate.
pub fn wrap_coord(x: i64, max: i64) -> (r: i64)
    requires
        1024 < max <= 0x8_0000,
        -0x7000_0000_0000_0000 < x < 0x7000_0000_0000_0000,
    ensures
        r == wrap_spec(x as int, max as int),
        0 <= r <= max - 1024,
{
    if x < 0 {
        max - 1024
    } else if x > max - 1024 {
        0
    } else {
        x
    }
}

} // verus!
