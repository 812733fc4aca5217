//! Craft and projectile behaviour: thrust, decay, steering, wrapping,
//! and the spatial projectile lifetime.

use asteroids::bullet::Bullet;
use asteroids::ship::Ship;
use asteroids::vec2::vec2;
use asteroids::{ARENA_W, ARENA_H, FX};

#[test]
fn bullet_wraps_left_to_width() {
    // a projectile crossing the left edge re-enters at x == width and
    // its wrap count becomes one
    let mut b = Bullet::new(vec2(100, ARENA_H / 2), vec2(-1024, 0));
    let keep = b.advance(FX);
    assert!(keep);
    assert_eq!(b.pos.x, ARENA_W);
    assert_eq!(b.wrap_count, 1);
    assert_eq!(b.pos.y, ARENA_H / 2);
}

#[test]
fn bullet_spent_at_exactly_five() {
    let mut b = Bullet::new(vec2(100, ARENA_H / 2), vec2(-1024, 0));
    b.wrap_count = 4;
    let keep = b.advance(FX);
    assert!(!keep);
    assert_eq!(b.wrap_count, 5);
}

#[test]
fn bullet_lifetime_counts_to_five() {
    let mut b = Bullet::new(vec2(ARENA_W / 2, ARENA_H / 2), vec2(-1024, 0));
    let mut ticks = 0;
    loop {
        let keep = b.advance(FX);
        ticks += 1;
        assert!(ticks < 100, "projectile never spent");
        if !keep {
            break;
        }
        assert!(b.wrap_count < 5);
    }
    assert_eq!(b.wrap_count, 5);
}

#[test]
fn bullet_corner_tick_counts_both_crossings() {
    // a tick that crosses both edges at once counts two crossings
    let mut b = Bullet::new(vec2(100, 100), vec2(-1024, -1024));
    let keep = b.advance(FX);
    assert!(keep);
    assert_eq!(b.pos.x, ARENA_W);
    assert_eq!(b.pos.y, ARENA_H);
    assert_eq!(b.wrap_count, 2);
}

#[test]
fn bullet_corner_tick_at_four_spent_at_exactly_five() {
    // even when the final tick crosses both edges, the count stops at
    // five, never six
    let mut b = Bullet::new(vec2(100, 100), vec2(-1024, -1024));
    b.wrap_count = 4;
    let keep = b.advance(FX);
    assert!(!keep);
    assert_eq!(b.wrap_count, 5);
}

#[test]
fn thrust_forward_one_second() {
    // craft at rest, facing along +x, full thrust for one second with
    // the default acceleration of 25 units/s^2: speed becomes 25 units/s
    let mut s = Ship::new();
    s.set_rotation(3072);
    s.thrust(true, false, FX);
    assert_eq!(s.velocity.x, 25 * FX);
    assert_eq!(s.velocity.y, 0);
}

#[test]
fn decay_snaps_to_zero_inside_deadzone() {
    let mut s = Ship::new();
    s.velocity = vec2(500, -700);
    s.thrust(false, false, 17);
    assert_eq!(s.velocity.x, 0);
    assert_eq!(s.velocity.y, 0);
}

#[test]
fn decay_moves_toward_zero() {
    let mut s = Ship::new();
    s.velocity = vec2(10240, 0);
    s.thrust(false, false, FX);
    // one second of decay at 25/1.2 units/s^2 from 10 units/s
    assert!(s.velocity.x < 10240);
    assert!(s.velocity.x >= 0 || s.velocity.x >= -21325);
}

#[test]
fn steer_right_changes_rotation() {
    let mut s = Ship::new();
    s.steer(false, true, FX);
    assert_eq!(s.transform.rot, 2281);
    s.steer(true, false, FX);
    assert_eq!(s.transform.rot, 0);
}

#[test]
fn ship_wraps_across_left_edge() {
    let mut s = Ship::new();
    s.velocity = vec2(-200000, 0);
    s.update(FX);
    assert_eq!(s.transform.pos.x, ARENA_W - 1024);
    assert_eq!(s.transform.pos.y, ARENA_H / 2);
}

#[test]
fn ship_positions_stay_in_arena() {
    let mut s = Ship::new();
    s.velocity = vec2(123456, -98765);
    for _ in 0..300 {
        s.update(17);
        assert!(s.transform.pos.x >= 0 && s.transform.pos.x < ARENA_W);
        assert!(s.transform.pos.y >= 0 && s.transform.pos.y < ARENA_H);
    }
}
