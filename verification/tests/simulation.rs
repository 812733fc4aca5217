//! Whole-game ticks: spawning clear of the craft, fragmentation,
//! scoring and the difficulty ramp, reseeding, firing, and the atomic
//! reset after a crash.

use asteroids::asteroid::{fragment, Asteroid, DANGER_ZONE, MIN_ASTEROID_SCALE};
use asteroids::game::{Game, Input, DEFAULT_BULLET_COOLDOWN, MIN_BULLET_COOLDOWN};
use asteroids::ship::{Ship, ACC_MAX, DEFAULT_ACCELERATION};
use asteroids::transform::Transform;
use asteroids::vec2::{vec2, Vec2};
use asteroids::{ARENA_H, ARENA_W};

fn diamond() -> Vec<Vec2> {
    vec![vec2(1024, 0), vec2(0, -1024), vec2(-1024, 0), vec2(0, 1024)]
}

fn body_at(x: i64, y: i64, scale: i64) -> Asteroid {
    let mut a = Asteroid {
        transform: Transform {
            pos: vec2(x, y),
            vertices: diamond(),
            transform: Vec::new(),
            scale,
            rot: 0,
        },
        velocity: vec2(0, 0),
    };
    a.transform.apply();
    a
}

#[test]
fn spawn_never_touches_craft() {
    let mut rng = rand::thread_rng();
    let ship = Ship::new();
    for _ in 0..50 {
        let a = Asteroid::random(&mut rng, &ship);
        for k in 0..4 {
            let c = ship.hitbox[k];
            assert!(!a.contains(c.x, c.y), "hitbox corner {k} inside spawned body");
        }
        assert!(!a.contains(ship.transform.pos.x, ship.transform.pos.y));
        assert!(a.transform.scale >= 8192 && a.transform.scale < 16384);
        assert_eq!(a.transform.rot, 0);
        assert!(a.transform.pos.x >= 0 && a.transform.pos.x < ARENA_W);
        assert!(a.transform.pos.y >= 0 && a.transform.pos.y < ARENA_H);
        // danger-zone placement: the band on the edge the body drifts away from
        if a.velocity.x >= 0 {
            assert!(a.transform.pos.x <= DANGER_ZONE);
        } else {
            assert!(a.transform.pos.x >= ARENA_W - 1024 - DANGER_ZONE);
        }
        if a.velocity.y >= 0 {
            assert!(a.transform.pos.y <= DANGER_ZONE);
        } else {
            assert!(a.transform.pos.y >= ARENA_H - 1024 - DANGER_ZONE);
        }
    }
}

#[test]
fn fragments_strictly_smaller() {
    let mut rng = rand::thread_rng();
    let parent = body_at(ARENA_W / 2, ARENA_H / 2, 16000);
    for _ in 0..30 {
        let kids = fragment(&parent, &mut rng);
        // a parent this large always yields at least one child
        assert!(kids.len() >= 1 && kids.len() <= 3);
        for k in kids.iter() {
            assert!(k.transform.scale < 16000);
            assert!(k.transform.scale > MIN_ASTEROID_SCALE);
            assert_eq!(k.transform.pos.x, ARENA_W / 2);
            assert_eq!(k.transform.pos.y, ARENA_H / 2);
            // fragments drift at a real speed
            assert!(k.velocity.x.abs() >= 12800 || k.velocity.y.abs() >= 12800);
        }
    }
}

#[test]
fn cooldown_never_under_floor() {
    let mut rng = rand::thread_rng();
    let mut g = Game::new(&mut rng, 10_000);
    assert_eq!(g.bullet_cooldown, DEFAULT_BULLET_COOLDOWN);
    for _ in 0..25 {
        g.register_kill();
        assert!(g.bullet_cooldown >= MIN_BULLET_COOLDOWN);
        assert!(g.ship.acc <= ACC_MAX);
    }
    assert_eq!(g.bullet_cooldown, MIN_BULLET_COOLDOWN);
    assert_eq!(g.score, 25);
}

#[test]
fn reset_on_collision() {
    let mut rng = rand::thread_rng();
    let mut g = Game::new(&mut rng, 10_000);
    g.score = 7;
    g.high_score = 3;
    g.asteroids = vec![body_at(ARENA_W / 2, ARENA_H / 2, 16000)];
    let idle = Input::default();
    let r = g.step(&idle, &idle, 17, 10_017, &mut rng);
    assert!(r.ship_hit);
    assert_eq!(g.score, 0);
    assert_eq!(g.high_score, 7);
    assert_eq!(g.bullets.len(), 0);
    assert_eq!(g.asteroids.len(), 1);
    assert_eq!(g.ship.transform.pos.x, ARENA_W / 2);
    assert_eq!(g.ship.transform.pos.y, ARENA_H / 2);
    assert_eq!(g.ship.velocity.x, 0);
    assert_eq!(g.ship.velocity.y, 0);
    assert_eq!(g.ship.acc, DEFAULT_ACCELERATION);
    assert_eq!(g.bullet_cooldown, DEFAULT_BULLET_COOLDOWN);
}

#[test]
fn reset_keeps_larger_high_score() {
    let mut rng = rand::thread_rng();
    let mut g = Game::new(&mut rng, 10_000);
    g.score = 2;
    g.high_score = 5;
    g.asteroids = vec![body_at(ARENA_W / 2, ARENA_H / 2, 16000)];
    let idle = Input::default();
    let r = g.step(&idle, &idle, 17, 10_017, &mut rng);
    assert!(r.ship_hit);
    assert_eq!(g.high_score, 5);
    assert_eq!(g.score, 0);
}

#[test]
fn body_point_inside_craft_box_crashes() {
    // the third collision clause: the body's position lies inside the
    // craft's box while the body's own box holds neither a corner nor
    // the center
    let mut rng = rand::thread_rng();
    let mut g = Game::new(&mut rng, 10_000);
    g.asteroids = vec![body_at(ARENA_W / 2, ARENA_H / 2 + 4500, 3500)];
    let idle = Input::default();
    let r = g.step(&idle, &idle, 1, 10_017, &mut rng);
    assert!(r.ship_hit);
    assert_eq!(g.score, 0);
    assert_eq!(g.asteroids.len(), 1);
}

#[test]
fn empty_arena_reseeds_four() {
    let mut rng = rand::thread_rng();
    let mut g = Game::new(&mut rng, 10_000);
    g.asteroids = Vec::new();
    let idle = Input::default();
    let r = g.step(&idle, &idle, 17, 10_017, &mut rng);
    assert!(!r.ship_hit);
    assert_eq!(g.asteroids.len(), 4);
}

#[test]
fn fire_is_edge_triggered_and_cooled() {
    let mut rng = rand::thread_rng();
    let mut g = Game::new(&mut rng, 10_000);
    g.asteroids = vec![body_at(1024, 1024, 8192)];
    let idle = Input::default();
    let firing = Input { fire: true, ..Input::default() };
    let r = g.step(&firing, &idle, 17, 10_000, &mut rng);
    assert!(!r.ship_hit);
    assert_eq!(g.bullets.len(), 1);
    // held fire: no rising edge, no second projectile
    g.step(&firing, &firing, 17, 10_017, &mut rng);
    assert_eq!(g.bullets.len(), 1);
    // released and pressed again, but inside the cooldown
    g.step(&idle, &firing, 17, 10_034, &mut rng);
    g.step(&firing, &idle, 17, 10_051, &mut rng);
    assert_eq!(g.bullets.len(), 1);
}

#[test]
fn projectile_destroys_body_and_scores() {
    let mut rng = rand::thread_rng();
    let mut g = Game::new(&mut rng, 10_000);
    // one stationary body far from the craft, with a projectile resting
    // inside its box (direction along +x, negligible movement this tick)
    g.asteroids = vec![body_at(40_960, 40_960, 8192)];
    let mut b = asteroids::bullet::Bullet::new(vec2(40_960, 40_960), vec2(1024, 0));
    b.pos = vec2(40_000, 40_960);
    g.bullets = vec![b];
    let idle = Input::default();
    let r = g.step(&idle, &idle, 17, 10_017, &mut rng);
    assert!(!r.ship_hit);
    assert_eq!(r.destroyed, 1);
    assert_eq!(g.score, 1);
    assert_eq!(r.score, 1);
    assert_eq!(g.bullets.len(), 0);
    // every remaining body is a fragment of the destroyed one
    assert!(g.asteroids.len() <= 3);
    for a in g.asteroids.iter() {
        assert!(a.transform.scale < 8192);
        assert!(a.transform.scale > MIN_ASTEROID_SCALE);
    }
}

#[test]
fn long_run_invariants_hold() {
    let mut rng = rand::thread_rng();
    let mut g = Game::new(&mut rng, 10_000);
    let mut now: u64 = 10_000;
    let patterns = [
        Input { up: true, ..Input::default() },
        Input { up: true, right: true, fire: true, ..Input::default() },
        Input { left: true, ..Input::default() },
        Input { down: true, fire: true, ..Input::default() },
        Input::default(),
    ];
    let mut prev = Input::default();
    for t in 0..400 {
        let input = patterns[t % patterns.len()];
        now += 17;
        g.step(&input, &prev, 17, now, &mut rng);
        prev = input;
        assert!(g.ship.transform.pos.x >= 0 && g.ship.transform.pos.x < ARENA_W);
        assert!(g.ship.transform.pos.y >= 0 && g.ship.transform.pos.y < ARENA_H);
        for a in g.asteroids.iter() {
            assert!(a.transform.pos.x >= 0 && a.transform.pos.x < ARENA_W);
            assert!(a.transform.pos.y >= 0 && a.transform.pos.y < ARENA_H);
            assert!(a.transform.scale > MIN_ASTEROID_SCALE);
        }
        for b in g.bullets.iter() {
            assert!(b.wrap_count < 5);
        }
        assert!(g.bullet_cooldown >= MIN_BULLET_COOLDOWN);
    }
}
