//! Spawn-timer expiry: a timer never fires before its expiry is strictly
//! passed, fires exactly once, and the pass that fires it removes it so
//! later passes cannot fire it again.

use pong::ball_spawn_timeout::BallSpawnTimeoutSystem;
use pong::pong::{BallSpawnTimeout, Pong, Scores, SCALE, VEL_UNIT};
use pong::world::World;

fn arena_with_timer(expiry: i64, vx: i64, vy: i64) -> World {
    let start = Pong::start(0);
    World {
        paddles: start.paddles,
        balls: Vec::new(),
        timers: vec![BallSpawnTimeout { expiry, vx, vy }],
        scores: Scores { left: 0, right: 0 },
    }
}

#[test]
fn timer_never_fires_before_expiry() {
    let mut w = arena_with_timer(5_000, 10 * VEL_UNIT, 15 * VEL_UNIT);
    BallSpawnTimeoutSystem::run(&mut w, 4_000);
    assert_eq!(w.balls.len(), 0);
    assert_eq!(w.timers.len(), 1);
    // Expiry is strict: at exactly the expiry time nothing fires yet.
    BallSpawnTimeoutSystem::run(&mut w, 5_000);
    assert_eq!(w.balls.len(), 0);
    assert_eq!(w.timers.len(), 1);
}

#[test]
fn timer_fires_exactly_once() {
    let mut w = arena_with_timer(5_000, 10 * VEL_UNIT, 15 * VEL_UNIT);
    BallSpawnTimeoutSystem::run(&mut w, 5_001);
    // Exactly one ball, at the arena centre, with the stored velocity;
    // the timer is gone.
    assert_eq!(w.balls.len(), 1);
    assert_eq!(w.balls[0].pos.x, 50 * SCALE);
    assert_eq!(w.balls[0].pos.y, 50 * SCALE);
    assert_eq!(w.balls[0].ball.radius, 2 * SCALE);
    assert_eq!(w.balls[0].ball.vx, 10 * VEL_UNIT);
    assert_eq!(w.balls[0].ball.vy, 15 * VEL_UNIT);
    assert_eq!(w.timers.len(), 0);
    // Running the update again and again spawns nothing further.
    BallSpawnTimeoutSystem::run(&mut w, 6_000);
    BallSpawnTimeoutSystem::run(&mut w, 7_000);
    assert_eq!(w.balls.len(), 1);
    assert_eq!(w.timers.len(), 0);
}

#[test]
fn only_expired_timers_fire() {
    let start = Pong::start(0);
    let mut w = World {
        paddles: start.paddles,
        balls: Vec::new(),
        timers: vec![
            BallSpawnTimeout { expiry: 1_000, vx: 10 * VEL_UNIT, vy: 15 * VEL_UNIT },
            BallSpawnTimeout { expiry: 9_000, vx: -10 * VEL_UNIT, vy: -15 * VEL_UNIT },
        ],
        scores: Scores { left: 0, right: 0 },
    };
    BallSpawnTimeoutSystem::run(&mut w, 2_000);
    assert_eq!(w.balls.len(), 1);
    assert_eq!(w.balls[0].ball.vx, 10 * VEL_UNIT);
    assert_eq!(w.timers.len(), 1);
    assert_eq!(w.timers[0].expiry, 9_000);
}
