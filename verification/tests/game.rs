//! Whole frames of the game, from the start state onwards.

use pong::pong::{Ball, Pong, Pos, Scores, SCALE, VEL_UNIT};
use pong::world::{BallEntity, World};

#[test]
fn start_state_has_two_paddles_one_timer_no_balls() {
    let w = Pong::start(0);
    assert_eq!(w.paddles.len(), 2);
    assert_eq!(w.paddles[0].pos.x, 2 * SCALE);
    assert_eq!(w.paddles[0].pos.y, 50 * SCALE);
    assert_eq!(w.paddles[1].pos.x, 98 * SCALE);
    assert_eq!(w.paddles[1].pos.y, 50 * SCALE);
    assert_eq!(w.balls.len(), 0);
    assert_eq!(w.timers.len(), 1);
    assert_eq!(w.timers[0].expiry, 3_000);
    assert_eq!(w.timers[0].vx, 10 * VEL_UNIT);
    assert_eq!(w.timers[0].vy, 15 * VEL_UNIT);
    assert_eq!(w.scores, Scores { left: 0, right: 0 });
}

#[test]
fn first_ball_appears_once_time_passes_the_spawn_delay() {
    let mut w = Pong::start(0);
    // Three one-second frames with no input: simulation time reaches the
    // timer's expiry but does not pass it, so no ball exists yet.
    for frame in 1..=3 {
        w.step_frame(None, None, 1_000, frame * 1_000);
        assert_eq!(w.balls.len(), 0);
        assert_eq!(w.timers.len(), 1);
    }
    // The frame after that passes the expiry: exactly one ball appears at
    // the arena centre with the timer's stored velocity, and the timer is
    // gone.
    w.step_frame(None, None, 1_000, 4_000);
    assert_eq!(w.balls.len(), 1);
    assert_eq!(w.balls[0].pos.x, 50 * SCALE);
    assert_eq!(w.balls[0].pos.y, 50 * SCALE);
    assert_eq!(w.balls[0].ball.vx, 10 * VEL_UNIT);
    assert_eq!(w.balls[0].ball.vy, 15 * VEL_UNIT);
    assert_eq!(w.timers.len(), 0);
    // With zero input the paddles never left mid-height.
    assert_eq!(w.paddles[0].pos.y, 50 * SCALE);
    assert_eq!(w.paddles[1].pos.y, 50 * SCALE);
    assert_eq!(w.scores, Scores { left: 0, right: 0 });
}

#[test]
fn spawned_ball_flies_from_the_centre_next_frame() {
    let mut w = Pong::start(0);
    for frame in 1..=4 {
        w.step_frame(None, None, 1_000, frame * 1_000);
    }
    w.step_frame(None, None, 1_000, 5_000);
    // One second at (10, 15) units per second: (50, 50) -> (60, 65).
    assert_eq!(w.balls.len(), 1);
    assert_eq!(w.balls[0].pos.x, 60 * SCALE);
    assert_eq!(w.balls[0].pos.y, 65 * SCALE);
}

#[test]
fn frame_reports_bounce_and_score_events() {
    let start = Pong::start(0);
    let mut w = World {
        paddles: start.paddles,
        balls: vec![
            // Will cross the bottom wall this frame while moving down.
            BallEntity {
                pos: Pos { x: 50 * SCALE, y: SCALE },
                ball: Ball { radius: 2 * SCALE, vx: 5 * VEL_UNIT, vy: -5 * VEL_UNIT },
            },
            // Already beyond the right edge: the left player scores.
            BallEntity {
                pos: Pos { x: 99 * SCALE, y: 50 * SCALE, },
                ball: Ball { radius: 2 * SCALE, vx: 5 * VEL_UNIT, vy: 5 * VEL_UNIT },
            },
        ],
        timers: Vec::new(),
        scores: Scores { left: 0, right: 0 },
    };
    let (bounces, scores) = w.step_frame(None, None, 1_000, 10_000);
    assert_eq!(bounces, 1);
    assert_eq!(scores, 1);
    assert_eq!(w.scores, Scores { left: 1, right: 0 });
    // The scored ball became a respawn timer with reversed velocity.
    assert_eq!(w.balls.len(), 1);
    assert_eq!(w.timers.len(), 1);
    assert_eq!(w.timers[0].expiry, 13_000);
    assert_eq!(w.timers[0].vx, -5 * VEL_UNIT);
    assert_eq!(w.timers[0].vy, -5 * VEL_UNIT);
}
