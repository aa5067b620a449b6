//! Collision resolution: wall bounces are edge-triggered (they fire only
//! while the ball still moves outwards, so a second pass never re-flips),
//! and paddle bounces fire only towards the paddle's own side.

use pong::bounce_balls::BounceBallsSystem;
use pong::pong::{Ball, Paddle, Pong, Pos, Scores, Side, SCALE, VEL_UNIT};
use pong::world::{BallEntity, PaddleEntity, World};

fn arena_with_ball(x: i64, y: i64, vx: i64, vy: i64) -> World {
    let start = Pong::start(0);
    World {
        paddles: start.paddles,
        balls: vec![BallEntity {
            pos: Pos { x, y },
            ball: Ball { radius: 2 * SCALE, vx, vy },
        }],
        timers: Vec::new(),
        scores: Scores { left: 0, right: 0 },
    }
}

#[test]
fn bottom_wall_flip_is_edge_triggered() {
    // A ball on the bottom wall moving down is flipped upwards ...
    let mut w = arena_with_ball(50 * SCALE, 0, 5 * VEL_UNIT, -5 * VEL_UNIT);
    let bounces = BounceBallsSystem::run(&mut w);
    assert_eq!(w.balls[0].ball.vy, 5 * VEL_UNIT);
    assert_eq!(bounces, 1);
    // ... and a second pass with the ball still on the wall, now moving
    // up, must not flip it back.
    let bounces = BounceBallsSystem::run(&mut w);
    assert_eq!(w.balls[0].ball.vy, 5 * VEL_UNIT);
    assert_eq!(bounces, 0);
}

#[test]
fn top_wall_flips_only_outward_movement() {
    let mut w = arena_with_ball(50 * SCALE, 100 * SCALE, 5 * VEL_UNIT, 7 * VEL_UNIT);
    BounceBallsSystem::run(&mut w);
    assert_eq!(w.balls[0].ball.vy, -7 * VEL_UNIT);
    // Position is never corrected by the collision pass.
    assert_eq!(w.balls[0].pos.y, 100 * SCALE);
}

#[test]
fn interior_ball_keeps_its_velocity() {
    let mut w = arena_with_ball(50 * SCALE, 50 * SCALE, 5 * VEL_UNIT, -5 * VEL_UNIT);
    let bounces = BounceBallsSystem::run(&mut w);
    assert_eq!(w.balls[0].ball.vx, 5 * VEL_UNIT);
    assert_eq!(w.balls[0].ball.vy, -5 * VEL_UNIT);
    assert_eq!(bounces, 0);
}

#[test]
fn left_paddle_deflects_ball_moving_left() {
    // Ball centre inside the left paddle's rectangle, moving left.
    let mut w = arena_with_ball(3 * SCALE, 52 * SCALE, -5 * VEL_UNIT, 5 * VEL_UNIT);
    let bounces = BounceBallsSystem::run(&mut w);
    assert_eq!(w.balls[0].ball.vx, 5 * VEL_UNIT);
    assert_eq!(bounces, 1);
}

#[test]
fn left_paddle_ignores_ball_moving_away() {
    let mut w = arena_with_ball(3 * SCALE, 52 * SCALE, 5 * VEL_UNIT, 5 * VEL_UNIT);
    let bounces = BounceBallsSystem::run(&mut w);
    assert_eq!(w.balls[0].ball.vx, 5 * VEL_UNIT);
    assert_eq!(bounces, 0);
}

#[test]
fn right_paddle_deflects_ball_moving_right() {
    let mut w = arena_with_ball(97 * SCALE, 48 * SCALE, 5 * VEL_UNIT, 5 * VEL_UNIT);
    let bounces = BounceBallsSystem::run(&mut w);
    assert_eq!(w.balls[0].ball.vx, -5 * VEL_UNIT);
    assert_eq!(bounces, 1);
}

#[test]
fn paddle_rectangle_boundary_is_inclusive() {
    // The left paddle is centred at (2, 50), 4 wide and 16 tall: the ball
    // centre (4, 58) lies exactly on its corner and still deflects.
    let mut w = arena_with_ball(4 * SCALE, 58 * SCALE, -5 * VEL_UNIT, 5 * VEL_UNIT);
    let bounces = BounceBallsSystem::run(&mut w);
    assert_eq!(w.balls[0].ball.vx, 5 * VEL_UNIT);
    assert_eq!(bounces, 1);
}

#[test]
fn corner_contact_can_flip_both_axes() {
    // A ball overlapping the bottom wall inside the left paddle's
    // rectangle, moving down and left, bounces off both in one pass.
    let mut w = World {
        paddles: vec![
            PaddleEntity {
                pos: Pos { x: 2 * SCALE, y: 8 * SCALE },
                paddle: Paddle::new(Side::Left),
            },
            PaddleEntity {
                pos: Pos { x: 98 * SCALE, y: 50 * SCALE },
                paddle: Paddle::new(Side::Right),
            },
        ],
        balls: vec![BallEntity {
            pos: Pos { x: 2 * SCALE, y: SCALE },
            ball: Ball { radius: 2 * SCALE, vx: -5 * VEL_UNIT, vy: -5 * VEL_UNIT },
        }],
        timers: Vec::new(),
        scores: Scores { left: 0, right: 0 },
    };
    let bounces = BounceBallsSystem::run(&mut w);
    assert_eq!(w.balls[0].ball.vx, 5 * VEL_UNIT);
    assert_eq!(w.balls[0].ball.vy, 5 * VEL_UNIT);
    assert_eq!(bounces, 2);
}
