//! Paddle movement: exact integration, clamping at both rims, and the
//! missing-axis no-op.

use pong::paddle::{move_paddle, PaddleSystem};
use pong::pong::{Pong, SCALE};

#[test]
fn paddle_moves_by_speed_times_axis_times_dt() {
    // Full deflection for one second at 25 units per second: 50 -> 75.
    assert_eq!(move_paddle(50 * SCALE, 1000, 1000), 75 * SCALE);
    // Half deflection downwards for two seconds: 50 -> 25.
    assert_eq!(move_paddle(50 * SCALE, -500, 2000), 25 * SCALE);
}

#[test]
fn paddle_clamps_at_top_rim() {
    // A long full-deflection push ends exactly half a paddle from the top.
    assert_eq!(move_paddle(50 * SCALE, 1000, 100_000), 92 * SCALE);
}

#[test]
fn paddle_clamps_at_bottom_rim() {
    assert_eq!(move_paddle(50 * SCALE, -1000, 100_000), 8 * SCALE);
}

#[test]
fn paddle_zero_axis_or_zero_dt_is_still() {
    assert_eq!(move_paddle(30 * SCALE, 0, 1000), 30 * SCALE);
    assert_eq!(move_paddle(30 * SCALE, 1000, 0), 30 * SCALE);
}

#[test]
fn missing_axis_leaves_paddle_still() {
    let mut w = Pong::start(0);
    PaddleSystem::run(&mut w, None, Some(1000), 1000);
    // The left paddle had no axis value and stays at mid-height; the right
    // paddle moved up by 25 units.
    assert_eq!(w.paddles[0].pos.y, 50 * SCALE);
    assert_eq!(w.paddles[1].pos.y, 75 * SCALE);
    // Horizontal positions never change.
    assert_eq!(w.paddles[0].pos.x, 2 * SCALE);
    assert_eq!(w.paddles[1].pos.x, 98 * SCALE);
}
