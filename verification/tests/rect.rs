//! The boundary-inclusive rectangle test, on the rectangle centred at
//! (50, 50) with width 20 and height 100 (in arena units):
//!
//!   a       b
//!  +-------+
//!  |   |   |
//!  |   |c  |
//!  |---+---|
//!  |   |   |
//!  |d  |   |e
//!  +-------+
//!
//! c: (50, 50)
//! a: (40, 0)
//! b: (60, 0)
//! d: (40, 100)
//! e: (60, 100)

use pong::bounce_balls::point_in_rect;
use pong::pong::SCALE;

fn f(x: i64, y: i64) -> bool {
    point_in_rect(x, y, 50 * SCALE, 50 * SCALE, 20 * SCALE, 100 * SCALE)
}

#[test]
fn upper_left() {
    assert!(f(40 * SCALE, 0));
}

#[test]
fn upper_right() {
    assert!(f(60 * SCALE, 0));
}

#[test]
fn lower_left() {
    assert!(f(40 * SCALE, 100 * SCALE));
}

#[test]
fn lower_right() {
    assert!(f(60 * SCALE, 100 * SCALE));
}

#[test]
fn center() {
    assert!(f(50 * SCALE, 50 * SCALE));
}

#[test]
fn above() {
    assert!(!f(50 * SCALE, -SCALE / 10));
}

#[test]
fn below() {
    assert!(!f(50 * SCALE, 100 * SCALE + SCALE / 10));
}

#[test]
fn right() {
    assert!(!f(60 * SCALE + SCALE / 10, 50 * SCALE));
}

#[test]
fn left() {
    assert!(!f(39 * SCALE + 9 * SCALE / 10, 50 * SCALE));
}
