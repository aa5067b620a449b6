//! The game's components and constants: arena dimensions, paddles, balls,
//! spawn timers and the score board, together with the bounds that keep all
//! frame arithmetic inside `i64`.

use vstd::prelude::*;

use crate::world::{world_wf, BallEntity, PaddleEntity, World};

verus! {

/// Coordinate steps per arena unit. All lengths below are in steps.
pub const SCALE: i64 = 1_000_000;

/// Width of the playfield: 100 units.
pub const ARENA_WIDTH: i64 = 100 * SCALE;

/// Height of the playfield: 100 units.
pub const ARENA_HEIGHT: i64 = 100 * SCALE;

/// Horizontal centre of the arena, where new balls appear.
pub const ARENA_CENTER_X: i64 = 50 * SCALE;

/// Vertical centre of the arena, where new balls appear.
pub const ARENA_CENTER_Y: i64 = 50 * SCALE;

/// A paddle is 4 units wide.
pub const PADDLE_WIDTH: i64 = 4 * SCALE;

/// A paddle is 16 units tall.
pub const PADDLE_HEIGHT: i64 = 16 * SCALE;

/// Half of `PADDLE_HEIGHT`; the paddle centre is clamped this far from the rim.
pub const PADDLE_HALF_HEIGHT: i64 = 8 * SCALE;

/// The left paddle's centre sits half a paddle width from the left edge.
pub const LEFT_PADDLE_X: i64 = 2 * SCALE;

/// The right paddle's centre sits half a paddle width from the right edge.
pub const RIGHT_PADDLE_X: i64 = 98 * SCALE;

/// Every ball has a radius of 2 units.
pub const BALL_RADIUS: i64 = 2 * SCALE;

/// Input axis values are read in thousandths of full deflection.
pub const AXIS_LIMIT: i64 = 1000;

/// Paddle speed in steps per millisecond per thousandth of deflection.
/// At full deflection this is 25 units per second.
pub const PADDLE_SPEED: i64 = 25;

/// Steps per millisecond that correspond to one arena unit per second.
pub const VEL_UNIT: i64 = 1_000;

/// A freshly scheduled spawn timer expires three seconds later.
pub const SPAWN_DELAY_MS: i64 = 3_000;

/// Horizontal launch velocity of the first ball: 10 units per second.
pub const INIT_BALL_VX: i64 = 10 * VEL_UNIT;

/// Vertical launch velocity of the first ball: 15 units per second.
pub const INIT_BALL_VY: i64 = 15 * VEL_UNIT;

/// Bound on the magnitude of a velocity component: 1000 units per second.
pub const VEL_LIMIT: i64 = 1_000 * VEL_UNIT;

/// Bound on the timestep of one frame: 100 seconds.
pub const DT_LIMIT: i64 = 100_000;

/// Bound on absolute simulation time accepted by the systems.
pub const TIME_LIMIT: i64 = 4_000_000_000_000;

/// Farthest a ball can travel on one axis in one frame:
/// `VEL_LIMIT * DT_LIMIT` steps.
pub const MOVE_LIMIT: i64 = 100_000_000_000;

/// Bound on the coordinates accepted by the rectangle test, far beyond any
/// position a ball or paddle can reach in one frame.
pub const GEOM_LIMIT: i64 = 2_000_000_000_000;

/// Bound on the number of balls and pending spawn timers taken together.
pub const POP_LIMIT: i64 = 1_000_000;

/// The edge of the arena a paddle guards.
#[derive(Clone, Copy, Debug, PartialEq, Eq, Structural)]
pub enum Side {
    Left,
    Right,
}

/// A point of the playfield, in coordinate steps.
#[derive(Clone, Copy, Debug, PartialEq, Eq, Structural)]
pub struct Pos {
    pub x: i64,
    pub y: i64,
}

/// A player's paddle: a rectangle of fixed size guarding one edge.
#[derive(Clone, Copy, Debug, PartialEq, Eq, Structural)]
pub struct Paddle {
    pub side: Side,
    pub width: i64,
    pub height: i64,
}

impl Paddle {
    /// A new paddle for the given side, with the standard dimensions.
    pub fn new(side: Side) -> (p: Paddle)
        ensures
            p == (Paddle { side, width: PADDLE_WIDTH, height: PADDLE_HEIGHT }),
    {
        Paddle { side, width: PADDLE_WIDTH, height: PADDLE_HEIGHT }
    }
}

/// A ball: a circle with a velocity, in steps per millisecond.
#[derive(Clone, Copy, Debug, PartialEq, Eq, Structural)]
pub struct Ball {
    pub radius: i64,
    pub vx: i64,
    pub vy: i64,
}

/// A one-shot token that materialises a new ball once simulation time
/// passes `expiry` (in milliseconds). The stored velocity is given to the
/// spawned ball.
#[derive(Clone, Copy, Debug, PartialEq, Eq, Structural)]
pub struct BallSpawnTimeout {
    pub expiry: i64,
    pub vx: i64,
    pub vy: i64,
}

/// The running score of both players.
#[derive(Clone, Copy, Debug, PartialEq, Eq, Structural)]
pub struct Scores {
    pub left: u64,
    pub right: u64,
}

/// The game itself: its one associated operation builds the start state of
/// a session.
#[derive(Default)]
pub struct Pong;

impl Pong {
    /// The start state of a session at the given simulation time: one
    /// paddle per side at mid-height, no balls, scores nought to nought,
    /// and a single spawn timer that will launch the first ball three
    /// seconds from now with the standard launch velocity.
    pub fn start(now_ms: i64) -> (w: World)
        requires
            0 <= now_ms <= TIME_LIMIT,
        ensures
            world_wf(w),
            w.paddles@ == seq![
                PaddleEntity {
                    pos: Pos { x: LEFT_PADDLE_X, y: ARENA_CENTER_Y },
                    paddle: Paddle { side: Side::Left, width: PADDLE_WIDTH, height: PADDLE_HEIGHT },
                },
                PaddleEntity {
                    pos: Pos { x: RIGHT_PADDLE_X, y: ARENA_CENTER_Y },
                    paddle: Paddle {
                        side: Side::Right,
                        width: PADDLE_WIDTH,
                        height: PADDLE_HEIGHT,
                    },
                },
            ],
            w.balls@ == Seq::<BallEntity>::empty(),
            w.timers@ == seq![
                BallSpawnTimeout {
                    expiry: (now_ms + SPAWN_DELAY_MS) as i64,
                    vx: INIT_BALL_VX,
                    vy: INIT_BALL_VY,
                },
            ],
            w.scores == (Scores { left: 0, right: 0 }),
    {
        let mut paddles: Vec<PaddleEntity> = Vec::new();
        paddles.push(
            PaddleEntity {
                pos: Pos { x: LEFT_PADDLE_X, y: ARENA_CENTER_Y },
                paddle: Paddle::new(Side::Left),
            },
        );
        paddles.push(
            PaddleEntity {
                pos: Pos { x: RIGHT_PADDLE_X, y: ARENA_CENTER_Y },
                paddle: Paddle::new(Side::Right),
            },
        );
        let mut timers: Vec<BallSpawnTimeout> = Vec::new();
        timers.push(
            BallSpawnTimeout {
                expiry: now_ms + SPAWN_DELAY_MS,
                vx: INIT_BALL_VX,
                vy: INIT_BALL_VY,
            },
        );
        let w = World {
            paddles,
            balls: Vec::new(),
            timers,
            scores: Scores { left: 0, right: 0 },
        };
        proof {
            assert(w.paddles@ =~= seq![
                PaddleEntity {
                    pos: Pos { x: LEFT_PADDLE_X, y: ARENA_CENTER_Y },
                    paddle: Paddle { side: Side::Left, width: PADDLE_WIDTH, height: PADDLE_HEIGHT },
                },
                PaddleEntity {
                    pos: Pos { x: RIGHT_PADDLE_X, y: ARENA_CENTER_Y },
                    paddle: Paddle {
                        side: Side::Right,
                        width: PADDLE_WIDTH,
                        height: PADDLE_HEIGHT,
                    },
                },
            ]);
            assert(w.timers@ =~= seq![
                BallSpawnTimeout {
                    expiry: (now_ms + SPAWN_DELAY_MS) as i64,
                    vx: INIT_BALL_VX,
                    vy: INIT_BALL_VY,
                },
            ]);
        }
        w
    }
}

} // verus!
