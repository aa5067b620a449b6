//! Paddle movement: each frame, a paddle is moved vertically by its
//! player's input axis and clamped so it never leaves the arena.

use vstd::prelude::*;

use crate::pong::{
    ARENA_HEIGHT, AXIS_LIMIT, DT_LIMIT, MOVE_LIMIT, PADDLE_HALF_HEIGHT, PADDLE_SPEED, Pos, Side,
};
use crate::world::{paddle_entity_wf, world_wf, PaddleEntity, World};

verus! {

/// The per-frame paddle movement pass.
pub struct PaddleSystem;

/// A vertical paddle position clamped so the whole paddle stays inside the
/// arena: at least half a paddle from either horizontal rim.
pub open spec fn clamped_paddle_y(y: int) -> int {
    if y > ARENA_HEIGHT - PADDLE_HALF_HEIGHT {
        ARENA_HEIGHT - PADDLE_HALF_HEIGHT
    } else if y < PADDLE_HALF_HEIGHT {
        PADDLE_HALF_HEIGHT as int
    } else {
        y
    }
}

/// Where a paddle centre ends after one update: moved by the axis value
/// (in thousandths of full deflection) at `PADDLE_SPEED`, then clamped.
pub open spec fn paddle_moved_y(y: int, axis: int, dt_ms: int) -> int {
    clamped_paddle_y(y + PADDLE_SPEED * axis * dt_ms)
}

/// The input axis a paddle listens to: the left paddle reads the left
/// player's axis, the right paddle the right player's.
pub open spec fn axis_for(p: PaddleEntity, left_axis: Option<i64>, right_axis: Option<i64>) -> Option<i64> {
    match p.paddle.side {
        Side::Left => left_axis,
        Side::Right => right_axis,
    }
}

/// One paddle after the movement pass: unchanged when its axis is absent
/// (a missing binding means no movement), otherwise moved and clamped.
pub open spec fn paddle_stepped(
    p: PaddleEntity,
    left_axis: Option<i64>,
    right_axis: Option<i64>,
    dt_ms: int,
) -> PaddleEntity {
    match axis_for(p, left_axis, right_axis) {
        Some(v) => PaddleEntity {
            pos: Pos { x: p.pos.x, y: paddle_moved_y(p.pos.y as int, v as int, dt_ms) as i64 },
            paddle: p.paddle,
        },
        None => p,
    }
}

/// All paddles after the movement pass, in order.
pub open spec fn paddles_stepped(
    ps: Seq<PaddleEntity>,
    left_axis: Option<i64>,
    right_axis: Option<i64>,
    dt_ms: int,
) -> Seq<PaddleEntity> {
    Seq::new(ps.len(), |i: int| paddle_stepped(ps[i], left_axis, right_axis, dt_ms))
}

/// Moves one paddle centre and clamps it to the arena.
pub fn move_paddle(y: i64, axis: i64, dt_ms: i64) -> (r: i64)
    requires
        -MOVE_LIMIT <= y <= MOVE_LIMIT,
        -AXIS_LIMIT <= axis <= AXIS_LIMIT,
        0 <= dt_ms <= DT_LIMIT,
    ensures
        r == paddle_moved_y(y as int, axis as int, dt_ms as int),
        PADDLE_HALF_HEIGHT <= r <= ARENA_HEIGHT - PADDLE_HALF_HEIGHT,
{
    proof {
        assert(-2_500_000_000 <= PADDLE_SPEED * axis * dt_ms <= 2_500_000_000)
            by (nonlinear_arith)
            requires
                -1000 <= axis <= 1000,
                0 <= dt_ms <= 100_000,
                PADDLE_SPEED == 25,
        ;
    }
    let moved = y + PADDLE_SPEED * axis * dt_ms;
    let upper = ARENA_HEIGHT - PADDLE_HALF_HEIGHT;
    let capped = if moved > upper {
        upper
    } else {
        moved
    };
    if capped < PADDLE_HALF_HEIGHT {
        PADDLE_HALF_HEIGHT
    } else {
        capped
    }
}

impl PaddleSystem {
    /// One paddle movement pass over the world. Every paddle whose axis is
    /// present is moved by it and clamped; paddles with no axis value, and
    /// everything that is not a paddle position, are left untouched.
    pub fn run(
        world: &mut World,
        left_axis: Option<i64>,
        right_axis: Option<i64>,
        dt_ms: i64,
    )
        requires
            world_wf(*old(world)),
            left_axis matches Some(v) ==> -AXIS_LIMIT <= v <= AXIS_LIMIT,
            right_axis matches Some(v) ==> -AXIS_LIMIT <= v <= AXIS_LIMIT,
            0 <= dt_ms <= DT_LIMIT,
        ensures
            final(world).paddles@.len() == old(world).paddles@.len(),
            forall|i: int|
                0 <= i < old(world).paddles@.len() ==> final(world).paddles@[i] == paddle_stepped(
                    #[trigger] old(world).paddles@[i],
                    left_axis,
                    right_axis,
                    dt_ms as int,
                ),
            final(world).balls@ == old(world).balls@,
            final(world).timers@ == old(world).timers@,
            final(world).scores == old(world).scores,
            world_wf(*final(world)),
    {
        let n = world.paddles.len();
        let mut i: usize = 0;
        while i < n
            invariant
                n == world.paddles@.len() == old(world).paddles@.len(),
                0 <= i <= n,
                left_axis matches Some(v) ==> -AXIS_LIMIT <= v <= AXIS_LIMIT,
                right_axis matches Some(v) ==> -AXIS_LIMIT <= v <= AXIS_LIMIT,
                0 <= dt_ms <= DT_LIMIT,
                forall|j: int|
                    0 <= j < n ==> paddle_entity_wf(#[trigger] old(world).paddles@[j]),
                forall|j: int|
                    0 <= j < i ==> world.paddles@[j] == paddle_stepped(
                        #[trigger] old(world).paddles@[j],
                        left_axis,
                        right_axis,
                        dt_ms as int,
                    ),
                forall|j: int| i <= j < n ==> world.paddles@[j] == #[trigger] old(world).paddles@[j],
                world.balls@ == old(world).balls@,
                world.timers@ == old(world).timers@,
                world.scores == old(world).scores,
            decreases n - i,
        {
            let p = world.paddles[i];
            proof {
                assert(world.paddles@[i as int] == old(world).paddles@[i as int]);
                assert(paddle_entity_wf(old(world).paddles@[i as int]));
            }
            let axis_opt = match p.paddle.side {
                Side::Left => left_axis,
                Side::Right => right_axis,
            };
            match axis_opt {
                Some(v) => {
                    let ny = move_paddle(p.pos.y, v, dt_ms);
                    world.paddles[i] = PaddleEntity {
                        pos: Pos { x: p.pos.x, y: ny },
                        paddle: p.paddle,
                    };
                },
                None => {},
            }
            i = i + 1;
        }
        proof {
            assert forall|j: int| 0 <= j < final(world).paddles@.len() implies paddle_entity_wf(
                #[trigger] final(world).paddles@[j],
            ) by {
                assert(paddle_entity_wf(old(world).paddles@[j]));
            }
        }
    }
}

/// The clamp of the paddle movement pass always lands a paddle centre at
/// least half a paddle from either rim, whatever the previous position, the
/// axis value and the timestep.
pub proof fn lemma_paddle_clamp_in_bounds(y: int, axis: int, dt_ms: int)
    ensures
        PADDLE_HALF_HEIGHT <= paddle_moved_y(y, axis, dt_ms) <= ARENA_HEIGHT - PADDLE_HALF_HEIGHT,
{
}

} // verus!
