//! Ball movement: each frame, every ball's position is integrated by its
//! velocity and the elapsed time. Pure integration — no clamping and no
//! collision awareness; collisions are resolved by a later pass that only
//! flips velocity, never repositions.

use vstd::prelude::*;

use crate::pong::{DT_LIMIT, MOVE_LIMIT, Pos, VEL_LIMIT};
use crate::world::{ball_entity_wf, moved_ball_wf, world_wf, BallEntity, World};

verus! {

/// The per-frame ball movement pass.
pub struct MoveBallsSystem;

/// One ball after the movement pass: its centre translated by one
/// timestep's worth of its velocity, everything else unchanged.
pub open spec fn ball_moved(b: BallEntity, dt_ms: int) -> BallEntity {
    BallEntity {
        pos: Pos {
            x: (b.pos.x + b.ball.vx * dt_ms) as i64,
            y: (b.pos.y + b.ball.vy * dt_ms) as i64,
        },
        ball: b.ball,
    }
}

/// All balls after the movement pass, in order.
pub open spec fn balls_moved(bs: Seq<BallEntity>, dt_ms: int) -> Seq<BallEntity> {
    Seq::new(bs.len(), |i: int| ball_moved(bs[i], dt_ms))
}

impl MoveBallsSystem {
    /// One movement pass over the world: every ball is integrated by its
    /// velocity; paddles, timers and scores are left untouched. The moved
    /// balls stay within one frame's travel of the arena, because a ball
    /// touching a horizontal wall was left moving back inside by the
    /// previous frame's collision pass.
    pub fn run(world: &mut World, dt_ms: i64)
        requires
            world_wf(*old(world)),
            0 <= dt_ms <= DT_LIMIT,
        ensures
            final(world).balls@.len() == old(world).balls@.len(),
            forall|i: int|
                0 <= i < old(world).balls@.len() ==> final(world).balls@[i] == ball_moved(
                    #[trigger] old(world).balls@[i],
                    dt_ms as int,
                ),
            forall|i: int|
                0 <= i < final(world).balls@.len() ==> moved_ball_wf(#[trigger] final(world).balls@[i]),
            final(world).paddles@ == old(world).paddles@,
            final(world).timers@ == old(world).timers@,
            final(world).scores == old(world).scores,
    {
        let n = world.balls.len();
        let mut i: usize = 0;
        while i < n
            invariant
                n == world.balls@.len() == old(world).balls@.len(),
                0 <= i <= n,
                0 <= dt_ms <= DT_LIMIT,
                forall|j: int| 0 <= j < n ==> ball_entity_wf(#[trigger] old(world).balls@[j]),
                forall|j: int|
                    0 <= j < i ==> world.balls@[j] == ball_moved(
                        #[trigger] old(world).balls@[j],
                        dt_ms as int,
                    ),
                forall|j: int|
                    0 <= j < i ==> moved_ball_wf(#[trigger] world.balls@[j]),
                forall|j: int| i <= j < n ==> world.balls@[j] == #[trigger] old(world).balls@[j],
                world.paddles@ == old(world).paddles@,
                world.timers@ == old(world).timers@,
                world.scores == old(world).scores,
            decreases n - i,
        {
            let b = world.balls[i];
            proof {
                assert(world.balls@[i as int] == old(world).balls@[i as int]);
                assert(ball_entity_wf(old(world).balls@[i as int]));
                assert(-MOVE_LIMIT <= b.ball.vx * dt_ms <= MOVE_LIMIT) by (nonlinear_arith)
                    requires
                        -1_000_000 <= b.ball.vx <= 1_000_000,
                        0 <= dt_ms <= 100_000,
                        MOVE_LIMIT == 100_000_000_000,
                ;
                assert(-MOVE_LIMIT <= b.ball.vy * dt_ms <= MOVE_LIMIT) by (nonlinear_arith)
                    requires
                        -1_000_000 <= b.ball.vy <= 1_000_000,
                        0 <= dt_ms <= 100_000,
                        MOVE_LIMIT == 100_000_000_000,
                ;
                assert(b.ball.vy < 0 ==> b.ball.vy * dt_ms <= 0) by (nonlinear_arith)
                    requires
                        0 <= dt_ms,
                ;
                assert(b.ball.vy > 0 ==> b.ball.vy * dt_ms >= 0) by (nonlinear_arith)
                    requires
                        0 <= dt_ms,
                ;
            }
            let nx = b.pos.x + b.ball.vx * dt_ms;
            let ny = b.pos.y + b.ball.vy * dt_ms;
            world.balls[i] = BallEntity { pos: Pos { x: nx, y: ny }, ball: b.ball };
            i = i + 1;
        }
    }
}

} // verus!
