//! The entity store: paddles, balls and spawn timers held in plain vectors,
//! with the well-formedness invariant that every frame preserves.

use vstd::prelude::*;

use crate::ball_spawn_timeout::{
    lemma_no_spawn_before_expiry, lemma_spawn_pass_shape, lemma_spawn_pass_splits, pending_timers,
    spawned_balls, BallSpawnTimeoutSystem,
};
use crate::bounce_balls::{balls_bounced, total_bounce_count, BounceBallsSystem};
use crate::move_balls::{balls_moved, MoveBallsSystem};
use crate::paddle::{paddles_stepped, PaddleSystem};
use crate::pong::{
    Ball, BallSpawnTimeout, Paddle, Pos, Scores, Side, ARENA_HEIGHT, ARENA_WIDTH, AXIS_LIMIT,
    DT_LIMIT, MOVE_LIMIT, PADDLE_HALF_HEIGHT, PADDLE_HEIGHT, PADDLE_WIDTH, POP_LIMIT,
    SPAWN_DELAY_MS, TIME_LIMIT, VEL_LIMIT,
};
use crate::winner::{
    left_score_count, lemma_scoring_pass_shape, right_score_count, surviving_balls,
    timers_scheduled, WinnerSystem,
};

verus! {

/// A paddle entity: the paddle and the position of its centre.
#[derive(Clone, Copy, Debug, PartialEq, Eq, Structural)]
pub struct PaddleEntity {
    pub pos: Pos,
    pub paddle: Paddle,
}

/// A ball entity: the ball and the position of its centre.
#[derive(Clone, Copy, Debug, PartialEq, Eq, Structural)]
pub struct BallEntity {
    pub pos: Pos,
    pub ball: Ball,
}

/// The simulation state of one session: two paddles, any number of balls,
/// the pending spawn timers and the score board.
pub struct World {
    pub paddles: Vec<PaddleEntity>,
    pub balls: Vec<BallEntity>,
    pub timers: Vec<BallSpawnTimeout>,
    pub scores: Scores,
}

/// A paddle has the standard dimensions, sits within the arena horizontally,
/// and its centre is clamped so the whole paddle stays inside vertically.
pub open spec fn paddle_entity_wf(p: PaddleEntity) -> bool {
    &&& p.paddle.width == PADDLE_WIDTH
    &&& p.paddle.height == PADDLE_HEIGHT
    &&& 0 <= p.pos.x <= ARENA_WIDTH
    &&& PADDLE_HALF_HEIGHT <= p.pos.y <= ARENA_HEIGHT - PADDLE_HALF_HEIGHT
}

/// A ball has a positive radius smaller than half the arena, velocity
/// components that are bounded and never zero, a horizontal position that
/// has not yet left the arena, a vertical position within one frame's travel
/// of the arena, and, when it touches a horizontal wall, a velocity that
/// points back inside (collisions of the previous frame are resolved).
pub open spec fn ball_entity_wf(b: BallEntity) -> bool {
    &&& 0 < b.ball.radius
    &&& 2 * b.ball.radius < ARENA_HEIGHT
    &&& 2 * b.ball.radius < ARENA_WIDTH
    &&& -VEL_LIMIT <= b.ball.vx <= VEL_LIMIT
    &&& -VEL_LIMIT <= b.ball.vy <= VEL_LIMIT
    &&& b.ball.vx != 0
    &&& b.ball.vy != 0
    &&& -b.ball.radius < b.pos.x < ARENA_WIDTH + b.ball.radius
    &&& -(MOVE_LIMIT + b.ball.radius) <= b.pos.y <= ARENA_HEIGHT + MOVE_LIMIT + b.ball.radius
    &&& b.pos.y - b.ball.radius <= 0 ==> b.ball.vy > 0
    &&& b.pos.y + b.ball.radius >= ARENA_HEIGHT ==> b.ball.vy < 0
}

/// What remains of `ball_entity_wf` right after the movement pass, before
/// collisions are resolved and scored balls are removed: the bounds widen
/// by one frame's travel and the wall conditions are not yet settled.
pub open spec fn moved_ball_wf(b: BallEntity) -> bool {
    &&& 0 < b.ball.radius
    &&& 2 * b.ball.radius < ARENA_HEIGHT
    &&& 2 * b.ball.radius < ARENA_WIDTH
    &&& -VEL_LIMIT <= b.ball.vx <= VEL_LIMIT
    &&& -VEL_LIMIT <= b.ball.vy <= VEL_LIMIT
    &&& b.ball.vx != 0
    &&& b.ball.vy != 0
    &&& -(MOVE_LIMIT + b.ball.radius) < b.pos.x < ARENA_WIDTH + MOVE_LIMIT + b.ball.radius
    &&& -(MOVE_LIMIT + b.ball.radius) <= b.pos.y <= ARENA_HEIGHT + MOVE_LIMIT + b.ball.radius
}

/// A spawn timer expires at a bounded, non-negative time and stores a
/// bounded velocity with no zero component for the ball it will create.
pub open spec fn timer_wf(t: BallSpawnTimeout) -> bool {
    &&& 0 <= t.expiry <= TIME_LIMIT + SPAWN_DELAY_MS
    &&& -VEL_LIMIT <= t.vx <= VEL_LIMIT
    &&& -VEL_LIMIT <= t.vy <= VEL_LIMIT
    &&& t.vx != 0
    &&& t.vy != 0
}

/// The session invariant: exactly two well-formed paddles, the left one
/// first; every ball and timer well-formed; and the combined number of
/// balls and timers bounded (each scoring event trades a ball for a timer
/// and each spawn trades a timer for a ball, so the sum never grows).
pub open spec fn world_wf(w: World) -> bool {
    &&& w.paddles@.len() == 2
    &&& w.paddles@[0].paddle.side == Side::Left
    &&& w.paddles@[1].paddle.side == Side::Right
    &&& forall|i: int| 0 <= i < w.paddles@.len() ==> paddle_entity_wf(#[trigger] w.paddles@[i])
    &&& forall|i: int| 0 <= i < w.balls@.len() ==> ball_entity_wf(#[trigger] w.balls@[i])
    &&& forall|i: int| 0 <= i < w.timers@.len() ==> timer_wf(#[trigger] w.timers@[i])
    &&& w.balls@.len() + w.timers@.len() <= POP_LIMIT
}

/// This frame's balls after movement and collision, before scoring: every
/// ball integrated by the timestep, then put through the wall and paddle
/// tests against the paddles as this frame's paddle pass left them.
pub open spec fn frame_bounced_balls(
    w: World,
    left_axis: Option<i64>,
    right_axis: Option<i64>,
    dt_ms: int,
) -> Seq<BallEntity> {
    balls_bounced(
        balls_moved(w.balls@, dt_ms),
        paddles_stepped(w.paddles@, left_axis, right_axis, dt_ms),
    )
}

impl World {
    /// One whole frame of the game, in the order the original scheduler
    /// enforces: paddle movement and ball movement first, then collision
    /// (which must see this frame's settled positions), then scoring
    /// (which must see this frame's velocities for the respawn timer),
    /// then spawn-timer expiry. Timers scheduled by this frame's scoring
    /// never expire within the same frame, and balls spawned this frame
    /// are seen by no other pass of the same frame.
    ///
    /// Returns the frame's sound events: how many bounces and how many
    /// scores to play.
    pub fn step_frame(
        &mut self,
        left_axis: Option<i64>,
        right_axis: Option<i64>,
        dt_ms: i64,
        now_ms: i64,
    ) -> (events: (usize, usize))
        requires
            world_wf(*old(self)),
            left_axis matches Some(v) ==> -AXIS_LIMIT <= v <= AXIS_LIMIT,
            right_axis matches Some(v) ==> -AXIS_LIMIT <= v <= AXIS_LIMIT,
            0 <= dt_ms <= DT_LIMIT,
            0 <= now_ms <= TIME_LIMIT,
            old(self).scores.left + old(self).balls@.len() <= u64::MAX,
            old(self).scores.right + old(self).balls@.len() <= u64::MAX,
        ensures
            world_wf(*final(self)),
            final(self).paddles@ == paddles_stepped(
                old(self).paddles@,
                left_axis,
                right_axis,
                dt_ms as int,
            ),
            final(self).balls@ == surviving_balls(
                frame_bounced_balls(*old(self), left_axis, right_axis, dt_ms as int),
            ) + spawned_balls(old(self).timers@, now_ms as int),
            final(self).timers@ == pending_timers(old(self).timers@, now_ms as int)
                + timers_scheduled(
                frame_bounced_balls(*old(self), left_axis, right_axis, dt_ms as int),
                now_ms as int,
            ),
            final(self).scores.right == old(self).scores.right + right_score_count(
                frame_bounced_balls(*old(self), left_axis, right_axis, dt_ms as int),
            ),
            final(self).scores.left == old(self).scores.left + left_score_count(
                frame_bounced_balls(*old(self), left_axis, right_axis, dt_ms as int),
            ),
            events.0 == total_bounce_count(
                balls_moved(old(self).balls@, dt_ms as int),
                paddles_stepped(old(self).paddles@, left_axis, right_axis, dt_ms as int),
            ),
            events.1 == right_score_count(
                frame_bounced_balls(*old(self), left_axis, right_axis, dt_ms as int),
            ) + left_score_count(
                frame_bounced_balls(*old(self), left_axis, right_axis, dt_ms as int),
            ),
    {
        let ghost t0 = old(self).timers@;
        PaddleSystem::run(self, left_axis, right_axis, dt_ms);
        let ghost ps2 = self.paddles@;
        proof {
            assert(ps2 =~= paddles_stepped(old(self).paddles@, left_axis, right_axis, dt_ms as int));
        }
        MoveBallsSystem::run(self, dt_ms);
        let ghost moved = self.balls@;
        proof {
            assert(moved =~= balls_moved(old(self).balls@, dt_ms as int));
        }
        let bounces = BounceBallsSystem::run(self);
        let ghost bounced = self.balls@;
        proof {
            assert(bounced =~= balls_bounced(moved, ps2));
        }
        let scored = WinnerSystem::run(self, now_ms);
        let ghost sched = timers_scheduled(bounced, now_ms as int);
        proof {
            lemma_scoring_pass_shape(bounced, now_ms as int);
        }
        BallSpawnTimeoutSystem::run(self, now_ms);
        proof {
            lemma_spawn_pass_splits(t0, sched, now_ms as int);
            lemma_no_spawn_before_expiry(sched, now_ms as int);
            lemma_spawn_pass_shape(t0, now_ms as int);
            assert(self.timers@ =~= pending_timers(t0, now_ms as int) + sched);
            assert(self.balls@ =~= surviving_balls(bounced) + spawned_balls(t0, now_ms as int));
            let a = surviving_balls(bounced);
            let b = spawned_balls(t0, now_ms as int);
            assert forall|i: int| 0 <= i < self.balls@.len() implies ball_entity_wf(
                #[trigger] self.balls@[i],
            ) by {
                if i < a.len() {
                    assert(self.balls@[i] == a[i]);
                } else {
                    assert(self.balls@[i] == b[i - a.len()]);
                }
            }
            let c = pending_timers(t0, now_ms as int);
            assert forall|i: int| 0 <= i < self.timers@.len() implies timer_wf(
                #[trigger] self.timers@[i],
            ) by {
                if i < c.len() {
                    assert(self.timers@[i] == c[i]);
                } else {
                    assert(self.timers@[i] == sched[i - c.len()]);
                }
            }
            assert(self.paddles@ == ps2);
            assert(self.paddles@[0].paddle == old(self).paddles@[0].paddle);
            assert(self.paddles@[1].paddle == old(self).paddles@[1].paddle);
        }
        (bounces, scored)
    }
}

} // verus!
