//! Scoring: each frame, a ball that has fully crossed the left edge gives
//! the right player a point, and one that has fully crossed the right edge
//! gives the left player a point. The scored ball is deleted and a spawn
//! timer is scheduled that will relaunch a ball three seconds later with
//! the reversed velocity, towards the side that just conceded.

use vstd::prelude::*;

use crate::bounce_balls::ball_wall_resolved;
use crate::pong::{
    BallSpawnTimeout, Scores, ARENA_WIDTH, SPAWN_DELAY_MS, TIME_LIMIT,
};
use crate::world::{ball_entity_wf, moved_ball_wf, timer_wf, BallEntity, World};

verus! {

/// The per-frame scoring pass.
pub struct WinnerSystem;

/// The right player scores off this ball: it lies fully beyond the left
/// edge of the arena.
pub open spec fn ball_scored_right(b: BallEntity) -> bool {
    b.pos.x <= -b.ball.radius
}

/// The left player scores off this ball: it lies fully beyond the right
/// edge of the arena.
pub open spec fn ball_scored_left(b: BallEntity) -> bool {
    b.pos.x >= ARENA_WIDTH + b.ball.radius
}

/// Someone scores off this ball this frame.
pub open spec fn ball_scored(b: BallEntity) -> bool {
    ball_scored_right(b) || ball_scored_left(b)
}

/// The spawn timer scheduled for a scored ball: it expires one spawn delay
/// from now and carries the ball's velocity reversed on both axes, so the
/// next ball launches towards the side that just conceded.
pub open spec fn timer_for_ball(b: BallEntity, now_ms: int) -> BallSpawnTimeout {
    BallSpawnTimeout {
        expiry: (now_ms + SPAWN_DELAY_MS) as i64,
        vx: (-b.ball.vx) as i64,
        vy: (-b.ball.vy) as i64,
    }
}

/// The balls that survive the scoring pass, in their original order.
pub open spec fn surviving_balls(bs: Seq<BallEntity>) -> Seq<BallEntity>
    decreases bs.len(),
{
    if bs.len() == 0 {
        Seq::empty()
    } else {
        surviving_balls(bs.drop_last()) + if ball_scored(bs.last()) {
            Seq::empty()
        } else {
            seq![bs.last()]
        }
    }
}

/// The spawn timers the scoring pass schedules, one per scored ball, in
/// ball order.
pub open spec fn timers_scheduled(bs: Seq<BallEntity>, now_ms: int) -> Seq<BallSpawnTimeout>
    decreases bs.len(),
{
    if bs.len() == 0 {
        Seq::empty()
    } else {
        timers_scheduled(bs.drop_last(), now_ms) + if ball_scored(bs.last()) {
            seq![timer_for_ball(bs.last(), now_ms)]
        } else {
            Seq::empty()
        }
    }
}

/// How many points the right player gains this pass.
pub open spec fn right_score_count(bs: Seq<BallEntity>) -> nat
    decreases bs.len(),
{
    if bs.len() == 0 {
        0
    } else {
        right_score_count(bs.drop_last()) + if ball_scored_right(bs.last()) {
            1nat
        } else {
            0nat
        }
    }
}

/// How many points the left player gains this pass. A ball cannot lie
/// beyond both edges at once, so a scored ball that is not a right-side
/// score is a left-side one.
pub open spec fn left_score_count(bs: Seq<BallEntity>) -> nat
    decreases bs.len(),
{
    if bs.len() == 0 {
        0
    } else {
        left_score_count(bs.drop_last()) + if ball_scored(bs.last()) && !ball_scored_right(
            bs.last(),
        ) {
            1nat
        } else {
            0nat
        }
    }
}

/// The two scoring conditions exclude each other: the arena is wider than
/// twice any ball's radius, so no ball can lie beyond both edges in the
/// same frame, and each scored ball awards exactly one point to exactly
/// one side.
pub proof fn lemma_score_sides_exclusive(b: BallEntity)
    requires
        0 < b.ball.radius,
    ensures
        !(ball_scored_right(b) && ball_scored_left(b)),
{
}

/// What the scoring pass guarantees of its outputs when the balls come out
/// of this frame's movement and collision passes: every surviving ball is
/// fully well-formed again (it is back inside the arena horizontally),
/// every scheduled timer is well-formed, and balls are traded one for one
/// against timers, so the population never grows.
pub proof fn lemma_scoring_pass_shape(bs: Seq<BallEntity>, now_ms: int)
    requires
        forall|i: int|
            0 <= i < bs.len() ==> moved_ball_wf(#[trigger] bs[i]) && ball_wall_resolved(bs[i]),
        0 <= now_ms <= TIME_LIMIT,
    ensures
        forall|i: int|
            0 <= i < surviving_balls(bs).len() ==> ball_entity_wf(
                #[trigger] surviving_balls(bs)[i],
            ),
        surviving_balls(bs).len() + timers_scheduled(bs, now_ms).len() == bs.len(),
        forall|i: int|
            0 <= i < timers_scheduled(bs, now_ms).len() ==> timer_wf(
                #[trigger] timers_scheduled(bs, now_ms)[i],
            ),
        right_score_count(bs) + left_score_count(bs) == timers_scheduled(bs, now_ms).len(),
        forall|i: int|
            0 <= i < timers_scheduled(bs, now_ms).len() ==> (#[trigger] timers_scheduled(
                bs,
                now_ms,
            )[i]).expiry == now_ms + SPAWN_DELAY_MS,
    decreases bs.len(),
{
    if bs.len() != 0 {
        lemma_scoring_pass_shape(bs.drop_last(), now_ms);
    }
}

impl WinnerSystem {
    /// One scoring pass over the world. Scored balls are removed, the
    /// matching score is incremented, and a reversed-velocity spawn timer
    /// is scheduled per scored ball; surviving balls, paddles and pending
    /// timers are untouched. Returns how many scoring events happened, one
    /// per removed ball, for the caller to sound and to push the new score
    /// text to the displays.
    pub fn run(world: &mut World, now_ms: i64) -> (scored: usize)
        requires
            forall|i: int|
                0 <= i < old(world).balls@.len() ==> moved_ball_wf(#[trigger] old(world).balls@[i]),
            0 <= now_ms <= TIME_LIMIT,
            old(world).scores.left + old(world).balls@.len() <= u64::MAX,
            old(world).scores.right + old(world).balls@.len() <= u64::MAX,
        ensures
            final(world).balls@ == surviving_balls(old(world).balls@),
            final(world).timers@ == old(world).timers@ + timers_scheduled(
                old(world).balls@,
                now_ms as int,
            ),
            final(world).scores.right == old(world).scores.right + right_score_count(
                old(world).balls@,
            ),
            final(world).scores.left == old(world).scores.left + left_score_count(
                old(world).balls@,
            ),
            scored == right_score_count(old(world).balls@) + left_score_count(old(world).balls@),
            final(world).paddles@ == old(world).paddles@,
    {
        let n = world.balls.len();
        let mut kept: Vec<BallEntity> = Vec::new();
        let mut right_inc: u64 = 0;
        let mut left_inc: u64 = 0;
        let mut i: usize = 0;
        proof {
            assert(old(world).balls@.take(0) =~= Seq::<BallEntity>::empty());
        }
        while i < n
            invariant
                n == world.balls@.len() == old(world).balls@.len(),
                0 <= i <= n,
                0 <= now_ms <= TIME_LIMIT,
                forall|j: int|
                    0 <= j < n ==> moved_ball_wf(#[trigger] old(world).balls@[j]),
                world.balls@ == old(world).balls@,
                world.paddles@ == old(world).paddles@,
                world.scores == old(world).scores,
                kept@ == surviving_balls(old(world).balls@.take(i as int)),
                world.timers@ == old(world).timers@ + timers_scheduled(
                    old(world).balls@.take(i as int),
                    now_ms as int,
                ),
                right_inc == right_score_count(old(world).balls@.take(i as int)),
                left_inc == left_score_count(old(world).balls@.take(i as int)),
                right_inc + left_inc <= i,
                kept@.len() <= i,
            decreases n - i,
        {
            let b = world.balls[i];
            proof {
                assert(moved_ball_wf(old(world).balls@[i as int]));
                assert(old(world).balls@.take(i as int + 1).drop_last() =~= old(world).balls@.take(
                    i as int,
                ));
                assert(old(world).balls@.take(i as int + 1).last() == old(world).balls@[i as int]);
            }
            if b.pos.x <= -b.ball.radius || b.pos.x >= ARENA_WIDTH + b.ball.radius {
                if b.pos.x <= -b.ball.radius {
                    right_inc = right_inc + 1;
                } else {
                    left_inc = left_inc + 1;
                }
                world.timers.push(
                    BallSpawnTimeout {
                        expiry: now_ms + SPAWN_DELAY_MS,
                        vx: -b.ball.vx,
                        vy: -b.ball.vy,
                    },
                );
            } else {
                kept.push(b);
            }
            i = i + 1;
        }
        proof {
            assert(old(world).balls@.take(n as int) =~= old(world).balls@);
        }
        world.balls = kept;
        let scored = (right_inc + left_inc) as usize;
        world.scores = Scores {
            left: world.scores.left + left_inc,
            right: world.scores.right + right_inc,
        };
        scored
    }
}

} // verus!
