//! Spawn-timer expiry: each frame, every timer whose expiry lies strictly
//! before the current simulation time is removed, and exactly one new ball
//! is created at the arena centre with the timer's stored velocity. Balls
//! are appended after the timers are examined, so a pass never observes an
//! entity it created itself.

use vstd::prelude::*;

use crate::pong::{
    Ball, BallSpawnTimeout, Pos, ARENA_CENTER_X, ARENA_CENTER_Y, BALL_RADIUS,
};
use crate::world::{ball_entity_wf, timer_wf, BallEntity, World};

verus! {

/// The per-frame spawn-timer pass.
pub struct BallSpawnTimeoutSystem;

/// Whether a timer has expired: its expiry lies strictly before the
/// current simulation time.
pub open spec fn timer_expired(t: BallSpawnTimeout, now_ms: int) -> bool {
    t.expiry < now_ms
}

/// The ball a timer materialises: at the arena centre, with the standard
/// radius and the timer's stored velocity.
pub open spec fn ball_for_timer(t: BallSpawnTimeout) -> BallEntity {
    BallEntity {
        pos: Pos { x: ARENA_CENTER_X, y: ARENA_CENTER_Y },
        ball: Ball { radius: BALL_RADIUS, vx: t.vx, vy: t.vy },
    }
}

/// The timers still pending after a pass at the given time, in order.
pub open spec fn pending_timers(ts: Seq<BallSpawnTimeout>, now_ms: int) -> Seq<BallSpawnTimeout>
    decreases ts.len(),
{
    if ts.len() == 0 {
        Seq::empty()
    } else {
        pending_timers(ts.drop_last(), now_ms) + if timer_expired(ts.last(), now_ms) {
            Seq::empty()
        } else {
            seq![ts.last()]
        }
    }
}

/// The balls a pass at the given time creates, one per expired timer, in
/// timer order.
pub open spec fn spawned_balls(ts: Seq<BallSpawnTimeout>, now_ms: int) -> Seq<BallEntity>
    decreases ts.len(),
{
    if ts.len() == 0 {
        Seq::empty()
    } else {
        spawned_balls(ts.drop_last(), now_ms) + if timer_expired(ts.last(), now_ms) {
            seq![ball_for_timer(ts.last())]
        } else {
            Seq::empty()
        }
    }
}

/// What the spawn pass guarantees of its outputs when every timer is
/// well-formed: pending timers stay well-formed, every spawned ball is a
/// well-formed ball at the arena centre, and timers are traded one for one
/// against balls, so the population never grows.
pub proof fn lemma_spawn_pass_shape(ts: Seq<BallSpawnTimeout>, now_ms: int)
    requires
        forall|i: int| 0 <= i < ts.len() ==> timer_wf(#[trigger] ts[i]),
    ensures
        forall|i: int|
            0 <= i < pending_timers(ts, now_ms).len() ==> timer_wf(
                #[trigger] pending_timers(ts, now_ms)[i],
            ),
        forall|i: int|
            0 <= i < spawned_balls(ts, now_ms).len() ==> ball_entity_wf(
                #[trigger] spawned_balls(ts, now_ms)[i],
            ),
        pending_timers(ts, now_ms).len() + spawned_balls(ts, now_ms).len() == ts.len(),
    decreases ts.len(),
{
    if ts.len() != 0 {
        lemma_spawn_pass_shape(ts.drop_last(), now_ms);
    }
}

/// A pass handles each timer by itself: over the concatenation of two
/// timer lists it pends and spawns exactly what it pends and spawns over
/// each list alone, in order.
pub proof fn lemma_spawn_pass_splits(
    a: Seq<BallSpawnTimeout>,
    b: Seq<BallSpawnTimeout>,
    now_ms: int,
)
    ensures
        pending_timers(a + b, now_ms) == pending_timers(a, now_ms) + pending_timers(b, now_ms),
        spawned_balls(a + b, now_ms) == spawned_balls(a, now_ms) + spawned_balls(b, now_ms),
    decreases b.len(),
{
    if b.len() == 0 {
        assert(a + b =~= a);
        assert(pending_timers(a, now_ms) + pending_timers(b, now_ms) =~= pending_timers(a, now_ms));
        assert(spawned_balls(a, now_ms) + spawned_balls(b, now_ms) =~= spawned_balls(a, now_ms));
    } else {
        lemma_spawn_pass_splits(a, b.drop_last(), now_ms);
        assert((a + b).drop_last() =~= a + b.drop_last());
        assert((a + b).last() == b.last());
        assert(pending_timers(a, now_ms) + pending_timers(b, now_ms) =~= (pending_timers(a, now_ms)
            + pending_timers(b.drop_last(), now_ms)) + if timer_expired(b.last(), now_ms) {
            Seq::<BallSpawnTimeout>::empty()
        } else {
            seq![b.last()]
        });
        assert(spawned_balls(a, now_ms) + spawned_balls(b, now_ms) =~= (spawned_balls(a, now_ms)
            + spawned_balls(b.drop_last(), now_ms)) + if timer_expired(b.last(), now_ms) {
            seq![ball_for_timer(b.last())]
        } else {
            Seq::<BallEntity>::empty()
        });
    }
}

/// Expiry is never anticipated: a pass run before or at a timer's expiry
/// leaves every such timer pending and spawns nothing from it.
pub proof fn lemma_no_spawn_before_expiry(ts: Seq<BallSpawnTimeout>, now_ms: int)
    requires
        forall|i: int| 0 <= i < ts.len() ==> now_ms <= (#[trigger] ts[i]).expiry,
    ensures
        pending_timers(ts, now_ms) == ts,
        spawned_balls(ts, now_ms) == Seq::<BallEntity>::empty(),
    decreases ts.len(),
{
    if ts.len() != 0 {
        lemma_no_spawn_before_expiry(ts.drop_last(), now_ms);
        assert(pending_timers(ts.drop_last(), now_ms) + seq![ts.last()] =~= ts);
        assert(spawned_balls(ts, now_ms) =~= Seq::<BallEntity>::empty());
    }
}

/// Each timer spawns exactly once, never twice: a pass removes the timers
/// it expires, so what two consecutive passes spawn together is exactly
/// what a single pass at the later time would have spawned — nothing is
/// spawned early, repeated or lost, however often the update runs.
pub proof fn lemma_spawn_exactly_once(ts: Seq<BallSpawnTimeout>, now1_ms: int, now2_ms: int)
    requires
        now1_ms <= now2_ms,
    ensures
        spawned_balls(ts, now1_ms).len() + spawned_balls(pending_timers(ts, now1_ms), now2_ms).len()
            == spawned_balls(ts, now2_ms).len(),
    decreases ts.len(),
{
    if ts.len() != 0 {
        lemma_spawn_exactly_once(ts.drop_last(), now1_ms, now2_ms);
        if timer_expired(ts.last(), now1_ms) {
            assert(pending_timers(ts, now1_ms) == pending_timers(ts.drop_last(), now1_ms));
        } else {
            let p = pending_timers(ts.drop_last(), now1_ms) + seq![ts.last()];
            assert(pending_timers(ts, now1_ms) == p);
            assert(p.drop_last() =~= pending_timers(ts.drop_last(), now1_ms));
            assert(p.last() == ts.last());
            assert(spawned_balls(p, now2_ms) == spawned_balls(p.drop_last(), now2_ms) + if timer_expired(
                p.last(),
                now2_ms,
            ) {
                seq![ball_for_timer(p.last())]
            } else {
                Seq::<BallEntity>::empty()
            });
        }
    }
}

impl BallSpawnTimeoutSystem {
    /// One spawn-timer pass over the world: every timer expired at
    /// `now_ms` is removed and one ball per expired timer is appended at
    /// the arena centre with the timer's velocity; pending timers keep
    /// their order, and paddles, surviving balls and scores are untouched.
    pub fn run(world: &mut World, now_ms: i64)
        ensures
            final(world).timers@ == pending_timers(old(world).timers@, now_ms as int),
            final(world).balls@ == old(world).balls@ + spawned_balls(
                old(world).timers@,
                now_ms as int,
            ),
            final(world).paddles@ == old(world).paddles@,
            final(world).scores == old(world).scores,
    {
        let n = world.timers.len();
        let mut kept: Vec<BallSpawnTimeout> = Vec::new();
        let mut i: usize = 0;
        proof {
            assert(old(world).timers@.take(0) =~= Seq::<BallSpawnTimeout>::empty());
            assert(world.balls@ =~= old(world).balls@ + spawned_balls(
                old(world).timers@.take(0),
                now_ms as int,
            ));
        }
        while i < n
            invariant
                n == world.timers@.len() == old(world).timers@.len(),
                0 <= i <= n,
                world.timers@ == old(world).timers@,
                world.paddles@ == old(world).paddles@,
                world.scores == old(world).scores,
                kept@ == pending_timers(old(world).timers@.take(i as int), now_ms as int),
                world.balls@ == old(world).balls@ + spawned_balls(
                    old(world).timers@.take(i as int),
                    now_ms as int,
                ),
                kept@.len() <= i,
            decreases n - i,
        {
            let t = world.timers[i];
            proof {
                assert(old(world).timers@.take(i as int + 1).drop_last() =~= old(
                    world,
                ).timers@.take(i as int));
                assert(old(world).timers@.take(i as int + 1).last() == old(world).timers@[i as int]);
            }
            if t.expiry < now_ms {
                world.balls.push(
                    BallEntity {
                        pos: Pos { x: ARENA_CENTER_X, y: ARENA_CENTER_Y },
                        ball: Ball { radius: BALL_RADIUS, vx: t.vx, vy: t.vy },
                    },
                );
            } else {
                kept.push(t);
            }
            i = i + 1;
        }
        proof {
            assert(old(world).timers@.take(n as int) =~= old(world).timers@);
        }
        world.timers = kept;
    }
}

} // verus!
