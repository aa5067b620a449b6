//! Collision resolution: each frame, every ball is tested against the two
//! horizontal walls and against each paddle, and the matching velocity
//! component is flipped. Only velocity changes — a ball is never
//! repositioned, so it may visibly overlap a wall or paddle for one frame.
//!
//! Both tests are edge-triggered: a wall flips the vertical velocity only
//! when the ball is still moving further out, and a paddle flips the
//! horizontal velocity only when the ball is moving towards that paddle's
//! side, so consecutive frames never flip the same component back.

use vstd::prelude::*;

use crate::pong::{Ball, ARENA_HEIGHT, ARENA_WIDTH, GEOM_LIMIT, MOVE_LIMIT, Side, VEL_LIMIT};
use crate::world::{moved_ball_wf, paddle_entity_wf, BallEntity, PaddleEntity, World};

verus! {

/// The per-frame collision pass.
pub struct BounceBallsSystem;

/// Whether a point lies in the axis-aligned rectangle centred at
/// `(rect_x, rect_y)` with half-extents of half the width and half the
/// height, boundary included. Stated with doubled coordinates so that odd
/// widths and heights lose nothing to rounding.
pub open spec fn point_in_rect_spec(
    x: int,
    y: int,
    rect_x: int,
    rect_y: int,
    rect_width: int,
    rect_height: int,
) -> bool {
    &&& 2 * x <= 2 * rect_x + rect_width
    &&& 2 * x >= 2 * rect_x - rect_width
    &&& 2 * y <= 2 * rect_y + rect_height
    &&& 2 * y >= 2 * rect_y - rect_height
}

/// The boundary-inclusive, centred rectangle test used for ball/paddle
/// collision.
pub fn point_in_rect(
    x: i64,
    y: i64,
    rect_x: i64,
    rect_y: i64,
    rect_width: i64,
    rect_height: i64,
) -> (r: bool)
    requires
        -GEOM_LIMIT <= x <= GEOM_LIMIT,
        -GEOM_LIMIT <= y <= GEOM_LIMIT,
        -GEOM_LIMIT <= rect_x <= GEOM_LIMIT,
        -GEOM_LIMIT <= rect_y <= GEOM_LIMIT,
        -GEOM_LIMIT <= rect_width <= GEOM_LIMIT,
        -GEOM_LIMIT <= rect_height <= GEOM_LIMIT,
    ensures
        r == point_in_rect_spec(x as int, y as int, rect_x as int, rect_y as int, rect_width as int, rect_height as int),
{
    2 * x <= 2 * rect_x + rect_width && 2 * x >= 2 * rect_x - rect_width && 2 * y <= 2 * rect_y
        + rect_height && 2 * y >= 2 * rect_y - rect_height
}

/// The vertical velocity of a ball after the wall test: flipped when the
/// ball overlaps the bottom wall while still moving down, or the top wall
/// while still moving up.
pub open spec fn wall_bounced_vy(y: int, radius: int, vy: int) -> int {
    if (y - radius <= 0 && vy < 0) || (y + radius >= ARENA_HEIGHT && vy > 0) {
        -vy
    } else {
        vy
    }
}

/// The horizontal velocity of a ball after the test against one paddle:
/// flipped when the ball's centre lies in the paddle's rectangle and the
/// ball is moving towards that paddle's side.
pub open spec fn paddle_deflected_vx(x: int, y: int, vx: int, p: PaddleEntity) -> int {
    if point_in_rect_spec(x, y, p.pos.x as int, p.pos.y as int, p.paddle.width as int, p.paddle.height as int)
        && ((p.paddle.side == Side::Left && vx < 0) || (p.paddle.side == Side::Right && vx > 0)) {
        -vx
    } else {
        vx
    }
}

/// The horizontal velocity of a ball after testing the paddles in order.
pub open spec fn paddles_bounced_vx(x: int, y: int, vx: int, ps: Seq<PaddleEntity>) -> int
    decreases ps.len(),
{
    if ps.len() == 0 {
        vx
    } else {
        paddles_bounced_vx(x, y, paddle_deflected_vx(x, y, vx, ps[0]), ps.drop_first())
    }
}

/// How many paddle tests flip the ball's horizontal velocity.
pub open spec fn paddle_flip_count(x: int, y: int, vx: int, ps: Seq<PaddleEntity>) -> nat
    decreases ps.len(),
{
    if ps.len() == 0 {
        0
    } else {
        (if paddle_deflected_vx(x, y, vx, ps[0]) != vx {
            1nat
        } else {
            0nat
        }) + paddle_flip_count(x, y, paddle_deflected_vx(x, y, vx, ps[0]), ps.drop_first())
    }
}

/// One ball after the collision pass: position and radius unchanged, the
/// vertical velocity put through the wall test and the horizontal velocity
/// through the paddle tests.
pub open spec fn ball_bounced(b: BallEntity, ps: Seq<PaddleEntity>) -> BallEntity {
    BallEntity {
        pos: b.pos,
        ball: Ball {
            radius: b.ball.radius,
            vx: paddles_bounced_vx(b.pos.x as int, b.pos.y as int, b.ball.vx as int, ps) as i64,
            vy: wall_bounced_vy(b.pos.y as int, b.ball.radius as int, b.ball.vy as int) as i64,
        },
    }
}

/// All balls after the collision pass, in order.
pub open spec fn balls_bounced(bs: Seq<BallEntity>, ps: Seq<PaddleEntity>) -> Seq<BallEntity> {
    Seq::new(bs.len(), |i: int| ball_bounced(bs[i], ps))
}

/// How many bounce events (wall and paddle flips together) one ball emits.
pub open spec fn ball_bounce_count(b: BallEntity, ps: Seq<PaddleEntity>) -> nat {
    (if wall_bounced_vy(b.pos.y as int, b.ball.radius as int, b.ball.vy as int) != b.ball.vy {
        1nat
    } else {
        0nat
    }) + paddle_flip_count(b.pos.x as int, b.pos.y as int, b.ball.vx as int, ps)
}

/// How many bounce events a whole pass over the given balls emits.
pub open spec fn total_bounce_count(bs: Seq<BallEntity>, ps: Seq<PaddleEntity>) -> nat
    decreases bs.len(),
{
    if bs.len() == 0 {
        0
    } else {
        total_bounce_count(bs.drop_last(), ps) + ball_bounce_count(bs.last(), ps)
    }
}

/// After the wall test a ball that overlaps a horizontal wall is moving
/// back towards the inside of the arena.
pub open spec fn ball_wall_resolved(b: BallEntity) -> bool {
    &&& b.pos.y - b.ball.radius <= 0 ==> b.ball.vy > 0
    &&& b.pos.y + b.ball.radius >= ARENA_HEIGHT ==> b.ball.vy < 0
}

/// The paddle tests flip signs only: the horizontal velocity keeps its
/// magnitude.
pub proof fn lemma_paddles_bounced_sign_only(x: int, y: int, vx: int, ps: Seq<PaddleEntity>)
    ensures
        paddles_bounced_vx(x, y, vx, ps) == vx || paddles_bounced_vx(x, y, vx, ps) == -vx,
    decreases ps.len(),
{
    if ps.len() != 0 {
        lemma_paddles_bounced_sign_only(x, y, paddle_deflected_vx(x, y, vx, ps[0]), ps.drop_first());
    }
}

/// The wall test flips signs only: the vertical velocity keeps its
/// magnitude, so a bounce never stalls or accelerates a ball.
pub proof fn lemma_wall_bounce_sign_only(y: int, radius: int, vy: int)
    ensures
        wall_bounced_vy(y, radius, vy) == vy || wall_bounced_vy(y, radius, vy) == -vy,
{
}

/// The wall test is edge-triggered, not level-triggered: running it a
/// second time on the same position never flips the velocity back, because
/// the first run leaves the ball moving away from the wall it overlaps.
pub proof fn lemma_wall_bounce_edge_triggered(y: int, radius: int, vy: int)
    requires
        2 * radius < ARENA_HEIGHT,
    ensures
        wall_bounced_vy(y, radius, wall_bounced_vy(y, radius, vy)) == wall_bounced_vy(y, radius, vy),
{
}

impl BounceBallsSystem {
    /// One collision pass over the world: every ball's velocity is put
    /// through the wall test and the paddle tests against the paddles'
    /// current positions; nothing else changes. Returns how many bounce
    /// events the pass emitted, one per flip, for the caller to sound.
    pub fn run(world: &mut World) -> (bounces: usize)
        requires
            old(world).paddles@.len() == 2,
            forall|i: int|
                0 <= i < old(world).paddles@.len() ==> paddle_entity_wf(
                    #[trigger] old(world).paddles@[i],
                ),
            forall|i: int|
                0 <= i < old(world).balls@.len() ==> moved_ball_wf(#[trigger] old(world).balls@[i]),
            old(world).balls@.len() <= 1_000_000,
        ensures
            final(world).balls@.len() == old(world).balls@.len(),
            forall|i: int|
                0 <= i < old(world).balls@.len() ==> final(world).balls@[i] == ball_bounced(
                    #[trigger] old(world).balls@[i],
                    old(world).paddles@,
                ),
            bounces == total_bounce_count(old(world).balls@, old(world).paddles@),
            forall|i: int|
                0 <= i < final(world).balls@.len() ==> moved_ball_wf(#[trigger] final(world).balls@[i])
                    && ball_wall_resolved(final(world).balls@[i]),
            final(world).paddles@ == old(world).paddles@,
            final(world).timers@ == old(world).timers@,
            final(world).scores == old(world).scores,
    {
        let ghost ps = old(world).paddles@;
        let n = world.balls.len();
        let mut events: usize = 0;
        let mut i: usize = 0;
        while i < n
            invariant
                n == world.balls@.len() == old(world).balls@.len(),
                0 <= i <= n,
                n <= 1_000_000,
                ps == old(world).paddles@,
                world.paddles@ == old(world).paddles@,
                world.paddles@.len() == 2,
                forall|k: int| 0 <= k < ps.len() ==> paddle_entity_wf(#[trigger] ps[k]),
                forall|j: int| 0 <= j < n ==> moved_ball_wf(#[trigger] old(world).balls@[j]),
                forall|j: int|
                    0 <= j < i ==> world.balls@[j] == ball_bounced(
                        #[trigger] old(world).balls@[j],
                        ps,
                    ),
                forall|j: int|
                    0 <= j < i ==> moved_ball_wf(#[trigger] world.balls@[j]) && ball_wall_resolved(
                        world.balls@[j],
                    ),
                forall|j: int| i <= j < n ==> world.balls@[j] == #[trigger] old(world).balls@[j],
                events == total_bounce_count(old(world).balls@.take(i as int), ps),
                events <= 3 * i,
                world.timers@ == old(world).timers@,
                world.scores == old(world).scores,
            decreases n - i,
        {
            let b = world.balls[i];
            proof {
                assert(world.balls@[i as int] == old(world).balls@[i as int]);
                assert(moved_ball_wf(old(world).balls@[i as int]));
            }
            let mut nvy = b.ball.vy;
            let mut wall_flips: usize = 0;
            if (b.pos.y - b.ball.radius <= 0 && nvy < 0) || (b.pos.y + b.ball.radius
                >= ARENA_HEIGHT && nvy > 0) {
                nvy = -nvy;
                wall_flips = 1;
            }
            let m = world.paddles.len();
            let mut nvx = b.ball.vx;
            let mut pflips: usize = 0;
            let mut j: usize = 0;
            proof {
                assert(ps.skip(0) =~= ps);
            }
            while j < m
                invariant
                    m == world.paddles@.len() == ps.len(),
                    world.paddles@ == ps,
                    0 <= j <= m,
                    moved_ball_wf(b),
                    forall|k: int| 0 <= k < ps.len() ==> paddle_entity_wf(#[trigger] ps[k]),
                    nvx == b.ball.vx || nvx == -b.ball.vx,
                    paddles_bounced_vx(b.pos.x as int, b.pos.y as int, b.ball.vx as int, ps)
                        == paddles_bounced_vx(
                        b.pos.x as int,
                        b.pos.y as int,
                        nvx as int,
                        ps.skip(j as int),
                    ),
                    paddle_flip_count(b.pos.x as int, b.pos.y as int, b.ball.vx as int, ps)
                        == pflips + paddle_flip_count(
                        b.pos.x as int,
                        b.pos.y as int,
                        nvx as int,
                        ps.skip(j as int),
                    ),
                    pflips <= j,
                decreases m - j,
            {
                let p = world.paddles[j];
                proof {
                    assert(ps[j as int] == p);
                    assert(paddle_entity_wf(ps[j as int]));
                    assert(ps.skip(j as int)[0] == ps[j as int]);
                    assert(ps.skip(j as int).drop_first() =~= ps.skip(j as int + 1));
                }
                let ghost vx_before = nvx;
                if point_in_rect(b.pos.x, b.pos.y, p.pos.x, p.pos.y, p.paddle.width, p.paddle.height)
                    && ((p.paddle.side == Side::Left && nvx < 0) || (p.paddle.side == Side::Right
                    && nvx > 0)) {
                    nvx = -nvx;
                    pflips = pflips + 1;
                }
                proof {
                    assert(nvx == paddle_deflected_vx(
                        b.pos.x as int,
                        b.pos.y as int,
                        vx_before as int,
                        ps[j as int],
                    ));
                }
                j = j + 1;
            }
            proof {
                assert(ps.skip(m as int) =~= Seq::<PaddleEntity>::empty());
                assert(paddles_bounced_vx(b.pos.x as int, b.pos.y as int, nvx as int, ps.skip(m as int))
                    == nvx as int);
                assert(paddle_flip_count(b.pos.x as int, b.pos.y as int, nvx as int, ps.skip(m as int))
                    == 0);
            }
            world.balls[i] = BallEntity {
                pos: b.pos,
                ball: Ball { radius: b.ball.radius, vx: nvx, vy: nvy },
            };
            events = events + wall_flips + pflips;
            proof {
                assert(old(world).balls@.take(i as int + 1).drop_last() =~= old(world).balls@.take(
                    i as int,
                ));
                assert(old(world).balls@.take(i as int + 1).last() == old(world).balls@[i as int]);
                assert(pflips == paddle_flip_count(
                    b.pos.x as int,
                    b.pos.y as int,
                    b.ball.vx as int,
                    ps,
                ));
                assert(ball_bounce_count(old(world).balls@[i as int], ps) == wall_flips + pflips);
            }
            i = i + 1;
        }
        proof {
            assert(old(world).balls@.take(n as int) =~= old(world).balls@);
        }
        events
    }
}

} // verus!
