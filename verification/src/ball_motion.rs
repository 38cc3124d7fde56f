//! The ball: the third, fourth and fifth phase of a frame.
//!
//! The ball flies by its velocity. A plank whose edge it passes returns it,
//! faster than it came; the top and the bottom of the court send it back. A
//! ball that ends up beyond the left or the right edge of the court has been
//! missed: the other side scores, and the ball is put back to rest.

use vstd::prelude::*;
use crate::coll::PlankCollisionData;
use crate::comp::{Ball, Side};
use crate::fixed::{
    distance, divide, floor_sqrt, is_floor_sqrt, lemma_floor_sqrt_unique, lemma_quotient_bounds,
    lemma_quotient_monotonic, quotient, saturate, saturated, scale, scaled, travelled, UNIT,
};
use crate::geometry::{Point2, Vector2};
use crate::system::{Bounds, GameState, BALL_BOUNCE_VELOCITY_INCREASE, BALL_VELOCITY};

verus! {

/// The integer part of the square root of `n`.
pub open spec fn root_of(n: int) -> int {
    choose|r: int| is_floor_sqrt(n, r)
}

/// The velocity with which the ball sets off toward one side with the given
/// slope, in millionths: the direction `(1, slope)` or `(-1, slope)`, brought
/// to the length of the ball's speed. Its two coordinates are rounded toward
/// zero, and so is the length of the direction by which they are divided.
pub open spec fn launched(toward_right: bool, slope: i32) -> Vector2 {
    let length = root_of(UNIT * UNIT + slope * slope);
    let across = quotient(UNIT * BALL_VELOCITY, length);
    Vector2 {
        x: (if toward_right {
            across
        } else {
            -across
        }) as i32,
        y: quotient(slope * BALL_VELOCITY, length) as i32,
    }
}

/// The ball as it sets off when a round starts, and as it was otherwise.
pub open spec fn ball_launched(ball: Ball, starts: bool, launch: Vector2) -> Ball {
    if starts {
        Ball { velocity: launch, ..ball }
    } else {
        ball
    }
}

/// The ball after `dt` nanoseconds of free flight.
pub open spec fn ball_moved(ball: Ball, dt: u64) -> Ball {
    Ball {
        position: Point2 {
            x: saturated(ball.position.x + travelled(ball.velocity.x as int, dt as int)) as i32,
            y: saturated(ball.position.y + travelled(ball.velocity.y as int, dt as int)) as i32,
        },
        ..ball
    }
}

/// The ball after a plank has returned it: it flies the other way across the
/// court, faster in both directions, and is put back at `new_x`.
pub open spec fn returned(ball: Ball, new_x: i32) -> Ball {
    Ball {
        position: Point2 { x: new_x, y: ball.position.y },
        velocity: Vector2 {
            x: saturated(-scaled(ball.velocity.x as int, BALL_BOUNCE_VELOCITY_INCREASE as int)) as i32,
            y: saturated(scaled(ball.velocity.y as int, BALL_BOUNCE_VELOCITY_INCREASE as int)) as i32,
        },
        ..ball
    }
}

/// The ball after its move from `start` to `end` has been tested against the
/// edges of the planks, one after the other: each edge that the move
/// collides with returns the ball.
pub open spec fn ball_after_edges(
    ball: Ball,
    edges: Seq<PlankCollisionData>,
    start: Point2,
    end: Point2,
) -> Ball
    decreases edges.len(),
{
    if edges.len() == 0 {
        ball
    } else {
        let before = ball_after_edges(ball, edges.drop_last(), start, end);
        if edges.last().collides(start, end) {
            returned(before, edges.last().mirrored(end) as i32)
        } else {
            before
        }
    }
}

/// Whether the ball reaches the top of the court with its rim.
pub open spec fn over_top(ball: Ball, bounds: Bounds) -> bool {
    ball.position.y + ball.radius >= bounds.top
}

/// The height of the ball once the top of the court has sent it back, if it
/// reached it: as far below the place where it touches the top as it was
/// above it.
pub open spec fn height_below_top(ball: Ball, bounds: Bounds) -> int {
    if over_top(ball, bounds) {
        ball.position.y - (ball.position.y + ball.radius - bounds.top) * 2
    } else {
        ball.position.y as int
    }
}

/// Whether the ball, the top of the court taken into account, reaches the
/// bottom of the court with its rim.
pub open spec fn under_bottom(ball: Ball, bounds: Bounds) -> bool {
    height_below_top(ball, bounds) - ball.radius <= bounds.bottom
}

/// The ball after the top and the bottom of the court have sent it back:
/// each of the two that it reaches turns its vertical speed around and puts
/// it back inside by as much as it went outside.
pub open spec fn ball_after_walls(ball: Ball, bounds: Bounds) -> Ball {
    let below_top = height_below_top(ball, bounds);
    let height = if under_bottom(ball, bounds) {
        below_top - (below_top - ball.radius - bounds.bottom) * 2
    } else {
        below_top
    };
    let speed = if over_top(ball, bounds) != under_bottom(ball, bounds) {
        saturated(-ball.velocity.y)
    } else {
        ball.velocity.y as int
    };
    Ball {
        position: Point2 { x: ball.position.x, y: saturated(height) as i32 },
        velocity: Vector2 { x: ball.velocity.x, y: speed as i32 },
        ..ball
    }
}

/// The player who has missed the ball, if one has: the left one if the ball
/// is beyond the left edge of the court, the right one if it is beyond the
/// right edge.
pub open spec fn missed(ball: Ball, bounds: Bounds) -> Option<Side> {
    if ball.position.x < bounds.left {
        Some(Side::Left)
    } else if ball.position.x > bounds.right {
        Some(Side::Right)
    } else {
        None
    }
}

/// The state of the match after a miss of the player on the given side: the
/// other player has a point more, the round is over, and the next round is
/// ahead.
pub open spec fn state_after_miss(state: GameState, side: Side) -> GameState {
    GameState {
        left_score: if side == Side::Right {
            (state.left_score + 1) as u32
        } else {
            state.left_score
        },
        right_score: if side == Side::Left {
            (state.right_score + 1) as u32
        } else {
            state.right_score
        },
        round_active: false,
        round: (state.round + 1) as u32,
    }
}

/// The ball after the misses have been counted: at rest at the centre of the
/// court if it was missed.
pub open spec fn ball_after_scoring(ball: Ball, bounds: Bounds) -> Ball {
    if missed(ball, bounds) is Some {
        Ball::resting(ball.radius)
    } else {
        ball
    }
}

/// The state of the match after the misses have been counted.
pub open spec fn state_after_scoring(state: GameState, ball: Ball, bounds: Bounds) -> GameState {
    match missed(ball, bounds) {
        Some(side) => state_after_miss(state, side),
        None => state,
    }
}

/// Every number that is not negative has a square root.
pub proof fn lemma_root_exists(n: int)
    requires
        n >= 0,
    ensures
        is_floor_sqrt(n, root_of(n)),
    decreases n,
{
    if n == 0 {
        assert(is_floor_sqrt(0, 0));
    } else {
        lemma_root_exists(n - 1);
        let r = root_of(n - 1);
        if (r + 1) * (r + 1) <= n {
            assert((r + 1) * (r + 1) == n) by (nonlinear_arith)
                requires
                    (r + 1) * (r + 1) <= n,
                    n - 1 < (r + 1) * (r + 1),
            ;
            assert(n < (r + 2) * (r + 2)) by (nonlinear_arith)
                requires
                    (r + 1) * (r + 1) == n,
                    r >= 0,
            ;
            assert(is_floor_sqrt(n, r + 1));
        } else {
            assert(is_floor_sqrt(n, r));
        }
    }
}

/// The direction `(1, slope)` or `(-1, slope)` is at least one unit long and
/// at least as long as it is high, so that neither coordinate of the velocity
/// with which the ball sets off exceeds the ball's speed.
pub proof fn lemma_launch_is_bounded(toward_right: bool, slope: i32)
    ensures
        is_floor_sqrt(UNIT * UNIT + slope * slope, root_of(UNIT * UNIT + slope * slope)),
        root_of(UNIT * UNIT + slope * slope) >= UNIT,
        -BALL_VELOCITY <= launched(toward_right, slope).y <= BALL_VELOCITY,
        toward_right ==> 0 < launched(toward_right, slope).x <= BALL_VELOCITY,
        !toward_right ==> -BALL_VELOCITY <= launched(toward_right, slope).x < 0,
        slope >= 0 ==> launched(toward_right, slope).y >= 0,
        slope <= 0 ==> launched(toward_right, slope).y <= 0,
{
    let s: int = slope as int;
    let n: int = UNIT * UNIT + s * s;
    assert(0 <= s * s <= 0x8000_0000 * 0x8000_0000) by (nonlinear_arith)
        requires
            -0x8000_0000 <= s <= 0x8000_0000,
    ;
    lemma_root_exists(n);
    let length = root_of(n);
    assert(length >= 1_000_000 && length >= s && length >= -s && length <= 0x1_0000_0000) by (nonlinear_arith)
        requires
            0 <= length,
            length * length <= n,
            n < (length + 1) * (length + 1),
            n == 1_000_000 * 1_000_000 + s * s,
            0 <= s * s <= 0x8000_0000 * 0x8000_0000,
    ;
    let v: int = BALL_VELOCITY as int;
    lemma_quotient_bounds(UNIT * BALL_VELOCITY, length);
    lemma_quotient_bounds(s * v, length);
    assert(0 < (1_000_000 * v) / length <= v) by (nonlinear_arith)
        requires
            length >= 1_000_000,
            length <= 0x1_0000_0000,
            v == 600_000,
    ;
    if s >= 0 {
        assert(s * v >= 0 && (s * v) / length <= v) by (nonlinear_arith)
            requires
                0 <= s <= length,
                length > 0,
                v == 600_000,
        ;
    } else {
        assert(s * v < 0 && -(s * v) == (-s) * v && ((-s) * v) / length <= v) by (nonlinear_arith)
            requires
                0 < -s <= length,
                length > 0,
                v == 600_000,
        ;
    }
}

/// The ball sets off at its speed: the length of the velocity with which it
/// sets off differs from the ball's speed by less than three millionths,
/// whatever the slope.
pub proof fn lemma_launch_has_the_speed(toward_right: bool, slope: i32)
    ensures
        ({
            let v = launched(toward_right, slope);
            let square = v.x * v.x + v.y * v.y;
            (BALL_VELOCITY - 3) * (BALL_VELOCITY - 3) < square < (BALL_VELOCITY + 1) * (
            BALL_VELOCITY + 1)
        }),
{
    lemma_launch_is_bounded(toward_right, slope);
    let s: int = if slope >= 0 { slope as int } else { -(slope as int) };
    let n: int = UNIT * UNIT + slope * slope;
    let len: int = root_of(n);
    let speed: int = BALL_VELOCITY as int;
    let v = launched(toward_right, slope);
    let a: int = if toward_right { v.x as int } else { -(v.x as int) };
    let b: int = if slope >= 0 { v.y as int } else { -(v.y as int) };
    assert(slope * slope == s * s) by (nonlinear_arith)
        requires
            s == slope || s == -slope,
    ;
    assert(v.x * v.x + v.y * v.y == a * a + b * b) by (nonlinear_arith)
        requires
            a == v.x || a == -v.x,
            b == v.y || b == -v.y,
    ;
    // The two coordinates are the quotients of `UNIT * speed` and of
    // `s * speed` by the length, rounded down.
    assert(len >= 1_000_000 && len >= s && len <= 0x1_0000_0000) by (nonlinear_arith)
        requires
            0 <= len,
            len * len <= n,
            n < (len + 1) * (len + 1),
            n == 1_000_000 * 1_000_000 + s * s,
            0 <= s <= 0x8000_0000,
    ;
    let across: int = quotient(UNIT * BALL_VELOCITY, len);
    let up: int = quotient(slope * BALL_VELOCITY, len);
    assert(UNIT * BALL_VELOCITY == 1_000_000 * speed);
    assert(0 < (1_000_000 * speed) / len <= speed) by (nonlinear_arith)
        requires
            len >= 1_000_000,
            len <= 0x1_0000_0000,
            speed == 600_000,
    ;
    assert(a == across);
    assert(s * speed >= 0 && (s * speed) / len <= speed) by (nonlinear_arith)
        requires
            0 <= s <= len,
            len > 0,
            speed == 600_000,
    ;
    assert(slope * BALL_VELOCITY == slope * speed);
    if slope >= 0 {
        assert(up == (s * speed) / len);
    } else {
        assert(slope * speed < 0 && -(slope * speed) == s * speed) by (nonlinear_arith)
            requires
                slope < 0,
                s == -slope,
                speed == 600_000,
        ;
        assert(up == -((s * speed) / len));
    }
    assert(b == (s * speed) / len);
    let x: int = 1_000_000 * speed;
    let y: int = s * speed;
    assert(y >= 0) by (nonlinear_arith)
        requires
            y == s * speed,
            s >= 0,
            speed >= 0,
    ;
    assert(a * len <= x < (a + 1) * len && a >= 0) by (nonlinear_arith)
        requires
            a == x / len,
            len > 0,
            x >= 0,
    ;
    assert(b * len <= y < (b + 1) * len && b >= 0) by (nonlinear_arith)
        requires
            b == y / len,
            len > 0,
            y >= 0,
    ;
    // Both squares together are the square of the speed times `n`.
    assert(x * x + y * y == speed * speed * n) by (nonlinear_arith)
        requires
            x == 1_000_000 * speed,
            y == s * speed,
            n == 1_000_000 * 1_000_000 + s * s,
    ;
    // From above: the length is rounded down by less than one.
    assert((a * len) * (a * len) <= x * x) by (nonlinear_arith)
        requires
            0 <= a * len <= x,
    ;
    assert((b * len) * (b * len) <= y * y) by (nonlinear_arith)
        requires
            0 <= b * len <= y,
    ;
    assert((a * a + b * b) * (len * len) == (a * len) * (a * len) + (b * len) * (b * len))
        by (nonlinear_arith);
    assert(speed * speed * n < (speed * (len + 1)) * (speed * (len + 1))) by (nonlinear_arith)
        requires
            n < (len + 1) * (len + 1),
            speed > 0,
    ;
    assert((speed * (len + 1)) * (speed * (len + 1)) <= ((speed + 1) * len) * ((speed + 1) * len))
        by (nonlinear_arith)
        requires
            0 < speed <= len,
    ;
    assert(((speed + 1) * len) * ((speed + 1) * len) == ((speed + 1) * (speed + 1)) * (len * len))
        by (nonlinear_arith);
    assert(a * a + b * b < (speed + 1) * (speed + 1)) by (nonlinear_arith)
        requires
            (a * a + b * b) * (len * len) < ((speed + 1) * (speed + 1)) * (len * len),
            len > 0,
    ;
    // From below: each coordinate is rounded down by less than one.
    assert(((a + 1) * len) * ((a + 1) * len) > x * x || x == 0) by (nonlinear_arith)
        requires
            0 <= x < (a + 1) * len,
    ;
    assert(((b + 1) * len) * ((b + 1) * len) > y * y || y == 0) by (nonlinear_arith)
        requires
            0 <= y < (b + 1) * len,
    ;
    assert(((a + 1) * (a + 1) + (b + 1) * (b + 1)) * (len * len) == ((a + 1) * len) * ((a + 1)
        * len) + ((b + 1) * len) * ((b + 1) * len)) by (nonlinear_arith);
    assert(speed * speed * n >= (speed * speed) * (len * len)) by (nonlinear_arith)
        requires
            n >= len * len,
            speed > 0,
    ;
    assert(x > 0) by (nonlinear_arith)
        requires
            x == 1_000_000 * speed,
            speed > 0,
    ;
    assert((a + 1) * (a + 1) + (b + 1) * (b + 1) > speed * speed) by (nonlinear_arith)
        requires
            ((a + 1) * (a + 1) + (b + 1) * (b + 1)) * (len * len) > (speed * speed) * (len
                * len),
            len > 0,
    ;
    assert(a * a + b * b > (speed - 3) * (speed - 3)) by (nonlinear_arith)
        requires
            (a + 1) * (a + 1) + (b + 1) * (b + 1) > speed * speed,
            0 <= a <= speed,
            0 <= b <= speed,
            speed >= 6,
    ;
}

/// The velocity with which the ball sets off toward one side with the given
/// slope, in millionths.
pub fn launch_velocity(toward_right: bool, slope: i32) -> (velocity: Vector2)
    ensures
        velocity == launched(toward_right, slope),
{
    let s: i128 = slope as i128;
    assert(0 <= s * s <= 0x8000_0000 * 0x8000_0000) by (nonlinear_arith)
        requires
            -0x8000_0000 <= s <= 0x8000_0000,
    ;
    let square: u64 = (1_000_000_000_000i128 + s * s) as u64;
    let length: i128 = floor_sqrt(square) as i128;
    proof {
        lemma_launch_is_bounded(toward_right, slope);
        lemma_floor_sqrt_unique(square as int, length as int, root_of(square as int));
        assert(-0x8000_0000 * 600_000 <= s * 600_000 <= 0x8000_0000 * 600_000) by (nonlinear_arith)
            requires
                -0x8000_0000 <= s <= 0x8000_0000,
        ;
    }
    let across: i128 = divide(600_000_000_000i128, length);
    let up: i128 = divide(s * 600_000, length);
    let x: i128 = if toward_right { across } else { -across };
    Vector2::new(x as i32, up as i32)
}

/// Lets the ball fly for `dt` nanoseconds, and gives the places where it was
/// before and where it is after.
pub fn move_ball(ball: &mut Ball, dt: u64) -> (flight: (Point2, Point2))
    ensures
        *final(ball) == ball_moved(*old(ball), dt),
        flight.0 == old(ball).position,
        flight.1 == final(ball).position,
{
    let start: Point2 = ball.position;
    let x: i32 = saturate(ball.position.x as i128 + distance(ball.velocity.x, dt));
    let y: i32 = saturate(ball.position.y as i128 + distance(ball.velocity.y, dt));
    ball.position = Point2::new(x, y);
    (start, ball.position)
}

/// Tests the move of the ball from `start` to `end` against the edges of the
/// planks, one after the other. Each edge that the move collides with
/// returns the ball: the ball flies the other way across the court, faster,
/// and is put back in front of the edge.
pub fn bounce_off_planks(
    ball: &mut Ball,
    edges: &Vec<PlankCollisionData>,
    start: &Point2,
    end: &Point2,
)
    ensures
        *final(ball) == ball_after_edges(*old(ball), edges@, *start, *end),
{
    let mut i: usize = 0;
    assert(edges@.take(0) =~= Seq::<PlankCollisionData>::empty());
    while i < edges.len()
        invariant
            0 <= i <= edges@.len(),
            *ball == ball_after_edges(*old(ball), edges@.take(i as int), *start, *end),
        decreases edges@.len() - i,
    {
        proof {
            assert(edges@.take(i + 1).drop_last() =~= edges@.take(i as int));
            assert(edges@.take(i + 1).last() == edges@[i as int]);
        }
        match edges[i].collision_test(start, end) {
            Some(result) => {
                let x: i32 = saturate(-scale(ball.velocity.x, BALL_BOUNCE_VELOCITY_INCREASE));
                let y: i32 = saturate(scale(ball.velocity.y, BALL_BOUNCE_VELOCITY_INCREASE));
                ball.velocity = Vector2::new(x, y);
                ball.position = Point2::new(result.new_x, ball.position.y);
            },
            None => {},
        }
        i += 1;
    }
    assert(edges@.take(edges@.len() as int) =~= edges@);
}

/// Sends the ball back from the top and from the bottom of the court.
pub fn bounce_off_walls(ball: &mut Ball, bounds: &Bounds)
    ensures
        *final(ball) == ball_after_walls(*old(ball), *bounds),
{
    let radius: i128 = ball.radius as i128;
    let mut height: i128 = ball.position.y as i128;
    let mut speed: i128 = ball.velocity.y as i128;
    if height + radius >= bounds.top as i128 {
        speed = -speed;
        height = height - (height + radius - bounds.top as i128) * 2;
    }
    if height - radius <= bounds.bottom as i128 {
        speed = -speed;
        height = height - (height - radius - bounds.bottom as i128) * 2;
    }
    ball.velocity = Vector2::new(ball.velocity.x, saturate(speed));
    ball.position = Point2::new(ball.position.x, saturate(height));
}

/// Counts a miss, if there is one: a ball beyond the left or the right edge
/// of the court is put back to rest at the centre, the player on the other
/// side gets a point, and the round is over. Tells who has missed.
pub fn score(ball: &mut Ball, game_state: &mut GameState, bounds: &Bounds) -> (miss: Option<Side>)
    requires
        old(game_state).has_room(),
    ensures
        miss == missed(*old(ball), *bounds),
        *final(ball) == ball_after_scoring(*old(ball), *bounds),
        *final(game_state) == state_after_scoring(*old(game_state), *old(ball), *bounds),
{
    if ball.position.x < bounds.left {
        ball.position = Point2::new(0, 0);
        ball.velocity = Vector2::new(0, 0);
        game_state.round = game_state.round + 1;
        game_state.round_active = false;
        game_state.right_score = game_state.right_score + 1;
        Some(Side::Left)
    } else if ball.position.x > bounds.right {
        ball.position = Point2::new(0, 0);
        ball.velocity = Vector2::new(0, 0);
        game_state.round = game_state.round + 1;
        game_state.round_active = false;
        game_state.left_score = game_state.left_score + 1;
        Some(Side::Right)
    } else {
        None
    }
}

/// A move that leads nowhere leaves the ball as it is, whatever edges it is
/// tested against.
pub proof fn lemma_no_move_no_bounce(ball: Ball, edges: Seq<PlankCollisionData>, place: Point2)
    ensures
        ball_after_edges(ball, edges, place, place) == ball,
    decreases edges.len(),
{
    if edges.len() > 0 {
        lemma_no_move_no_bounce(ball, edges.drop_last(), place);
    }
}

/// The planks return the ball without changing its radius or its height.
pub proof fn lemma_edges_keep_radius(
    ball: Ball,
    edges: Seq<PlankCollisionData>,
    start: Point2,
    end: Point2,
)
    ensures
        ball_after_edges(ball, edges, start, end).radius == ball.radius,
        ball_after_edges(ball, edges, start, end).position.y == ball.position.y,
    decreases edges.len(),
{
    if edges.len() > 0 {
        lemma_edges_keep_radius(ball, edges.drop_last(), start, end);
    }
}

/// Multiplied by the factor of a return, a speed keeps its direction and does
/// not get smaller.
pub proof fn lemma_grows(v: int)
    ensures
        v >= 0 ==> scaled(v, BALL_BOUNCE_VELOCITY_INCREASE as int) >= v,
        v <= 0 ==> scaled(v, BALL_BOUNCE_VELOCITY_INCREASE as int) <= v,
{
    if v >= 0 {
        assert(v * 1_200_000 >= v * 1_000_000 >= 0) by (nonlinear_arith)
            requires
                v >= 0,
        ;
        lemma_quotient_monotonic(v * 1_000_000, v * 1_200_000, 1_000_000);
        assert((v * 1_000_000) / 1_000_000 == v) by (nonlinear_arith);
    } else {
        assert(v * 1_200_000 <= v * 1_000_000 < 0) by (nonlinear_arith)
            requires
                v < 0,
        ;
        lemma_quotient_monotonic(v * 1_200_000, v * 1_000_000, 1_000_000);
        assert(-(v * 1_000_000) == (-v) * 1_000_000) by (nonlinear_arith);
        assert(((-v) * 1_000_000) / 1_000_000 == -v) by (nonlinear_arith);
    }
}

/// A plank that returns the ball turns it around and does not slow it down:
/// across the court the ball flies the other way, up or down it flies on the
/// same way, and in neither direction is it slower than before.
pub proof fn lemma_return_turns_and_speeds_up(ball: Ball, new_x: i32)
    ensures
        ({
            let after = returned(ball, new_x).velocity;
            &&& ball.velocity.x >= 0 ==> after.x <= -ball.velocity.x
            &&& ball.velocity.x <= 0 ==> after.x >= -ball.velocity.x || after.x == i32::MAX
            &&& ball.velocity.y >= 0 ==> after.y >= ball.velocity.y
            &&& ball.velocity.y <= 0 ==> after.y <= ball.velocity.y
        }),
{
    lemma_grows(ball.velocity.x as int);
    lemma_grows(ball.velocity.y as int);
}

/// A ball that has gone beyond the top or the bottom of the court by less
/// than the court leaves free is back inside once the walls have sent it
/// back: its rim is within the court at the top and at the bottom, and it
/// flies the other way.
pub proof fn lemma_walls_put_ball_back_inside(ball: Ball, bounds: Bounds)
    requires
        ball.radius >= 0,
        bounds.top - bounds.bottom > 2 * ball.radius,
        ball.position.y + ball.radius - bounds.top < bounds.top - bounds.bottom - 2
            * ball.radius,
        bounds.bottom - (ball.position.y - ball.radius) < bounds.top - bounds.bottom - 2
            * ball.radius,
    ensures
        ({
            let after = ball_after_walls(ball, bounds);
            &&& after.position.y + after.radius <= bounds.top
            &&& after.position.y - after.radius >= bounds.bottom
            &&& after.position.x == ball.position.x
            &&& after.velocity.x == ball.velocity.x
            &&& over_top(ball, bounds) || under_bottom(ball, bounds) ==> after.velocity.y
                == saturated(-ball.velocity.y)
            &&& !over_top(ball, bounds) && !under_bottom(ball, bounds) ==> after == ball
        }),
{
}

} // verus!
