//! One frame of the game.
//!
//! A frame runs through five phases, each of which builds on the one before
//! it. The players' requests set the speeds of the planks and may start a
//! round. The planks move and are kept within the court. The ball moves. The
//! ball bounces off the planks and off the top and the bottom of the court.
//! At last a ball that has left the court on the left or on the right is
//! counted as a miss of the player on that side, and the round ends.
//!
//! Every phase is a function of its own with an exact contract, and
//! [`step`] runs them in their order. The only thing left to chance is the
//! direction in which the ball sets off when a round starts; [`step`] takes
//! it as an argument, and [`PongSystem::run`] draws it.

use rand::Rng;
use vstd::prelude::*;
use crate::ball_motion::{
    ball_after_edges, ball_after_scoring, ball_after_walls, ball_launched, ball_moved,
    bounce_off_planks, bounce_off_walls, launch_velocity, launched, lemma_edges_keep_radius,
    lemma_no_move_no_bounce, missed, move_ball, over_top, score, state_after_scoring,
};
use crate::coll::PlankCollisionData;
use crate::comp::{Ball, Plank, Side};
use crate::event::{ControllerEvent, ControllerQueue, QUEUE_SIZE};
use crate::fixed::{lemma_quotient_bounds, UNIT};
use crate::geometry::{Point2, Vector2};
use crate::plank_motion::{
    edge_of, lemma_plank_keeps_still, move_planks, plank_moved, reaches_bottom, reaches_top,
};
use crate::requests::{
    lemma_no_requests, lemma_requests_only_set_speeds, plank_after_events, read_input,
    round_starts, start_requested, state_after_events, wants_start,
};

verus! {

/// The speed of a plank whose key is held down.
pub const PLANK_VELOCITY: i32 = 2_000_000;

/// The speed at which the ball sets off.
pub const BALL_VELOCITY: i32 = 600_000;

/// The factor by which the ball gets faster each time a plank returns it.
pub const BALL_BOUNCE_VELOCITY_INCREASE: i32 = 1_200_000;

/// The state of the match: the two scores, whether a round is being played,
/// and the number of the round, which starts at one.
#[derive(Clone, Copy, PartialEq, Eq, Structural, Debug)]
pub struct GameState {
    pub left_score: u32,
    pub right_score: u32,
    pub round_active: bool,
    pub round: u32,
}

impl GameState {
    /// The state at the start of a match: no points, no round being played,
    /// and the first round ahead.
    pub fn new() -> (state: GameState)
        ensures
            state == (GameState { left_score: 0, right_score: 0, round_active: false, round: 1 }),
    {
        GameState { left_score: 0, right_score: 0, round_active: false, round: 1 }
    }

    /// Whether the number of the round is one more than the number of points
    /// scored, as it is when every round but the current one has ended with
    /// a point.
    pub open spec fn counts_rounds(self) -> bool {
        self.round == 1 + self.left_score + self.right_score
    }

    /// Whether another miss can be counted without running out of numbers.
    pub open spec fn has_room(self) -> bool {
        self.round < u32::MAX && self.left_score < u32::MAX && self.right_score < u32::MAX
    }
}

/// The edges of the court.
#[derive(Clone, Copy, PartialEq, Eq, Structural, Debug)]
pub struct Bounds {
    pub left: i32,
    pub right: i32,
    pub top: i32,
    pub bottom: i32,
}

impl Bounds {
    pub fn new(left: i32, right: i32, top: i32, bottom: i32) -> (bounds: Bounds)
        ensures
            bounds == (Bounds { left, right, top, bottom }),
    {
        Bounds { left, right, top, bottom }
    }
}

/// All that a frame changes: the planks, the ball and the state of the match.
pub struct Court {
    pub planks: Seq<Plank>,
    pub ball: Ball,
    pub state: GameState,
}

/// The edges that the planks present to the ball, in the order of the planks.
pub open spec fn edges_of(planks: Seq<Plank>, bounds: Bounds) -> Seq<PlankCollisionData> {
    Seq::new(planks.len(), |i: int| edge_of(planks[i], bounds))
}

/// The planks after the requests of a frame and `dt` nanoseconds.
pub open spec fn planks_after_frame(
    planks: Seq<Plank>,
    events: Seq<ControllerEvent>,
    dt: u64,
    bounds: Bounds,
) -> Seq<Plank> {
    Seq::new(
        planks.len(),
        |i: int| plank_moved(plank_after_events(planks[i], events), dt, bounds),
    )
}

/// The ball of a frame before the misses are counted: set off if a round
/// starts, moved, and sent back by the planks, then by the top and the bottom
/// of the court.
pub open spec fn ball_in_flight(
    court: Court,
    events: Seq<ControllerEvent>,
    dt: u64,
    bounds: Bounds,
    launch: Vector2,
) -> Ball {
    let ball = ball_launched(court.ball, round_starts(court.state, events), launch);
    let moved = ball_moved(ball, dt);
    let edges = edges_of(planks_after_frame(court.planks, events, dt, bounds), bounds);
    ball_after_walls(ball_after_edges(moved, edges, ball.position, moved.position), bounds)
}

/// The court after a frame with the given requests that lasts `dt`
/// nanoseconds, in which the ball sets off with the velocity `launch` if a
/// round starts.
pub open spec fn stepped(
    court: Court,
    events: Seq<ControllerEvent>,
    dt: u64,
    bounds: Bounds,
    launch: Vector2,
) -> Court {
    let flying = ball_in_flight(court, events, dt, bounds, launch);
    Court {
        planks: planks_after_frame(court.planks, events, dt, bounds),
        ball: ball_after_scoring(flying, bounds),
        state: state_after_scoring(state_after_events(court.state, events), flying, bounds),
    }
}

/// The court that the planks, the ball and the state of the match make up.
pub open spec fn court_of(planks: Vec<Plank>, ball: Ball, state: GameState) -> Court {
    Court { planks: planks@, ball, state }
}

/// Whether `after` and `miss` are what a frame makes of the court `before`:
/// the court after the frame, and the player who has missed the ball in it.
pub open spec fn is_frame(
    before: Court,
    after: Court,
    miss: Option<Side>,
    events: Seq<ControllerEvent>,
    dt: u64,
    bounds: Bounds,
    launch: Vector2,
) -> bool {
    &&& after == stepped(before, events, dt, bounds, launch)
    &&& miss == missed(ball_in_flight(before, events, dt, bounds, launch), bounds)
}

/// Runs one frame: applies the players' requests, moves the planks, moves the
/// ball, lets it bounce, and counts a miss. The frame lasts `dt`
/// nanoseconds. If a round starts in it, the ball sets off with the velocity
/// `launch`. Tells who has missed the ball, if anyone has.
pub fn step(
    planks: &mut Vec<Plank>,
    ball: &mut Ball,
    game_state: &mut GameState,
    events: &[ControllerEvent],
    dt: u64,
    bounds: &Bounds,
    launch: Vector2,
) -> (miss: Option<Side>)
    requires
        old(game_state).has_room(),
    ensures
        is_frame(
            court_of(*old(planks), *old(ball), *old(game_state)),
            court_of(*final(planks), *final(ball), *final(game_state)),
            miss,
            events@,
            dt,
            *bounds,
            launch,
        ),
{
    let start_ball: bool = read_input(planks, game_state, events);
    let edges: Vec<PlankCollisionData> = move_planks(planks, dt, bounds);
    if start_ball {
        ball.velocity = launch;
    }
    let (start, end): (Point2, Point2) = move_ball(ball, dt);
    bounce_off_planks(ball, &edges, &start, &end);
    bounce_off_walls(ball, bounds);
    proof {
        assert(planks@ =~= planks_after_frame(old(planks)@, events@, dt, *bounds));
        assert(edges@ =~= edges_of(planks@, *bounds));
    }
    score(ball, game_state, bounds)
}

/// A fair coin: `rand::random::<bool>()`. Nothing is claimed of the
/// outcome. The generator of the thread is set up on first use and gives up
/// if the system has no entropy to seed it with.
#[verifier::external_body]
fn random_bool() -> (outcome: bool) {
    rand::random::<bool>()
}

/// A number drawn from `low` up to, but not including, `high`:
/// `Rng::gen_range` on `rand::thread_rng()`, which draws from that half-open
/// range and refuses a range that is empty.
#[verifier::external_body]
fn random_in_range(low: i32, high: i32) -> (drawn: i32)
    requires
        low < high,
    ensures
        low <= drawn < high,
{
    rand::thread_rng().gen_range(low, high)
}

/// The simulation: it runs the frames of the game on the requests that it
/// finds in the queue.
pub struct PongSystem {}

impl PongSystem {
    pub fn new() -> (system: PongSystem) {
        PongSystem {}
    }

    /// Runs one frame on the requests that the queue gives: those that have
    /// come in since the frame before.
    ///
    /// A round that starts sets the ball off toward the left or the right by
    /// the toss of a coin, with a slope drawn between minus one and one; in a
    /// frame in which no round starts nothing is left to chance.
    pub fn run(
        &mut self,
        events: &mut ControllerQueue,
        planks: &mut Vec<Plank>,
        ball: &mut Ball,
        game_state: &mut GameState,
        dt: u64,
        bounds: &Bounds,
    ) -> (miss: Option<Side>)
        requires
            old(game_state).has_room(),
        ensures
            exists|toward_right: bool, slope: i32|
                -UNIT <= slope < UNIT && #[trigger] is_frame(
                    court_of(*old(planks), *old(ball), *old(game_state)),
                    court_of(*final(planks), *final(ball), *final(game_state)),
                    miss,
                    old(events).pending(),
                    dt,
                    *bounds,
                    launched(toward_right, slope),
                ),
            !round_starts(*old(game_state), old(events).pending()) ==> is_frame(
                court_of(*old(planks), *old(ball), *old(game_state)),
                court_of(*final(planks), *final(ball), *final(game_state)),
                miss,
                old(events).pending(),
                dt,
                *bounds,
                old(ball).velocity,
            ),
            final(events).pending() == Seq::<ControllerEvent>::empty(),
            final(events).room() == QUEUE_SIZE - 1,
    {
        let batch: Vec<ControllerEvent> = events.read();
        run_on(batch.as_slice(), planks, ball, game_state, dt, bounds)
    }
}

/// Runs one frame on the given requests. A round that starts sets the ball
/// off toward the left or the right by the toss of a coin, with a slope drawn
/// between minus one and one; in a frame in which no round starts nothing is
/// left to chance.
pub fn run_on(
    events: &[ControllerEvent],
    planks: &mut Vec<Plank>,
    ball: &mut Ball,
    game_state: &mut GameState,
    dt: u64,
    bounds: &Bounds,
) -> (miss: Option<Side>)
    requires
        old(game_state).has_room(),
    ensures
        exists|toward_right: bool, slope: i32|
            -UNIT <= slope < UNIT && #[trigger] is_frame(
                court_of(*old(planks), *old(ball), *old(game_state)),
                court_of(*final(planks), *final(ball), *final(game_state)),
                miss,
                events@,
                dt,
                *bounds,
                launched(toward_right, slope),
            ),
        !round_starts(*old(game_state), events@) ==> is_frame(
            court_of(*old(planks), *old(ball), *old(game_state)),
            court_of(*final(planks), *final(ball), *final(game_state)),
            miss,
            events@,
            dt,
            *bounds,
            old(ball).velocity,
        ),
{
    let toward_right: bool;
    let slope: i32;
    if !game_state.round_active && wants_start(events) {
        toward_right = random_bool();
        slope = random_in_range(-1_000_000, 1_000_000);
    } else {
        toward_right = true;
        slope = 0;
    }
    let launch: Vector2 = launch_velocity(toward_right, slope);
    let miss: Option<Side> = step(planks, ball, game_state, events, dt, bounds, launch);
    proof {
        let before = court_of(*old(planks), *old(ball), *old(game_state));
        let after = court_of(*planks, *ball, *game_state);
        assert(is_frame(before, after, miss, events@, dt, *bounds, launched(toward_right, slope)));
        if !round_starts(*old(game_state), events@) {
            lemma_launch_unused(before, events@, dt, *bounds, launch, old(ball).velocity);
        }
    }
    miss
}

/// In a frame in which no round starts, the velocity with which the ball
/// would set off makes no difference.
pub proof fn lemma_launch_unused(
    court: Court,
    events: Seq<ControllerEvent>,
    dt: u64,
    bounds: Bounds,
    launch: Vector2,
    other: Vector2,
)
    requires
        !round_starts(court.state, events),
    ensures
        stepped(court, events, dt, bounds, launch) == stepped(court, events, dt, bounds, other),
        ball_in_flight(court, events, dt, bounds, launch) == ball_in_flight(
            court,
            events,
            dt,
            bounds,
            other,
        ),
{
}

/// A ball that ends its flight beyond the left edge of the court is a miss
/// of the left player: the round is over, the next round is ahead, the right
/// player has one point more, and the ball is back at rest at the centre.
pub proof fn lemma_miss_on_the_left(
    court: Court,
    events: Seq<ControllerEvent>,
    dt: u64,
    bounds: Bounds,
    launch: Vector2,
)
    requires
        court.state.has_room(),
        ball_in_flight(court, events, dt, bounds, launch).position.x < bounds.left,
    ensures
        stepped(court, events, dt, bounds, launch).state == (GameState {
            left_score: court.state.left_score,
            right_score: (court.state.right_score + 1) as u32,
            round_active: false,
            round: (court.state.round + 1) as u32,
        }),
        stepped(court, events, dt, bounds, launch).state.round == court.state.round + 1,
        stepped(court, events, dt, bounds, launch).state.right_score == court.state.right_score
            + 1,
        stepped(court, events, dt, bounds, launch).ball.is_resting(),
{
}

/// A ball that ends its flight beyond the right edge of the court, and not
/// beyond the left one, is a miss of the right player: the round is over, the
/// next round is ahead, the left player has one point more, and the ball is
/// back at rest at the centre.
pub proof fn lemma_miss_on_the_right(
    court: Court,
    events: Seq<ControllerEvent>,
    dt: u64,
    bounds: Bounds,
    launch: Vector2,
)
    requires
        court.state.has_room(),
        ball_in_flight(court, events, dt, bounds, launch).position.x > bounds.right,
        ball_in_flight(court, events, dt, bounds, launch).position.x >= bounds.left,
    ensures
        stepped(court, events, dt, bounds, launch).state == (GameState {
            left_score: (court.state.left_score + 1) as u32,
            right_score: court.state.right_score,
            round_active: false,
            round: (court.state.round + 1) as u32,
        }),
        stepped(court, events, dt, bounds, launch).state.round == court.state.round + 1,
        stepped(court, events, dt, bounds, launch).state.left_score == court.state.left_score + 1,
        stepped(court, events, dt, bounds, launch).ball.is_resting(),
{
}

/// A ball that ends its flight between the left and the right edge of the
/// court is no miss: the scores and the number of the round stay, and a round
/// that is being played goes on.
pub proof fn lemma_no_miss_inside(
    court: Court,
    events: Seq<ControllerEvent>,
    dt: u64,
    bounds: Bounds,
    launch: Vector2,
)
    requires
        bounds.left <= ball_in_flight(court, events, dt, bounds, launch).position.x
            <= bounds.right,
    ensures
        stepped(court, events, dt, bounds, launch).state == state_after_events(
            court.state,
            events,
        ),
        stepped(court, events, dt, bounds, launch).ball == ball_in_flight(
            court,
            events,
            dt,
            bounds,
            launch,
        ),
{
}

/// A frame counts at most one miss, and the number of the round goes up by
/// as much as the two scores together. So a match in which the number of
/// the round is one more than the number of points stays that way.
pub proof fn lemma_rounds_are_counted(
    court: Court,
    events: Seq<ControllerEvent>,
    dt: u64,
    bounds: Bounds,
    launch: Vector2,
)
    requires
        court.state.has_room(),
    ensures
        ({
            let after = stepped(court, events, dt, bounds, launch).state;
            let points = (after.left_score - court.state.left_score) + (after.right_score
                - court.state.right_score);
            &&& after.left_score >= court.state.left_score
            &&& after.right_score >= court.state.right_score
            &&& 0 <= points <= 1
            &&& after.round - court.state.round == points
            &&& court.state.counts_rounds() ==> after.counts_rounds()
        }),
{
}

/// A frame changes neither the side nor the dimensions of a plank, nor the
/// radius of the ball, nor the number of planks; and the speeds of a plank
/// that were not negative before the frame are not negative after it.
pub proof fn lemma_frame_keeps_shapes(
    court: Court,
    events: Seq<ControllerEvent>,
    dt: u64,
    bounds: Bounds,
    launch: Vector2,
)
    ensures
        stepped(court, events, dt, bounds, launch).planks.len() == court.planks.len(),
        stepped(court, events, dt, bounds, launch).ball.radius == court.ball.radius,
        forall|i: int|
            0 <= i < court.planks.len() ==> {
                let before = #[trigger] court.planks[i];
                let after = stepped(court, events, dt, bounds, launch).planks[i];
                &&& after.side == before.side
                &&& after.dimensions == before.dimensions
                &&& before.velocity_up >= 0 ==> after.velocity_up >= 0
                &&& before.velocity_down >= 0 ==> after.velocity_down >= 0
            },
{
    let flying = ball_in_flight(court, events, dt, bounds, launch);
    let ball = ball_launched(court.ball, round_starts(court.state, events), launch);
    let moved = ball_moved(ball, dt);
    let edges = edges_of(planks_after_frame(court.planks, events, dt, bounds), bounds);
    lemma_edges_keep_radius(moved, edges, ball.position, moved.position);
    assert forall|i: int| 0 <= i < court.planks.len() implies {
        let before = #[trigger] court.planks[i];
        let after = stepped(court, events, dt, bounds, launch).planks[i];
        &&& after.side == before.side
        &&& after.dimensions == before.dimensions
        &&& before.velocity_up >= 0 ==> after.velocity_up >= 0
        &&& before.velocity_down >= 0 ==> after.velocity_down >= 0
    } by {
        lemma_requests_only_set_speeds(court.planks[i], events);
    }
}

/// Whether nothing on the court touches an edge: every plank is clear of the
/// top and the bottom, and so is the ball, which is also not beyond the left
/// or the right edge.
pub open spec fn at_ease(court: Court, bounds: Bounds) -> bool {
    &&& forall|i: int|
        0 <= i < court.planks.len() ==> !reaches_top(
            #[trigger] court.planks[i],
            court.planks[i].position as int,
            bounds,
        ) && !reaches_bottom(court.planks[i], court.planks[i].position as int, bounds)
    &&& !over_top(court.ball, bounds)
    &&& court.ball.position.y - court.ball.radius > bounds.bottom
    &&& bounds.left <= court.ball.position.x <= bounds.right
}

/// A frame without requests in which no time passes changes nothing on a
/// court where nothing touches an edge.
pub proof fn lemma_still_frame(court: Court, bounds: Bounds, launch: Vector2)
    requires
        at_ease(court, bounds),
    ensures
        stepped(court, Seq::empty(), 0, bounds, launch) == court,
{
    let none = Seq::<ControllerEvent>::empty();
    let after = stepped(court, none, 0, bounds, launch);
    assert(after.planks =~= court.planks) by {
        assert forall|i: int| 0 <= i < court.planks.len() implies after.planks[i]
            == court.planks[i] by {
            lemma_no_requests(court.planks[i]);
            lemma_plank_keeps_still(court.planks[i], bounds);
        }
    }
    lemma_quotient_bounds(0, 1_000_000_000);
    assert(court.ball.velocity.x * 0 == 0 && court.ball.velocity.y * 0 == 0) by (nonlinear_arith);
    assert(ball_moved(court.ball, 0) == court.ball);
    lemma_no_move_no_bounce(
        court.ball,
        edges_of(planks_after_frame(court.planks, none, 0, bounds), bounds),
        court.ball.position,
    );
}

/// Whether the centre of the court lies within the court with room for a
/// ball of the given radius to rest there.
pub open spec fn holds_resting_ball(bounds: Bounds, radius: i32) -> bool {
    &&& bounds.left <= 0 <= bounds.right
    &&& radius < bounds.top
    &&& -radius > bounds.bottom
}

/// While no round is being played the ball rests at the centre of the court:
/// if it does so before a frame, on a court with room for it, it does so
/// after the frame.
pub proof fn lemma_idle_ball_rests(
    court: Court,
    events: Seq<ControllerEvent>,
    dt: u64,
    bounds: Bounds,
    launch: Vector2,
)
    requires
        holds_resting_ball(bounds, court.ball.radius),
        !court.state.round_active ==> court.ball.is_resting(),
    ensures
        !stepped(court, events, dt, bounds, launch).state.round_active ==> stepped(
            court,
            events,
            dt,
            bounds,
            launch,
        ).ball.is_resting(),
{
    let after = stepped(court, events, dt, bounds, launch);
    let flying = ball_in_flight(court, events, dt, bounds, launch);
    if !after.state.round_active && missed(flying, bounds) is None {
        assert(!court.state.round_active && !start_requested(events));
        lemma_quotient_bounds(0, 1_000_000_000);
        assert(0 * dt == 0) by (nonlinear_arith);
        assert(ball_moved(court.ball, dt) == court.ball);
        lemma_no_move_no_bounce(
            court.ball,
            edges_of(planks_after_frame(court.planks, events, dt, bounds), bounds),
            court.ball.position,
        );
    }
}

/// A request to start a round while a round is being played changes
/// nothing, and a frame with several requests to start sets the ball off
/// once: the ball of the frame flies with the velocity given for the start
/// exactly when no round was being played and a start is requested.
pub proof fn lemma_round_starts_once(
    court: Court,
    events: Seq<ControllerEvent>,
    launch: Vector2,
)
    ensures
        ball_launched(court.ball, round_starts(court.state, events), launch) == (if
            !court.state.round_active && start_requested(events) {
            Ball { velocity: launch, ..court.ball }
        } else {
            court.ball
        }),
        state_after_events(court.state, events).round_active == (court.state.round_active
            || start_requested(events)),
{
}

} // verus!
