//! The players' requests: the first phase of a frame.
//!
//! A change in one of the four states that move a plank sets the speed of the
//! planks of its side in its direction. A request to start a round starts one
//! if none is being played. Nothing else is of concern here.

use vstd::prelude::*;
use crate::comp::{Direction, Plank, Side};
use crate::event::{ActionEvent, ControllerEvent, StateAction};
use crate::input::Action;
use crate::system::{GameState, PLANK_VELOCITY};

verus! {

/// The speed that a change of state asks for: the full speed of a plank
/// while its key is down, none once it is up.
pub open spec fn speed_for(state: StateAction) -> i32 {
    match state {
        StateAction::Activated => PLANK_VELOCITY,
        StateAction::Active => PLANK_VELOCITY,
        StateAction::Deactivated => 0,
    }
}

/// A plank after a change of state for the given side and direction: a plank
/// of that side has its speed in that direction set, any other is left alone.
pub open spec fn steered(plank: Plank, side: Side, direction: Direction, state: StateAction) -> Plank {
    if plank.side == side {
        match direction {
            Direction::Up => Plank { velocity_up: speed_for(state), ..plank },
            Direction::Down => Plank { velocity_down: speed_for(state), ..plank },
        }
    } else {
        plank
    }
}

/// A plank after a player's request: a change in one of the four states that
/// move a plank steers the planks of its side, and nothing else concerns a
/// plank.
pub open spec fn plank_after_event(plank: Plank, event: ControllerEvent) -> Plank {
    match event.payload {
        ActionEvent::State(action, state) => match action.moves() {
            Some(target) => steered(plank, target.0, target.1, state),
            None => plank,
        },
        _ => plank,
    }
}

/// A plank after a sequence of requests, applied in their order.
pub open spec fn plank_after_events(plank: Plank, events: Seq<ControllerEvent>) -> Plank
    decreases events.len(),
{
    if events.len() == 0 {
        plank
    } else {
        plank_after_event(plank_after_events(plank, events.drop_last()), events.last())
    }
}

/// Whether a request asks for a round to start.
pub open spec fn asks_to_start(event: ControllerEvent) -> bool {
    event.payload == ActionEvent::<Action>::Action(Action::StartRound)
}

/// Whether any of the requests asks for a round to start.
pub open spec fn start_requested(events: Seq<ControllerEvent>) -> bool {
    exists|i: int| 0 <= i < events.len() && asks_to_start(#[trigger] events[i])
}

/// Whether a round starts in a frame with these requests: one of them asks
/// for it, and no round is being played.
pub open spec fn round_starts(state: GameState, events: Seq<ControllerEvent>) -> bool {
    !state.round_active && start_requested(events)
}

/// The state of the match after the requests of a frame: a round is being
/// played if one was before or one starts.
pub open spec fn state_after_events(state: GameState, events: Seq<ControllerEvent>) -> GameState {
    GameState { round_active: state.round_active || start_requested(events), ..state }
}

/// Sets the speed in one direction of the planks of one side.
pub fn update_velocity(
    planks: &mut Vec<Plank>,
    side: Side,
    direction: Direction,
    state: StateAction,
)
    ensures
        final(planks)@.len() == old(planks)@.len(),
        forall|i: int|
            0 <= i < old(planks)@.len() ==> #[trigger] final(planks)@[i] == steered(
                old(planks)@[i],
                side,
                direction,
                state,
            ),
{
    let new_velocity: i32 = match state {
        StateAction::Activated | StateAction::Active => PLANK_VELOCITY,
        StateAction::Deactivated => 0,
    };
    let mut i: usize = 0;
    while i < planks.len()
        invariant
            0 <= i <= planks@.len(),
            planks@.len() == old(planks)@.len(),
            new_velocity == speed_for(state),
            forall|k: int|
                0 <= k < i ==> #[trigger] planks@[k] == steered(
                    old(planks)@[k],
                    side,
                    direction,
                    state,
                ),
            forall|k: int| i <= k < planks@.len() ==> #[trigger] planks@[k] == old(planks)@[k],
        decreases planks@.len() - i,
    {
        let mut plank: Plank = planks[i];
        if plank.side == side {
            match direction {
                Direction::Up => {
                    plank.velocity_up = new_velocity;
                },
                Direction::Down => {
                    plank.velocity_down = new_velocity;
                },
            }
        }
        planks[i] = plank;
        i += 1;
    }
}

/// Whether a request in `events` asks for a round to start.
pub fn wants_start(events: &[ControllerEvent]) -> (wanted: bool)
    ensures
        wanted == start_requested(events@),
{
    let mut i: usize = 0;
    while i < events.len()
        invariant
            0 <= i <= events@.len(),
            forall|k: int| 0 <= k < i ==> !asks_to_start(#[trigger] events@[k]),
        decreases events@.len() - i,
    {
        match events[i].payload {
            ActionEvent::Action(Action::StartRound) => {
                return true;
            },
            _ => {},
        }
        i += 1;
    }
    false
}

/// Applies the players' requests of one frame: sets the speeds of the planks
/// and, if a start is asked for while no round is being played, marks the
/// round as being played and tells so. However often a start is asked for
/// in one frame, the round starts once.
pub fn read_input(planks: &mut Vec<Plank>, game_state: &mut GameState, events: &[ControllerEvent]) -> (start_ball:
    bool)
    ensures
        final(planks)@.len() == old(planks)@.len(),
        forall|i: int|
            0 <= i < old(planks)@.len() ==> #[trigger] final(planks)@[i] == plank_after_events(
                old(planks)@[i],
                events@,
            ),
        *final(game_state) == state_after_events(*old(game_state), events@),
        start_ball == round_starts(*old(game_state), events@),
{
    let mut start_ball: bool = false;
    let mut i: usize = 0;
    assert(events@.take(0) =~= Seq::<ControllerEvent>::empty());
    while i < events.len()
        invariant
            0 <= i <= events@.len(),
            planks@.len() == old(planks)@.len(),
            forall|k: int|
                0 <= k < planks@.len() ==> #[trigger] planks@[k] == plank_after_events(
                    old(planks)@[k],
                    events@.take(i as int),
                ),
            *game_state == state_after_events(*old(game_state), events@.take(i as int)),
            start_ball == round_starts(*old(game_state), events@.take(i as int)),
        decreases events@.len() - i,
    {
        let event: ControllerEvent = events[i];
        let ghost before: Seq<Plank> = planks@;
        proof {
            lemma_one_more_request(events@, i as int);
        }
        match event.payload {
            ActionEvent::State(action, state) => {
                match action.paddle_move() {
                    Some((side, direction)) => {
                        update_velocity(planks, side, direction, state);
                    },
                    None => {},
                }
            },
            ActionEvent::Action(Action::StartRound) => {
                if !game_state.round_active {
                    game_state.round_active = true;
                    start_ball = true;
                }
            },
            _ => {},
        }
        proof {
            assert forall|k: int| 0 <= k < planks@.len() implies #[trigger] planks@[k]
                == plank_after_events(old(planks)@[k], events@.take(i + 1)) by {
                assert(before[k] == plank_after_events(old(planks)@[k], events@.take(i as int)));
                assert(planks@[k] == plank_after_event(before[k], event));
            }
        }
        i += 1;
    }
    assert(events@.take(events@.len() as int) =~= events@);
    start_ball
}

/// One more request is applied to what the requests before it have left, and
/// a start is requested with it if it was before or if it asks for one.
pub proof fn lemma_one_more_request(events: Seq<ControllerEvent>, i: int)
    requires
        0 <= i < events.len(),
    ensures
        events.take(i + 1).drop_last() == events.take(i),
        events.take(i + 1).last() == events[i],
        start_requested(events.take(i + 1)) <==> start_requested(events.take(i)) || asks_to_start(
            events[i],
        ),
{
    let shorter = events.take(i);
    let longer = events.take(i + 1);
    assert(longer.drop_last() =~= shorter);
    if start_requested(shorter) {
        let k = choose|k: int| 0 <= k < shorter.len() && asks_to_start(#[trigger] shorter[k]);
        assert(asks_to_start(longer[k]));
    }
    if asks_to_start(events[i]) {
        assert(asks_to_start(longer[i]));
    }
    if start_requested(longer) {
        let k = choose|k: int| 0 <= k < longer.len() && asks_to_start(#[trigger] longer[k]);
        if k < i {
            assert(asks_to_start(shorter[k]));
        }
    }
}

/// Without requests a plank is left as it is.
pub proof fn lemma_no_requests(plank: Plank)
    ensures
        plank_after_events(plank, Seq::empty()) == plank,
        !start_requested(Seq::empty()),
{
}

/// A request sets a speed of a plank to nothing or to the full speed, or
/// leaves it alone; it never touches anything else of the plank.
pub proof fn lemma_requests_only_set_speeds(plank: Plank, events: Seq<ControllerEvent>)
    ensures
        ({
            let after = plank_after_events(plank, events);
            &&& after.position == plank.position
            &&& after.dimensions == plank.dimensions
            &&& after.side == plank.side
            &&& after.velocity_up == plank.velocity_up || after.velocity_up == 0
                || after.velocity_up == PLANK_VELOCITY
            &&& after.velocity_down == plank.velocity_down || after.velocity_down == 0
                || after.velocity_down == PLANK_VELOCITY
        }),
    decreases events.len(),
{
    if events.len() > 0 {
        lemma_requests_only_set_speeds(plank, events.drop_last());
    }
}

} // verus!
