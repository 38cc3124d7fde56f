use pong_core::comp::{Ball, Plank, Side};
use pong_core::event::{
    requests_to_apply, ActionEvent, ControllerEvent, ControllerQueue, ReadError, StateAction,
};
use pong_core::geometry::{Point2, Vector2};
use pong_core::input::Action;
use pong_core::requests::{read_input, wants_start};
use pong_core::system::{run_on, step, Bounds, GameState, PongSystem};

fn court() -> Bounds {
    Bounds::new(-1_500_000, 1_500_000, 1_000_000, -1_000_000)
}

fn planks() -> Vec<Plank> {
    vec![Plank::new(Side::Left), Plank::new(Side::Right)]
}

fn act(action: Action) -> ControllerEvent {
    ControllerEvent::new(ActionEvent::Action(action))
}

fn state(action: Action, state: StateAction) -> ControllerEvent {
    ControllerEvent::new(ActionEvent::State(action, state))
}

const TENTH: u64 = 100_000_000;

#[test]
fn a_match_starts_without_points_in_round_one() {
    let state = GameState::new();
    assert_eq!(state.left_score, 0);
    assert_eq!(state.right_score, 0);
    assert!(!state.round_active);
    assert_eq!(state.round, 1);
}

#[test]
fn the_four_states_steer_the_two_planks() {
    let mut planks = planks();
    let mut game = GameState::new();
    let events = vec![
        state(Action::LeftPaddleUp, StateAction::Activated),
        state(Action::RightPaddleDown, StateAction::Activated),
    ];
    assert!(!read_input(&mut planks, &mut game, &events));
    assert_eq!((planks[0].velocity_up, planks[0].velocity_down), (2_000_000, 0));
    assert_eq!((planks[1].velocity_up, planks[1].velocity_down), (0, 2_000_000));
    let more = vec![
        state(Action::LeftPaddleUp, StateAction::Deactivated),
        state(Action::LeftPaddleDown, StateAction::Active),
        state(Action::RightPaddleUp, StateAction::Activated),
    ];
    read_input(&mut planks, &mut game, &more);
    assert_eq!((planks[0].velocity_up, planks[0].velocity_down), (0, 2_000_000));
    assert_eq!((planks[1].velocity_up, planks[1].velocity_down), (2_000_000, 2_000_000));
    assert_eq!(game, GameState::new());
}

#[test]
fn requests_are_applied_in_their_order() {
    let mut planks = planks();
    let mut game = GameState::new();
    let events = vec![
        state(Action::LeftPaddleUp, StateAction::Activated),
        state(Action::LeftPaddleUp, StateAction::Deactivated),
        state(Action::RightPaddleUp, StateAction::Deactivated),
        state(Action::RightPaddleUp, StateAction::Activated),
    ];
    read_input(&mut planks, &mut game, &events);
    assert_eq!(planks[0].velocity_up, 0);
    assert_eq!(planks[1].velocity_up, 2_000_000);
}

#[test]
fn requests_that_move_no_plank_are_ignored() {
    let mut planks = planks();
    let mut game = GameState::new();
    let events = vec![
        act(Action::Exit),
        act(Action::LeftPaddleUp),
        state(Action::Exit, StateAction::Activated),
        state(Action::StartRound, StateAction::Activated),
        ControllerEvent::new(ActionEvent::Range(Action::LeftPaddleUp, 500_000)),
        ControllerEvent::new(ActionEvent::Range(Action::StartRound, 1)),
    ];
    assert!(!wants_start(&events));
    assert!(!read_input(&mut planks, &mut game, &events));
    assert_eq!(planks, vec![Plank::new(Side::Left), Plank::new(Side::Right)]);
    assert_eq!(game, GameState::new());
}

#[test]
fn a_start_is_taken_once_however_often_it_is_asked_for() {
    let mut planks = planks();
    let mut game = GameState::new();
    let events = vec![act(Action::StartRound), act(Action::StartRound), act(Action::StartRound)];
    assert!(wants_start(&events));
    assert!(read_input(&mut planks, &mut game, &events));
    assert!(game.round_active);
    assert_eq!(game.round, 1);
    // The round is being played now: asking again starts nothing.
    assert!(!read_input(&mut planks, &mut game, &events));
    assert!(game.round_active);
}

#[test]
fn a_plank_moves_in_the_frame_in_which_its_key_goes_down() {
    let mut planks = planks();
    let mut ball = Ball::new();
    let mut game = GameState::new();
    let events = vec![state(Action::LeftPaddleUp, StateAction::Activated)];
    let miss = step(&mut planks, &mut ball, &mut game, &events, TENTH, &court(), Vector2::new(1, 1));
    assert_eq!(miss, None);
    assert_eq!(planks[0].position, 200_000);
    assert_eq!(planks[1].position, 0);
    assert_eq!(ball, Ball::new());
    assert_eq!(game, GameState::new());
}

#[test]
fn a_round_that_starts_sets_the_ball_off_in_the_same_frame() {
    let mut planks = planks();
    let mut ball = Ball::new();
    let mut game = GameState::new();
    let events = vec![act(Action::StartRound)];
    let launch = Vector2::new(-600_000, 300_000);
    let miss = step(&mut planks, &mut ball, &mut game, &events, TENTH, &court(), launch);
    assert_eq!(miss, None);
    assert_eq!(ball.velocity, launch);
    assert_eq!(ball.position, Point2::new(-60_000, 30_000));
    assert!(game.round_active);
    assert_eq!((game.round, game.left_score, game.right_score), (1, 0, 0));
}

#[test]
fn a_start_while_a_round_is_played_changes_nothing() {
    let mut planks = planks();
    let mut ball = Ball::new();
    ball.velocity = Vector2::new(100_000, 0);
    let mut game = GameState { left_score: 1, right_score: 0, round_active: true, round: 2 };
    let events = vec![act(Action::StartRound)];
    step(&mut planks, &mut ball, &mut game, &events, TENTH, &court(), Vector2::new(-600_000, 0));
    assert_eq!(ball.velocity, Vector2::new(100_000, 0));
    assert_eq!(ball.position, Point2::new(10_000, 0));
    assert_eq!(game, GameState { left_score: 1, right_score: 0, round_active: true, round: 2 });
}

#[test]
fn a_ball_driven_past_the_left_edge_ends_the_round() {
    let mut planks = planks();
    let mut ball = Ball::new();
    let mut game = GameState::new();
    // The round starts and the ball sets off to the left, above the plank.
    let start = vec![act(Action::StartRound)];
    let launch = Vector2::new(-600_000, 120_000);
    let none: Vec<ControllerEvent> = Vec::new();
    assert_eq!(step(&mut planks, &mut ball, &mut game, &start, 0, &court(), launch), None);
    assert!(game.round_active);
    // Two seconds later it is at -1_200_000; the third second takes it past
    // the plank's edge at the height 298_000 and out of the court.
    let second: u64 = 1_000_000_000;
    assert_eq!(step(&mut planks, &mut ball, &mut game, &none, 2 * second, &court(), launch), None);
    assert_eq!(ball.position, Point2::new(-1_200_000, 240_000));
    let miss = step(&mut planks, &mut ball, &mut game, &none, second, &court(), launch);
    assert_eq!(miss, Some(Side::Left));
    assert_eq!(game, GameState { left_score: 0, right_score: 1, round_active: false, round: 2 });
    assert_eq!(ball.position, Point2::new(0, 0));
    assert_eq!(ball.velocity, Vector2::new(0, 0));
}

#[test]
fn a_ball_driven_past_the_right_edge_is_a_point_for_the_left() {
    let mut planks = planks();
    let mut ball = Ball::new();
    ball.position = Point2::new(1_400_000, 500_000);
    ball.velocity = Vector2::new(600_000, 0);
    let mut game = GameState { left_score: 4, right_score: 1, round_active: true, round: 6 };
    let miss = step(&mut planks, &mut ball, &mut game, &[], 1_000_000_000, &court(), Vector2::new(0, 0));
    assert_eq!(miss, Some(Side::Right));
    assert_eq!(game, GameState { left_score: 5, right_score: 1, round_active: false, round: 7 });
    assert_eq!(ball, Ball::new());
}

#[test]
fn a_plank_in_the_way_returns_the_ball() {
    let mut planks = planks();
    let mut ball = Ball::new();
    ball.position = Point2::new(-1_450_000, 100_000);
    ball.velocity = Vector2::new(-600_000, 0);
    let mut game = GameState { left_score: 0, right_score: 0, round_active: true, round: 1 };
    // The ball gets to -1_510_000, 20_000 behind the edge at -1_490_000.
    let miss = step(&mut planks, &mut ball, &mut game, &[], TENTH, &court(), Vector2::new(0, 0));
    assert_eq!(miss, None);
    assert_eq!(ball.position, Point2::new(-1_470_000, 100_000));
    assert_eq!(ball.velocity, Vector2::new(720_000, 0));
    assert!(game.round_active);
}

#[test]
fn the_plank_is_where_it_has_moved_to_when_the_ball_arrives() {
    let mut planks = planks();
    planks[0].position = 400_000;
    let mut ball = Ball::new();
    ball.position = Point2::new(-1_450_000, 100_000);
    ball.velocity = Vector2::new(-600_000, 0);
    let mut game = GameState { left_score: 0, right_score: 0, round_active: true, round: 1 };
    // The plank comes down by 200_000 in this frame and just covers the
    // height of the ball with its lower end at 50_000.
    let events = vec![state(Action::LeftPaddleDown, StateAction::Activated)];
    let miss = step(&mut planks, &mut ball, &mut game, &events, TENTH, &court(), Vector2::new(0, 0));
    assert_eq!(miss, None);
    assert_eq!(planks[0].position, 200_000);
    assert_eq!(ball.velocity, Vector2::new(720_000, 0));
    // Left where it was, the plank would have been too high.
    let mut planks = vec![Plank::new(Side::Left), Plank::new(Side::Right)];
    planks[0].position = 400_000;
    let mut ball = Ball::new();
    ball.position = Point2::new(-1_450_000, 100_000);
    ball.velocity = Vector2::new(-600_000, 0);
    let miss = step(&mut planks, &mut ball, &mut game, &[], TENTH, &court(), Vector2::new(0, 0));
    assert_eq!(miss, Some(Side::Left));
}

#[test]
fn an_empty_frame_without_time_changes_nothing() {
    let mut planks = planks();
    planks[0].position = 300_000;
    planks[0].velocity_up = 2_000_000;
    planks[1].position = -849_999;
    planks[1].velocity_down = 2_000_000;
    let mut ball = Ball::new();
    ball.position = Point2::new(-1_500_000, 979_999);
    ball.velocity = Vector2::new(-600_000, 424_264);
    let mut game = GameState { left_score: 7, right_score: 9, round_active: true, round: 17 };
    let before = (planks.clone(), ball, game);
    for _ in 0..3 {
        let miss = step(&mut planks, &mut ball, &mut game, &[], 0, &court(), Vector2::new(5, 5));
        assert_eq!(miss, None);
        assert_eq!((planks.clone(), ball, game), before);
    }
}

#[test]
fn an_empty_frame_without_time_still_holds_what_touches_an_edge() {
    let mut planks = planks();
    planks[0].position = 900_000;
    planks[0].velocity_up = 2_000_000;
    let mut ball = Ball::new();
    ball.position = Point2::new(0, 990_000);
    ball.velocity = Vector2::new(0, 100_000);
    let mut game = GameState { left_score: 0, right_score: 0, round_active: true, round: 1 };
    step(&mut planks, &mut ball, &mut game, &[], 0, &court(), Vector2::new(5, 5));
    assert_eq!(planks[0].position, 850_000);
    assert_eq!(planks[0].velocity_up, 0);
    assert_eq!(ball.position, Point2::new(0, 970_000));
    assert_eq!(ball.velocity, Vector2::new(0, -100_000));
}

#[test]
fn the_round_is_one_more_than_the_points_all_along() {
    let mut planks = planks();
    let mut ball = Ball::new();
    let mut game = GameState::new();
    let start = vec![act(Action::StartRound)];
    for round in 0..6u32 {
        let launch = if round % 2 == 0 {
            Vector2::new(-600_000, 500_000)
        } else {
            Vector2::new(600_000, -500_000)
        };
        step(&mut planks, &mut ball, &mut game, &start, 0, &court(), launch);
        assert!(game.round_active);
        let mut frames = 0;
        while game.round_active {
            step(&mut planks, &mut ball, &mut game, &[], 50_000_000, &court(), launch);
            assert_eq!(game.round, 1 + game.left_score + game.right_score);
            frames += 1;
            assert!(frames < 1000);
        }
        assert_eq!(ball, Ball::new());
        assert_eq!(game.round, round + 2);
    }
    assert_eq!((game.left_score, game.right_score), (3, 3));
}

#[test]
fn a_frame_reads_what_has_come_in_since_the_frame_before() {
    let mut system = PongSystem::new();
    let mut planks = planks();
    let mut ball = Ball::new();
    let mut game = GameState::new();
    let mut queue = ControllerQueue::new();
    // Nothing has come in yet.
    system.run(&mut queue, &mut planks, &mut ball, &mut game, TENTH, &court());
    assert_eq!(planks, vec![Plank::new(Side::Left), Plank::new(Side::Right)]);
    queue.write_single(state(Action::RightPaddleUp, StateAction::Activated));
    system.run(&mut queue, &mut planks, &mut ball, &mut game, TENTH, &court());
    assert_eq!(planks[1].position, 200_000);
    assert_eq!(planks[0].position, 0);
    // Nothing new: the plank goes on at the speed it has.
    system.run(&mut queue, &mut planks, &mut ball, &mut game, TENTH, &court());
    assert_eq!(planks[1].position, 400_000);
    queue.write_single(state(Action::RightPaddleUp, StateAction::Deactivated));
    queue.write_single(state(Action::LeftPaddleDown, StateAction::Activated));
    system.run(&mut queue, &mut planks, &mut ball, &mut game, TENTH, &court());
    assert_eq!(planks[1].position, 400_000);
    assert_eq!(planks[0].position, -200_000);
    assert_eq!(game, GameState::new());
    assert_eq!(ball, Ball::new());
}

#[test]
fn the_queue_gives_each_request_once_and_in_order() {
    let mut queue = ControllerQueue::new();
    assert_eq!(queue.read(), Vec::new());
    queue.write_single(act(Action::StartRound));
    queue.write_single(act(Action::Exit));
    assert_eq!(queue.read(), vec![act(Action::StartRound), act(Action::Exit)]);
    assert_eq!(queue.read(), Vec::new());
    queue.write_single(state(Action::LeftPaddleUp, StateAction::Active));
    assert_eq!(queue.read(), vec![state(Action::LeftPaddleUp, StateAction::Active)]);
}

#[test]
fn a_reader_that_has_fallen_behind_gets_what_the_queue_still_holds() {
    let mut queue = ControllerQueue::new();
    // Far more requests than the queue can hold; the last of them are the
    // release of one key and the press of another.
    for _ in 0..1000 {
        queue.write_single(state(Action::LeftPaddleUp, StateAction::Activated));
    }
    queue.write_single(state(Action::LeftPaddleUp, StateAction::Deactivated));
    queue.write_single(state(Action::RightPaddleDown, StateAction::Activated));
    let mut system = PongSystem::new();
    let mut planks = planks();
    let mut ball = Ball::new();
    let mut game = GameState::new();
    system.run(&mut queue, &mut planks, &mut ball, &mut game, 0, &court());
    assert_eq!((planks[0].velocity_up, planks[0].velocity_down), (0, 0));
    assert_eq!((planks[1].velocity_up, planks[1].velocity_down), (0, 2_000_000));
    assert_eq!(queue.read(), Vec::new());
}

#[test]
fn what_a_failed_read_has_kept_is_applied() {
    let kept = vec![act(Action::StartRound)];
    assert_eq!(requests_to_apply(Ok(kept.clone())), kept);
    assert_eq!(requests_to_apply(Err(ReadError::LostData(kept.clone(), 3))), kept);
    assert_eq!(requests_to_apply(Err(ReadError::InvalidReader)), Vec::new());
    assert_eq!(requests_to_apply(Err(ReadError::TooLargeWrite)), Vec::new());
}

#[test]
fn a_round_run_by_the_system_sets_the_ball_off_at_its_speed() {
    let mut lefts = 0;
    let mut rights = 0;
    let mut heights = Vec::new();
    for _ in 0..64 {
        let mut system = PongSystem::new();
        let mut planks = planks();
        let mut ball = Ball::new();
        let mut game = GameState::new();
        let mut queue = ControllerQueue::new();
        queue.write_single(act(Action::StartRound));
        let miss = system.run(&mut queue, &mut planks, &mut ball, &mut game, 0, &court());
        assert_eq!(miss, None);
        assert!(game.round_active);
        assert_eq!(ball.position, Point2::new(0, 0));
        let v = ball.velocity;
        let square = (v.x as i64) * (v.x as i64) + (v.y as i64) * (v.y as i64);
        assert!(square <= 600_001i64 * 600_001);
        assert!(square >= 599_998i64 * 599_998);
        // The slope is between minus one and one, so the ball flies more
        // across than up or down.
        assert!(v.x.abs() >= 424_264);
        assert!(v.y.abs() <= 424_264);
        if v.x < 0 {
            lefts += 1;
        } else {
            rights += 1;
        }
        if !heights.contains(&v.y) {
            heights.push(v.y);
        }
    }
    // Sixty-four tosses of a fair coin, and as many draws of a slope.
    assert!(lefts > 0);
    assert!(rights > 0);
    assert!(heights.len() > 1);
}

#[test]
fn a_frame_in_which_no_round_starts_leaves_nothing_to_chance() {
    let mut planks = planks();
    let mut ball = Ball::new();
    ball.velocity = Vector2::new(-300_000, 0);
    let mut game = GameState { left_score: 0, right_score: 0, round_active: true, round: 1 };
    let events = vec![act(Action::StartRound)];
    run_on(&[], &mut planks, &mut ball, &mut game, TENTH, &court());
    assert_eq!(ball.position, Point2::new(-30_000, 0));
    run_on(&events, &mut planks, &mut ball, &mut game, TENTH, &court());
    assert_eq!(ball.position, Point2::new(-60_000, 0));
    assert_eq!(ball.velocity, Vector2::new(-300_000, 0));
    let mut idle = GameState::new();
    let mut resting = Ball::new();
    run_on(&[], &mut planks, &mut resting, &mut idle, TENTH, &court());
    assert_eq!(resting, Ball::new());
    assert_eq!(idle, GameState::new());
}
