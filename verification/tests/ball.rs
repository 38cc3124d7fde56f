use pong_core::ball_motion::{bounce_off_walls, launch_velocity, move_ball, score};
use pong_core::comp::{Ball, Side, BALL_RADIUS};
use pong_core::geometry::{Point2, Vector2};
use pong_core::system::{Bounds, GameState, BALL_VELOCITY};

fn court() -> Bounds {
    Bounds::new(-1_500_000, 1_500_000, 1_000_000, -1_000_000)
}

fn ball_at(x: i32, y: i32, vx: i32, vy: i32) -> Ball {
    let mut ball = Ball::new();
    ball.position = Point2::new(x, y);
    ball.velocity = Vector2::new(vx, vy);
    ball
}

#[test]
fn a_new_ball_rests_at_the_centre() {
    let ball = Ball::new();
    assert_eq!(ball.position, Point2::new(0, 0));
    assert_eq!(ball.velocity, Vector2::new(0, 0));
    assert_eq!(ball.radius, 20_000);
    assert_eq!(BALL_RADIUS, 20_000);
}

#[test]
fn a_level_launch_has_the_full_speed_across() {
    assert_eq!(launch_velocity(true, 0), Vector2::new(600_000, 0));
    assert_eq!(launch_velocity(false, 0), Vector2::new(-600_000, 0));
    assert_eq!(BALL_VELOCITY, 600_000);
}

#[test]
fn a_slanted_launch_shares_the_speed_between_the_directions() {
    assert_eq!(launch_velocity(true, 999_999), Vector2::new(424_264, 424_264));
    assert_eq!(launch_velocity(false, -1_000_000), Vector2::new(-424_264, -424_264));
    assert_eq!(launch_velocity(true, 500_000), Vector2::new(536_656, 268_328));
    assert_eq!(launch_velocity(false, -250_000), Vector2::new(-582_085, -145_521));
}

#[test]
fn a_launch_has_the_speed_of_the_ball_up_to_rounding() {
    for slope in [-1_000_000, -999_999, -333_333, -1, 0, 1, 7, 123_456, 707_107, 999_999] {
        assert_eq!(launch_velocity(true, slope).y, -launch_velocity(true, -slope).y);
        for toward_right in [true, false] {
            let v = launch_velocity(toward_right, slope);
            // The length by which the direction is divided is rounded down,
            // and so are the two coordinates.
            let square = (v.x as i64) * (v.x as i64) + (v.y as i64) * (v.y as i64);
            assert!(square <= 600_001i64 * 600_001);
            assert!(square >= 599_998i64 * 599_998);
            assert_eq!(v.x > 0, toward_right);
            assert!(v.y as i64 * slope as i64 >= 0);
            assert!(v.x.abs() <= 600_000 && v.y.abs() <= 600_000);
        }
    }
}

#[test]
fn a_slope_of_a_few_millionths_is_lost_in_rounding() {
    assert_eq!(launch_velocity(true, 1), Vector2::new(600_000, 0));
    assert_eq!(launch_velocity(true, -1), Vector2::new(600_000, 0));
    assert_eq!(launch_velocity(true, 2), Vector2::new(600_000, 1));
    assert_eq!(launch_velocity(false, -2), Vector2::new(-600_000, -1));
}

#[test]
fn a_launch_with_any_slope_stays_within_the_speed() {
    assert_eq!(launch_velocity(true, i32::MAX), Vector2::new(279, 599_999));
    assert_eq!(launch_velocity(false, i32::MIN), Vector2::new(-279, -599_999));
}

#[test]
fn the_ball_flies_by_its_velocity_times_the_time() {
    let mut ball = ball_at(100_000, -50_000, 600_000, -300_000);
    let (start, end) = move_ball(&mut ball, 500_000_000);
    assert_eq!(start, Point2::new(100_000, -50_000));
    assert_eq!(end, Point2::new(400_000, -200_000));
    assert_eq!(ball.position, end);
    assert_eq!(ball.velocity, Vector2::new(600_000, -300_000));
    assert_eq!(ball.radius, 20_000);
}

#[test]
fn the_ball_stays_where_it_is_when_no_time_passes() {
    let mut ball = ball_at(100_000, -50_000, 600_000, -300_000);
    let (start, end) = move_ball(&mut ball, 0);
    assert_eq!(start, end);
    assert_eq!(ball.position, Point2::new(100_000, -50_000));
}

#[test]
fn the_place_of_the_ball_saturates() {
    let mut ball = ball_at(i32::MAX - 5, i32::MIN + 5, i32::MAX, i32::MIN);
    move_ball(&mut ball, 1_000_000_000);
    assert_eq!(ball.position, Point2::new(i32::MAX, i32::MIN));
}

#[test]
fn the_top_sends_the_ball_back_by_twice_its_overshoot() {
    // The rim is at 1_010_000, that is 10_000 above the top.
    let mut ball = ball_at(0, 990_000, 100_000, 200_000);
    bounce_off_walls(&mut ball, &court());
    assert_eq!(ball.position, Point2::new(0, 970_000));
    assert_eq!(ball.velocity, Vector2::new(100_000, -200_000));
}

#[test]
fn the_bottom_sends_the_ball_back_by_twice_its_overshoot() {
    let mut ball = ball_at(5, -990_000, 100_000, -200_000);
    bounce_off_walls(&mut ball, &court());
    assert_eq!(ball.position, Point2::new(5, -970_000));
    assert_eq!(ball.velocity, Vector2::new(100_000, 200_000));
}

#[test]
fn a_ball_that_just_touches_the_top_turns_around_in_place() {
    let mut ball = ball_at(0, 980_000, 0, 200_000);
    bounce_off_walls(&mut ball, &court());
    assert_eq!(ball.position, Point2::new(0, 980_000));
    assert_eq!(ball.velocity, Vector2::new(0, -200_000));
}

#[test]
fn a_ball_clear_of_the_walls_is_left_alone() {
    let mut ball = ball_at(0, 979_999, 1, 200_000);
    bounce_off_walls(&mut ball, &court());
    assert_eq!(ball, ball_at(0, 979_999, 1, 200_000));
    let mut low = ball_at(0, -979_999, 1, -200_000);
    bounce_off_walls(&mut low, &court());
    assert_eq!(low, ball_at(0, -979_999, 1, -200_000));
}

#[test]
fn a_ball_far_above_a_low_court_is_sent_back_by_both_walls() {
    // Top at 100_000, bottom at -100_000, rim at 320_000: the top sends the
    // ball to -140_000, whose lower rim is 60_000 below the bottom.
    let mut ball = ball_at(0, 300_000, 0, 50_000);
    bounce_off_walls(&mut ball, &Bounds::new(-1_500_000, 1_500_000, 100_000, -100_000));
    assert_eq!(ball.position, Point2::new(0, -20_000));
    assert_eq!(ball.velocity, Vector2::new(0, 50_000));
}

#[test]
fn a_ball_beyond_the_left_edge_is_a_point_for_the_right() {
    let mut ball = ball_at(-1_500_001, 400_000, -600_000, 10);
    let mut state = GameState { left_score: 2, right_score: 3, round_active: true, round: 6 };
    let miss = score(&mut ball, &mut state, &court());
    assert_eq!(miss, Some(Side::Left));
    assert_eq!(ball, Ball::new());
    assert_eq!(state, GameState { left_score: 2, right_score: 4, round_active: false, round: 7 });
}

#[test]
fn a_ball_beyond_the_right_edge_is_a_point_for_the_left() {
    let mut ball = ball_at(1_500_001, 400_000, 600_000, 10);
    let mut state = GameState { left_score: 2, right_score: 3, round_active: true, round: 6 };
    let miss = score(&mut ball, &mut state, &court());
    assert_eq!(miss, Some(Side::Right));
    assert_eq!(ball, Ball::new());
    assert_eq!(state, GameState { left_score: 3, right_score: 3, round_active: false, round: 7 });
}

#[test]
fn a_ball_on_an_edge_of_the_court_is_still_in_play() {
    for x in [-1_500_000, 0, 1_500_000] {
        let mut ball = ball_at(x, 400_000, 600_000, 10);
        let mut state = GameState { left_score: 2, right_score: 3, round_active: true, round: 6 };
        assert_eq!(score(&mut ball, &mut state, &court()), None);
        assert_eq!(ball, ball_at(x, 400_000, 600_000, 10));
        assert_eq!(
            state,
            GameState { left_score: 2, right_score: 3, round_active: true, round: 6 }
        );
    }
}

#[test]
fn a_missed_ball_keeps_its_radius() {
    let mut ball = ball_at(-1_500_001, 0, 0, 0);
    ball.radius = 35_000;
    let mut state = GameState::new();
    score(&mut ball, &mut state, &court());
    assert_eq!(ball.radius, 35_000);
    assert_eq!(ball.position, Point2::new(0, 0));
}

#[test]
fn one_frame_counts_one_miss_even_on_a_court_turned_inside_out() {
    // The ball is beyond both edges, and so is the centre of the court.
    let mut ball = ball_at(0, 0, 0, 0);
    let mut state = GameState::new();
    let miss = score(&mut ball, &mut state, &Bounds::new(1, -1, 1_000_000, -1_000_000));
    assert_eq!(miss, Some(Side::Left));
    assert_eq!(state, GameState { left_score: 0, right_score: 1, round_active: false, round: 2 });
}
