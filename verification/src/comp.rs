//! The things on the court: the ball and the two planks.

use vstd::prelude::*;
use crate::geometry::{Point2, Vector2};

verus! {

/// The radius of the ball.
pub const BALL_RADIUS: i32 = 20_000;

/// The width of a plank.
pub const PLANK_WIDTH: i32 = 10_000;

/// The height of a plank.
pub const PLANK_HEIGHT: i32 = 300_000;

/// The ball. While no round is being played it rests at the centre of the
/// court.
#[derive(Clone, Copy, PartialEq, Eq, Structural, Debug)]
pub struct Ball {
    pub position: Point2,
    pub velocity: Vector2,
    pub radius: i32,
}

impl Ball {
    /// A ball at rest at the centre of the court.
    pub fn new() -> (ball: Ball)
        ensures
            ball == Ball::resting(BALL_RADIUS),
    {
        Ball {
            position: Point2::new(0, 0),
            velocity: Vector2::new(0, 0),
            radius: BALL_RADIUS,
        }
    }

    /// The ball of the given radius at rest at the centre of the court.
    pub open spec fn resting(radius: i32) -> Ball {
        Ball { position: Point2 { x: 0, y: 0 }, velocity: Vector2 { x: 0, y: 0 }, radius }
    }

    /// Whether the ball is at rest at the centre of the court.
    pub open spec fn is_resting(self) -> bool {
        self == Ball::resting(self.radius)
    }
}

/// A side of the court, and the player who defends it.
#[derive(Clone, Copy, PartialEq, Eq, Structural, Debug)]
pub enum Side {
    Left,
    Right,
}

/// A direction in which a plank moves.
#[derive(Clone, Copy, PartialEq, Eq, Structural, Debug)]
pub enum Direction {
    Up,
    Down,
}

/// A plank. It moves along the vertical axis only: `position` is the height of
/// its centre. The two speeds are set independently, one by each of the
/// player's keys, and the plank moves by their difference.
#[derive(Clone, Copy, PartialEq, Eq, Structural, Debug)]
pub struct Plank {
    pub position: i32,
    pub velocity_up: i32,
    pub velocity_down: i32,
    pub dimensions: Vector2,
    pub side: Side,
}

impl Plank {
    /// A plank at rest at mid-height on the given side.
    pub fn new(side: Side) -> (plank: Plank)
        ensures
            plank == (Plank {
                position: 0,
                velocity_up: 0,
                velocity_down: 0,
                dimensions: Vector2 { x: PLANK_WIDTH, y: PLANK_HEIGHT },
                side,
            }),
    {
        Plank {
            position: 0,
            velocity_down: 0,
            velocity_up: 0,
            dimensions: Vector2::new(PLANK_WIDTH, PLANK_HEIGHT),
            side,
        }
    }
}

} // verus!
