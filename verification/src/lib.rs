//! Frame-by-frame core of a two-player game of planks and ball.
//!
//! The crate has two halves. The first turns the events of a window into a
//! uniform stream of device events, keeping track of the size of the window
//! and of the last position of the cursor ([`input_mapper`], [`keycode`],
//! [`ratio`]). The second advances two planks and a ball by one frame
//! ([`system`]): it applies the players' requests ([`requests`]), moves the
//! planks ([`plank_motion`]), moves the ball, lets it bounce off the planks
//! ([`coll`], [`geometry`]) and off the walls, and keeps the score
//! ([`ball_motion`]). Between the two halves stands a binding engine that is
//! not part of this crate; what comes out of it is sorted into the queues
//! from which the game reads ([`event`]).
//!
//! All quantities are integers ([`fixed`]). World coordinates and speeds are
//! counted in millionths of a world unit, elapsed time in nanoseconds, and the
//! position of the cursor is an exact fraction of the size of the window.
//! Results that do not fit are brought to the nearest end of the range, so
//! that every function is defined on all its inputs.

pub mod ball_motion;
pub mod coll;
pub mod comp;
pub mod event;
pub mod fixed;
pub mod geometry;
pub mod hello;
pub mod input;
pub mod input_mapper;
pub mod keycode;
pub mod plank_motion;
pub mod ratio;
pub mod requests;
pub mod system;
