//! Exact fractions of pixel counts.
//!
//! A cursor position is reported as a fraction of the window's extent. The
//! fraction is kept as it is, numerator and denominator, so that nothing is
//! rounded and a window of extent zero needs no special treatment: the
//! fraction then has the denominator zero, and it is for the reader of the
//! event to decide what an infinite or undefined position means.

use vstd::prelude::*;

verus! {

/// The fraction `num / den`.
#[derive(Clone, Copy, PartialEq, Eq, Structural, Debug)]
pub struct Ratio {
    pub num: i64,
    pub den: u32,
}

/// What a fraction amounts to when it is read as a number.
#[derive(Clone, Copy, PartialEq, Eq, Structural, Debug)]
pub enum Magnitude {
    /// The denominator is not zero.
    Finite,
    /// A positive count divided by zero.
    PositiveInfinity,
    /// A negative count divided by zero.
    NegativeInfinity,
    /// Zero divided by zero.
    Undefined,
}

impl Ratio {
    /// Whether the fraction lies between zero and one, ends included.
    pub open spec fn in_unit_interval(self) -> bool {
        self.den > 0 && 0 <= self.num <= self.den
    }

    /// What the fraction amounts to when it is read as a number.
    pub open spec fn magnitude(self) -> Magnitude {
        if self.den != 0 {
            Magnitude::Finite
        } else if self.num > 0 {
            Magnitude::PositiveInfinity
        } else if self.num < 0 {
            Magnitude::NegativeInfinity
        } else {
            Magnitude::Undefined
        }
    }

    pub fn new(num: i64, den: u32) -> (ratio: Ratio)
        ensures
            ratio == (Ratio { num, den }),
    {
        Ratio { num, den }
    }

    /// The fraction `0 / 1`.
    pub fn zero() -> (ratio: Ratio)
        ensures
            ratio == (Ratio { num: 0, den: 1 }),
    {
        Ratio { num: 0, den: 1 }
    }

    /// Tells a finite fraction from the three outcomes of a division by zero.
    pub fn classify(&self) -> (magnitude: Magnitude)
        ensures
            magnitude == self.magnitude(),
    {
        if self.den != 0 {
            Magnitude::Finite
        } else if self.num > 0 {
            Magnitude::PositiveInfinity
        } else if self.num < 0 {
            Magnitude::NegativeInfinity
        } else {
            Magnitude::Undefined
        }
    }
}

} // verus!
