//! Fixed-point arithmetic on world coordinates.
//!
//! A coordinate or a speed is an `i32` that counts millionths of a world unit
//! (per second, for a speed). Intermediate results are computed exactly in
//! wider integers and brought back into range by saturation, so that no
//! operation of the simulation can overflow.

use vstd::prelude::*;

verus! {

/// The number that stands for one world unit.
pub const UNIT: i32 = 1_000_000;

/// Nanoseconds in one second.
pub const NANOS_PER_SECOND: u64 = 1_000_000_000;

/// The value of `v` brought into the range of a stored coordinate.
pub open spec fn saturated(v: int) -> int {
    if v < i32::MIN {
        i32::MIN as int
    } else if v > i32::MAX {
        i32::MAX as int
    } else {
        v
    }
}

/// The quotient of `n` by a positive `d`, rounded toward zero.
pub open spec fn quotient(n: int, d: int) -> int {
    if n >= 0 {
        n / d
    } else {
        -((-n) / d)
    }
}

/// The distance covered in `dt` nanoseconds at `speed` millionths per second.
pub open spec fn travelled(speed: int, dt: int) -> int {
    quotient(speed * dt, NANOS_PER_SECOND as int)
}

/// The fixed-point product of `v` and `factor`.
pub open spec fn scaled(v: int, factor: int) -> int {
    quotient(v * factor, UNIT as int)
}

/// Whether `r` is the integer part of the square root of `n`.
pub open spec fn is_floor_sqrt(n: int, r: int) -> bool {
    0 <= r && r * r <= n < (r + 1) * (r + 1)
}

/// Rounding toward zero never moves a quotient away from zero, and keeps it
/// within the magnitude of the dividend.
pub proof fn lemma_quotient_bounds(n: int, d: int)
    requires
        d > 0,
    ensures
        n >= 0 ==> 0 <= quotient(n, d) <= n,
        n <= 0 ==> n <= quotient(n, d) <= 0,
        quotient(-n, d) == -quotient(n, d),
        quotient(0, d) == 0,
{
    if n >= 0 {
        assert(0 <= n / d <= n) by (nonlinear_arith)
            requires
                n >= 0,
                d > 0,
        ;
    } else {
        assert(0 <= (-n) / d <= -n) by (nonlinear_arith)
            requires
                -n >= 0,
                d > 0,
        ;
    }
}

/// Quotients by one divisor keep the order of their dividends.
pub proof fn lemma_quotient_monotonic(a: int, b: int, d: int)
    requires
        d > 0,
        a <= b,
    ensures
        quotient(a, d) <= quotient(b, d),
{
    lemma_quotient_bounds(a, d);
    lemma_quotient_bounds(b, d);
    if a >= 0 {
        assert(a / d <= b / d) by (nonlinear_arith)
            requires
                0 <= a <= b,
                d > 0,
        ;
    } else if b <= 0 {
        assert((-b) / d <= (-a) / d) by (nonlinear_arith)
            requires
                0 <= -b <= -a,
                d > 0,
        ;
    }
}

/// Brings an exact intermediate result into the range of a stored coordinate.
pub fn saturate(v: i128) -> (r: i32)
    ensures
        r == saturated(v as int),
{
    if v < -2147483648i128 {
        i32::MIN
    } else if v > 2147483647i128 {
        i32::MAX
    } else {
        v as i32
    }
}

/// Divides by a positive number, rounding toward zero.
pub(crate) fn divide(n: i128, d: i128) -> (q: i128)
    requires
        d > 0,
    ensures
        q == quotient(n as int, d as int),
{
    n / d
}

/// The distance covered in `dt` nanoseconds at `speed` millionths per second,
/// rounded toward zero.
pub fn distance(speed: i32, dt: u64) -> (r: i128)
    ensures
        r == travelled(speed as int, dt as int),
        -0x1_0000_0000_0000_0000_0000_0000 <= r <= 0x1_0000_0000_0000_0000_0000_0000,
{
    let s: i128 = speed as i128;
    let t: i128 = dt as i128;
    assert(-0x8000_0000 * 0x1_0000_0000_0000_0000 <= s * t <= 0x8000_0000
        * 0x1_0000_0000_0000_0000) by (nonlinear_arith)
        requires
            -0x8000_0000 <= s <= 0x8000_0000,
            0 <= t <= 0x1_0000_0000_0000_0000,
    ;
    let product: i128 = s * t;
    proof {
        lemma_quotient_bounds(product as int, NANOS_PER_SECOND as int);
    }
    divide(product, NANOS_PER_SECOND as i128)
}

/// The fixed-point product of `v` and `factor`, rounded toward zero.
pub fn scale(v: i32, factor: i32) -> (r: i128)
    ensures
        r == scaled(v as int, factor as int),
        -0x4000_0000_0000_0000 <= r <= 0x4000_0000_0000_0000,
{
    let a: i128 = v as i128;
    let b: i128 = factor as i128;
    assert(-0x8000_0000 * 0x8000_0000 <= a * b <= 0x8000_0000 * 0x8000_0000)
        by (nonlinear_arith)
        requires
            -0x8000_0000 <= a <= 0x8000_0000,
            -0x8000_0000 <= b <= 0x8000_0000,
    ;
    let product: i128 = a * b;
    proof {
        lemma_quotient_bounds(product as int, UNIT as int);
    }
    divide(product, UNIT as i128)
}

/// The integer part of the square root of `n`.
pub fn floor_sqrt(n: u64) -> (r: u64)
    ensures
        is_floor_sqrt(n as int, r as int),
        r < 0x1_0000_0000,
{
    let mut low: u64 = 0;
    let mut high: u64 = 0x1_0000_0000;
    while high - low > 1
        invariant
            low < high <= 0x1_0000_0000,
            low * low <= n,
            n < high * high,
        decreases high - low,
    {
        let middle: u64 = low + (high - low) / 2;
        assert(middle * middle < 0x1_0000_0000 * 0x1_0000_0000) by (nonlinear_arith)
            requires
                0 <= middle < 0x1_0000_0000,
        ;
        let square: u128 = (middle as u128) * (middle as u128);
        if square <= n as u128 {
            low = middle;
        } else {
            high = middle;
        }
    }
    low
}

/// The square root is unique: two integer parts of one root are equal.
pub proof fn lemma_floor_sqrt_unique(n: int, r: int, s: int)
    requires
        is_floor_sqrt(n, r),
        is_floor_sqrt(n, s),
    ensures
        r == s,
{
    if r < s {
        assert((r + 1) * (r + 1) <= s * s) by (nonlinear_arith)
            requires
                0 <= r,
                r + 1 <= s,
        ;
    } else if s < r {
        assert((s + 1) * (s + 1) <= r * r) by (nonlinear_arith)
            requires
                0 <= s,
                s + 1 <= r,
        ;
    }
}

} // verus!
