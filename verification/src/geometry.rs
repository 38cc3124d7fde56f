//! Points, vectors and the intersection of a ray with a line segment.
//!
//! Whether a ray meets a segment is decided exactly, by the signs of cross
//! products of integer coordinates; only the coordinates of the meeting point
//! are rounded, toward the origin of the ray.

use vstd::prelude::*;
use crate::fixed::{divide, lemma_quotient_monotonic, quotient};

verus! {

/// A position in the plane.
#[derive(Clone, Copy, PartialEq, Eq, Structural, Debug)]
pub struct Point2 {
    pub x: i32,
    pub y: i32,
}

/// A displacement or a velocity in the plane.
#[derive(Clone, Copy, PartialEq, Eq, Structural, Debug)]
pub struct Vector2 {
    pub x: i32,
    pub y: i32,
}

impl Point2 {
    pub fn new(x: i32, y: i32) -> (p: Point2)
        ensures
            p == (Point2 { x, y }),
    {
        Point2 { x, y }
    }
}

impl Vector2 {
    pub fn new(x: i32, y: i32) -> (v: Vector2)
        ensures
            v == (Vector2 { x, y }),
    {
        Vector2 { x, y }
    }
}

/// The perpendicular dot product of `(ax, ay)` and `(bx, by)`: positive when
/// the second vector points to the left of the first.
pub open spec fn perp(ax: int, ay: int, bx: int, by: int) -> int {
    ax * by - ay * bx
}

/// The dot product of `(ax, ay)` and `(bx, by)`.
pub open spec fn dot(ax: int, ay: int, bx: int, by: int) -> int {
    ax * bx + ay * by
}

/// Where the ray from `(ox, oy)` in direction `(rx, ry)` meets the segment from
/// `(ax, ay)` to `(bx, by)`, if it does.
///
/// A ray without direction meets nothing. A ray that runs along the line of
/// the segment meets it at the ray's origin when the origin lies on the
/// segment, and at the nearer end when the segment lies ahead. Any other ray
/// meets the segment where its line crosses it, provided that the crossing is
/// not behind the origin and not beyond either end of the segment. The
/// crossing is `t` times the direction away from the origin, with `t` the
/// ratio of two cross products; its coordinates are rounded toward the origin.
pub open spec fn crossing(
    ox: int,
    oy: int,
    rx: int,
    ry: int,
    ax: int,
    ay: int,
    bx: int,
    by: int,
) -> Option<(int, int)> {
    let sx = bx - ax;
    let sy = by - ay;
    let qx = ax - ox;
    let qy = ay - oy;
    let turn = perp(rx, ry, sx, sy);
    let side = perp(qx, qy, rx, ry);
    let along = perp(qx, qy, sx, sy);
    if rx == 0 && ry == 0 {
        None
    } else if turn == 0 {
        let near = dot(qx, qy, rx, ry);
        let far = dot(bx - ox, by - oy, rx, ry);
        if side != 0 {
            None
        } else if (near <= 0 && far >= 0) || (near >= 0 && far <= 0) {
            Some((ox, oy))
        } else if near >= 0 && far >= 0 {
            if near <= far {
                Some((ax, ay))
            } else {
                Some((bx, by))
            }
        } else {
            None
        }
    } else {
        let den = if turn > 0 { turn } else { -turn };
        let t = if turn > 0 { along } else { -along };
        let u = if turn > 0 { side } else { -side };
        if 0 <= t && 0 <= u <= den {
            Some((ox + quotient(t * rx, den), oy + quotient(t * ry, den)))
        } else {
            None
        }
    }
}

/// Whether an optional point holds the given coordinates.
pub open spec fn is_at(hit: Option<Point2>, place: Option<(int, int)>) -> bool {
    match (hit, place) {
        (Some(p), Some(c)) => p.x == c.0 && p.y == c.1,
        (None, None) => true,
        _ => false,
    }
}

/// Whether `v` lies between `a` and `b`, in either order, ends included.
pub open spec fn between(v: int, a: int, b: int) -> bool {
    (a <= v <= b) || (b <= v <= a)
}

/// One coordinate of a crossing lies between the segment's ends.
///
/// `t` over `den` is the crossing's place along the ray and `u` over `den` its
/// place along the segment; `q` is the segment's start seen from the ray's
/// origin and `s` the segment's extent, both along the coordinate.
proof fn lemma_rounded_within(t: int, r: int, u: int, den: int, q: int, s: int)
    requires
        den > 0,
        0 <= u <= den,
        t * r == q * den + u * s,
    ensures
        between(quotient(t * r, den), q, q + s),
{
    let n = t * r;
    assert(quotient(q * den, den) == q) by {
        if q >= 0 {
            assert(q * den >= 0) by (nonlinear_arith)
                requires
                    q >= 0,
                    den > 0,
            ;
            assert((q * den) / den == q) by (nonlinear_arith)
                requires
                    den > 0,
            ;
        } else {
            assert(q * den < 0) by (nonlinear_arith)
                requires
                    q < 0,
                    den > 0,
            ;
            assert(-(q * den) == (-q) * den) by (nonlinear_arith);
            assert(((-q) * den) / den == -q) by (nonlinear_arith)
                requires
                    den > 0,
            ;
        }
    }
    let e = q + s;
    assert(quotient(e * den, den) == e) by {
        if e >= 0 {
            assert(e * den >= 0) by (nonlinear_arith)
                requires
                    e >= 0,
                    den > 0,
            ;
            assert((e * den) / den == e) by (nonlinear_arith)
                requires
                    den > 0,
            ;
        } else {
            assert(e * den < 0) by (nonlinear_arith)
                requires
                    e < 0,
                    den > 0,
            ;
            assert(-(e * den) == (-e) * den) by (nonlinear_arith);
            assert(((-e) * den) / den == -e) by (nonlinear_arith)
                requires
                    den > 0,
            ;
        }
    }
    assert(e * den == q * den + den * s) by (nonlinear_arith)
        requires
            e == q + s,
    ;
    if s >= 0 {
        assert(0 <= u * s <= den * s) by (nonlinear_arith)
            requires
                0 <= u <= den,
                s >= 0,
        ;
        lemma_quotient_monotonic(q * den, n, den);
        lemma_quotient_monotonic(n, e * den, den);
    } else {
        assert(den * s <= u * s <= 0) by (nonlinear_arith)
            requires
                0 <= u <= den,
                s < 0,
        ;
        lemma_quotient_monotonic(e * den, n, den);
        lemma_quotient_monotonic(n, q * den, den);
    }
}

/// A ray meets a segment within the segment's bounding box or at its own
/// origin: the rounding of the meeting point never leaves the range in which
/// the ends of the segment and the origin lie.
pub proof fn lemma_crossing_in_box(
    ox: int,
    oy: int,
    rx: int,
    ry: int,
    ax: int,
    ay: int,
    bx: int,
    by: int,
)
    ensures
        match crossing(ox, oy, rx, ry, ax, ay, bx, by) {
            Some(c) => (c.0 == ox && c.1 == oy) || (between(c.0, ax, bx) && between(
                c.1,
                ay,
                by,
            )),
            None => true,
        },
{
    let sx = bx - ax;
    let sy = by - ay;
    let qx = ax - ox;
    let qy = ay - oy;
    let turn = perp(rx, ry, sx, sy);
    let side = perp(qx, qy, rx, ry);
    let along = perp(qx, qy, sx, sy);
    if !(rx == 0 && ry == 0) && turn != 0 {
        let den = if turn > 0 { turn } else { -turn };
        let t = if turn > 0 { along } else { -along };
        let u = if turn > 0 { side } else { -side };
        if 0 <= t && 0 <= u <= den {
            assert(along * rx == qx * turn + side * sx) by (nonlinear_arith)
                requires
                    turn == rx * sy - ry * sx,
                    side == qx * ry - qy * rx,
                    along == qx * sy - qy * sx,
            ;
            assert(along * ry == qy * turn + side * sy) by (nonlinear_arith)
                requires
                    turn == rx * sy - ry * sx,
                    side == qx * ry - qy * rx,
                    along == qx * sy - qy * sx,
            ;
            assert(t * rx == qx * den + u * sx) by (nonlinear_arith)
                requires
                    along * rx == qx * turn + side * sx,
                    (t == along && den == turn && u == side) || (t == -along && den == -turn && u
                        == -side),
            ;
            assert(t * ry == qy * den + u * sy) by (nonlinear_arith)
                requires
                    along * ry == qy * turn + side * sy,
                    (t == along && den == turn && u == side) || (t == -along && den == -turn && u
                        == -side),
            ;
            lemma_rounded_within(t, rx, u, den, qx, sx);
            lemma_rounded_within(t, ry, u, den, qy, sy);
        }
    }
}

/// A level ray that points at an upright segment meets it at its own height,
/// as far away as the segment is; a level ray that points away from the
/// segment does not meet it.
pub proof fn lemma_level_ray_meets_upright_segment(ox: int, oy: int, x: int, low: int, high: int)
    requires
        ox < x,
        low <= oy <= high,
        low < high,
    ensures
        crossing(ox, oy, 1, 0, x, low, x, high) == Some((x, oy)),
        crossing(ox, oy, -1, 0, x, low, x, high) is None,
        crossing(x + (x - ox), oy, -1, 0, x, low, x, high) == Some((x, oy)),
{
    let height = high - low;
    let ahead = x - ox;
    assert(perp(1, 0, 0, height) == height && perp(-1, 0, 0, height) == -height)
        by (nonlinear_arith);
    assert(perp(ahead, low - oy, 1, 0) == oy - low && perp(ahead, low - oy, -1, 0) == low - oy)
        by (nonlinear_arith);
    assert(perp(-ahead, low - oy, -1, 0) == low - oy) by (nonlinear_arith);
    assert(perp(ahead, low - oy, 0, height) == ahead * height && perp(
        -ahead,
        low - oy,
        0,
        height,
    ) == -(ahead * height)) by (nonlinear_arith);
    assert(ahead * height > 0) by (nonlinear_arith)
        requires
            ahead > 0,
            height > 0,
    ;
    assert((ahead * height) * 1 == ahead * height && (ahead * height) * 0 == 0
        && (ahead * height) * -1 == -(ahead * height)) by (nonlinear_arith);
    assert((ahead * height) / height == ahead) by (nonlinear_arith)
        requires
            height > 0,
    ;
    assert(0int / height == 0) by (nonlinear_arith)
        requires
            height > 0,
    ;
}

/// The perpendicular dot product of two vectors whose coordinates have at most
/// 34 bits.
fn perp_product(ax: i128, ay: i128, bx: i128, by: i128) -> (r: i128)
    requires
        -0x2_0000_0000 <= ax <= 0x2_0000_0000,
        -0x2_0000_0000 <= ay <= 0x2_0000_0000,
        -0x2_0000_0000 <= bx <= 0x2_0000_0000,
        -0x2_0000_0000 <= by <= 0x2_0000_0000,
    ensures
        r == perp(ax as int, ay as int, bx as int, by as int),
        -0x8_0000_0000_0000_0000 <= r <= 0x8_0000_0000_0000_0000,
{
    assert(-0x4_0000_0000_0000_0000 <= ax * by <= 0x4_0000_0000_0000_0000) by (nonlinear_arith)
        requires
            -0x2_0000_0000 <= ax <= 0x2_0000_0000,
            -0x2_0000_0000 <= by <= 0x2_0000_0000,
    ;
    assert(-0x4_0000_0000_0000_0000 <= ay * bx <= 0x4_0000_0000_0000_0000) by (nonlinear_arith)
        requires
            -0x2_0000_0000 <= ay <= 0x2_0000_0000,
            -0x2_0000_0000 <= bx <= 0x2_0000_0000,
    ;
    ax * by - ay * bx
}

/// The dot product of two vectors whose coordinates have at most 34 bits.
fn dot_product(ax: i128, ay: i128, bx: i128, by: i128) -> (r: i128)
    requires
        -0x2_0000_0000 <= ax <= 0x2_0000_0000,
        -0x2_0000_0000 <= ay <= 0x2_0000_0000,
        -0x2_0000_0000 <= bx <= 0x2_0000_0000,
        -0x2_0000_0000 <= by <= 0x2_0000_0000,
    ensures
        r == dot(ax as int, ay as int, bx as int, by as int),
{
    assert(-0x4_0000_0000_0000_0000 <= ax * bx <= 0x4_0000_0000_0000_0000) by (nonlinear_arith)
        requires
            -0x2_0000_0000 <= ax <= 0x2_0000_0000,
            -0x2_0000_0000 <= bx <= 0x2_0000_0000,
    ;
    assert(-0x4_0000_0000_0000_0000 <= ay * by <= 0x4_0000_0000_0000_0000) by (nonlinear_arith)
        requires
            -0x2_0000_0000 <= ay <= 0x2_0000_0000,
            -0x2_0000_0000 <= by <= 0x2_0000_0000,
    ;
    ax * bx + ay * by
}

/// One coordinate of the crossing: `o` moved by `t * r / den`, rounded toward
/// `o`.
fn advance(o: i32, t: i128, r: i64, den: i128) -> (c: i32)
    requires
        den > 0,
        -0x8_0000_0000_0000_0000 <= t <= 0x8_0000_0000_0000_0000,
        -0x1_0000_0000 <= r <= 0x1_0000_0000,
        i32::MIN <= o + quotient(t * r, den as int) <= i32::MAX,
    ensures
        c == o + quotient(t * r, den as int),
{
    let step: i128 = r as i128;
    assert(-0x8_0000_0000_0000_0000 * 0x1_0000_0000 <= t * step <= 0x8_0000_0000_0000_0000
        * 0x1_0000_0000) by (nonlinear_arith)
        requires
            -0x8_0000_0000_0000_0000 <= t <= 0x8_0000_0000_0000_0000,
            -0x1_0000_0000 <= step <= 0x1_0000_0000,
    ;
    let moved: i128 = divide(t * step, den);
    (o as i128 + moved) as i32
}

/// Where the ray from `origin` in direction `(rx, ry)` meets the segment from
/// `a` to `b`. The direction may be as long as the difference of two points.
pub(crate) fn meet(origin: &Point2, rx: i64, ry: i64, a: &Point2, b: &Point2) -> (hit: Option<
    Point2,
>)
    requires
        -0x1_0000_0000 <= rx <= 0x1_0000_0000,
        -0x1_0000_0000 <= ry <= 0x1_0000_0000,
    ensures
        is_at(
            hit,
            crossing(
                origin.x as int,
                origin.y as int,
                rx as int,
                ry as int,
                a.x as int,
                a.y as int,
                b.x as int,
                b.y as int,
            ),
        ),
{
    if rx == 0 && ry == 0 {
        return None;
    }
    let dx: i128 = rx as i128;
    let dy: i128 = ry as i128;
    let sx: i128 = b.x as i128 - a.x as i128;
    let sy: i128 = b.y as i128 - a.y as i128;
    let qx: i128 = a.x as i128 - origin.x as i128;
    let qy: i128 = a.y as i128 - origin.y as i128;
    let turn: i128 = perp_product(dx, dy, sx, sy);
    let side: i128 = perp_product(qx, qy, dx, dy);
    if turn == 0 {
        if side != 0 {
            return None;
        }
        let ex: i128 = b.x as i128 - origin.x as i128;
        let ey: i128 = b.y as i128 - origin.y as i128;
        let near: i128 = dot_product(qx, qy, dx, dy);
        let far: i128 = dot_product(ex, ey, dx, dy);
        if (near <= 0 && far >= 0) || (near >= 0 && far <= 0) {
            Some(*origin)
        } else if near >= 0 && far >= 0 {
            if near <= far {
                Some(*a)
            } else {
                Some(*b)
            }
        } else {
            None
        }
    } else {
        let along: i128 = perp_product(qx, qy, sx, sy);
        let den: i128 = if turn > 0 { turn } else { -turn };
        let t: i128 = if turn > 0 { along } else { -along };
        let u: i128 = if turn > 0 { side } else { -side };
        if 0 <= t && 0 <= u && u <= den {
            proof {
                lemma_crossing_in_box(
                    origin.x as int,
                    origin.y as int,
                    rx as int,
                    ry as int,
                    a.x as int,
                    a.y as int,
                    b.x as int,
                    b.y as int,
                );
            }
            let x: i32 = advance(origin.x, t, rx, den);
            let y: i32 = advance(origin.y, t, ry, den);
            Some(Point2 { x, y })
        } else {
            None
        }
    }
}

/// Where the ray from `ray_origin` in direction `ray_direction` meets the
/// segment from `segment_a` to `segment_b`, if it does.
///
/// Only the direction of `ray_direction` matters, not its length; a direction
/// of length zero gives no meeting point.
pub fn intersect(
    ray_origin: &Point2,
    ray_direction: &Vector2,
    segment_a: &Point2,
    segment_b: &Point2,
) -> (hit: Option<Point2>)
    ensures
        is_at(
            hit,
            crossing(
                ray_origin.x as int,
                ray_origin.y as int,
                ray_direction.x as int,
                ray_direction.y as int,
                segment_a.x as int,
                segment_a.y as int,
                segment_b.x as int,
                segment_b.y as int,
            ),
        ),
        ray_direction.x == 0 && ray_direction.y == 0 ==> hit is None,
{
    meet(ray_origin, ray_direction.x as i64, ray_direction.y as i64, segment_a, segment_b)
}

} // verus!
