//! The test of the ball against the edge of a plank.
//!
//! For the length of one frame each plank is reduced to the vertical segment
//! that faces the ball. The ball collides with it when its displacement in the
//! frame crosses that segment from the court into the plank.

use vstd::prelude::*;
use crate::comp::Side;
use crate::fixed::{saturate, saturated};
use crate::geometry::{crossing, meet, perp, Point2};

verus! {

/// The edge of a plank that faces the ball: the vertical segment at `x` from
/// `y_bottom` to `y_top`, and the side of the court on which the plank stands.
#[derive(Clone, Copy, PartialEq, Eq, Structural, Debug)]
pub struct PlankCollisionData {
    pub side: Side,
    pub x: i32,
    pub y_top: i32,
    pub y_bottom: i32,
}

/// The outcome of a collision: the abscissa at which the ball is put back.
#[derive(Clone, Copy, PartialEq, Eq, Structural, Debug)]
pub struct PlankCollisionResult {
    pub new_x: i32,
}

impl PlankCollisionResult {
    pub fn new(new_x: i32) -> (result: PlankCollisionResult)
        ensures
            result == (PlankCollisionResult { new_x }),
    {
        PlankCollisionResult { new_x }
    }
}

impl PlankCollisionData {
    pub fn new(side: Side, x: i32, y_top: i32, y_bottom: i32) -> (data: PlankCollisionData)
        ensures
            data == (PlankCollisionData { side, x, y_top, y_bottom }),
    {
        PlankCollisionData { side, x, y_bottom, y_top }
    }

    /// Whether a move from `start` to `end` passes the abscissa of the edge in
    /// the direction that leads into the plank: leftward for the left plank,
    /// rightward for the right one.
    pub open spec fn passes(self, start: Point2, end: Point2) -> bool {
        match self.side {
            Side::Left => start.x >= self.x && end.x < self.x,
            Side::Right => start.x <= self.x && end.x > self.x,
        }
    }

    /// Whether a move from `start` to `end` collides with the edge: it passes
    /// the edge's abscissa into the plank, and the ray from `start` through
    /// `end` meets the segment of the edge.
    pub open spec fn collides(self, start: Point2, end: Point2) -> bool {
        self.passes(start, end) && crossing(
            start.x as int,
            start.y as int,
            end.x - start.x,
            end.y - start.y,
            self.x as int,
            self.y_bottom as int,
            self.x as int,
            self.y_top as int,
        ) is Some
    }

    /// The abscissa at which a ball is put back that has arrived at `end`
    /// behind the edge: as far in front of the edge as it went behind it.
    pub open spec fn mirrored(self, end: Point2) -> int {
        saturated(self.x - (end.x - self.x))
    }

    /// Tests a move of the ball from `start` to `end` against the edge.
    pub fn collision_test(&self, start: &Point2, end: &Point2) -> (result: Option<
        PlankCollisionResult,
    >)
        ensures
            result is Some <==> self.collides(*start, *end),
            result is Some ==> result->0.new_x == self.mirrored(*end),
    {
        let passes: bool = match self.side {
            Side::Left => start.x >= self.x && end.x < self.x,
            Side::Right => start.x <= self.x && end.x > self.x,
        };
        if !passes {
            return None;
        }
        let rx: i64 = end.x as i64 - start.x as i64;
        let ry: i64 = end.y as i64 - start.y as i64;
        let bottom: Point2 = Point2::new(self.x, self.y_bottom);
        let top: Point2 = Point2::new(self.x, self.y_top);
        match meet(start, rx, ry, &bottom, &top) {
            Some(_) => {
                let overshoot: i128 = end.x as i128 - self.x as i128;
                Some(PlankCollisionResult::new(saturate(self.x as i128 - overshoot)))
            },
            None => None,
        }
    }
}

/// A move that passes the edge collides with it exactly when it passes at a
/// height between the ends of the edge.
///
/// The move passes the edge's abscissa after the part `|x - start.x|` of its
/// horizontal extent `|end.x - start.x|`, so it does so at the height
/// `start.y + (end.y - start.y) * |x - start.x| / |end.x - start.x|`. The law
/// states the comparison of that height with the two ends, multiplied by the
/// horizontal extent.
pub proof fn lemma_collides_at_height(data: PlankCollisionData, start: Point2, end: Point2)
    requires
        data.passes(start, end),
        data.y_bottom <= data.y_top,
    ensures
        ({
            let extent: int = if end.x >= start.x { end.x - start.x } else { start.x - end.x };
            let before: int = if data.x >= start.x { data.x - start.x } else { start.x - data.x };
            let height: int = start.y * extent + (end.y - start.y) * before;
            data.collides(start, end) <==> data.y_bottom * extent <= height <= data.y_top * extent
        }),
{
    let rx: int = end.x - start.x;
    let ry: int = end.y - start.y;
    let sy: int = data.y_top - data.y_bottom;
    let qx: int = data.x - start.x;
    let qy: int = data.y_bottom - start.y;
    let extent: int = if end.x >= start.x { end.x - start.x } else { start.x - end.x };
    let before: int = if data.x >= start.x { data.x - start.x } else { start.x - data.x };
    let height: int = start.y * extent + (end.y - start.y) * before;
    let turn: int = perp(rx, ry, 0, sy);
    let side: int = perp(qx, qy, rx, ry);
    let along: int = perp(qx, qy, 0, sy);
    assert(turn == rx * sy) by (nonlinear_arith)
        requires
            turn == rx * sy - ry * 0,
    ;
    assert(along == qx * sy) by (nonlinear_arith)
        requires
            along == qx * sy - qy * 0,
    ;
    // Seen in the direction of the move, the edge lies `before` ahead and the
    // move is `extent` long.
    let forward: int = if rx > 0 { 1 } else { -1 };
    assert(rx == forward * extent && qx == forward * before);
    assert(extent > 0 && before >= 0);
    let u: int = if turn > 0 { side } else { -side };
    assert(side * forward == height - data.y_bottom * extent) by (nonlinear_arith)
        requires
            side == qx * ry - qy * rx,
            rx == forward * extent,
            qx == forward * before,
            forward == 1 || forward == -1,
            qy == data.y_bottom - start.y,
            ry == end.y - start.y,
            height == start.y * extent + (end.y - start.y) * before,
    ;
    if sy > 0 {
        assert(turn != 0 && (turn > 0 <==> rx > 0)) by (nonlinear_arith)
            requires
                turn == rx * sy,
                sy > 0,
                rx != 0,
        ;
        let den: int = if turn > 0 { turn } else { -turn };
        let t: int = if turn > 0 { along } else { -along };
        assert(den == extent * sy) by (nonlinear_arith)
            requires
                turn == rx * sy,
                rx == forward * extent,
                (forward == 1 && den == turn) || (forward == -1 && den == -turn),
        ;
        assert(t == before * sy) by (nonlinear_arith)
            requires
                along == qx * sy,
                qx == forward * before,
                (forward == 1 && t == along) || (forward == -1 && t == -along),
        ;
        assert(t >= 0) by (nonlinear_arith)
            requires
                t == before * sy,
                before >= 0,
                sy > 0,
        ;
        assert(u == side * forward) by (nonlinear_arith)
            requires
                (forward == 1 && u == side) || (forward == -1 && u == -side),
        ;
        assert(data.y_top * extent == data.y_bottom * extent + extent * sy) by (nonlinear_arith)
            requires
                sy == data.y_top - data.y_bottom,
        ;
    } else {
        assert(turn == 0) by (nonlinear_arith)
            requires
                turn == rx * sy,
                sy == 0,
        ;
        // The edge is a single point, and is met exactly when it lies on the
        // ray: then it lies ahead of the start, for the move passes it.
        let near: int = qx * rx + qy * ry;
        if side == 0 {
            assert(qx * rx >= 0) by (nonlinear_arith)
                requires
                    rx == forward * extent,
                    qx == forward * before,
                    forward == 1 || forward == -1,
                    extent > 0,
                    before >= 0,
            ;
            assert(qy * ry >= 0) by (nonlinear_arith)
                requires
                    qx * ry - qy * rx == 0,
                    rx == forward * extent,
                    qx == forward * before,
                    forward == 1 || forward == -1,
                    extent > 0,
                    before >= 0,
            ;
        }
    }
}

} // verus!
