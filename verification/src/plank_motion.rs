//! The planks: the second phase of a frame.
//!
//! Each plank moves by the difference of its two speeds, is held within the
//! court, and comes to rest if an edge of the court stops it. Where it is
//! then, it presents an edge to the ball.

use vstd::prelude::*;
use crate::coll::PlankCollisionData;
use crate::comp::{Plank, Side};
use crate::fixed::{distance, divide, lemma_quotient_bounds, quotient, saturate, saturated, travelled};
use crate::geometry::Point2;
use crate::system::Bounds;

verus! {

/// Half of an extent, rounded toward zero.
pub open spec fn half(extent: int) -> int {
    quotient(extent, 2)
}

/// Where a plank would get to in `dt` nanoseconds if nothing stopped it: it
/// rises at its speed upward and sinks at its speed downward.
pub open spec fn plank_target(plank: Plank, dt: u64) -> int {
    plank.position + travelled(plank.velocity_up as int, dt as int) - travelled(
        plank.velocity_down as int,
        dt as int,
    )
}

/// Whether a plank whose centre is at `position` reaches the top of the
/// court with its upper edge.
pub open spec fn reaches_top(plank: Plank, position: int, bounds: Bounds) -> bool {
    position + half(plank.dimensions.y as int) >= bounds.top
}

/// Whether a plank whose centre is at `position` reaches the bottom of the
/// court with its lower edge.
pub open spec fn reaches_bottom(plank: Plank, position: int, bounds: Bounds) -> bool {
    position - half(plank.dimensions.y as int) <= bounds.bottom
}

/// Where a plank is held that would get to `target`: below the top of the
/// court if it reaches the top, and then above the bottom if it reaches the
/// bottom there.
pub open spec fn held_at(plank: Plank, target: int, bounds: Bounds) -> int {
    let below_top = if reaches_top(plank, target, bounds) {
        bounds.top - half(plank.dimensions.y as int)
    } else {
        target
    };
    if reaches_bottom(plank, below_top, bounds) {
        bounds.bottom + half(plank.dimensions.y as int)
    } else {
        below_top
    }
}

/// Whether a plank that would get to `target` is stopped by an edge of the
/// court.
pub open spec fn stopped(plank: Plank, target: int, bounds: Bounds) -> bool {
    reaches_top(plank, target, bounds) || reaches_bottom(
        plank,
        if reaches_top(plank, target, bounds) {
            bounds.top - half(plank.dimensions.y as int)
        } else {
            target
        },
        bounds,
    )
}

/// A plank after `dt` nanoseconds: moved, held within the court, and at rest
/// if an edge of the court stopped it.
pub open spec fn plank_moved(plank: Plank, dt: u64, bounds: Bounds) -> Plank {
    let target = plank_target(plank, dt);
    Plank {
        position: saturated(held_at(plank, target, bounds)) as i32,
        velocity_up: if stopped(plank, target, bounds) {
            0
        } else {
            plank.velocity_up
        },
        velocity_down: if stopped(plank, target, bounds) {
            0
        } else {
            plank.velocity_down
        },
        ..plank
    }
}

/// The edge of a plank that faces the ball: a plank's width away from the
/// edge of the court on the plank's side, and as high as the plank.
pub open spec fn edge_of(plank: Plank, bounds: Bounds) -> PlankCollisionData {
    PlankCollisionData {
        side: plank.side,
        x: match plank.side {
            Side::Left => saturated(bounds.left + plank.dimensions.x) as i32,
            Side::Right => saturated(bounds.right - plank.dimensions.x) as i32,
        },
        y_top: saturated(plank.position + half(plank.dimensions.y as int)) as i32,
        y_bottom: saturated(plank.position - half(plank.dimensions.y as int)) as i32,
    }
}

/// Where the centre of a plank is drawn: in the middle of its width, against
/// the edge of the court on its side.
pub open spec fn centre_of(plank: Plank, bounds: Bounds) -> Point2 {
    Point2 {
        x: match plank.side {
            Side::Left => saturated(bounds.left + half(plank.dimensions.x as int)) as i32,
            Side::Right => saturated(bounds.right - half(plank.dimensions.x as int)) as i32,
        },
        y: plank.position,
    }
}

/// Moves a plank by `dt` nanoseconds, holds it within the court, and gives
/// the edge that it presents to the ball.
pub fn move_plank(plank: &mut Plank, dt: u64, bounds: &Bounds) -> (edge: PlankCollisionData)
    ensures
        *final(plank) == plank_moved(*old(plank), dt, *bounds),
        edge == edge_of(*final(plank), *bounds),
{
    let half_height: i128 = divide(plank.dimensions.y as i128, 2);
    proof {
        lemma_quotient_bounds(plank.dimensions.y as int, 2);
    }
    let mut position: i128 = plank.position as i128 + distance(plank.velocity_up, dt) - distance(
        plank.velocity_down,
        dt,
    );
    let mut stopped: bool = false;
    if position + half_height >= bounds.top as i128 {
        position = bounds.top as i128 - half_height;
        stopped = true;
    }
    if position - half_height <= bounds.bottom as i128 {
        position = bounds.bottom as i128 + half_height;
        stopped = true;
    }
    plank.position = saturate(position);
    if stopped {
        plank.velocity_up = 0;
        plank.velocity_down = 0;
    }
    plank_edge(plank, bounds)
}

/// The edge that a plank presents to the ball.
pub fn plank_edge(plank: &Plank, bounds: &Bounds) -> (edge: PlankCollisionData)
    ensures
        edge == edge_of(*plank, *bounds),
{
    let half_height: i128 = divide(plank.dimensions.y as i128, 2);
    proof {
        lemma_quotient_bounds(plank.dimensions.y as int, 2);
    }
    let x: i32 = match plank.side {
        Side::Left => saturate(bounds.left as i128 + plank.dimensions.x as i128),
        Side::Right => saturate(bounds.right as i128 - plank.dimensions.x as i128),
    };
    PlankCollisionData::new(
        plank.side,
        x,
        saturate(plank.position as i128 + half_height),
        saturate(plank.position as i128 - half_height),
    )
}

/// Where the centre of a plank is drawn.
pub fn plank_centre(plank: &Plank, bounds: &Bounds) -> (centre: Point2)
    ensures
        centre == centre_of(*plank, *bounds),
{
    let half_width: i128 = divide(plank.dimensions.x as i128, 2);
    proof {
        lemma_quotient_bounds(plank.dimensions.x as int, 2);
    }
    let x: i32 = match plank.side {
        Side::Left => saturate(bounds.left as i128 + half_width),
        Side::Right => saturate(bounds.right as i128 - half_width),
    };
    Point2::new(x, plank.position)
}

/// Moves every plank by `dt` nanoseconds and gives the edges that they
/// present to the ball, in the order of the planks.
pub fn move_planks(planks: &mut Vec<Plank>, dt: u64, bounds: &Bounds) -> (edges: Vec<
    PlankCollisionData,
>)
    ensures
        final(planks)@.len() == old(planks)@.len(),
        edges@.len() == old(planks)@.len(),
        forall|i: int|
            0 <= i < old(planks)@.len() ==> #[trigger] final(planks)@[i] == plank_moved(
                old(planks)@[i],
                dt,
                *bounds,
            ),
        forall|i: int|
            0 <= i < old(planks)@.len() ==> #[trigger] edges@[i] == edge_of(
                plank_moved(old(planks)@[i], dt, *bounds),
                *bounds,
            ),
{
    let mut edges: Vec<PlankCollisionData> = Vec::new();
    let mut i: usize = 0;
    while i < planks.len()
        invariant
            0 <= i <= planks@.len(),
            planks@.len() == old(planks)@.len(),
            edges@.len() == i,
            forall|k: int|
                0 <= k < i ==> #[trigger] planks@[k] == plank_moved(old(planks)@[k], dt, *bounds),
            forall|k: int|
                0 <= k < i ==> #[trigger] edges@[k] == edge_of(
                    plank_moved(old(planks)@[k], dt, *bounds),
                    *bounds,
                ),
            forall|k: int| i <= k < planks@.len() ==> #[trigger] planks@[k] == old(planks)@[k],
        decreases planks@.len() - i,
    {
        let mut plank: Plank = planks[i];
        let edge: PlankCollisionData = move_plank(&mut plank, dt, bounds);
        planks[i] = plank;
        edges.push(edge);
        i += 1;
    }
    edges
}

/// A plank that is lower than the court is high stays within the court: after
/// any move, for any speeds and any lapse of time, its centre is at least
/// half its height above the bottom and at least half its height below the
/// top.
pub proof fn lemma_plank_stays_in_court(plank: Plank, dt: u64, bounds: Bounds)
    requires
        bounds.top > bounds.bottom,
        plank.dimensions.y < bounds.top - bounds.bottom,
    ensures
        bounds.bottom + half(plank.dimensions.y as int) <= plank_moved(plank, dt, bounds).position
            <= bounds.top - half(plank.dimensions.y as int),
{
    lemma_quotient_bounds(plank.dimensions.y as int, 2);
    let h = plank.dimensions.y as int;
    if h >= 0 {
        assert(2 * (h / 2) <= h) by (nonlinear_arith)
            requires
                h >= 0,
        ;
    }
}

/// A plank that an edge of the court has stopped is at rest.
pub proof fn lemma_stopped_plank_rests(plank: Plank, dt: u64, bounds: Bounds)
    requires
        stopped(plank, plank_target(plank, dt), bounds),
    ensures
        plank_moved(plank, dt, bounds).velocity_up == 0,
        plank_moved(plank, dt, bounds).velocity_down == 0,
{
}

/// A plank that is clear of both edges of the court is left as it is when no
/// time passes.
pub proof fn lemma_plank_keeps_still(plank: Plank, bounds: Bounds)
    requires
        !reaches_top(plank, plank.position as int, bounds),
        !reaches_bottom(plank, plank.position as int, bounds),
    ensures
        plank_moved(plank, 0, bounds) == plank,
{
    lemma_quotient_bounds(0, 1_000_000_000);
    assert(plank.velocity_up * 0 == 0 && plank.velocity_down * 0 == 0) by (nonlinear_arith);
}

} // verus!
