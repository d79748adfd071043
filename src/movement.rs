//! Movement validation.
use vstd::prelude::*;

use crate::geometry::Location;
use crate::grid::Game;

verus! {

/// A step of at most one tile along each axis.
pub open spec fn unit_step(delta: Location) -> bool {
    -1 <= delta.x <= 1 && -1 <= delta.y <= 1
}

/// The position that a move from `cur` by `delta` ends at, and whether it
/// moved. Each axis of the step is kept only if the orthogonal neighbour of
/// `cur` in that direction is passable; the combined step is taken only if it
/// lands on a passable tile different from `cur`.
pub open spec fn move_spec(game: Game, cur: Location, delta: Location) -> (Location, bool) {
    let dy = if delta.y != 0 && game.passable_spec(cur.x as int, cur.y + delta.y) {
        delta.y as int
    } else {
        0
    };
    let dx = if delta.x != 0 && game.passable_spec(cur.x + delta.x, cur.y as int) {
        delta.x as int
    } else {
        0
    };
    let nx = cur.x + dx;
    let ny = cur.y + dy;
    if game.passable_spec(nx, ny) && (nx != cur.x || ny != cur.y) {
        (Location { x: nx as i32, y: ny as i32 }, true)
    } else {
        (cur, false)
    }
}

/// Moves from `cur` by `delta` if the grid allows it; returns the new
/// position and whether it changed. A change calls for the visible set to be
/// recomputed.
pub fn try_move(game: &Game, cur: Location, delta: Location) -> (r: (Location, bool))
    requires
        game.wf(),
        unit_step(delta),
        i32::MIN < cur.x < i32::MAX,
        i32::MIN < cur.y < i32::MAX,
    ensures
        r == move_spec(*game, cur, delta),
        r.1 ==> game.passable_spec(r.0.x as int, r.0.y as int),
        !r.1 ==> r.0 == cur,
{
    let mut step = Location { x: 0, y: 0 };
    if delta.y != 0 && game.passable(cur.x, cur.y + delta.y) {
        step.y = delta.y;
    }
    if delta.x != 0 && game.passable(cur.x + delta.x, cur.y) {
        step.x = delta.x;
    }
    let next = cur.add(step);
    if game.passable(next.x, next.y) && next != cur {
        (next, true)
    } else {
        (cur, false)
    }
}

/// The position reached from `cur` after the moves in `deltas`, in order.
pub open spec fn walk(game: Game, cur: Location, deltas: Seq<Location>) -> Location
    decreases deltas.len(),
{
    if deltas.len() == 0 {
        cur
    } else {
        move_spec(game, walk(game, cur, deltas.drop_last()), deltas.last()).0
    }
}

/// A move never lands on a blocked tile: from a passable position, every
/// sequence of moves ends on a passable position.
pub proof fn lemma_walk_stays_passable(game: Game, start: Location, deltas: Seq<Location>)
    requires
        game.wf(),
        game.passable_spec(start.x as int, start.y as int),
    ensures
        game.passable_spec(walk(game, start, deltas).x as int, walk(game, start, deltas).y as int),
    decreases deltas.len(),
{
    if deltas.len() > 0 {
        lemma_walk_stays_passable(game, start, deltas.drop_last());
    }
}

} // verus!
