//! Carving rooms and tunnels into the grid.
use vstd::prelude::*;

use crate::geometry::Rect;
use crate::grid::{floor, Game, Tile};

verus! {

/// `v` lies in the closed span between `a` and `b`, in either order.
pub open spec fn between(v: int, a: int, b: int) -> bool {
    (a <= v && v <= b) || (b <= v && v <= a)
}

/// The rectangle lies on the grid, edges included.
pub open spec fn fits(r: Rect, width: int, height: int) -> bool {
    0 <= r.x1 < r.x2 < width && 0 <= r.y1 < r.y2 < height
}

/// Turns the interior of `room` (its edges excluded) into floor. The edges
/// may lie one tile off the grid; a room with an empty interior changes
/// nothing.
pub fn create_room(room: Rect, game: &mut Game)
    requires
        old(game).wf(),
        -1 <= room.x1 < i32::MAX,
        -1 <= room.y1 < i32::MAX,
        room.x2 <= old(game).width_spec(),
        room.y2 <= old(game).height_spec(),
    ensures
        old(game).same_shape(final(game)),
        forall|x: int, y: int|
            #![trigger final(game).tile_at(x, y)]
            final(game).in_bounds(x, y) ==> final(game).tile_at(x, y) == if room.interior(x, y) {
                floor()
            } else {
                old(game).tile_at(x, y)
            },
{
    let ghost g0 = *game;
    let mut x: i32 = room.x1 + 1;
    while x < room.x2
        invariant
            room.x1 < x,
            x <= room.x2 || x == room.x1 + 1,
            -1 <= room.x1 < i32::MAX,
            -1 <= room.y1 < i32::MAX,
            room.x2 <= g0.width_spec(),
            room.y2 <= g0.height_spec(),
            g0.wf(),
            g0.same_shape(game),
            forall|a: int, b: int|
                #![trigger game.tile_at(a, b)]
                game.in_bounds(a, b) ==> game.tile_at(a, b) == if room.x1 < a < x && room.y1 < b
                    < room.y2 {
                    floor()
                } else {
                    g0.tile_at(a, b)
                },
        decreases room.x2 - x,
    {
        let mut y: i32 = room.y1 + 1;
        while y < room.y2
            invariant
                room.x1 < x < room.x2,
                room.y1 < y,
                y <= room.y2 || y == room.y1 + 1,
                -1 <= room.x1 < i32::MAX,
                -1 <= room.y1 < i32::MAX,
                room.x2 <= g0.width_spec(),
                room.y2 <= g0.height_spec(),
                g0.wf(),
                g0.same_shape(game),
                forall|a: int, b: int|
                    #![trigger game.tile_at(a, b)]
                    game.in_bounds(a, b) ==> game.tile_at(a, b) == if (room.x1 < a < x && room.y1
                        < b < room.y2) || (a == x && room.y1 < b < y) {
                        floor()
                    } else {
                        g0.tile_at(a, b)
                    },
            decreases room.y2 - y,
        {
            game.set_tile(x, y, Tile::empty());
            y = y + 1;
        }
        x = x + 1;
    }
}

/// Carves floor along row `y` from column `x1` to column `x2`, both included.
pub fn create_h_tunnel(x1: i32, x2: i32, y: i32, game: &mut Game)
    requires
        old(game).wf(),
        old(game).in_bounds(x1 as int, y as int),
        old(game).in_bounds(x2 as int, y as int),
    ensures
        old(game).same_shape(final(game)),
        forall|a: int, b: int|
            #![trigger final(game).tile_at(a, b)]
            final(game).in_bounds(a, b) ==> final(game).tile_at(a, b) == if b == y && between(
                a,
                x1 as int,
                x2 as int,
            ) {
                floor()
            } else {
                old(game).tile_at(a, b)
            },
{
    let ghost g0 = *game;
    let lo = if x1 < x2 { x1 } else { x2 };
    let hi = if x1 < x2 { x2 } else { x1 };
    let mut x: i32 = lo;
    while x <= hi
        invariant
            lo <= x <= hi + 1,
            lo == if x1 < x2 { x1 } else { x2 },
            hi == if x1 < x2 { x2 } else { x1 },
            g0.wf(),
            g0.in_bounds(lo as int, y as int),
            g0.in_bounds(hi as int, y as int),
            g0.same_shape(game),
            forall|a: int, b: int|
                #![trigger game.tile_at(a, b)]
                game.in_bounds(a, b) ==> game.tile_at(a, b) == if b == y && lo <= a < x {
                    floor()
                } else {
                    g0.tile_at(a, b)
                },
        decreases hi + 1 - x,
    {
        game.set_tile(x, y, Tile::empty());
        x = x + 1;
    }
}

/// Carves floor along column `x` from row `y1` to row `y2`, both included.
pub fn create_v_tunnel(y1: i32, y2: i32, x: i32, game: &mut Game)
    requires
        old(game).wf(),
        old(game).in_bounds(x as int, y1 as int),
        old(game).in_bounds(x as int, y2 as int),
    ensures
        old(game).same_shape(final(game)),
        forall|a: int, b: int|
            #![trigger final(game).tile_at(a, b)]
            final(game).in_bounds(a, b) ==> final(game).tile_at(a, b) == if a == x && between(
                b,
                y1 as int,
                y2 as int,
            ) {
                floor()
            } else {
                old(game).tile_at(a, b)
            },
{
    let ghost g0 = *game;
    let lo = if y1 < y2 { y1 } else { y2 };
    let hi = if y1 < y2 { y2 } else { y1 };
    let mut y: i32 = lo;
    while y <= hi
        invariant
            lo <= y <= hi + 1,
            lo == if y1 < y2 { y1 } else { y2 },
            hi == if y1 < y2 { y2 } else { y1 },
            g0.wf(),
            g0.in_bounds(x as int, lo as int),
            g0.in_bounds(x as int, hi as int),
            g0.same_shape(game),
            forall|a: int, b: int|
                #![trigger game.tile_at(a, b)]
                game.in_bounds(a, b) ==> game.tile_at(a, b) == if a == x && lo <= b < y {
                    floor()
                } else {
                    g0.tile_at(a, b)
                },
        decreases hi + 1 - y,
    {
        game.set_tile(x, y, Tile::empty());
        y = y + 1;
    }
}

} // verus!
