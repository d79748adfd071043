//! Properties of generated dungeons that hold for every sequence of attempts.
use vstd::prelude::*;

use crate::carve::fits;
use crate::generator::{
    accepted, is_dungeon_of, in_some_room, layout_tile, on_joint, on_some_tunnel, overlaps_any,
    plan_fits, RoomDraw,
};
use crate::geometry::Location;
use crate::generator::start_of;
use crate::grid::{floor, wall, Game};

verus! {

/// The first attempt is always accepted, since there is no earlier room for it
/// to meet: any generation with at least one attempt has at least one room.
pub proof fn lemma_first_attempt_accepted(plan: Seq<RoomDraw>)
    requires
        plan.len() >= 1,
    ensures
        accepted(plan).0.len() >= 1,
        accepted(plan).0[0] == plan[0].room,
    decreases plan.len(),
{
    let prev = plan.drop_last();
    if prev.len() == 0 {
        assert(!overlaps_any(accepted(prev).0, plan.last().room));
    } else {
        lemma_first_attempt_accepted(prev);
        assert(prev[0] == plan[0]);
    }
}

/// No two accepted rooms intersect, boundaries included.
pub proof fn lemma_rooms_disjoint(plan: Seq<RoomDraw>)
    ensures
        forall|i: int, j: int|
            0 <= i < accepted(plan).0.len() && 0 <= j < accepted(plan).0.len() && i != j
                ==> !(#[trigger] accepted(plan).0[i]).intersects_spec(
                #[trigger] accepted(plan).0[j],
            ),
    decreases plan.len(),
{
    if plan.len() > 0 {
        let prev = plan.drop_last();
        lemma_rooms_disjoint(prev);
        let rooms0 = accepted(prev).0;
        let r = plan.last().room;
        if !overlaps_any(rooms0, r) {
            let rooms = accepted(plan).0;
            assert(rooms == rooms0.push(r));
            assert forall|i: int, j: int|
                0 <= i < rooms.len() && 0 <= j < rooms.len() && i != j implies !(
                #[trigger] rooms[i]).intersects_spec(#[trigger] rooms[j]) by {
                if i < rooms0.len() && j < rooms0.len() {
                    assert(rooms[i] == rooms0[i] && rooms[j] == rooms0[j]);
                } else if i < rooms0.len() {
                    assert(rooms[i] == rooms0[i] && rooms[j] == r);
                    assert(!r.intersects_spec(rooms0[i]));
                } else {
                    assert(rooms[j] == rooms0[j] && rooms[i] == r);
                    assert(!r.intersects_spec(rooms0[j]));
                }
            }
        }
    }
}

/// Every tile inside an accepted room is passable and lets sight through;
/// every tile that no room or tunnel covers is still a wall.
pub proof fn lemma_rooms_floor_rest_walls(
    game: Game,
    width: int,
    height: int,
    plan: Seq<RoomDraw>,
    x: int,
    y: int,
)
    requires
        is_dungeon_of(game, width, height, plan),
        game.in_bounds(x, y),
    ensures
        in_some_room(accepted(plan).0, x, y) ==> game.passable_spec(x, y) && !game.tile_at(
            x,
            y,
        ).block_sight,
        !in_some_room(accepted(plan).0, x, y) && !on_some_tunnel(accepted(plan).0, accepted(plan).1, x, y)
            ==> game.tile_at(x, y) == wall(),
{
    assert(game.tile_at(x, y) == layout_tile(accepted(plan).0, accepted(plan).1, x, y));
}

/// Every tile of both legs of the tunnel that joins accepted room `i` to
/// accepted room `i + 1` is on the grid and is a floor tile: passable, and
/// letting sight through.
pub proof fn lemma_tunnels_passable(
    game: Game,
    width: int,
    height: int,
    plan: Seq<RoomDraw>,
    i: int,
    x: int,
    y: int,
)
    requires
        is_dungeon_of(game, width, height, plan),
        plan_fits(plan, width, height),
        0 <= i < accepted(plan).1.len(),
        on_joint(accepted(plan).0, accepted(plan).1, i, x, y),
    ensures
        game.passable_spec(x, y),
        game.tile_at(x, y) == floor(),
{
    let rooms = accepted(plan).0;
    let bends = accepted(plan).1;
    crate::generator::lemma_accepted_shape(plan, width, height);
    assert(fits(rooms[i], width, height));
    assert(fits(rooms[i + 1], width, height));
    assert(game.in_bounds(x, y));
    assert(on_some_tunnel(rooms, bends, x, y));
    assert(game.tile_at(x, y) == layout_tile(rooms, bends, x, y));
}

/// The dungeon is determined by the attempts alone: two dungeons built from
/// the same attempts on grids of the same size agree on every tile and on the
/// start position.
pub proof fn lemma_same_attempts_same_dungeon(
    a: Game,
    b: Game,
    start_a: Location,
    start_b: Location,
    width: int,
    height: int,
    plan: Seq<RoomDraw>,
)
    requires
        is_dungeon_of(a, width, height, plan),
        is_dungeon_of(b, width, height, plan),
        start_a == start_of(accepted(plan).0),
        start_b == start_of(accepted(plan).0),
    ensures
        start_a == start_b,
        a.width_spec() == b.width_spec(),
        a.height_spec() == b.height_spec(),
        forall|x: int, y: int| #[trigger] a.in_bounds(x, y) ==> a.tile_at(x, y) == b.tile_at(x, y),
{
    assert forall|x: int, y: int| #[trigger] a.in_bounds(x, y) implies a.tile_at(x, y) == b.tile_at(
        x,
        y,
    ) by {
        assert(a.tile_at(x, y) == layout_tile(accepted(plan).0, accepted(plan).1, x, y));
        assert(b.tile_at(x, y) == layout_tile(accepted(plan).0, accepted(plan).1, x, y));
    }
}

/// When the first attempt's room is at least two tiles wide and high, the
/// start position (the centre of the first room, which is always accepted)
/// is a floor tile inside that room.
pub proof fn lemma_start_on_floor(
    game: Game,
    start: Location,
    width: int,
    height: int,
    plan: Seq<RoomDraw>,
)
    requires
        is_dungeon_of(game, width, height, plan),
        plan_fits(plan, width, height),
        start == start_of(accepted(plan).0),
        plan.len() >= 1,
        plan[0].room.x2 - plan[0].room.x1 >= 2,
        plan[0].room.y2 - plan[0].room.y1 >= 2,
    ensures
        accepted(plan).0.len() >= 1,
        accepted(plan).0[0].interior(start.x as int, start.y as int),
        game.passable_spec(start.x as int, start.y as int),
        game.tile_at(start.x as int, start.y as int) == floor(),
{
    lemma_first_attempt_accepted(plan);
    let rooms = accepted(plan).0;
    let r = rooms[0];
    assert(fits(plan[0].room, width, height));
    assert(r.interior(start.x as int, start.y as int));
    assert(in_some_room(rooms, start.x as int, start.y as int));
    assert(game.in_bounds(start.x as int, start.y as int));
    assert(game.tile_at(start.x as int, start.y as int) == layout_tile(
        rooms,
        accepted(plan).1,
        start.x as int,
        start.y as int,
    ));
}

/// A freshly generated dungeon has no explored tile.
pub proof fn lemma_nothing_explored(
    game: Game,
    width: int,
    height: int,
    plan: Seq<RoomDraw>,
    x: int,
    y: int,
)
    requires
        is_dungeon_of(game, width, height, plan),
        game.in_bounds(x, y),
    ensures
        !game.tile_at(x, y).explored,
{
    assert(game.tile_at(x, y) == layout_tile(accepted(plan).0, accepted(plan).1, x, y));
}

} // verus!
