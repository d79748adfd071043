//! Dungeon generation: rejection-sampled rooms joined by L-shaped tunnels.
use vstd::prelude::*;

use crate::carve::{between, create_h_tunnel, create_room, create_v_tunnel, fits};
use crate::geometry::{Location, Rect};
use crate::grid::{floor, wall, Game, Tile};
use crate::random::{coin_flip, random_in};
use rand::rngs::StdRng;

verus! {

/// One placement attempt: a candidate room, and the order in which the tunnel
/// to the previous room is dug should the room be accepted.
#[derive(Clone, Copy, Debug, PartialEq, Eq, Structural)]
pub struct RoomDraw {
    pub room: Rect,
    pub horizontal_first: bool,
}

/// `r` intersects one of `rooms`.
pub open spec fn overlaps_any(rooms: Seq<Rect>, r: Rect) -> bool {
    exists|i: int| 0 <= i < rooms.len() && r.intersects_spec(#[trigger] rooms[i])
}

/// The rooms accepted from a sequence of attempts, and for each accepted room
/// after the first, the tunnel order used to join it to its predecessor.
pub open spec fn accepted(plan: Seq<RoomDraw>) -> (Seq<Rect>, Seq<bool>)
    decreases plan.len(),
{
    if plan.len() == 0 {
        (Seq::empty(), Seq::empty())
    } else {
        let prev = accepted(plan.drop_last());
        let d = plan.last();
        if overlaps_any(prev.0, d.room) {
            prev
        } else if prev.0.len() == 0 {
            (prev.0.push(d.room), prev.1)
        } else {
            (prev.0.push(d.room), prev.1.push(d.horizontal_first))
        }
    }
}

/// `(x, y)` lies on the L-shaped tunnel from centre `a` to centre `b`.
pub open spec fn on_tunnel(a: (int, int), b: (int, int), horizontal_first: bool, x: int, y: int) -> bool {
    if horizontal_first {
        (y == a.1 && between(x, a.0, b.0)) || (x == b.0 && between(y, a.1, b.1))
    } else {
        (x == a.0 && between(y, a.1, b.1)) || (y == b.1 && between(x, a.0, b.0))
    }
}

/// `(x, y)` lies inside one of the rooms.
pub open spec fn in_some_room(rooms: Seq<Rect>, x: int, y: int) -> bool {
    exists|i: int| 0 <= i < rooms.len() && (#[trigger] rooms[i]).interior(x, y)
}

/// `(x, y)` lies on the tunnel that joins room `i` to room `i + 1`.
pub open spec fn on_joint(rooms: Seq<Rect>, bends: Seq<bool>, i: int, x: int, y: int) -> bool {
    on_tunnel(rooms[i].center_spec(), rooms[i + 1].center_spec(), bends[i], x, y)
}

/// `(x, y)` lies on one of the tunnels between consecutive rooms.
pub open spec fn on_some_tunnel(rooms: Seq<Rect>, bends: Seq<bool>, x: int, y: int) -> bool {
    exists|i: int| 0 <= i < bends.len() && #[trigger] on_joint(rooms, bends, i, x, y)
}

/// The tile that a dungeon with these rooms and tunnels has at `(x, y)`.
pub open spec fn layout_tile(rooms: Seq<Rect>, bends: Seq<bool>, x: int, y: int) -> Tile {
    if in_some_room(rooms, x, y) || on_some_tunnel(rooms, bends, x, y) {
        floor()
    } else {
        wall()
    }
}

/// The start position: the centre of the first room, or the origin if there is none.
pub open spec fn start_of(rooms: Seq<Rect>) -> Location {
    if rooms.len() == 0 {
        Location { x: 0, y: 0 }
    } else {
        Location { x: rooms[0].center_spec().0 as i32, y: rooms[0].center_spec().1 as i32 }
    }
}

/// Every attempted room lies on a `width` by `height` grid.
pub open spec fn plan_fits(plan: Seq<RoomDraw>, width: int, height: int) -> bool {
    forall|i: int| 0 <= i < plan.len() ==> fits(#[trigger] plan[i].room, width, height)
}

/// `game` is the `width` by `height` dungeon that the attempts in `plan` produce.
pub open spec fn is_dungeon_of(game: Game, width: int, height: int, plan: Seq<RoomDraw>) -> bool {
    let (rooms, bends) = accepted(plan);
    &&& game.wf()
    &&& game.width_spec() == width
    &&& game.height_spec() == height
    &&& forall|x: int, y: int|
        #![trigger game.tile_at(x, y)]
        game.in_bounds(x, y) ==> game.tile_at(x, y) == layout_tile(rooms, bends, x, y)
}

pub(crate) proof fn lemma_accepted_shape(plan: Seq<RoomDraw>, width: int, height: int)
    requires
        plan_fits(plan, width, height),
    ensures
        accepted(plan).1.len() == if accepted(plan).0.len() == 0 {
            0
        } else {
            accepted(plan).0.len() - 1
        },
        forall|i: int|
            0 <= i < accepted(plan).0.len() ==> fits(#[trigger] accepted(plan).0[i], width, height),
    decreases plan.len(),
{
    if plan.len() > 0 {
        let prefix = plan.drop_last();
        assert(plan_fits(prefix, width, height)) by {
            assert forall|i: int| 0 <= i < prefix.len() implies fits(#[trigger] prefix[i].room, width, height) by {
                assert(prefix[i] == plan[i]);
            }
        }
        lemma_accepted_shape(prefix, width, height);
        assert(fits(plan[plan.len() - 1].room, width, height));
    }
}

/// Adding room `r` (and, after the first room, the tunnel from the previous
/// room) adds exactly the room's interior and that tunnel to the carved tiles.
proof fn lemma_layout_push(rooms: Seq<Rect>, bends: Seq<bool>, r: Rect, b: bool, x: int, y: int)
    requires
        bends.len() == if rooms.len() == 0 { 0 } else { rooms.len() - 1 },
    ensures
        ({
            let rooms2 = rooms.push(r);
            let bends2 = if rooms.len() == 0 { bends } else { bends.push(b) };
            &&& in_some_room(rooms2, x, y) == (in_some_room(rooms, x, y) || r.interior(x, y))
            &&& on_some_tunnel(rooms2, bends2, x, y) == (on_some_tunnel(rooms, bends, x, y) || (
            rooms.len() > 0 && on_tunnel(
                rooms[rooms.len() - 1].center_spec(),
                r.center_spec(),
                b,
                x,
                y,
            )))
        }),
{
    let rooms2 = rooms.push(r);
    let bends2 = if rooms.len() == 0 { bends } else { bends.push(b) };
    if in_some_room(rooms, x, y) {
        let i = choose|i: int| 0 <= i < rooms.len() && (#[trigger] rooms[i]).interior(x, y);
        assert(rooms2[i] == rooms[i]);
    }
    if r.interior(x, y) {
        assert(rooms2[rooms.len() as int] == r);
    }
    if in_some_room(rooms2, x, y) {
        let i = choose|i: int| 0 <= i < rooms2.len() && (#[trigger] rooms2[i]).interior(x, y);
        if i < rooms.len() {
            assert(rooms2[i] == rooms[i]);
        }
    }
    if on_some_tunnel(rooms, bends, x, y) {
        let i = choose|i: int| 0 <= i < bends.len() && #[trigger] on_joint(rooms, bends, i, x, y);
        assert(rooms2[i] == rooms[i] && rooms2[i + 1] == rooms[i + 1] && bends2[i] == bends[i]);
        assert(on_joint(rooms2, bends2, i, x, y));
    }
    if rooms.len() > 0 && on_tunnel(rooms[rooms.len() - 1].center_spec(), r.center_spec(), b, x, y) {
        let i = bends.len() as int;
        assert(rooms2[i] == rooms[rooms.len() - 1] && rooms2[i + 1] == r && bends2[i] == b);
        assert(on_joint(rooms2, bends2, i, x, y));
    }
    if on_some_tunnel(rooms2, bends2, x, y) {
        let i = choose|i: int| 0 <= i < bends2.len() && #[trigger] on_joint(rooms2, bends2, i, x, y);
        if i < bends.len() {
            assert(rooms2[i] == rooms[i] && rooms2[i + 1] == rooms[i + 1] && bends2[i] == bends[i]);
            assert(on_joint(rooms, bends, i, x, y));
        } else {
            assert(rooms2[i] == rooms[rooms.len() - 1] && rooms2[i + 1] == r && bends2[i] == b);
        }
    }
}

/// Whether `room` intersects one of `rooms`.
fn overlaps_existing(rooms: &Vec<Rect>, room: &Rect) -> (r: bool)
    ensures
        r == overlaps_any(rooms@, *room),
{
    let mut j: usize = 0;
    while j < rooms.len()
        invariant
            0 <= j <= rooms@.len(),
            forall|k: int| 0 <= k < j ==> !room.intersects_spec(#[trigger] rooms@[k]),
        decreases rooms@.len() - j,
    {
        if room.intersects_with(&rooms[j]) {
            return true;
        }
        j = j + 1;
    }
    false
}

/// Builds the `width` by `height` dungeon that the placement attempts in
/// `plan` describe, and returns it with the start position.
///
/// Each attempt is accepted when its room intersects none of the rooms
/// accepted before it. An accepted room's interior becomes floor; the first
/// accepted room's centre is the start position, and every later room is
/// joined to the previous accepted one by an L-shaped tunnel.
pub fn build_dungeon(width: i32, height: i32, plan: &Vec<RoomDraw>) -> (r: (Game, Location))
    requires
        width > 0,
        height > 0,
        plan_fits(plan@, width as int, height as int),
    ensures
        is_dungeon_of(r.0, width as int, height as int, plan@),
        r.1 == start_of(accepted(plan@).0),
{
    let mut game = Game::walled(width, height);
    let mut rooms: Vec<Rect> = Vec::new();
    let ghost mut bends: Seq<bool> = Seq::empty();
    let mut start = Location { x: 0, y: 0 };
    let mut i: usize = 0;
    assert(plan@.take(0) =~= Seq::<RoomDraw>::empty());
    while i < plan.len()
        invariant
            0 <= i <= plan@.len(),
            width > 0,
            height > 0,
            plan_fits(plan@, width as int, height as int),
            (rooms@, bends) == accepted(plan@.take(i as int)),
            bends.len() == if rooms@.len() == 0 { 0 } else { rooms@.len() - 1 },
            forall|k: int| 0 <= k < rooms@.len() ==> fits(#[trigger] rooms@[k], width as int, height as int),
            game.wf(),
            game.width_spec() == width,
            game.height_spec() == height,
            forall|x: int, y: int|
                #![trigger game.tile_at(x, y)]
                game.in_bounds(x, y) ==> game.tile_at(x, y) == layout_tile(rooms@, bends, x, y),
            start == start_of(rooms@),
        decreases plan@.len() - i,
    {
        let d = plan[i];
        let new_room = d.room;
        let ghost rooms0 = rooms@;
        let ghost bends0 = bends;
        let ghost g0 = game;
        assert(plan@.take(i + 1).drop_last() =~= plan@.take(i as int));
        assert(plan@.take(i + 1).last() == d);
        assert(fits(plan@[i as int].room, width as int, height as int));
        if !overlaps_existing(&rooms, &new_room) {
            create_room(new_room, &mut game);
            let (new_x, new_y) = new_room.center();
            if rooms.len() == 0 {
                start = Location { x: new_x, y: new_y };
                assert forall|x: int, y: int| #[trigger] game.in_bounds(x, y) implies game.tile_at(x, y)
                    == layout_tile(rooms0.push(new_room), bends0, x, y) by {
                    lemma_layout_push(rooms0, bends0, new_room, d.horizontal_first, x, y);
                    assert(g0.in_bounds(x, y));
                }
            } else {
                let (prev_x, prev_y) = rooms[rooms.len() - 1].center();
                assert(fits(rooms@[rooms@.len() - 1], width as int, height as int));
                if d.horizontal_first {
                    create_h_tunnel(prev_x, new_x, prev_y, &mut game);
                    create_v_tunnel(prev_y, new_y, new_x, &mut game);
                } else {
                    create_v_tunnel(prev_y, new_y, prev_x, &mut game);
                    create_h_tunnel(prev_x, new_x, new_y, &mut game);
                }
                proof {
                    bends = bends.push(d.horizontal_first);
                }
                assert forall|x: int, y: int| #[trigger] game.in_bounds(x, y) implies game.tile_at(x, y)
                    == layout_tile(rooms0.push(new_room), bends, x, y) by {
                    lemma_layout_push(rooms0, bends0, new_room, d.horizontal_first, x, y);
                    assert(g0.in_bounds(x, y));
                }
            }
            rooms.push(new_room);
            assert(rooms@[0] == rooms0.push(new_room)[0]);
        }
        i = i + 1;
    }
    assert(plan@.take(plan@.len() as int) =~= plan@);
    (game, start)
}

/// Every attempt has width and height in `[room_min, room_max]` and lies on a
/// `width` by `height` grid with its edges inside it.
pub open spec fn drawn_within(
    plan: Seq<RoomDraw>,
    width: int,
    height: int,
    room_min: int,
    room_max: int,
) -> bool {
    forall|i: int|
        0 <= i < plan.len() ==> {
            let r = #[trigger] plan[i].room;
            &&& room_min <= r.x2 - r.x1 <= room_max
            &&& room_min <= r.y2 - r.y1 <= room_max
            &&& fits(r, width, height)
        }
}

/// Generates a `width` by `height` dungeon with `max_rooms` placement
/// attempts (none when `max_rooms` is negative) whose sizes are drawn from `[room_min, room_max]`, and returns it
/// with the start position.
///
/// The result is the dungeon that [`build_dungeon`] makes of the attempts
/// drawn from `rng`.
pub fn make_map(
    width: i32,
    height: i32,
    max_rooms: i32,
    room_min: i32,
    room_max: i32,
    rng: &mut StdRng,
) -> (r: (Game, Location))
    requires
        1 <= room_min <= room_max,
        room_max < width,
        room_max < height,
    ensures
        exists|plan: Seq<RoomDraw>|
            {
                &&& plan.len() == if max_rooms < 0 {
                    0
                } else {
                    max_rooms as int
                }
                &&& drawn_within(plan, width as int, height as int, room_min as int, room_max as int)
                &&& is_dungeon_of(r.0, width as int, height as int, plan)
                &&& r.1 == start_of(accepted(plan).0)
            },
{
    let mut plan: Vec<RoomDraw> = Vec::new();
    let mut n: i32 = 0;
    while n < max_rooms
        invariant
            0 <= n,
            n <= max_rooms || n == 0,
            plan@.len() == n,
            1 <= room_min <= room_max,
            room_max < width,
            room_max < height,
            drawn_within(plan@, width as int, height as int, room_min as int, room_max as int),
        decreases max_rooms - n,
    {
        // random width and height
        let w = random_in(rng, room_min, room_max + 1);
        let h = random_in(rng, room_min, room_max + 1);
        // random position without going out of the boundaries of the map
        let x = random_in(rng, 0, width - w);
        let y = random_in(rng, 0, height - h);
        let horizontal_first = coin_flip(rng);
        plan.push(RoomDraw { room: Rect::new(x, y, w, h), horizontal_first });
        n = n + 1;
    }
    assert(plan_fits(plan@, width as int, height as int));
    build_dungeon(width, height, &plan)
}

} // verus!
