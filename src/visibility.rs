//! The visible set around a viewer, and the explored flags it leaves behind.
use vstd::prelude::*;

use crate::grid::{Game, Tile};

verus! {

/// The tiles that are visible until the next recomputation, indexed as
/// `visible[x][y]`.
#[derive(Debug)]
pub struct VisibilitySet {
    visible: Vec<Vec<bool>>,
}

/// `(x, y)` is a `true` entry of the column-major table `t`.
pub open spec fn flag_at(t: Seq<Seq<bool>>, x: int, y: int) -> bool {
    0 <= x < t.len() && 0 <= y < t[x].len() && t[x][y]
}

/// `(x, y)` is no farther than `radius` from `(vx, vy)`; a negative radius
/// reaches nothing.
pub open spec fn within_radius(vx: int, vy: int, radius: int, x: int, y: int) -> bool {
    radius >= 0 && (x - vx) * (x - vx) + (y - vy) * (y - vy) <= radius * radius
}

/// Whether `(x, y)` is visible from a viewer at `(vx, vy)`, given `lit`, the
/// tiles that an unobstructed ray from the viewer reaches. The viewer's own
/// tile is always visible, whatever the radius; another tile must be reached
/// by a ray, lie within the radius, and, unless `light_walls`, not block sight. Nothing is visible
/// from a viewer off the grid.
pub open spec fn visible_spec(
    game: Game,
    vx: int,
    vy: int,
    radius: int,
    light_walls: bool,
    lit: Seq<Seq<bool>>,
    x: int,
    y: int,
) -> bool {
    &&& game.in_bounds(vx, vy)
    &&& game.in_bounds(x, y)
    &&& ((x == vx && y == vy) || (flag_at(lit, x, y) && within_radius(vx, vy, radius, x, y) && (
    light_walls || !game.tile_at(x, y).block_sight)))
}

impl View for VisibilitySet {
    type V = Seq<Seq<bool>>;

    closed spec fn view(&self) -> Seq<Seq<bool>> {
        Seq::new(self.visible@.len(), |x: int| self.visible@[x]@)
    }
}

impl VisibilitySet {
    /// Whether `(x, y)` is in the set.
    pub open spec fn contains(&self, x: int, y: int) -> bool {
        flag_at(self@, x, y)
    }

    /// Whether `(x, y)` is visible; `false` off the grid.
    pub fn is_visible(&self, x: i32, y: i32) -> (r: bool)
        ensures
            r == self.contains(x as int, y as int),
    {
        if x < 0 || y < 0 || x as usize >= self.visible.len() {
            return false;
        }
        assert(self@[x as int] == self.visible@[x as int]@);
        if y as usize >= self.visible[x as usize].len() {
            false
        } else {
            self.visible[x as usize][y as usize]
        }
    }
}

fn lit_at(lit: &Vec<Vec<bool>>, x: i32, y: i32) -> (r: bool)
    requires
        x >= 0,
        y >= 0,
    ensures
        r == flag_at(lit@.map_values(|c: Vec<bool>| c@), x as int, y as int),
{
    if x as usize >= lit.len() {
        return false;
    }
    if y as usize >= lit[x as usize].len() {
        false
    } else {
        lit[x as usize][y as usize]
    }
}

fn within_radius_exec(vx: i32, vy: i32, radius: i32, x: i32, y: i32) -> (r: bool)
    requires
        vx >= 0,
        vy >= 0,
        x >= 0,
        y >= 0,
    ensures
        r == within_radius(vx as int, vy as int, radius as int, x as int, y as int),
{
    if radius < 0 {
        return false;
    }
    let dx: i64 = x as i64 - vx as i64;
    let dy: i64 = y as i64 - vy as i64;
    let r: i64 = radius as i64;
    assert(dx * dx <= 0x3fff_ffff_0000_0001) by (nonlinear_arith)
        requires
            -0x7fff_ffff <= dx <= 0x7fff_ffff,
    ;
    assert(dy * dy <= 0x3fff_ffff_0000_0001) by (nonlinear_arith)
        requires
            -0x7fff_ffff <= dy <= 0x7fff_ffff,
    ;
    assert(r * r <= 0x4000_0000_0000_0000) by (nonlinear_arith)
        requires
            -0x8000_0000 <= r <= 0x7fff_ffff,
    ;
    assert(0 <= dx * dx && 0 <= dy * dy && 0 <= r * r) by (nonlinear_arith);
    let dx2: i64 = dx * dx;
    let dy2: i64 = dy * dy;
    let r2: i64 = r * r;
    dx2 + dy2 <= r2
}

/// Builds the set of tiles visible from `(vx, vy)`.
///
/// `lit` tells, per tile as `lit[x][y]`, whether a ray cast from the viewer
/// reaches it unobstructed; entries beyond its bounds count as unreached.
pub fn compute_visibility(
    game: &Game,
    vx: i32,
    vy: i32,
    radius: i32,
    light_walls: bool,
    lit: &Vec<Vec<bool>>,
) -> (r: VisibilitySet)
    requires
        game.wf(),
    ensures
        forall|x: int, y: int|
            #![trigger r.contains(x, y)]
            r.contains(x, y) == visible_spec(
                *game,
                vx as int,
                vy as int,
                radius as int,
                light_walls,
                lit@.map_values(|c: Vec<bool>| c@),
                x,
                y,
            ),
{
    let ghost l = lit@.map_values(|c: Vec<bool>| c@);
    let width = game.width();
    let height = game.height();
    let viewer_ok = game.tile(vx, vy).is_some();
    let mut visible: Vec<Vec<bool>> = Vec::new();
    let mut x: i32 = 0;
    while x < width
        invariant
            0 <= x <= width,
            width == game.width_spec(),
            height == game.height_spec(),
            game.wf(),
            viewer_ok == game.in_bounds(vx as int, vy as int),
            l == lit@.map_values(|c: Vec<bool>| c@),
            visible@.len() == x,
            forall|a: int| 0 <= a < x ==> (#[trigger] visible@[a])@.len() == height,
            forall|a: int, b: int|
                #![trigger visible@[a]@[b]]
                0 <= a < x && 0 <= b < height ==> visible@[a]@[b] == visible_spec(
                    *game,
                    vx as int,
                    vy as int,
                    radius as int,
                    light_walls,
                    l,
                    a,
                    b,
                ),
        decreases width - x,
    {
        let mut col: Vec<bool> = Vec::new();
        let mut y: i32 = 0;
        while y < height
            invariant
                0 <= y <= height,
                0 <= x < width,
                width == game.width_spec(),
                height == game.height_spec(),
                game.wf(),
                viewer_ok == game.in_bounds(vx as int, vy as int),
                l == lit@.map_values(|c: Vec<bool>| c@),
                col@.len() == y,
                forall|b: int|
                    #![trigger col@[b]]
                    0 <= b < y ==> col@[b] == visible_spec(
                        *game,
                        vx as int,
                        vy as int,
                        radius as int,
                        light_walls,
                        l,
                        x as int,
                        b,
                    ),
            decreases height - y,
        {
            let v = if !viewer_ok {
                false
            } else if x == vx && y == vy {
                true
            } else {
                let t = game.tile(x, y);
                let sight_ok = match t {
                    Some(t) => light_walls || !t.block_sight,
                    None => false,
                };
                sight_ok && lit_at(lit, x, y) && within_radius_exec(vx, vy, radius, x, y)
            };
            col.push(v);
            y = y + 1;
        }
        visible.push(col);
        x = x + 1;
    }
    let r = VisibilitySet { visible };
    assert forall|x: int, y: int| #[trigger] r.contains(x, y) == visible_spec(
        *game,
        vx as int,
        vy as int,
        radius as int,
        light_walls,
        l,
        x,
        y,
    ) by {
        if 0 <= x < width {
            assert(r@[x] == visible@[x]@);
        }
    }
    r
}

/// `after` is `before` with every tile of `vis` marked explored, and nothing
/// else changed.
pub open spec fn marked(before: Game, vis: VisibilitySet, after: Game) -> bool {
    &&& before.same_shape(&after)
    &&& forall|x: int, y: int|
        #![trigger after.tile_at(x, y)]
        after.in_bounds(x, y) ==> after.tile_at(x, y) == (Tile {
            explored: before.tile_at(x, y).explored || vis.contains(x, y),
            ..before.tile_at(x, y)
        })
}

/// Marks every visible tile as explored; explored tiles stay explored.
pub fn mark_explored(game: &mut Game, vis: &VisibilitySet)
    requires
        old(game).wf(),
    ensures
        marked(*old(game), *vis, *final(game)),
{
    let ghost g0 = *game;
    let width = game.width();
    let height = game.height();
    let mut x: i32 = 0;
    while x < width
        invariant
            0 <= x <= width,
            width == g0.width_spec(),
            height == g0.height_spec(),
            g0.wf(),
            g0.same_shape(game),
            forall|a: int, b: int|
                #![trigger game.tile_at(a, b)]
                game.in_bounds(a, b) ==> game.tile_at(a, b) == (Tile {
                    explored: g0.tile_at(a, b).explored || (a < x && vis.contains(a, b)),
                    ..g0.tile_at(a, b)
                }),
        decreases width - x,
    {
        let mut y: i32 = 0;
        while y < height
            invariant
                0 <= y <= height,
                0 <= x < width,
                width == g0.width_spec(),
                height == g0.height_spec(),
                g0.wf(),
                g0.same_shape(game),
                forall|a: int, b: int|
                    #![trigger game.tile_at(a, b)]
                    game.in_bounds(a, b) ==> game.tile_at(a, b) == (Tile {
                        explored: g0.tile_at(a, b).explored || ((a < x || (a == x && b < y))
                            && vis.contains(a, b)),
                        ..g0.tile_at(a, b)
                    }),
            decreases height - y,
        {
            if vis.is_visible(x, y) {
                let t = game.tile(x, y).unwrap();
                game.set_tile(x, y, Tile { explored: true, ..t });
            }
            y = y + 1;
        }
        x = x + 1;
    }
}

/// The viewer's own tile is always visible when it is on the grid, whatever
/// it holds and whatever the rays reached.
pub proof fn lemma_viewer_visible(
    game: Game,
    vx: int,
    vy: int,
    radius: int,
    light_walls: bool,
    lit: Seq<Seq<bool>>,
)
    requires
        game.in_bounds(vx, vy),
    ensures
        visible_spec(game, vx, vy, radius, light_walls, lit, vx, vy),
{
}

/// `games[k + 1]` is `games[k]` after the tiles of `sets[k]` were marked
/// explored, for every `k`.
pub open spec fn exploration_history(games: Seq<Game>, sets: Seq<VisibilitySet>) -> bool {
    &&& games.len() == sets.len() + 1
    &&& forall|k: int| 0 <= k < sets.len() ==> marked(#[trigger] games[k], sets[k], games[k + 1])
}

/// Along a history of markings, a tile is explored exactly when it was
/// explored at the start or was visible in one of the sets marked so far.
pub proof fn lemma_explored_iff_seen(
    games: Seq<Game>,
    sets: Seq<VisibilitySet>,
    k: int,
    x: int,
    y: int,
)
    requires
        exploration_history(games, sets),
        games[0].wf(),
        0 <= k < games.len(),
        games[0].in_bounds(x, y),
    ensures
        games[k].in_bounds(x, y),
        games[k].tile_at(x, y).explored <==> (games[0].tile_at(x, y).explored || exists|i: int|
            0 <= i < k && (#[trigger] sets[i]).contains(x, y)),
    decreases k,
{
    if k > 0 {
        lemma_explored_iff_seen(games, sets, k - 1, x, y);
        assert(marked(games[k - 1], sets[k - 1], games[k]));
        if games[k - 1].tile_at(x, y).explored {
            if !games[0].tile_at(x, y).explored {
                let i = choose|i: int| 0 <= i < k - 1 && (#[trigger] sets[i]).contains(x, y);
                assert(0 <= i < k && sets[i].contains(x, y));
            }
        }
        if sets[k - 1].contains(x, y) {
            assert(exists|i: int| 0 <= i < k && (#[trigger] sets[i]).contains(x, y));
        }
        if exists|i: int| 0 <= i < k && (#[trigger] sets[i]).contains(x, y) {
            let i = choose|i: int| 0 <= i < k && (#[trigger] sets[i]).contains(x, y);
            if i < k - 1 {
                assert(exists|i: int| 0 <= i < k - 1 && (#[trigger] sets[i]).contains(x, y));
            }
        }
    }
}

/// Along a history of markings, an explored tile never becomes unexplored.
pub proof fn lemma_explored_stays(
    games: Seq<Game>,
    sets: Seq<VisibilitySet>,
    j: int,
    k: int,
    x: int,
    y: int,
)
    requires
        exploration_history(games, sets),
        games[0].wf(),
        0 <= j <= k < games.len(),
        games[0].in_bounds(x, y),
        games[j].tile_at(x, y).explored,
    ensures
        games[k].tile_at(x, y).explored,
{
    lemma_explored_iff_seen(games, sets, j, x, y);
    lemma_explored_iff_seen(games, sets, k, x, y);
    if !games[0].tile_at(x, y).explored {
        let i = choose|i: int| 0 <= i < j && (#[trigger] sets[i]).contains(x, y);
        assert(0 <= i < k && sets[i].contains(x, y));
    }
}

} // verus!
