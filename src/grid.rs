//! Tiles and the tile grid.
use vstd::prelude::*;

verus! {

/// One cell of the map.
#[derive(Clone, Copy, Debug, PartialEq, Eq, Structural)]
pub struct Tile {
    pub blocked: bool,
    pub explored: bool,
    pub block_sight: bool,
}

/// A passable floor tile that does not block sight.
pub open spec fn floor() -> Tile {
    Tile { blocked: false, explored: false, block_sight: false }
}

/// An impassable wall tile that blocks sight.
pub open spec fn wall() -> Tile {
    Tile { blocked: true, explored: false, block_sight: true }
}

impl Tile {
    /// A floor tile.
    pub fn empty() -> (r: Tile)
        ensures
            r == floor(),
    {
        Tile { blocked: false, explored: false, block_sight: false }
    }

    /// A wall tile.
    pub fn wall() -> (r: Tile)
        ensures
            r == wall(),
    {
        Tile { blocked: true, explored: false, block_sight: true }
    }
}

/// The tile grid, indexed as `map[x][y]`.
#[derive(Debug)]
pub struct Game {
    map: Vec<Vec<Tile>>,
}

impl View for Game {
    type V = Seq<Seq<Tile>>;

    /// The columns of the grid.
    closed spec fn view(&self) -> Seq<Seq<Tile>> {
        Seq::new(self.map@.len(), |x: int| self.map@[x]@)
    }
}

impl Game {
    /// Number of columns.
    pub open spec fn width_spec(&self) -> int {
        self@.len() as int
    }

    /// Number of rows.
    pub open spec fn height_spec(&self) -> int {
        if self@.len() == 0 {
            0
        } else {
            self@[0].len() as int
        }
    }

    /// All columns have the same height and both dimensions fit in `i32`.
    pub open spec fn wf(&self) -> bool {
        &&& self@.len() <= i32::MAX
        &&& self.height_spec() <= i32::MAX
        &&& forall|x: int| 0 <= x < self@.len() ==> (#[trigger] self@[x]).len()
            == self.height_spec()
    }

    /// `(x, y)` is a tile of the grid.
    pub open spec fn in_bounds(&self, x: int, y: int) -> bool {
        0 <= x < self.width_spec() && 0 <= y < self.height_spec()
    }

    /// The tile at `(x, y)`; meaningful only in bounds.
    pub open spec fn tile_at(&self, x: int, y: int) -> Tile {
        self@[x][y]
    }

    /// A tile in bounds that does not block movement.
    pub open spec fn passable_spec(&self, x: int, y: int) -> bool {
        self.in_bounds(x, y) && !self.tile_at(x, y).blocked
    }

    /// `other` is a well-formed grid of the same dimensions.
    pub open spec fn same_shape(&self, other: &Game) -> bool {
        &&& other.wf()
        &&& other.width_spec() == self.width_spec()
        &&& other.height_spec() == self.height_spec()
    }

    /// A grid of `width` by `height` walls.
    pub fn walled(width: i32, height: i32) -> (r: Game)
        requires
            width >= 0,
            height >= 0,
        ensures
            r.wf(),
            r.width_spec() == width,
            width > 0 ==> r.height_spec() == height,
            forall|x: int, y: int| r.in_bounds(x, y) ==> r.tile_at(x, y) == wall(),
    {
        let mut map: Vec<Vec<Tile>> = Vec::new();
        let mut i: i32 = 0;
        while i < width
            invariant
                0 <= i <= width,
                0 <= height,
                map@.len() == i,
                forall|x: int| 0 <= x < i ==> (#[trigger] map@[x])@.len() == height,
                forall|x: int, y: int|
                    0 <= x < i && 0 <= y < height ==> #[trigger] map@[x]@[y] == wall(),
            decreases width - i,
        {
            let mut col: Vec<Tile> = Vec::new();
            let mut j: i32 = 0;
            while j < height
                invariant
                    0 <= j <= height,
                    0 <= i < width,
                    map@.len() == i,
                    forall|x: int| 0 <= x < i ==> (#[trigger] map@[x])@.len() == height,
                    forall|x: int, y: int|
                        0 <= x < i && 0 <= y < height ==> #[trigger] map@[x]@[y] == wall(),
                    col@.len() == j,
                    forall|y: int| 0 <= y < j ==> #[trigger] col@[y] == wall(),
                decreases height - j,
            {
                col.push(Tile::wall());
                j = j + 1;
            }
            map.push(col);
            i = i + 1;
        }
        let r = Game { map };
        assert(r@.len() == width);
        assert(forall|x: int| 0 <= x < width ==> #[trigger] r@[x] == map@[x]@);
        r
    }

    /// Number of columns.
    pub fn width(&self) -> (r: i32)
        requires
            self.wf(),
        ensures
            r == self.width_spec(),
    {
        self.map.len() as i32
    }

    /// Number of rows.
    pub fn height(&self) -> (r: i32)
        requires
            self.wf(),
        ensures
            r == self.height_spec(),
    {
        if self.map.len() == 0 {
            0
        } else {
            assert(self.map@[0]@ == self@[0]);
            self.map[0].len() as i32
        }
    }

    /// The tile at `(x, y)`, or `None` off the grid.
    pub fn tile(&self, x: i32, y: i32) -> (r: Option<Tile>)
        requires
            self.wf(),
        ensures
            r == (if self.in_bounds(x as int, y as int) {
                Some(self.tile_at(x as int, y as int))
            } else {
                None
            }),
    {
        if x < 0 || y < 0 || x >= self.width() || y >= self.height() {
            None
        } else {
            assert(self.map@[x as int]@ == self@[x as int]);
            Some(self.map[x as usize][y as usize])
        }
    }

    /// Whether `(x, y)` is on the grid and does not block movement; off-grid
    /// coordinates are never passable.
    pub fn passable(&self, x: i32, y: i32) -> (r: bool)
        requires
            self.wf(),
        ensures
            r == self.passable_spec(x as int, y as int),
    {
        match self.tile(x, y) {
            Some(t) => !t.blocked,
            None => false,
        }
    }

    /// Replaces the tile at `(x, y)`.
    pub fn set_tile(&mut self, x: i32, y: i32, t: Tile)
        requires
            old(self).wf(),
            old(self).in_bounds(x as int, y as int),
        ensures
            old(self).same_shape(final(self)),
            final(self).tile_at(x as int, y as int) == t,
            forall|a: int, b: int|
                final(self).in_bounds(a, b) && !(a == x && b == y) ==> final(self).tile_at(a, b)
                    == old(self).tile_at(a, b),
    {
        let ghost h = self.height_spec();
        let ghost before = self@;
        assert(self@[x as int] == self.map@[x as int]@);
        assert(self@[0] == self.map@[0]@);
        self.map[x as usize].set(y as usize, t);
        assert(self@[x as int] == self.map@[x as int]@);
        assert(self@.len() == before.len());
        assert(self@[0].len() == h);
        assert forall|a: int| 0 <= a < self@.len() implies (#[trigger] self@[a]).len() == h by {
            if a != x {
                assert(self@[a] == before[a]);
            }
        }
        assert(forall|a: int| 0 <= a < self@.len() && a != x ==> self@[a] == before[a]);
    }
}

} // verus!
