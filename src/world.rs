//! The world's spatial partition: a fixed grid of cells, each listing the
//! objects whose tile falls in it, rebuilt every tick and walked around a
//! reference point to choose which objects tick and draw.

use vstd::prelude::*;

verus! {

/// Cells along each side of the grid.
pub const GRID_SIZE: usize = 32;

/// World units along each side of a cell.
pub const CELL_SIZE: i32 = 16;

/// What is added to a tile coordinate to give a cell index, so that the
/// origin sits in the middle of the grid.
pub const GRID_OFFSET: i32 = 16;

/// A world position reduced to whole cells: `floor(x / CELL_SIZE)` and
/// `floor(z / CELL_SIZE)`.
#[derive(Clone, Copy, Debug, PartialEq, Eq, Structural)]
pub struct Tile {
    pub x: i32,
    pub y: i32,
}

/// The cell that a tile falls in, which may lie outside the grid.
pub open spec fn cell_of(t: Tile) -> (int, int) {
    (t.x + GRID_OFFSET, t.y + GRID_OFFSET)
}

pub open spec fn in_grid(c: (int, int)) -> bool {
    0 <= c.0 < GRID_SIZE && 0 <= c.1 < GRID_SIZE
}

pub open spec fn abs(a: int) -> int {
    if a < 0 {
        -a
    } else {
        a
    }
}

/// Is cell `c` within Chebyshev distance `radius` of cell `e`?
pub open spec fn near(c: (int, int), e: (int, int), radius: int) -> bool {
    abs(c.0 - e.0) <= radius && abs(c.1 - e.1) <= radius
}

/// An object whose tile falls outside the grid.
#[derive(Debug, PartialEq, Eq, Structural)]
pub enum SpacePartError {
    OutOfRange { index: usize, x: i32, y: i32 },
}

/// The cell index that a tile maps to.
pub fn world_to_space_part(tile: Tile) -> (r: (i64, i64))
    ensures
        r.0 == cell_of(tile).0,
        r.1 == cell_of(tile).1,
{
    (tile.x as i64 + GRID_OFFSET as i64, tile.y as i64 + GRID_OFFSET as i64)
}

pub struct World {
    /// The tile of each object, by object index, as of the last partition.
    pub tiles: Vec<Tile>,
    /// `space_part[i][j]` lists the objects in cell (i, j).
    pub space_part: Vec<Vec<Vec<usize>>>,
}

/// The contents of cell (i, j).
pub open spec fn cell(sp: Seq<Vec<Vec<usize>>>, i: int, j: int) -> Seq<usize> {
    sp[i]@[j]@
}

pub open spec fn grid_shaped(sp: Seq<Vec<Vec<usize>>>) -> bool {
    &&& sp.len() == GRID_SIZE
    &&& forall|i: int| 0 <= i < GRID_SIZE ==> (#[trigger] sp[i])@.len() == GRID_SIZE
}

/// Every object lies in the grid, and each cell lists, once each, exactly
/// the objects whose tile falls in it.
pub open spec fn partitioned(sp: Seq<Vec<Vec<usize>>>, tiles: Seq<Tile>) -> bool {
    &&& grid_shaped(sp)
    &&& forall|id: int| 0 <= id < tiles.len() ==> in_grid(cell_of(#[trigger] tiles[id]))
    &&& forall|i: int, j: int, id: usize|
        #![trigger cell(sp, i, j).contains(id)]
        0 <= i < GRID_SIZE && 0 <= j < GRID_SIZE ==> (cell(sp, i, j).contains(id) <==> (id
            < tiles.len() && cell_of(tiles[id as int]) == (i, j)))
    &&& forall|i: int, j: int|
        0 <= i < GRID_SIZE && 0 <= j < GRID_SIZE ==> (#[trigger] cell(sp, i, j)).no_duplicates()
}

/// `r` lists, once each, exactly the objects whose cell lies within
/// Chebyshev distance `radius` of the cell of `eye`.
pub open spec fn visits(tiles: Seq<Tile>, r: Seq<usize>, eye: Tile, radius: int) -> bool {
    &&& r.no_duplicates()
    &&& forall|id: usize|
        #[trigger] r.contains(id) <==> (id < tiles.len() && near(
            cell_of(tiles[id as int]),
            cell_of(eye),
            radius,
        ))
}

/// Rows `lo_i` up to but not including `i`, columns `lo_j` to `hi_j`.
pub open spec fn rows_done(c: (int, int), lo_i: int, i: int, lo_j: int, hi_j: int) -> bool {
    lo_i <= c.0 < i && lo_j <= c.1 <= hi_j
}

/// The index of the first object whose tile falls outside the grid is `k`.
pub open spec fn first_outside_at(tiles: Seq<Tile>, k: int) -> bool {
    &&& 0 <= k < tiles.len()
    &&& !in_grid(cell_of(tiles[k]))
    &&& forall|id: int| 0 <= id < k ==> in_grid(cell_of(#[trigger] tiles[id]))
}

/// After a partition, each object is listed in exactly one cell, once: the
/// cell its tile falls in.
pub proof fn lemma_each_object_in_one_cell(sp: Seq<Vec<Vec<usize>>>, tiles: Seq<Tile>, id: usize)
    requires
        partitioned(sp, tiles),
        id < tiles.len(),
    ensures
        in_grid(cell_of(tiles[id as int])),
        cell(sp, cell_of(tiles[id as int]).0, cell_of(tiles[id as int]).1).contains(id),
        cell(sp, cell_of(tiles[id as int]).0, cell_of(tiles[id as int]).1).no_duplicates(),
        forall|i: int, j: int|
            0 <= i < GRID_SIZE && 0 <= j < GRID_SIZE && #[trigger] cell(sp, i, j).contains(id)
                ==> (i, j) == cell_of(tiles[id as int]),
{
    let c = cell_of(tiles[id as int]);
    assert(cell(sp, c.0, c.1).contains(id));
}

impl World {
    pub open spec fn wf(&self) -> bool {
        partitioned(self.space_part@, self.tiles@)
    }

    /// An empty world: no objects, every cell empty.
    pub fn new() -> (r: World)
        ensures
            r.wf(),
            r.tiles@.len() == 0,
    {
        let mut space_part: Vec<Vec<Vec<usize>>> = Vec::new();
        let mut i: usize = 0;
        while i < GRID_SIZE
            invariant
                0 <= i <= GRID_SIZE,
                space_part@.len() == i,
                forall|a: int| 0 <= a < i ==> (#[trigger] space_part@[a])@.len() == GRID_SIZE,
                forall|a: int, b: int|
                    0 <= a < i && 0 <= b < GRID_SIZE ==> (#[trigger] cell(space_part@, a, b)).len()
                        == 0,
            decreases GRID_SIZE - i,
        {
            let mut row: Vec<Vec<usize>> = Vec::new();
            let mut j: usize = 0;
            while j < GRID_SIZE
                invariant
                    0 <= j <= GRID_SIZE,
                    0 <= i < GRID_SIZE,
                    space_part@.len() == i,
                    forall|a: int| 0 <= a < i ==> (#[trigger] space_part@[a])@.len() == GRID_SIZE,
                    forall|a: int, b: int|
                        0 <= a < i && 0 <= b < GRID_SIZE ==> (#[trigger] cell(space_part@, a, b)).len()
                            == 0,
                    row@.len() == j,
                    forall|b: int| 0 <= b < j ==> (#[trigger] row@[b])@.len() == 0,
                decreases GRID_SIZE - j,
            {
                row.push(Vec::new());
                j = j + 1;
            }
            let ghost sp0 = space_part@;
            let ghost row0 = row@;
            space_part.push(row);
            proof {
                assert forall|a: int, b: int|
                    0 <= a < i + 1 && 0 <= b < GRID_SIZE implies (#[trigger] cell(space_part@, a, b)).len() == 0 by {
                    if a < i {
                        assert(space_part@[a] == sp0[a]);
                        assert(cell(space_part@, a, b) == cell(sp0, a, b));
                    } else {
                        assert(space_part@[a]@ == row0);
                        assert(row0[b]@.len() == 0);
                    }
                }
            }
            i = i + 1;
        }
        World { tiles: Vec::new(), space_part }
    }

    /// Rebuilds the grid from the objects' current tiles: every cell is
    /// emptied, then each object is listed in the cell its tile falls in. If
    /// some tile falls outside the grid, the world is left as it was and the
    /// first such object is reported.
    pub fn do_space_part(&mut self, tiles: Vec<Tile>) -> (r: Result<(), SpacePartError>)
        requires
            old(self).wf(),
        ensures
            final(self).wf(),
            r is Ok <==> forall|id: int| 0 <= id < tiles@.len() ==> in_grid(cell_of(#[trigger] tiles@[id])),
            r is Ok ==> final(self).tiles@ == tiles@,
            r is Err ==> *final(self) == *old(self) && exists|k: int|
                first_outside_at(tiles@, k) && r == Err::<(), SpacePartError>(
                    SpacePartError::OutOfRange { index: k as usize, x: tiles@[k].x, y: tiles@[k].y },
                ),
    {
        let n = tiles.len();
        let mut k: usize = 0;
        while k < n
            invariant
                n == tiles@.len(),
                0 <= k <= n,
                *self == *old(self),
                old(self).wf(),
                forall|id: int| 0 <= id < k ==> in_grid(cell_of(#[trigger] tiles@[id])),
            decreases n - k,
        {
            let (cx, cy) = world_to_space_part(tiles[k]);
            if cx < 0 || cx >= GRID_SIZE as i64 || cy < 0 || cy >= GRID_SIZE as i64 {
                proof {
                    assert(first_outside_at(tiles@, k as int));
                }
                return Err(SpacePartError::OutOfRange { index: k, x: tiles[k].x, y: tiles[k].y });
            }
            k = k + 1;
        }
        self.clear_cells();
        let mut k: usize = 0;
        while k < n
            invariant
                n == tiles@.len(),
                0 <= k <= n,
                forall|id: int| 0 <= id < n ==> in_grid(cell_of(#[trigger] tiles@[id])),
                grid_shaped(self.space_part@),
                forall|i: int, j: int, id: usize|
                    #![trigger cell(self.space_part@, i, j).contains(id)]
                    0 <= i < GRID_SIZE && 0 <= j < GRID_SIZE ==> (cell(self.space_part@, i, j).contains(id)
                        <==> (id < k && cell_of(tiles@[id as int]) == (i, j))),
                forall|i: int, j: int|
                    0 <= i < GRID_SIZE && 0 <= j < GRID_SIZE
                        ==> (#[trigger] cell(self.space_part@, i, j)).no_duplicates(),
            decreases n - k,
        {
            let (cx, cy) = world_to_space_part(tiles[k]);
            let ci = cx as usize;
            let cj = cy as usize;
            let ghost sp0 = self.space_part@;
            self.space_part[ci][cj].push(k);
            proof {
                assert forall|i: int, j: int|
                    0 <= i < GRID_SIZE && 0 <= j < GRID_SIZE && (i, j) != (ci as int, cj as int)
                    implies #[trigger] cell(self.space_part@, i, j) == cell(sp0, i, j) by {
                    if i != ci as int {
                        assert(self.space_part@[i] == sp0[i]);
                    }
                }
                assert(cell(self.space_part@, ci as int, cj as int) == cell(sp0, ci as int, cj as int).push(k));
                assert(!cell(sp0, ci as int, cj as int).contains(k));
                assert forall|i: int, j: int, id: usize|
                    0 <= i < GRID_SIZE && 0 <= j < GRID_SIZE implies (#[trigger] cell(self.space_part@, i, j).contains(id)
                        <==> (id < k + 1 && cell_of(tiles@[id as int]) == (i, j))) by {
                    if (i, j) == (ci as int, cj as int) {
                        if id == k {
                            assert(cell(self.space_part@, i, j).last() == id);
                        } else {
                            assert(cell(self.space_part@, i, j).contains(id) ==> cell(sp0, i, j).contains(id));
                            if cell(sp0, i, j).contains(id) {
                                let w = choose|w: int| 0 <= w < cell(sp0, i, j).len() && #[trigger] cell(sp0, i, j)[w] == id;
                                assert(cell(self.space_part@, i, j)[w] == id);
                            }
                        }
                    }
                }
                assert(self.space_part@.len() == GRID_SIZE);
                assert forall|i: int| 0 <= i < GRID_SIZE implies (#[trigger] self.space_part@[i])@.len() == GRID_SIZE by {
                    if i != ci as int {
                        assert(self.space_part@[i] == sp0[i]);
                    }
                }
            }
            k = k + 1;
        }
        self.tiles = tiles;
        Ok(())
    }

    /// Empties every cell, keeping the grid's shape.
    fn clear_cells(&mut self)
        requires
            grid_shaped(old(self).space_part@),
        ensures
            grid_shaped(final(self).space_part@),
            final(self).tiles == old(self).tiles,
            forall|i: int, j: int|
                0 <= i < GRID_SIZE && 0 <= j < GRID_SIZE ==> (#[trigger] cell(final(self).space_part@, i, j)).len() == 0,
    {
        let mut i: usize = 0;
        while i < GRID_SIZE
            invariant
                0 <= i <= GRID_SIZE,
                grid_shaped(self.space_part@),
                self.tiles == old(self).tiles,
                forall|a: int, b: int|
                    0 <= a < i && 0 <= b < GRID_SIZE ==> (#[trigger] cell(self.space_part@, a, b)).len() == 0,
            decreases GRID_SIZE - i,
        {
            let mut j: usize = 0;
            while j < GRID_SIZE
                invariant
                    0 <= i < GRID_SIZE,
                    0 <= j <= GRID_SIZE,
                    grid_shaped(self.space_part@),
                    self.tiles == old(self).tiles,
                    forall|a: int, b: int|
                        0 <= a < i && 0 <= b < GRID_SIZE ==> (#[trigger] cell(self.space_part@, a, b)).len() == 0,
                    forall|b: int| 0 <= b < j ==> (#[trigger] cell(self.space_part@, i as int, b)).len() == 0,
                decreases GRID_SIZE - j,
            {
                let ghost sp0 = self.space_part@;
                self.space_part[i][j].clear();
                proof {
                    assert forall|a: int| 0 <= a < GRID_SIZE && a != i implies #[trigger] self.space_part@[a] == sp0[a] by {}
                    assert forall|a: int, b: int| 0 <= a < i && 0 <= b < GRID_SIZE implies #[trigger] cell(self.space_part@, a, b) == cell(sp0, a, b) by {
                        assert(self.space_part@[a] == sp0[a]);
                    }
                    assert forall|b: int| 0 <= b < GRID_SIZE && b != j implies #[trigger] cell(self.space_part@, i as int, b) == cell(sp0, i as int, b) by {}
                }
                j = j + 1;
            }
            i = i + 1;
        }
    }

    /// The objects to tick: those whose cell lies within Chebyshev distance
    /// `update_distance` of the eye's cell.
    pub fn tick(&self, eye: Tile, update_distance: i32) -> (r: Vec<usize>)
        requires
            self.wf(),
        ensures
            visits(self.tiles@, r@, eye, update_distance as int),
    {
        self.neighbourhood(eye, update_distance)
    }

    /// The objects to draw: those whose cell lies within Chebyshev distance
    /// `render_distance` of the eye's cell.
    pub fn draw(&self, eye: Tile, render_distance: i32) -> (r: Vec<usize>)
        requires
            self.wf(),
        ensures
            visits(self.tiles@, r@, eye, render_distance as int),
    {
        self.neighbourhood(eye, render_distance)
    }

    /// Walks the square of cells of half-width `radius` around the eye's
    /// cell, as far as it overlaps the grid, and lists what they hold.
    fn neighbourhood(&self, eye: Tile, radius: i32) -> (r: Vec<usize>)
        requires
            self.wf(),
        ensures
            visits(self.tiles@, r@, eye, radius as int),
    {
        let ghost tiles = self.tiles@;
        let ghost sp = self.space_part@;
        let (ex, ey) = world_to_space_part(eye);
        let d = radius as i64;
        let top = GRID_SIZE as i64 - 1;
        let lo_i = if ex - d > 0 { ex - d } else { 0 };
        let hi_i = if ex + d < top { ex + d } else { top };
        let lo_j = if ey - d > 0 { ey - d } else { 0 };
        let hi_j = if ey + d < top { ey + d } else { top };
        let mut out: Vec<usize> = Vec::new();
        if lo_i > hi_i || lo_j > hi_j {
            proof {
                assert forall|id: usize| !(id < tiles.len() && near(
                    cell_of(tiles[id as int]),
                    cell_of(eye),
                    radius as int,
                )) by {
                    if id < tiles.len() {
                        assert(in_grid(cell_of(tiles[id as int])));
                    }
                }
            }
            return out;
        }
        let mut i: usize = lo_i as usize;
        while i <= hi_i as usize
            invariant
                self.wf(),
                tiles == self.tiles@,
                sp == self.space_part@,
                0 <= lo_i <= hi_i < GRID_SIZE,
                0 <= lo_j <= hi_j < GRID_SIZE,
                lo_i <= i <= hi_i + 1,
                out@.no_duplicates(),
                forall|id: usize|
                    #[trigger] out@.contains(id) <==> (id < tiles.len() && rows_done(
                        cell_of(tiles[id as int]),
                        lo_i as int,
                        i as int,
                        lo_j as int,
                        hi_j as int,
                    )),
            decreases hi_i + 1 - i,
        {
            let mut j: usize = lo_j as usize;
            while j <= hi_j as usize
                invariant
                    self.wf(),
                    tiles == self.tiles@,
                    sp == self.space_part@,
                    0 <= lo_i <= hi_i < GRID_SIZE,
                    0 <= lo_j <= hi_j < GRID_SIZE,
                    lo_i <= i <= hi_i,
                    lo_j <= j <= hi_j + 1,
                    out@.no_duplicates(),
                    forall|id: usize|
                        #[trigger] out@.contains(id) <==> (id < tiles.len() && (rows_done(
                            cell_of(tiles[id as int]),
                            lo_i as int,
                            i as int,
                            lo_j as int,
                            hi_j as int,
                        ) || (cell_of(tiles[id as int]).0 == i && lo_j <= cell_of(tiles[id as int]).1 < j))),
                decreases hi_j + 1 - j,
            {
                let c = &self.space_part[i][j];
                let ghost cs = c@;
                assert(cs == cell(sp, i as int, j as int));
                let mut k: usize = 0;
                while k < c.len()
                    invariant
                        self.wf(),
                        tiles == self.tiles@,
                        sp == self.space_part@,
                        cs == c@,
                        cs == cell(sp, i as int, j as int),
                        0 <= lo_i <= hi_i < GRID_SIZE,
                        0 <= lo_j <= hi_j < GRID_SIZE,
                        lo_i <= i <= hi_i,
                        lo_j <= j <= hi_j,
                        0 <= k <= cs.len(),
                        out@.no_duplicates(),
                        forall|id: usize|
                            #[trigger] out@.contains(id) <==> (id < tiles.len() && (rows_done(
                                cell_of(tiles[id as int]),
                                lo_i as int,
                                i as int,
                                lo_j as int,
                                hi_j as int,
                            ) || (cell_of(tiles[id as int]).0 == i && lo_j <= cell_of(tiles[id as int]).1 < j)) || cs.take(k as int).contains(id)),
                    decreases cs.len() - k,
                {
                    let id = c[k];
                    let ghost o0 = out@;
                    proof {
                        assert(cs.contains(id));
                        assert(cell(sp, i as int, j as int).contains(id));
                        assert(!cs.take(k as int).contains(id)) by {
                            if cs.take(k as int).contains(id) {
                                let w = choose|w: int| 0 <= w < k && #[trigger] cs.take(k as int)[w] == id;
                                assert(cs[w] == cs[k as int]);
                            }
                        }
                    }
                    out.push(id);
                    proof {
                        assert(cs.take(k + 1) == cs.take(k as int).push(id));
                        assert forall|x: usize| #[trigger] out@.contains(x) <==> (o0.contains(x) || x == id) by {
                            if out@.contains(x) && x != id {
                                let w = choose|w: int| 0 <= w < out@.len() && #[trigger] out@[w] == x;
                                assert(o0[w] == x);
                            }
                            if o0.contains(x) {
                                let w = choose|w: int| 0 <= w < o0.len() && #[trigger] o0[w] == x;
                                assert(out@[w] == x);
                            }
                            if x == id {
                                assert(out@.last() == x);
                            }
                        }
                        assert forall|x: usize| #[trigger] cs.take(k + 1).contains(x) <==> (cs.take(k as int).contains(x) || x == id) by {
                            if cs.take(k + 1).contains(x) && x != id {
                                let w = choose|w: int| 0 <= w < k + 1 && #[trigger] cs.take(k + 1)[w] == x;
                                assert(cs.take(k as int)[w] == x);
                            }
                            if cs.take(k as int).contains(x) {
                                let w = choose|w: int| 0 <= w < k && #[trigger] cs.take(k as int)[w] == x;
                                assert(cs.take(k + 1)[w] == x);
                            }
                            if x == id {
                                assert(cs.take(k + 1)[k as int] == x);
                            }
                        }
                        assert(out@.no_duplicates()) by {
                            assert forall|a: int, b: int| 0 <= a < b < out@.len() implies out@[a] != out@[b] by {
                                if b == out@.len() - 1 {
                                    assert(o0.contains(out@[a]));
                                }
                            }
                        }
                    }
                    k = k + 1;
                }
                proof {
                    assert(cs.take(cs.len() as int) == cs);
                    assert forall|id: usize| cs.contains(id) <==> (id < tiles.len() && cell_of(tiles[id as int]) == (i as int, j as int)) by {
                        assert(cell(sp, i as int, j as int).contains(id) <==> (id < tiles.len() && cell_of(tiles[id as int]) == (i as int, j as int)));
                    }
                }
                j = j + 1;
            }
            i = i + 1;
        }
        proof {
            assert forall|id: usize| #[trigger] out@.contains(id) <==> (id < tiles.len() && near(
                cell_of(tiles[id as int]),
                cell_of(eye),
                radius as int,
            )) by {
                if id < tiles.len() {
                    assert(in_grid(cell_of(tiles[id as int])));
                }
            }
        }
        out
    }
}

} // verus!
