//! The grid type, the cell update rule, and the operations on a grid:
//! construction, seeding a glider, advancing one generation, and comparing
//! two grids for equality.

use vstd::prelude::*;
use vstd::string::*;

use crate::decimal::dec_str;
use crate::decimal::usize_to_string;

verus! {

/// Side length of the square grid.
pub const GRID_SIZE: usize = 20;

/// The state of one cell. A cell has no identity beyond its position.
#[derive(Clone, Copy, PartialEq, Eq, Structural, Debug)]
pub enum Cell {
    Dead,
    Alive,
}

/// The single error kind of the library, carrying a human-readable message.
#[derive(Debug)]
pub enum Error {
    Standard(String),
}

/// A fixed-size square grid of cells together with a `running` flag.
/// `running` stays true until an update detects a fixed point (the next
/// generation equals the current one).
pub struct Grid {
    cells: Vec<Vec<Cell>>,
    pub running: bool,
}

/// A well-formed grid view: a square matrix of `GRID_SIZE` rows, each of
/// `GRID_SIZE` cells.
pub open spec fn grid_wf(g: Seq<Seq<Cell>>) -> bool {
    &&& g.len() == GRID_SIZE
    &&& forall|y: int| 0 <= y < g.len() ==> (#[trigger] g[y]).len() == GRID_SIZE
}

/// The all-dead grid.
pub open spec fn dead_grid() -> Seq<Seq<Cell>> {
    Seq::new(GRID_SIZE as nat, |y: int| Seq::new(GRID_SIZE as nat, |x: int| Cell::Dead))
}

/// Whether position (row `y`, column `x`) is inside the grid and holds an
/// alive cell. Out-of-bounds positions count as dead: there is no wraparound.
pub open spec fn cell_alive(g: Seq<Seq<Cell>>, y: int, x: int) -> bool {
    &&& 0 <= y < g.len()
    &&& 0 <= x < g[y].len()
    &&& g[y][x] == Cell::Alive
}

/// 1 if the position holds an alive in-bounds cell, 0 otherwise.
pub open spec fn alive_one(g: Seq<Seq<Cell>>, y: int, x: int) -> int {
    if cell_alive(g, y, x) {
        1
    } else {
        0
    }
}

/// The number of alive cells among the eight positions adjacent to
/// (row `y`, column `x`). Positions outside the grid contribute nothing.
pub open spec fn neighbour_count(g: Seq<Seq<Cell>>, y: int, x: int) -> int {
    alive_one(g, y - 1, x - 1) + alive_one(g, y - 1, x) + alive_one(g, y - 1, x + 1)
        + alive_one(g, y, x - 1) + alive_one(g, y, x + 1) + alive_one(g, y + 1, x - 1)
        + alive_one(g, y + 1, x) + alive_one(g, y + 1, x + 1)
}

/// The standard update rule for one cell, evaluated against the current grid:
/// an alive cell survives with two or three alive neighbours and dies
/// otherwise; a dead cell is born with exactly three alive neighbours.
pub open spec fn next_cell(g: Seq<Seq<Cell>>, y: int, x: int) -> Cell {
    let n = neighbour_count(g, y, x);
    if g[y][x] == Cell::Alive {
        if n < 2 {
            Cell::Dead
        } else if n <= 3 {
            Cell::Alive
        } else {
            Cell::Dead
        }
    } else {
        if n == 3 {
            Cell::Alive
        } else {
            Cell::Dead
        }
    }
}

/// The next generation: every cell updated simultaneously against the
/// current grid.
pub open spec fn next_grid(g: Seq<Seq<Cell>>) -> Seq<Seq<Cell>> {
    Seq::new(g.len(), |y: int| Seq::new(g[y].len(), |x: int| next_cell(g, y, x)))
}

/// A dead grid holding one 2 by 2 square of alive cells whose top-left
/// corner is at (row `a`, column `b`): the "block" still life.
pub open spec fn block_grid(a: int, b: int) -> Seq<Seq<Cell>> {
    Seq::new(
        GRID_SIZE as nat,
        |y: int|
            Seq::new(
                GRID_SIZE as nat,
                |x: int|
                    if a <= y < a + 2 && b <= x < b + 2 {
                        Cell::Alive
                    } else {
                        Cell::Dead
                    },
            ),
    )
}

/// The relative offsets, within the 3 by 3 block, of the five cells of the
/// canonical glider, as (row offset, column offset) pairs.
pub open spec fn glider_offsets() -> Set<(int, int)> {
    set![(1int, 0int), (2int, 1int), (0int, 2int), (1int, 2int), (2int, 2int)]
}

/// The grid after writing the canonical glider into the 3 by 3 block whose
/// top-left corner is at (row `y`, column `x`): the five glider cells are
/// alive, the other four cells of the block are dead, and every cell outside
/// the block keeps its old state.
pub open spec fn glider_placed(g: Seq<Seq<Cell>>, x: int, y: int) -> Seq<Seq<Cell>> {
    Seq::new(
        g.len(),
        |yy: int|
            Seq::new(
                g[yy].len(),
                |xx: int|
                    if y <= yy < y + 3 && x <= xx < x + 3 {
                        if glider_offsets().contains((yy - y, xx - x)) {
                            Cell::Alive
                        } else {
                            Cell::Dead
                        }
                    } else {
                        g[yy][xx]
                    },
            ),
    )
}

/// The text of the error reported when a glider placement is rejected: it
/// names the requested position and the grid size.
pub open spec fn out_of_bounds_message(x: int, y: int) -> Seq<char> {
    "cannot place a glider at position ("@ + dec_str(x) + ", "@ + dec_str(y)
        + "): a glider needs a 3 by 3 block of cells inside the grid, whose size is "@ + dec_str(
        GRID_SIZE as int,
    )
}

/// Builds the out-of-bounds message for a rejected glider placement.
fn out_of_bounds_text(x: usize, y: usize) -> (r: String)
    ensures
        r@ == out_of_bounds_message(x as int, y as int),
{
    let mut s = String::from_str("cannot place a glider at position (");
    s.append(usize_to_string(x).as_str());
    s.append(", ");
    s.append(usize_to_string(y).as_str());
    s.append("): a glider needs a 3 by 3 block of cells inside the grid, whose size is ");
    s.append(usize_to_string(GRID_SIZE).as_str());
    s
}

impl View for Grid {
    type V = Seq<Seq<Cell>>;

    closed spec fn view(&self) -> Seq<Seq<Cell>> {
        self.cells@.map_values(|row: Vec<Cell>| row@)
    }
}

impl Grid {
    /// The grid invariant: the cell matrix is square of side `GRID_SIZE`.
    pub open spec fn wf(&self) -> bool {
        grid_wf(self@)
    }

    /// The `running` flag, for use in specifications.
    pub closed spec fn spec_running(&self) -> bool {
        self.running
    }

    /// Relates the concrete cell vectors to the abstract view.
    proof fn lemma_view(&self)
        ensures
            self.cells@.len() == self@.len(),
            forall|i: int| 0 <= i < self@.len() ==> #[trigger] self.cells@[i]@ == self@[i],
    {
    }

    /// A fresh grid: every cell dead, the simulation marked as running.
    pub fn new() -> (g: Grid)
        ensures
            g.wf(),
            g@ == dead_grid(),
            g.spec_running(),
    {
        let mut cells: Vec<Vec<Cell>> = Vec::new();
        for y in 0..GRID_SIZE
            invariant
                cells@.len() == y,
                forall|i: int| 0 <= i < y ==> (#[trigger] cells@[i]).len() == GRID_SIZE,
                forall|i: int, j: int|
                    0 <= i < y && 0 <= j < GRID_SIZE ==> #[trigger] cells@[i][j] == Cell::Dead,
        {
            let mut row: Vec<Cell> = Vec::new();
            for x in 0..GRID_SIZE
                invariant
                    row@.len() == x,
                    forall|j: int| 0 <= j < x ==> #[trigger] row@[j] == Cell::Dead,
            {
                row.push(Cell::Dead);
            }
            cells.push(row);
        }
        let g = Grid { cells, running: true };
        proof {
            assert(g@ =~~= dead_grid());
        }
        g
    }

    /// Whether the cell at (row `y`, column `x`) is alive.
    pub fn is_alive(&self, y: usize, x: usize) -> (b: bool)
        requires
            self.wf(),
            y < GRID_SIZE,
            x < GRID_SIZE,
        ensures
            b == (self@[y as int][x as int] == Cell::Alive),
    {
        proof {
            self.lemma_view();
        }
        self.cells[y][x] == Cell::Alive
    }

    /// Sets the cell at (row `y`, column `x`) to the given state, leaving
    /// every other cell and the `running` flag unchanged.
    pub fn set_cell(&mut self, y: usize, x: usize, state: Cell)
        requires
            old(self).wf(),
            y < GRID_SIZE,
            x < GRID_SIZE,
        ensures
            final(self).wf(),
            final(self)@ == old(self)@.update(
                y as int,
                old(self)@[y as int].update(x as int, state),
            ),
            final(self).spec_running() == old(self).spec_running(),
    {
        proof {
            self.lemma_view();
        }
        self.cells[y][x] = state;
        proof {
            self.lemma_view();
            assert(self@ =~~= old(self)@.update(
                y as int,
                old(self)@[y as int].update(x as int, state),
            ));
        }
    }

    /// The number of alive cells among the eight neighbours of
    /// (row `y`, column `x`); neighbours outside the grid are not counted.
    pub fn get_neighbour_alive_count(&self, y: usize, x: usize) -> (r: u8)
        requires
            self.wf(),
            y < GRID_SIZE,
            x < GRID_SIZE,
        ensures
            r as int == neighbour_count(self@, y as int, x as int),
    {
        proof {
            self.lemma_view();
        }
        let mut count: u8 = 0;
        if y >= 1 && x >= 1 && self.cells[y - 1][x - 1] == Cell::Alive {
            count = count + 1;
        }
        if y >= 1 && self.cells[y - 1][x] == Cell::Alive {
            count = count + 1;
        }
        if y >= 1 && x + 1 < GRID_SIZE && self.cells[y - 1][x + 1] == Cell::Alive {
            count = count + 1;
        }
        if x >= 1 && self.cells[y][x - 1] == Cell::Alive {
            count = count + 1;
        }
        if x + 1 < GRID_SIZE && self.cells[y][x + 1] == Cell::Alive {
            count = count + 1;
        }
        if y + 1 < GRID_SIZE && x >= 1 && self.cells[y + 1][x - 1] == Cell::Alive {
            count = count + 1;
        }
        if y + 1 < GRID_SIZE && self.cells[y + 1][x] == Cell::Alive {
            count = count + 1;
        }
        if y + 1 < GRID_SIZE && x + 1 < GRID_SIZE && self.cells[y + 1][x + 1] == Cell::Alive {
            count = count + 1;
        }
        count
    }

    /// Writes the canonical glider into the 3 by 3 block whose top-left
    /// corner is at (row `y`, column `x`): the block is first cleared, then
    /// the five glider cells are set alive. Rejects, without touching the
    /// grid, any position that does not leave room for the block, and the
    /// error message names the position and the grid size.
    #[verifier::loop_isolation(false)]
    pub fn place_glider(&mut self, x: usize, y: usize) -> (r: Result<(), Error>)
        requires
            old(self).wf(),
        ensures
            final(self).wf(),
            final(self).spec_running() == old(self).spec_running(),
            r is Ok <==> (x < GRID_SIZE - 3 && y < GRID_SIZE - 3),
            r is Ok ==> final(self)@ == glider_placed(old(self)@, x as int, y as int),
            r is Err ==> final(self)@ == old(self)@,
            r matches Err(Error::Standard(m)) ==> m@ == out_of_bounds_message(
                x as int,
                y as int,
            ),
    {
        if x >= GRID_SIZE - 3 || y >= GRID_SIZE - 3 {
            return Err(Error::Standard(out_of_bounds_text(x, y)));
        }
        let ghost g0 = self@;
        for yy in y..y + 3
            invariant
                self.wf(),
                self.spec_running() == old(self).spec_running(),
                forall|i: int, j: int|
                    0 <= i < GRID_SIZE && 0 <= j < GRID_SIZE && !(y <= i < yy && x <= j < x + 3)
                        ==> self@[i][j] == #[trigger] g0[i][j],
                forall|i: int, j: int|
                    y <= i < yy && x <= j < x + 3 ==> #[trigger] self@[i][j] == Cell::Dead,
        {
            for xx in x..x + 3
                invariant
                    self.wf(),
                    self.spec_running() == old(self).spec_running(),
                    forall|i: int, j: int|
                        0 <= i < GRID_SIZE && 0 <= j < GRID_SIZE && !((y <= i < yy && x <= j < x
                            + 3) || (i == yy && x <= j < xx)) ==> self@[i][j] == #[trigger] g0[i][j],
                    forall|i: int, j: int|
                        (y <= i < yy && x <= j < x + 3) || (i == yy && x <= j < xx)
                            ==> #[trigger] self@[i][j] == Cell::Dead,
            {
                proof {
                    self.lemma_view();
                }
                self.cells[yy][xx] = Cell::Dead;
                proof {
                    self.lemma_view();
                }
            }
        }
        proof {
            self.lemma_view();
        }
        self.cells[y + 1][x] = Cell::Alive;
        proof {
            self.lemma_view();
        }
        self.cells[y + 2][x + 1] = Cell::Alive;
        proof {
            self.lemma_view();
        }
        self.cells[y][x + 2] = Cell::Alive;
        proof {
            self.lemma_view();
        }
        self.cells[y + 1][x + 2] = Cell::Alive;
        proof {
            self.lemma_view();
        }
        self.cells[y + 2][x + 2] = Cell::Alive;
        proof {
            self.lemma_view();
            assert(self@ =~~= glider_placed(g0, x as int, y as int));
        }
        Ok(())
    }

    /// Compares two grids cell by cell; true exactly when every pair of
    /// corresponding cells matches. The `running` flags play no part.
    #[verifier::loop_isolation(false)]
    pub fn are_grids_same(g1: &Grid, g2: &Grid) -> (r: Result<bool, Error>)
        requires
            g1.wf(),
            g2.wf(),
        ensures
            r == Ok::<bool, Error>(g1@ == g2@),
    {
        proof {
            g1.lemma_view();
            g2.lemma_view();
        }
        if g1.cells.len() != g2.cells.len() {
            return Err(Error::Standard(String::from_str("the grids' sizes do not match")));
        }
        for y in 0..g1.cells.len()
            invariant
                forall|i: int, j: int|
                    0 <= i < y && 0 <= j < GRID_SIZE ==> g1@[i][j] == #[trigger] g2@[i][j],
        {
            for x in 0..g1.cells.len()
                invariant
                    forall|j: int| 0 <= j < x ==> g1@[y as int][j] == #[trigger] g2@[y as int][j],
            {
                if g1.cells[y][x] != g2.cells[y][x] {
                    proof {
                        assert(g1@ != g2@) by {
                            if g1@ == g2@ {
                                assert(g1@[y as int] == g2@[y as int]);
                            }
                        }
                    }
                    return Ok(false);
                }
            }
        }
        proof {
            assert(g1@ =~~= g2@);
        }
        Ok(true)
    }

    /// Replaces the grid with the next generation, computed simultaneously
    /// against the current one, and clears `running` when the new generation
    /// equals the old one (a fixed point). Always succeeds.
    #[verifier::loop_isolation(false)]
    pub fn play_next(&mut self) -> (r: Result<(), Error>)
        requires
            old(self).wf(),
        ensures
            final(self).wf(),
            final(self)@ == next_grid(old(self)@),
            final(self).spec_running() == (if next_grid(old(self)@) == old(self)@ {
                false
            } else {
                old(self).spec_running()
            }),
            r == Ok::<(), Error>(()),
    {
        let ghost g0 = self@;
        let mut new_cells: Vec<Vec<Cell>> = Vec::new();
        for y in 0..GRID_SIZE
            invariant
                new_cells@.len() == y,
                forall|i: int| 0 <= i < y ==> (#[trigger] new_cells@[i])@.len() == GRID_SIZE,
                forall|i: int, j: int|
                    0 <= i < y && 0 <= j < GRID_SIZE ==> #[trigger] new_cells@[i]@[j]
                        == next_cell(g0, i, j),
        {
            let mut row: Vec<Cell> = Vec::new();
            for x in 0..GRID_SIZE
                invariant
                    row@.len() == x,
                    forall|j: int| 0 <= j < x ==> #[trigger] row@[j] == next_cell(g0, y as int, j),
            {
                proof {
                    self.lemma_view();
                }
                let n = self.get_neighbour_alive_count(y, x);
                let here = self.cells[y][x];
                let updated = if here == Cell::Alive {
                    if n < 2 {
                        Cell::Dead
                    } else if n <= 3 {
                        Cell::Alive
                    } else {
                        Cell::Dead
                    }
                } else {
                    if n == 3 {
                        Cell::Alive
                    } else {
                        Cell::Dead
                    }
                };
                row.push(updated);
            }
            new_cells.push(row);
        }
        let next = Grid { cells: new_cells, running: false };
        proof {
            next.lemma_view();
            assert(next@ =~~= next_grid(g0));
        }
        let same = match Grid::are_grids_same(self, &next) {
            Ok(b) => b,
            Err(e) => {
                return Err(e);
            },
        };
        if same {
            self.running = false;
        }
        self.cells = next.cells;
        proof {
            assert(self@ == next@);
        }
        Ok(())
    }
}

} // verus!
