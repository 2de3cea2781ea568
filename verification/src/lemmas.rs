//! General facts about the update rule and the grid operations, stated and
//! proved once and for all grids.

use vstd::prelude::*;

use crate::game_of_life::Cell;
use crate::game_of_life::Error;
use crate::game_of_life::GRID_SIZE;
use crate::game_of_life::Grid;
use crate::game_of_life::block_grid;
use crate::game_of_life::dead_grid;
use crate::game_of_life::glider_offsets;
use crate::game_of_life::glider_placed;
use crate::game_of_life::grid_wf;
use crate::game_of_life::neighbour_count;
use crate::game_of_life::next_cell;
use crate::game_of_life::next_grid;

verus! {

/// Comparing a grid with itself always reports that the grids are the same:
/// `Grid::are_grids_same` promises to return the equality of the two views,
/// so any result it may return for one grid and itself is `Ok(true)`.
pub proof fn lemma_grid_comparison_reflexive(g: &Grid, r: Result<bool, Error>)
    requires
        r == Ok::<bool, Error>(g@ == g@),
    ensures
        r == Ok::<bool, Error>(true),
{
}

/// A successful glider placement leaves exactly the five cells at the
/// canonical offsets alive within the 3 by 3 block, and every cell outside
/// the block unchanged.
pub proof fn lemma_glider_placement(g: Seq<Seq<Cell>>, x: int, y: int)
    requires
        grid_wf(g),
        0 <= x < GRID_SIZE - 3,
        0 <= y < GRID_SIZE - 3,
    ensures
        grid_wf(glider_placed(g, x, y)),
        forall|dy: int, dx: int|
            0 <= dy < 3 && 0 <= dx < 3 ==> ((glider_placed(g, x, y)[y + dy][x + dx] == Cell::Alive)
                <==> glider_offsets().contains((dy, dx))),
        glider_offsets().len() == 5,
        forall|i: int, j: int|
            0 <= i < GRID_SIZE && 0 <= j < GRID_SIZE && !(y <= i < y + 3 && x <= j < x + 3)
                ==> glider_placed(g, x, y)[i][j] == g[i][j],
{
    lemma_glider_offsets_count();
}

/// The canonical glider consists of exactly five cells.
pub proof fn lemma_glider_offsets_count()
    ensures
        glider_offsets().len() == 5,
{
    let s1 = Set::<(int, int)>::empty().insert((1int, 0int));
    let s2 = s1.insert((2int, 1int));
    let s3 = s2.insert((0int, 2int));
    let s4 = s3.insert((1int, 2int));
    let s5 = s4.insert((2int, 2int));
    assert(s1.len() == 1);
    assert(s2.len() == 2);
    assert(s3.len() == 3);
    assert(s4.len() == 4);
    assert(s5.len() == 5);
    assert(glider_offsets() =~= s5);
}

/// A fully dead grid is a fixed point of the update rule: no cell has an
/// alive neighbour, so no cell is born and every cell stays dead.
pub proof fn lemma_dead_grid_fixed_point()
    ensures
        next_grid(dead_grid()) == dead_grid(),
{
    let g = dead_grid();
    assert forall|y: int, x: int|
        0 <= y < GRID_SIZE && 0 <= x < GRID_SIZE implies next_cell(g, y, x) == g[y][x] by {
        assert(neighbour_count(g, y, x) == 0);
    }
    assert(next_grid(g) =~~= g);
}

/// A 2 by 2 block of alive cells away from the boundary is a still life:
/// one update leaves the grid unchanged. Each alive cell of the block has
/// exactly three alive neighbours and survives; no dead cell sees three.
pub proof fn lemma_block_still_life(a: int, b: int)
    requires
        1 <= a,
        a + 2 < GRID_SIZE,
        1 <= b,
        b + 2 < GRID_SIZE,
    ensures
        next_grid(block_grid(a, b)) == block_grid(a, b),
{
    let g = block_grid(a, b);
    assert forall|y: int, x: int|
        0 <= y < GRID_SIZE && 0 <= x < GRID_SIZE implies next_cell(g, y, x) == g[y][x] by {
        if a <= y < a + 2 && b <= x < b + 2 {
            assert(neighbour_count(g, y, x) == 3);
        } else if a - 1 <= y <= a + 2 && b - 1 <= x <= b + 2 {
            assert(neighbour_count(g, y, x) <= 2);
        } else {
            assert(neighbour_count(g, y, x) == 0);
        }
    }
    assert(next_grid(g) =~~= g);
}

/// Neighbour counting sees only in-bounds cells, with no wraparound: any
/// cell has at most eight alive neighbours, a cell on an edge of the grid at
/// most five, and a corner cell at most three.
pub proof fn lemma_neighbour_count_bounds(g: Seq<Seq<Cell>>, y: int, x: int)
    requires
        grid_wf(g),
        0 <= y < GRID_SIZE,
        0 <= x < GRID_SIZE,
    ensures
        0 <= neighbour_count(g, y, x) <= 8,
        (y == 0 || y == GRID_SIZE - 1 || x == 0 || x == GRID_SIZE - 1) ==> neighbour_count(g, y, x)
            <= 5,
        ((y == 0 || y == GRID_SIZE - 1) && (x == 0 || x == GRID_SIZE - 1)) ==> neighbour_count(
            g,
            y,
            x,
        ) <= 3,
{
}

} // verus!
