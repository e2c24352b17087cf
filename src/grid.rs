use vstd::arithmetic::div_mod::{lemma_fundamental_div_mod, lemma_fundamental_div_mod_converse};
use vstd::prelude::*;

use crate::cell::{next_state, Cell};

verus! {

/// The mathematical picture of a grid: its dimensions, its cells in
/// row-major order, and whether the last generation altered any cell.
pub ghost struct GridState {
    pub width: int,
    pub height: int,
    pub cells: Seq<Cell>,
    pub changed: bool,
}

impl GridState {
    /// Positive dimensions whose product fits in a `u32`, and one cell for
    /// each position.
    pub open spec fn well_formed(self) -> bool {
        &&& 0 < self.width
        &&& 0 < self.height
        &&& self.width * self.height <= u32::MAX
        &&& self.cells.len() == self.width * self.height
    }

    /// Whether `(row, col)` lies on the grid.
    pub open spec fn in_bounds(self, row: int, col: int) -> bool {
        0 <= row < self.height && 0 <= col < self.width
    }

    /// The cell at `(row, col)`.
    pub open spec fn cell_at(self, row: int, col: int) -> Cell {
        self.cells[row * self.width + col]
    }

    /// One where `(row, col)` lies on the grid and holds a live cell, zero
    /// elsewhere: a position off the grid contributes nothing.
    pub open spec fn alive_at(self, row: int, col: int) -> int {
        if self.in_bounds(row, col) {
            self.cell_at(row, col).weight()
        } else {
            0
        }
    }

    /// How many of the eight positions around `(row, col)` hold a live cell.
    /// Positions off the grid are left out; nothing wraps around.
    pub open spec fn neighbor_count(self, row: int, col: int) -> int {
        self.alive_at(row - 1, col - 1) + self.alive_at(row - 1, col) + self.alive_at(row - 1, col + 1)
            + self.alive_at(row, col - 1) + self.alive_at(row, col + 1)
            + self.alive_at(row + 1, col - 1) + self.alive_at(row + 1, col) + self.alive_at(row + 1, col + 1)
    }

    /// The state of `(row, col)` in the next generation.
    pub open spec fn next_cell(self, row: int, col: int) -> Cell {
        next_state(self.cell_at(row, col), self.neighbor_count(row, col))
    }

    /// The cells of the next generation, in row-major order.
    pub open spec fn next_cells(self) -> Seq<Cell> {
        Seq::new(self.cells.len(), |i: int| self.next_cell(i / self.width, i % self.width))
    }

    /// The grid one generation on: the same dimensions, the next cells, and
    /// `changed` set exactly when some cell differs from before.
    pub open spec fn advanced(self) -> GridState {
        GridState {
            width: self.width,
            height: self.height,
            cells: self.next_cells(),
            changed: self.next_cells() != self.cells,
        }
    }
}

/// Position `(row, col)` of a grid `width` wide and `height` high is stored
/// at index `row * width + col`, and that index leads back to it.
pub proof fn lemma_index_of(width: int, height: int, row: int, col: int)
    requires
        0 <= row < height,
        0 <= col < width,
    ensures
        0 <= row * width + col < width * height,
        (row * width + col) / width == row,
        (row * width + col) % width == col,
{
    assert(0 <= row * width + col < width * height) by (nonlinear_arith)
        requires
            0 <= row < height,
            0 <= col < width,
    ;
    lemma_fundamental_div_mod_converse(row * width + col, width, row, col);
}

/// Every index of a grid `width` wide and `height` high is that of the
/// position `(index / width, index % width)`, which lies on the grid.
pub proof fn lemma_position_of(width: int, height: int, index: int)
    requires
        0 < width,
        0 <= index < width * height,
    ensures
        0 <= index / width < height,
        0 <= index % width < width,
        index == (index / width) * width + index % width,
{
    lemma_fundamental_div_mod(index, width);
    let q = index / width;
    let r = index % width;
    assert(0 <= q < height) by (nonlinear_arith)
        requires
            0 < width,
            0 <= r < width,
            index == width * q + r,
            0 <= index < width * height,
    ;
    assert(index == q * width + r) by (nonlinear_arith)
        requires
            index == width * q + r,
    ;
}

/// Whether `(row, col)` is one of the grid's corners.
pub open spec fn is_corner(g: GridState, row: int, col: int) -> bool {
    (row == 0 || row == g.height - 1) && (col == 0 || col == g.width - 1)
}

/// Whether `(row, col)` lies in the first or last row or column.
pub open spec fn on_edge(g: GridState, row: int, col: int) -> bool {
    row == 0 || row == g.height - 1 || col == 0 || col == g.width - 1
}

/// Whether the only live cells of `g` form the 2 by 2 block whose top left
/// cell is `(top, left)`, and that block keeps off the grid's edges.
pub open spec fn only_block_at(g: GridState, top: int, left: int) -> bool {
    &&& 1 <= top && top + 2 < g.height
    &&& 1 <= left && left + 2 < g.width
    &&& forall|row: int, col: int|
        #![trigger g.cell_at(row, col)]
        g.in_bounds(row, col) ==> g.cell_at(row, col) == if top <= row <= top + 1 && left <= col
            <= left + 1 {
            Cell::Alive
        } else {
            Cell::Dead
        }
}

/// A generation keeps the grid's dimensions and one cell per position.
pub proof fn lemma_advance_keeps_shape(g: GridState)
    requires
        g.well_formed(),
    ensures
        g.advanced().well_formed(),
        g.advanced().width == g.width,
        g.advanced().height == g.height,
        g.advanced().cells.len() == g.width * g.height,
{
}

/// A cell's count of live neighbours is at most eight; at most three in a
/// corner and at most five elsewhere on an edge, since positions beyond the
/// edge are not counted.
pub proof fn lemma_neighbor_count_bounds(g: GridState, row: int, col: int)
    requires
        g.well_formed(),
        g.in_bounds(row, col),
    ensures
        0 <= g.neighbor_count(row, col) <= 8,
        is_corner(g, row, col) ==> g.neighbor_count(row, col) <= 3,
        on_edge(g, row, col) ==> g.neighbor_count(row, col) <= 5,
{
}

/// The next generation depends on the dimensions and the cells alone: two
/// grids that agree on them advance to the same grid, whatever their
/// `changed` flags.
pub proof fn lemma_advance_deterministic(a: GridState, b: GridState)
    requires
        a.width == b.width,
        a.height == b.height,
        a.cells == b.cells,
    ensures
        a.advanced() == b.advanced(),
{
    assert(a.next_cells() =~= b.next_cells());
}

/// In the next generation, the cell at `(row, col)` is the transition rule
/// applied to its current state and its count of live neighbours.
pub proof fn lemma_advanced_cell(g: GridState, row: int, col: int)
    requires
        g.well_formed(),
        g.in_bounds(row, col),
    ensures
        g.advanced().cell_at(row, col) == next_state(g.cell_at(row, col), g.neighbor_count(row, col)),
{
    lemma_index_of(g.width, g.height, row, col);
}

/// A dead cell comes alive exactly when three of its neighbours are alive.
pub proof fn lemma_birth_rule(g: GridState, row: int, col: int)
    requires
        g.well_formed(),
        g.in_bounds(row, col),
        g.cell_at(row, col) == Cell::Dead,
    ensures
        (g.advanced().cell_at(row, col) == Cell::Alive) == (g.neighbor_count(row, col) == 3),
{
    lemma_advanced_cell(g, row, col);
}

/// A live cell stays alive exactly when two or three of its neighbours are
/// alive; with fewer or more it dies.
pub proof fn lemma_death_rule(g: GridState, row: int, col: int)
    requires
        g.well_formed(),
        g.in_bounds(row, col),
        g.cell_at(row, col) == Cell::Alive,
    ensures
        (g.advanced().cell_at(row, col) == Cell::Alive) == (g.neighbor_count(row, col) == 2
            || g.neighbor_count(row, col) == 3),
{
    lemma_advanced_cell(g, row, col);
}

/// A lone 2 by 2 block of live cells away from the edges is a still life:
/// the next generation has the same cells and is not marked changed.
pub proof fn lemma_block_is_still(g: GridState, top: int, left: int)
    requires
        g.well_formed(),
        only_block_at(g, top, left),
    ensures
        g.advanced().cells == g.cells,
        !g.advanced().changed,
{
    assert forall|i: int| 0 <= i < g.cells.len() implies g.next_cells()[i] == g.cells[i] by {
        lemma_position_of(g.width, g.height, i);
        let row = i / g.width;
        let col = i % g.width;
        assert(g.cell_at(row, col) == g.cells[i]);
        assert(g.next_cell(row, col) == g.cell_at(row, col));
    }
    assert(g.next_cells() =~= g.cells);
}

/// On a 2 by 2 grid, the top left cell's neighbours are exactly the three
/// other cells: the five offsets that leave the grid count for nothing.
pub proof fn lemma_two_by_two_corner(g: GridState)
    requires
        g.well_formed(),
        g.width == 2,
        g.height == 2,
    ensures
        g.neighbor_count(0, 0) == g.cell_at(0, 1).weight() + g.cell_at(1, 0).weight() + g.cell_at(
            1,
            1,
        ).weight(),
{
}

} // verus!
