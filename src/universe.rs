use vstd::prelude::*;

use crate::cell::Cell;
use crate::grid::{lemma_index_of, GridState};

verus! {

/// A Game of Life grid of `width` columns and `height` rows. The cells are
/// kept in row-major order; `dirty` records whether the last generation
/// altered any cell.
pub struct Universe {
    width: u32,
    height: u32,
    cells: Vec<Cell>,
    dirty: bool,
}

impl View for Universe {
    type V = GridState;

    closed spec fn view(&self) -> GridState {
        GridState {
            width: self.width as int,
            height: self.height as int,
            cells: self.cells@,
            changed: self.dirty,
        }
    }
}

/// The contribution of the neighbour at offset `(drow, dcol)` from
/// `(row, col)`; the cell itself contributes nothing.
spec fn offset_weight(g: GridState, row: int, col: int, drow: int, dcol: int) -> int {
    if drow == 0 && dcol == 0 {
        0
    } else {
        g.alive_at(row + drow, col + dcol)
    }
}

/// The contributions of the offsets `(drow, -1)` up to, not including,
/// `(drow, dcol_end)`.
spec fn row_partial(g: GridState, row: int, col: int, drow: int, dcol_end: int) -> int
    decreases dcol_end + 1,
{
    if dcol_end <= -1 {
        0
    } else {
        row_partial(g, row, col, drow, dcol_end - 1) + offset_weight(g, row, col, drow, dcol_end - 1)
    }
}

/// The contributions of the whole offset rows from `-1` up to, not
/// including, `drow_end`.
spec fn rows_partial(g: GridState, row: int, col: int, drow_end: int) -> int
    decreases drow_end + 1,
{
    if drow_end <= -1 {
        0
    } else {
        rows_partial(g, row, col, drow_end - 1) + row_partial(g, row, col, drow_end - 1, 2)
    }
}

proof fn lemma_rows_partial_total(g: GridState, row: int, col: int)
    ensures
        rows_partial(g, row, col, 2) == g.neighbor_count(row, col),
{
    reveal_with_fuel(rows_partial, 4);
    reveal_with_fuel(row_partial, 4);
}

/// The state that a random byte gives a fresh cell: alive when the byte is
/// odd, a fair coin for a uniform byte.
pub open spec fn cell_of_byte(b: u8) -> Cell {
    if b % 2 == 1 {
        Cell::Alive
    } else {
        Cell::Dead
    }
}

impl Universe {
    /// A grid of `width` columns and `height` rows whose cells are drawn at
    /// random, each alive with probability one half. It starts dirty.
    pub fn new(width: u32, height: u32) -> (r: Universe)
        requires
            0 < width,
            0 < height,
            width * height <= u32::MAX,
        ensures
            r.wf(),
            r@.width == width,
            r@.height == height,
            r@.changed,
    {
        let n: u32 = width * height;
        let mut bytes: Vec<u8> = Vec::new();
        let mut i: u32 = 0;
        while i < n
            invariant
                i <= n,
                bytes@.len() == i,
            decreases n - i,
        {
            bytes.push(rand::random::<u8>());
            i = i + 1;
        }
        Self::from_random_bytes(width, height, &bytes)
    }

    /// A grid of `width` columns and `height` rows whose cell at index `i`
    /// is alive exactly when `bytes[i]` is odd. It starts dirty.
    pub fn from_random_bytes(width: u32, height: u32, bytes: &Vec<u8>) -> (r: Universe)
        requires
            0 < width,
            0 < height,
            width * height <= u32::MAX,
            bytes@.len() == width * height,
        ensures
            r.wf(),
            r@.width == width,
            r@.height == height,
            r@.changed,
            r@.cells == bytes@.map_values(|b: u8| cell_of_byte(b)),
    {
        let mut cells: Vec<Cell> = Vec::new();
        let mut i: usize = 0;
        while i < bytes.len()
            invariant
                i <= bytes@.len(),
                cells@ == bytes@.subrange(0, i as int).map_values(|b: u8| cell_of_byte(b)),
            decreases bytes@.len() - i,
        {
            let cell = if bytes[i] % 2 == 1 {
                Cell::Alive
            } else {
                Cell::Dead
            };
            cells.push(cell);
            i = i + 1;
            assert(cells@ =~= bytes@.subrange(0, i as int).map_values(|b: u8| cell_of_byte(b)));
        }
        assert(bytes@.subrange(0, i as int) =~= bytes@);
        Universe { width, height, cells, dirty: true }
    }

    /// The number of columns.
    pub fn width(&self) -> (r: u32)
        ensures
            r == self@.width,
    {
        self.width
    }

    /// The number of rows.
    pub fn height(&self) -> (r: u32)
        ensures
            r == self@.height,
    {
        self.height
    }

    /// Whether the last generation altered any cell; true for a fresh grid.
    pub fn dirty(&self) -> (r: bool)
        ensures
            r == self@.changed,
    {
        self.dirty
    }

    /// The dimensions are positive, their product fits in a `u32`, and there
    /// is one cell for each position.
    pub open spec fn wf(&self) -> bool {
        self@.well_formed()
    }

    /// The index in row-major order of the cell at `(row, column)`.
    pub fn get_index(&self, row: u32, column: u32) -> (r: usize)
        requires
            self.wf(),
            row < self@.height,
            column < self@.width,
        ensures
            r == row * self@.width + column,
            r < self@.cells.len(),
    {
        proof {
            lemma_index_of(self.width as int, self.height as int, row as int, column as int);
        }
        (row * self.width + column) as usize
    }

    /// The cell at `(row, column)`.
    pub fn get_cell_state(&self, row: u32, column: u32) -> (r: Cell)
        requires
            self.wf(),
            row < self@.height,
            column < self@.width,
        ensures
            r == self@.cell_at(row as int, column as int),
    {
        let idx = self.get_index(row, column);
        self.cells[idx]
    }

    /// How many of the up to eight cells around `(row, column)` are alive.
    /// Positions beyond an edge are skipped, so a corner cell has three
    /// neighbours and a cell on an edge five.
    pub fn live_neighbors(&self, row: u32, column: u32) -> (r: u8)
        requires
            self.wf(),
            row < self@.height,
            column < self@.width,
        ensures
            r == self@.neighbor_count(row as int, column as int),
            r <= 8,
    {
        let ghost g = self@;
        let mut count: u8 = 0;
        let mut drow: i32 = -1;
        while drow <= 1
            invariant
                self.wf(),
                g == self@,
                row < g.height,
                column < g.width,
                -1 <= drow <= 2,
                count == rows_partial(g, row as int, column as int, drow as int),
                count <= 3 * (drow + 1),
            decreases 2 - drow,
        {
            let mut dcol: i32 = -1;
            while dcol <= 1
                invariant
                    self.wf(),
                    g == self@,
                    row < g.height,
                    column < g.width,
                    -1 <= drow <= 1,
                    -1 <= dcol <= 2,
                    count == rows_partial(g, row as int, column as int, drow as int)
                        + row_partial(g, row as int, column as int, drow as int, dcol as int),
                    count <= 3 * (drow + 1) + dcol + 1,
                decreases 2 - dcol,
            {
                let skip = (drow == 0 && dcol == 0) || (drow == -1 && row == 0) || (drow == 1
                    && row == self.height - 1) || (dcol == -1 && column == 0) || (dcol == 1
                    && column == self.width - 1);
                if !skip {
                    let nrow: u32 = if drow == -1 {
                        row - 1
                    } else if drow == 1 {
                        row + 1
                    } else {
                        row
                    };
                    let ncol: u32 = if dcol == -1 {
                        column - 1
                    } else if dcol == 1 {
                        column + 1
                    } else {
                        column
                    };
                    let idx = self.get_index(nrow, ncol);
                    match self.cells[idx] {
                        Cell::Alive => count = count + 1,
                        Cell::Dead => {},
                    }
                }
                dcol = dcol + 1;
            }
            drow = drow + 1;
        }
        proof {
            lemma_rows_partial_total(g, row as int, column as int);
        }
        count
    }

    /// Advances the grid by one generation. Every cell's next state is worked
    /// out from the current grid; then all cells are replaced at once, and
    /// the grid is marked dirty exactly when some cell changed.
    pub fn tick(&mut self)
        requires
            old(self).wf(),
        ensures
            final(self).wf(),
            final(self)@ == old(self)@.advanced(),
    {
        let ghost g = self@;
        let ghost succ = g.next_cells();
        self.dirty = false;
        let mut next = self.cells.clone();
        assert(next@ =~= g.cells);
        let mut row: u32 = 0;
        while row < self.height
            invariant
                self.wf(),
                self@.cells == g.cells,
                self@.width == g.width,
                self@.height == g.height,
                g.well_formed(),
                succ == g.next_cells(),
                row <= g.height,
                next@.len() == g.cells.len(),
                forall|i: int| 0 <= i < row * g.width ==> next@[i] == succ[i],
                forall|i: int| row * g.width <= i < g.cells.len() ==> next@[i] == g.cells[i],
                self.dirty == exists|i: int| 0 <= i < row * g.width && succ[i] != g.cells[i],
            decreases g.height - row,
        {
            let mut col: u32 = 0;
            while col < self.width
                invariant
                    self.wf(),
                    self@.cells == g.cells,
                    self@.width == g.width,
                    self@.height == g.height,
                    g.well_formed(),
                    succ == g.next_cells(),
                    row < g.height,
                    col <= g.width,
                    next@.len() == g.cells.len(),
                    forall|i: int| 0 <= i < row * g.width + col ==> next@[i] == succ[i],
                    forall|i: int| row * g.width + col <= i < g.cells.len() ==> next@[i] == g.cells[i],
                    self.dirty == exists|i: int|
                        0 <= i < row * g.width + col && succ[i] != g.cells[i],
                decreases g.width - col,
            {
                let idx = self.get_index(row, col);
                let cell = self.cells[idx];
                let live_neighbors = self.live_neighbors(row, col);
                let next_cell_state = match (cell, live_neighbors) {
                    (Cell::Alive, 2) | (Cell::Alive, 3) => Cell::Alive,
                    (Cell::Alive, _) => Cell::Dead,
                    (Cell::Dead, 3) => Cell::Alive,
                    (Cell::Dead, _) => Cell::Dead,
                };
                proof {
                    lemma_index_of(g.width, g.height, row as int, col as int);
                    assert(cell == g.cell_at(row as int, col as int));
                    assert(next_cell_state == g.next_cell(row as int, col as int));
                    assert(next_cell_state == succ[idx as int]);
                }
                if next[idx] != next_cell_state {
                    self.dirty = true;
                }
                next.set(idx, next_cell_state);
                col = col + 1;
            }
            assert((row + 1) * g.width == row * g.width + g.width) by (nonlinear_arith);
            row = row + 1;
        }
        assert(row * g.width == g.cells.len()) by (nonlinear_arith)
            requires
                row == g.height,
                g.cells.len() == g.width * g.height,
        ;
        self.cells = next;
        proof {
            if self.dirty {
                assert(succ != g.cells);
            } else {
                assert(succ =~= g.cells);
            }
            assert(self@.cells =~= succ);
        }
    }
}

} // verus!
