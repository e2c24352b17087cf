use vstd::prelude::*;

verus! {

/// The state of one square of the grid.
#[derive(Clone, Copy, Debug, PartialEq, Eq, Structural)]
pub enum Cell {
    Dead,
    Alive,
}

/// What a cell in state `cell` becomes when `live_neighbors` of its
/// neighbours are alive: a live cell survives with two or three, a dead cell
/// is born with exactly three, every other cell is dead.
pub open spec fn next_state(cell: Cell, live_neighbors: int) -> Cell {
    match cell {
        Cell::Alive => if live_neighbors == 2 || live_neighbors == 3 {
            Cell::Alive
        } else {
            Cell::Dead
        },
        Cell::Dead => if live_neighbors == 3 {
            Cell::Alive
        } else {
            Cell::Dead
        },
    }
}

impl Cell {
    /// One for a live cell, zero for a dead one.
    pub open spec fn weight(self) -> int {
        if self == Cell::Alive {
            1
        } else {
            0
        }
    }
}

} // verus!
