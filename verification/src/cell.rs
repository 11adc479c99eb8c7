use vstd::prelude::*;

verus! {

/// The state of one cell. A cell is a value: it has no attributes and no
/// identity beyond its position in a grid.
#[derive(Clone, Copy, Debug, PartialEq, Eq, Structural)]
pub enum Cell {
    Dead,
    Alive,
}

/// The contribution of one cell to a live-neighbor count: 1 if it is alive,
/// 0 if it is dead.
pub open spec fn live_weight(c: Cell) -> int {
    match c {
        Cell::Alive => 1,
        Cell::Dead => 0,
    }
}

/// The Game of Life transition table: the next state of a cell, from its
/// current state and its live-neighbor count. An alive cell survives exactly
/// with 2 or 3 live neighbors (fewer is underpopulation, more is
/// overpopulation); a dead cell comes alive exactly with 3 (reproduction).
/// The table is total over every state and every count.
pub open spec fn spec_next_cell(c: Cell, live_neighbors: int) -> Cell {
    match c {
        Cell::Alive => if 2 <= live_neighbors && live_neighbors <= 3 {
            Cell::Alive
        } else {
            Cell::Dead
        },
        Cell::Dead => if live_neighbors == 3 {
            Cell::Alive
        } else {
            Cell::Dead
        },
    }
}

/// The rule evaluator for one cell: applies the transition table.
pub fn next_cell(c: Cell, live_neighbors: u8) -> (next: Cell)
    ensures
        next == spec_next_cell(c, live_neighbors as int),
{
    match (c, live_neighbors) {
        (Cell::Alive, n) if n < 2 => Cell::Dead,
        (Cell::Alive, 2) | (Cell::Alive, 3) => Cell::Alive,
        (Cell::Alive, n) if n > 3 => Cell::Dead,
        (Cell::Dead, 3) => Cell::Alive,
        (current, _) => current,
    }
}

} // verus!
