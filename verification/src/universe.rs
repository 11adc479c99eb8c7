use vstd::arithmetic::div_mod::lemma_div_pos_is_pos;
use vstd::arithmetic::div_mod::lemma_fundamental_div_mod_converse;
use vstd::arithmetic::div_mod::lemma_mod_pos_bound;
use vstd::arithmetic::div_mod::lemma_multiply_divide_lt;
use vstd::prelude::*;
use vstd::string::StringExecFns;

use crate::cell::Cell;
use crate::cell::live_weight;
use crate::cell::next_cell;
use crate::cell::spec_next_cell;

verus! {

/// The flat position of the cell at `(x, y)` in a row-major grid of the given
/// width: row `y` starts at `y * width`, and `x` selects the column within it.
pub open spec fn flat_index(width: int, x: int, y: int) -> int {
    y * width + x
}

/// One step toward smaller coordinates along an axis of modulus `m`, wrapping
/// 0 around to `m - 1`: the toroidal stand-in for an offset of -1.
pub open spec fn wrap_dec(v: int, m: int) -> int {
    if v == 0 {
        m - 1
    } else {
        v - 1
    }
}

/// One step toward larger coordinates along an axis of modulus `m`, wrapping
/// `m - 1` around to 0: the toroidal stand-in for an offset of +1.
pub open spec fn wrap_inc(v: int, m: int) -> int {
    if v == m - 1 {
        0
    } else {
        v + 1
    }
}

/// A well-formed grid: positive dimensions, and exactly one cell per position.
pub open spec fn grid_wf(cells: Seq<Cell>, width: int, height: int) -> bool {
    &&& 0 < width
    &&& 0 < height
    &&& cells.len() == width * height
}

/// A flat index computed from in-range coordinates lands inside the grid.
pub proof fn lemma_flat_index_in_range(width: int, height: int, x: int, y: int)
    requires
        0 < width,
        0 < height,
        0 <= x < width,
        0 <= y < height,
    ensures
        0 <= flat_index(width, x, y) < width * height,
{
    assert(0 <= y * width + x < width * height) by (nonlinear_arith)
        requires
            0 < width,
            0 <= x < width,
            0 <= y < height,
    ;
}

/// Splitting a flat index back into coordinates: for an in-range column `x`,
/// `y * width + x` divides into row `y` and remainder `x`.
pub proof fn lemma_flat_index_decomposes(width: int, x: int, y: int)
    requires
        0 < width,
        0 <= x < width,
        0 <= y,
    ensures
        flat_index(width, x, y) % width == x,
        flat_index(width, x, y) / width == y,
{
    lemma_fundamental_div_mod_converse(y * width + x, width, y, x);
}

/// The live-neighbor count of the cell at `(x, y)`: the sum, over the eight
/// toroidally wrapped neighbor positions, of that neighbor's live weight.
/// The grid is a torus, so the neighbors of an edge cell wrap to the opposite
/// edge; on an axis of modulus 1 or 2 several offsets can reach the same
/// position, and each offset still contributes its own summand.
pub open spec fn neighbor_count(cells: Seq<Cell>, width: int, height: int, x: int, y: int) -> int {
    let xl = wrap_dec(x, width);
    let xr = wrap_inc(x, width);
    let yu = wrap_dec(y, height);
    let yd = wrap_inc(y, height);
    live_weight(cells[flat_index(width, xl, yu)]) + live_weight(cells[flat_index(width, x, yu)])
        + live_weight(cells[flat_index(width, xr, yu)]) + live_weight(
        cells[flat_index(width, xl, y)],
    ) + live_weight(cells[flat_index(width, xr, y)]) + live_weight(
        cells[flat_index(width, xl, yd)],
    ) + live_weight(cells[flat_index(width, x, yd)]) + live_weight(
        cells[flat_index(width, xr, yd)],
    )
}

/// The next generation of a row-major cell buffer: every position gets the
/// state that the transition table assigns it, from its current state and its
/// live-neighbor count, both read from the one frozen current buffer. The
/// order in which positions are evaluated therefore cannot matter.
pub open spec fn step_cells(cells: Seq<Cell>, width: int, height: int) -> Seq<Cell> {
    Seq::new(
        cells.len(),
        |i: int|
            spec_next_cell(cells[i], neighbor_count(cells, width, height, i % width, i / width)),
    )
}

/// The buffer after `n` generations.
pub open spec fn step_cells_n(cells: Seq<Cell>, width: int, height: int, n: nat) -> Seq<Cell>
    decreases n,
{
    if n == 0 {
        cells
    } else {
        step_cells(step_cells_n(cells, width, height, (n - 1) as nat), width, height)
    }
}

/// The error reported when a construction or replacement would break the
/// grid invariant `cells.len() == width * height` (or hand in an empty axis).
#[derive(Clone, Copy, Debug, PartialEq, Eq, Structural)]
pub struct InvariantViolation;

/// A fixed-size toroidal Game of Life grid: the sole aggregate of the
/// simulation. The dimensions are fixed at construction; the cell buffer is
/// row-major and is only ever mutated by wholesale replacement, so a reader
/// never observes a partially updated generation.
pub struct Universe {
    width: usize,
    height: usize,
    cells: Vec<Cell>,
}

/// The glyph that renders one cell: a hollow square for a dead cell, a filled
/// square for an alive one.
pub open spec fn glyph(c: Cell) -> char {
    match c {
        Cell::Dead => '◻',
        Cell::Alive => '◼',
    }
}

/// The text rendering of a grid: `height` lines in row-major order, each one
/// holding `width` glyphs, one per cell, and ending in exactly one newline.
pub open spec fn render_chars(cells: Seq<Cell>, width: int, height: int) -> Seq<char> {
    Seq::new(
        (height * (width + 1)) as nat,
        |p: int|
            if p % (width + 1) == width {
                '\n'
            } else {
                glyph(cells[flat_index(width, p % (width + 1), p / (width + 1))])
            },
    )
}

/// The demo seeding rule: the cell at flat position `i` starts alive exactly
/// when `i` is even or divisible by 7.
pub open spec fn default_pattern_cell(i: int) -> Cell {
    if i % 2 == 0 || i % 7 == 0 {
        Cell::Alive
    } else {
        Cell::Dead
    }
}

impl Universe {
    /// The fixed number of columns.
    pub closed spec fn spec_width(self) -> int {
        self.width as int
    }

    /// The fixed number of rows.
    pub closed spec fn spec_height(self) -> int {
        self.height as int
    }

    /// The current generation, as the mathematical sequence of its cells.
    pub closed spec fn spec_cells(self) -> Seq<Cell> {
        self.cells@
    }

    /// The grid invariant: positive dimensions and a buffer of exactly
    /// `width * height` cells. Every constructor establishes it and every
    /// method preserves it.
    pub open spec fn wf(self) -> bool {
        grid_wf(self.spec_cells(), self.spec_width(), self.spec_height())
    }

    /// The current state of the cell at `(x, y)`.
    pub open spec fn cell_at(self, x: int, y: int) -> Cell {
        self.spec_cells()[flat_index(self.spec_width(), x, y)]
    }

    /// Builds the default 64-by-64 grid, seeded with the fixed, reproducible
    /// demo pattern: cell `i` is alive exactly when `i` is even or divisible
    /// by 7.
    pub fn new() -> (universe: Universe)
        ensures
            universe.wf(),
            universe.spec_width() == 64,
            universe.spec_height() == 64,
            forall|i: int|
                0 <= i < universe.spec_cells().len() ==> universe.spec_cells()[i]
                    == default_pattern_cell(i),
    {
        let width: usize = 64;
        let height: usize = 64;
        let len: usize = width * height;
        let mut cells: Vec<Cell> = Vec::new();
        let mut i: usize = 0;
        while i < len
            invariant
                len == 64 * 64,
                i <= len,
                cells@.len() == i,
                forall|j: int| 0 <= j < i ==> cells@[j] == default_pattern_cell(j),
            decreases len - i,
        {
            if i % 2 == 0 || i % 7 == 0 {
                cells.push(Cell::Alive);
            } else {
                cells.push(Cell::Dead);
            }
            i = i + 1;
        }
        Universe { width, height, cells }
    }

    /// Builds a grid from explicit dimensions and an explicit cell buffer.
    /// Succeeds exactly when both dimensions are positive and the buffer has
    /// one cell per position; any other input is an `InvariantViolation`.
    pub fn from_cells(width: usize, height: usize, cells: Vec<Cell>) -> (result: Result<
        Universe,
        InvariantViolation,
    >)
        ensures
            result is Ok <==> (0 < width && 0 < height && cells@.len() == width * height),
            result matches Ok(u) ==> {
                &&& u.wf()
                &&& u.spec_width() == width
                &&& u.spec_height() == height
                &&& u.spec_cells() == cells@
            },
            result matches Err(e) ==> e == InvariantViolation,
    {
        if width == 0 || height == 0 {
            return Err(InvariantViolation);
        }
        let buffer_len = cells.len();
        match width.checked_mul(height) {
            Some(expected_len) => {
                if buffer_len == expected_len {
                    Ok(Universe { width, height, cells })
                } else {
                    Err(InvariantViolation)
                }
            },
            None => Err(InvariantViolation),
        }
    }

    /// The fixed number of columns; never fails.
    pub fn width(&self) -> (width: usize)
        ensures
            width == self.spec_width(),
    {
        self.width
    }

    /// The fixed number of rows; never fails.
    pub fn height(&self) -> (height: usize)
        ensures
            height == self.spec_height(),
    {
        self.height
    }

    /// A read-only view of the current generation, without copying. It
    /// describes the grid as of the last completed step; a caller must not
    /// hold it across the next call to `tick` or `replace`.
    pub fn cells(&self) -> (cells: &Vec<Cell>)
        ensures
            cells@ == self.spec_cells(),
    {
        &self.cells
    }

    /// The flat buffer position of the cell at `(x, y)`: `y * width + x`.
    /// Coordinates must already be in range; the wrap rule normalizes them
    /// before any lookup, so the grid never indexes out of bounds.
    pub fn get_index(&self, x: usize, y: usize) -> (idx: usize)
        requires
            self.wf(),
            x < self.spec_width(),
            y < self.spec_height(),
        ensures
            idx == flat_index(self.spec_width(), x as int, y as int),
            idx < self.spec_cells().len(),
    {
        proof {
            lemma_flat_index_in_range(
                self.spec_width(),
                self.spec_height(),
                x as int,
                y as int,
            );
        }
        // The buffer length, a usize, bounds the index: that rules out
        // overflow in the arithmetic below.
        let buffer_len = self.cells.len();
        y * self.width + x
    }

    /// The live weight of the cell at in-range `(x, y)`: 1 if alive, else 0.
    fn live_weight_at(&self, x: usize, y: usize) -> (weight: u8)
        requires
            self.wf(),
            x < self.spec_width(),
            y < self.spec_height(),
        ensures
            weight == live_weight(self.cell_at(x as int, y as int)),
            weight <= 1,
    {
        let idx = self.get_index(x, y);
        match self.cells[idx] {
            Cell::Alive => 1,
            Cell::Dead => 0,
        }
    }

    /// The number of alive cells among the eight toroidally wrapped neighbors
    /// of `(x, y)`, read purely from the current generation. Always in 0..=8.
    pub fn live_neighbor_count(&self, x: usize, y: usize) -> (count: u8)
        requires
            self.wf(),
            x < self.spec_width(),
            y < self.spec_height(),
        ensures
            count == neighbor_count(
                self.spec_cells(),
                self.spec_width(),
                self.spec_height(),
                x as int,
                y as int,
            ),
            count <= 8,
    {
        let xl = wrap_sub_one(x, self.width);
        let xr = wrap_add_one(x, self.width);
        let yu = wrap_sub_one(y, self.height);
        let yd = wrap_add_one(y, self.height);
        self.live_weight_at(xl, yu) + self.live_weight_at(x, yu) + self.live_weight_at(xr, yu)
            + self.live_weight_at(xl, y) + self.live_weight_at(xr, y) + self.live_weight_at(xl, yd)
            + self.live_weight_at(x, yd) + self.live_weight_at(xr, yd)
    }

    /// Advances the grid by exactly one generation. The whole next buffer is
    /// computed into separate memory from the frozen current generation, and
    /// only then installed by a single buffer replacement, so no cell ever
    /// reads a sibling's next state. The dimensions never change.
    pub fn tick(&mut self)
        requires
            old(self).wf(),
        ensures
            final(self).wf(),
            final(self).spec_width() == old(self).spec_width(),
            final(self).spec_height() == old(self).spec_height(),
            final(self).spec_cells() == step_cells(
                old(self).spec_cells(),
                old(self).spec_width(),
                old(self).spec_height(),
            ),
    {
        let width = self.width;
        let height = self.height;
        let ghost target = step_cells(self.spec_cells(), self.spec_width(), self.spec_height());
        let mut next_cells: Vec<Cell> = Vec::new();
        let mut y: usize = 0;
        while y < height
            invariant
                *self == *old(self),
                self.wf(),
                width == self.spec_width(),
                height == self.spec_height(),
                target == step_cells(self.spec_cells(), self.spec_width(), self.spec_height()),
                y <= height,
                next_cells@.len() == y * width,
                forall|i: int| 0 <= i < next_cells@.len() ==> next_cells@[i] == target[i],
            decreases height - y,
        {
            let mut x: usize = 0;
            while x < width
                invariant
                    *self == *old(self),
                    self.wf(),
                    width == self.spec_width(),
                    height == self.spec_height(),
                    target == step_cells(self.spec_cells(), self.spec_width(), self.spec_height()),
                    y < height,
                    x <= width,
                    next_cells@.len() == y * width + x,
                    forall|i: int| 0 <= i < next_cells@.len() ==> next_cells@[i] == target[i],
                decreases width - x,
            {
                let idx = self.get_index(x, y);
                let current = self.cells[idx];
                let live_neighbors = self.live_neighbor_count(x, y);
                let next = next_cell(current, live_neighbors);
                proof {
                    lemma_flat_index_decomposes(width as int, x as int, y as int);
                    assert(next == target[idx as int]);
                }
                next_cells.push(next);
                x = x + 1;
            }
            proof {
                assert((y + 1) * width == y * width + width) by (nonlinear_arith);
            }
            y = y + 1;
        }
        proof {
            assert(height * width == width * height) by (nonlinear_arith);
            assert(next_cells@ =~= target);
        }
        self.cells = next_cells;
    }

    /// Renders the current generation as text: one line per row, one glyph
    /// per cell, each row closed by a single newline. A pure snapshot: the
    /// grid itself is not touched.
    pub fn render(&self) -> (text: String)
        requires
            self.wf(),
        ensures
            text@ == render_chars(self.spec_cells(), self.spec_width(), self.spec_height()),
    {
        let width = self.width;
        let height = self.height;
        let ghost target = render_chars(self.spec_cells(), self.spec_width(), self.spec_height());
        let mut text = String::new();
        let mut y: usize = 0;
        while y < height
            invariant
                self.wf(),
                width == self.spec_width(),
                height == self.spec_height(),
                target == render_chars(self.spec_cells(), self.spec_width(), self.spec_height()),
                y <= height,
                text@.len() == y * (width + 1),
                forall|p: int| 0 <= p < text@.len() ==> text@[p] == target[p],
            decreases height - y,
        {
            let mut x: usize = 0;
            while x < width
                invariant
                    self.wf(),
                    width == self.spec_width(),
                    height == self.spec_height(),
                    target == render_chars(
                        self.spec_cells(),
                        self.spec_width(),
                        self.spec_height(),
                    ),
                    y < height,
                    x <= width,
                    text@.len() == y * (width + 1) + x,
                    forall|p: int| 0 <= p < text@.len() ==> text@[p] == target[p],
                decreases width - x,
            {
                let idx = self.get_index(x, y);
                proof {
                    reveal_strlit("◻");
                    reveal_strlit("◼");
                    lemma_flat_index_decomposes(width as int + 1, x as int, y as int);
                    lemma_flat_index_in_range(
                        width as int + 1,
                        height as int,
                        x as int,
                        y as int,
                    );
                    assert((width as int + 1) * height == height * (width as int + 1))
                        by (nonlinear_arith);
                }
                match self.cells[idx] {
                    Cell::Dead => text.append("◻"),
                    Cell::Alive => text.append("◼"),
                }
                x = x + 1;
            }
            proof {
                reveal_strlit("\n");
                lemma_flat_index_decomposes(width as int + 1, width as int, y as int);
                lemma_flat_index_in_range(
                    width as int + 1,
                    height as int,
                    width as int,
                    y as int,
                );
                assert((width as int + 1) * height == height * (width as int + 1))
                    by (nonlinear_arith);
                assert((y + 1) * (width + 1) == y * (width + 1) + width + 1) by (nonlinear_arith);
            }
            text.append("\n");
            y = y + 1;
        }
        proof {
            assert(text@ =~= target);
        }
        text
    }

    /// Installs a full new generation atomically. Succeeds exactly when the
    /// new buffer has one cell per position; on any other length the grid is
    /// left unchanged and the call reports an `InvariantViolation`. The
    /// dimensions never change.
    pub fn replace(&mut self, new_cells: Vec<Cell>) -> (result: Result<(), InvariantViolation>)
        requires
            old(self).wf(),
        ensures
            final(self).wf(),
            final(self).spec_width() == old(self).spec_width(),
            final(self).spec_height() == old(self).spec_height(),
            result is Ok <==> new_cells@.len() == old(self).spec_width() * old(self).spec_height(),
            result is Ok ==> final(self).spec_cells() == new_cells@,
            result is Err ==> final(self).spec_cells() == old(self).spec_cells(),
            result matches Err(e) ==> e == InvariantViolation,
    {
        if new_cells.len() == self.cells.len() {
            self.cells = new_cells;
            Ok(())
        } else {
            Err(InvariantViolation)
        }
    }
}

/// Law: on an all-dead grid of any size, every cell's live-neighbor count is
/// zero, whichever cell is asked about.
pub proof fn lemma_all_dead_neighbor_count(
    cells: Seq<Cell>,
    width: int,
    height: int,
    x: int,
    y: int,
)
    requires
        grid_wf(cells, width, height),
        forall|i: int| 0 <= i < cells.len() ==> cells[i] == Cell::Dead,
        0 <= x < width,
        0 <= y < height,
    ensures
        neighbor_count(cells, width, height, x, y) == 0,
{
    let xl = wrap_dec(x, width);
    let xr = wrap_inc(x, width);
    let yu = wrap_dec(y, height);
    let yd = wrap_inc(y, height);
    lemma_flat_index_in_range(width, height, xl, yu);
    lemma_flat_index_in_range(width, height, x, yu);
    lemma_flat_index_in_range(width, height, xr, yu);
    lemma_flat_index_in_range(width, height, xl, y);
    lemma_flat_index_in_range(width, height, xr, y);
    lemma_flat_index_in_range(width, height, xl, yd);
    lemma_flat_index_in_range(width, height, x, yd);
    lemma_flat_index_in_range(width, height, xr, yd);
}

/// Law: the all-dead grid of any size is a fixed point of the step — one
/// generation leaves it unchanged.
pub proof fn lemma_all_dead_fixed_point(cells: Seq<Cell>, width: int, height: int)
    requires
        grid_wf(cells, width, height),
        forall|i: int| 0 <= i < cells.len() ==> cells[i] == Cell::Dead,
    ensures
        step_cells(cells, width, height) == cells,
{
    assert forall|i: int| 0 <= i < cells.len() implies step_cells(cells, width, height)[i]
        == cells[i] by {
        lemma_mod_pos_bound(i, width);
        lemma_div_pos_is_pos(i, width);
        assert(i < width * height);
        lemma_multiply_divide_lt(i, width, height);
        lemma_all_dead_neighbor_count(cells, width, height, i % width, i / width);
    }
    assert(step_cells(cells, width, height) =~= cells);
}

/// Law: the simulation is deterministic. Two grids with the same dimensions
/// and the same initial cells hold the same cells after any equal number of
/// generations: the step is a pure function of the prior generation, with no
/// hidden randomness.
pub proof fn lemma_step_deterministic(a: Universe, b: Universe, n: nat)
    requires
        a.spec_width() == b.spec_width(),
        a.spec_height() == b.spec_height(),
        a.spec_cells() == b.spec_cells(),
    ensures
        step_cells_n(a.spec_cells(), a.spec_width(), a.spec_height(), n) == step_cells_n(
            b.spec_cells(),
            b.spec_width(),
            b.spec_height(),
            n,
        ),
{
}

impl Default for Universe {
    /// The default grid is the demo grid of `Universe::new`.
    fn default() -> (universe: Universe)
        ensures
            universe.wf(),
            universe.spec_width() == 64,
            universe.spec_height() == 64,
            forall|i: int|
                0 <= i < universe.spec_cells().len() ==> universe.spec_cells()[i]
                    == default_pattern_cell(i),
    {
        Universe::new()
    }
}

/// Moves an in-range coordinate one step down an axis of modulus `m`,
/// wrapping 0 to `m - 1`.
fn wrap_sub_one(v: usize, m: usize) -> (wrapped: usize)
    requires
        0 < m,
        v < m,
    ensures
        wrapped == wrap_dec(v as int, m as int),
        wrapped < m,
{
    if v == 0 {
        m - 1
    } else {
        v - 1
    }
}

/// Moves an in-range coordinate one step up an axis of modulus `m`,
/// wrapping `m - 1` to 0.
fn wrap_add_one(v: usize, m: usize) -> (wrapped: usize)
    requires
        0 < m,
        v < m,
    ensures
        wrapped == wrap_inc(v as int, m as int),
        wrapped < m,
{
    if v == m - 1 {
        0
    } else {
        v + 1
    }
}

} // verus!
