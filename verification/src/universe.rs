//! The simulation engine: a fixed-size grid of binary cells on a toroidal
//! topology, and the generational update rule of Conway's Game of Life.

use vstd::arithmetic::div_mod::{lemma_fundamental_div_mod_converse, lemma_mod_bound};
use vstd::prelude::*;

verus! {

/// A single grid position's binary state. Its integer projection
/// (`Dead` is 0, `Alive` is 1) is what neighbor counting sums.
#[derive(Clone, Copy, Debug, PartialEq, Eq, Structural)]
pub enum Cell {
    Dead,
    Alive,
}

/// The integer value of a cell: 0 when dead, 1 when alive.
pub open spec fn cell_value(cell: Cell) -> nat {
    match cell {
        Cell::Dead => 0,
        Cell::Alive => 1,
    }
}

impl Cell {
    /// The stable integer projection of a cell state.
    pub fn as_u8(self) -> (value: u8)
        ensures
            value as nat == cell_value(self),
    {
        match self {
            Cell::Dead => 0,
            Cell::Alive => 1,
        }
    }
}

/// The rule table: the next state of one cell, given its current state and
/// its live neighbor count. An alive cell survives with exactly 2 or 3 live
/// neighbors and otherwise dies; a dead cell becomes alive with exactly 3.
pub open spec fn next_cell_rule(cell: Cell, neighbors: nat) -> Cell {
    match cell {
        Cell::Alive => if 2 <= neighbors && neighbors <= 3 {
            Cell::Alive
        } else {
            Cell::Dead
        },
        Cell::Dead => if neighbors == 3 {
            Cell::Alive
        } else {
            Cell::Dead
        },
    }
}

/// A fixed-size grid of cells, stored in row-major order, whose edges wrap
/// around: the neighbor of the last row or column is the first one.
pub struct Universe {
    width: u32,
    height: u32,
    cells: Vec<Cell>,
}

/// A row-major offset lies within a grid of the given dimensions.
pub proof fn lemma_row_major_index_in_range(width: int, height: int, row: int, col: int)
    requires
        1 <= width,
        0 <= row < height,
        0 <= col < width,
    ensures
        0 <= row * width + col < height * width,
{
    assert(row * width + col < height * width) by (nonlinear_arith)
        requires
            0 <= row < height,
            0 <= col < width,
            1 <= width,
    ;
    assert(0 <= row * width + col) by (nonlinear_arith)
        requires
            0 <= row,
            0 <= col,
            1 <= width,
    ;
}

impl Universe {
    /// Number of columns.
    pub closed spec fn spec_width(self) -> int {
        self.width as int
    }

    /// Number of rows.
    pub closed spec fn spec_height(self) -> int {
        self.height as int
    }

    /// The cells, in row-major order.
    pub closed spec fn spec_cells(self) -> Seq<Cell> {
        self.cells@
    }

    /// Grid well-formedness: positive dimensions and exactly one cell per
    /// position. Constructors establish it; every operation preserves it.
    pub open spec fn well_formed(self) -> bool {
        &&& 1 <= self.spec_width()
        &&& 1 <= self.spec_height()
        &&& self.spec_cells().len() == self.spec_height() * self.spec_width()
    }

    /// The cell at a row and column, both already reduced into range.
    pub open spec fn cell_at(self, row: int, col: int) -> Cell {
        self.spec_cells()[row * self.spec_width() + col]
    }

    /// What one delta pair contributes to a neighbor count: the value of the
    /// wrapped neighbor cell, except that the (0, 0) pair — the cell itself —
    /// contributes nothing.
    pub open spec fn delta_contrib(self, row: int, col: int, delta_row: int, delta_col: int) -> nat {
        if delta_row == 0 && delta_col == 0 {
            0
        } else {
            cell_value(
                self.cell_at(
                    (row + delta_row) % self.spec_height(),
                    (col + delta_col) % self.spec_width(),
                ),
            )
        }
    }

    /// The live neighbor count of a cell: the sum, over the row deltas
    /// height-1, 0, 1 and the column deltas width-1, 0, 1, of the wrapped
    /// neighbor's value, skipping the pair that names the cell itself.
    pub open spec fn spec_live_neighbor_count(self, row: int, col: int) -> nat {
        let up = self.spec_height() - 1;
        let left = self.spec_width() - 1;
        self.delta_contrib(row, col, up, left) + self.delta_contrib(row, col, up, 0)
            + self.delta_contrib(row, col, up, 1) + self.delta_contrib(row, col, 0, left)
            + self.delta_contrib(row, col, 0, 0) + self.delta_contrib(row, col, 0, 1)
            + self.delta_contrib(row, col, 1, left) + self.delta_contrib(row, col, 1, 0)
            + self.delta_contrib(row, col, 1, 1)
    }

    /// The next generation: every cell becomes the rule applied to its
    /// current state and its live neighbor count in the current generation.
    pub open spec fn spec_next_cells(self) -> Seq<Cell> {
        Seq::new(
            self.spec_cells().len(),
            |i: int|
                next_cell_rule(
                    self.spec_cells()[i],
                    self.spec_live_neighbor_count(i / self.spec_width(), i % self.spec_width()),
                ),
        )
    }

    /// Builds a universe from its dimensions and initial cells. A malformed
    /// configuration — a zero dimension, or a cell count other than
    /// height times width — is rejected.
    pub fn new(width: u32, height: u32, cells: Vec<Cell>) -> (result: Option<Universe>)
        ensures
            result is Some <==> (1 <= width && 1 <= height && cells@.len() == (height as int) * (
            width as int)),
            match result {
                Some(universe) => {
                    &&& universe.spec_width() == width as int
                    &&& universe.spec_height() == height as int
                    &&& universe.spec_cells() == cells@
                    &&& universe.well_formed()
                },
                None => true,
            },
    {
        if width == 0 || height == 0 {
            return None;
        }
        proof {
            assert((height as int) * (width as int) < 0x1_0000_0000_0000_0000) by (nonlinear_arith)
                requires
                    0 <= height < 0x1_0000_0000,
                    0 <= width < 0x1_0000_0000,
            ;
        }
        if cells.len() as u64 != (height as u64) * (width as u64) {
            return None;
        }
        Some(Universe { width, height, cells })
    }

    /// Number of columns.
    pub fn width(&self) -> (width: u32)
        ensures
            width as int == self.spec_width(),
    {
        self.width
    }

    /// Number of rows.
    pub fn height(&self) -> (height: u32)
        ensures
            height as int == self.spec_height(),
    {
        self.height
    }

    /// The linear offset of a row and column into the row-major cell
    /// sequence. Callers pre-reduce wrapped coordinates into range.
    pub fn get_index(&self, row: u32, column: u32) -> (index: usize)
        requires
            self.well_formed(),
            (row as int) < self.spec_height(),
            (column as int) < self.spec_width(),
        ensures
            index as int == (row as int) * self.spec_width() + (column as int),
            index < self.spec_cells().len(),
    {
        let total = self.cells.len();
        proof {
            lemma_row_major_index_in_range(
                self.spec_width(),
                self.spec_height(),
                row as int,
                column as int,
            );
            assert(total == self.spec_cells().len());
        }
        (row as usize) * (self.width as usize) + (column as usize)
    }

    /// The cell at a row and column, both in range.
    pub fn get_cell(&self, row: u32, column: u32) -> (cell: Cell)
        requires
            self.well_formed(),
            (row as int) < self.spec_height(),
            (column as int) < self.spec_width(),
        ensures
            cell == self.cell_at(row as int, column as int),
    {
        let index = self.get_index(row, column);
        self.cells[index]
    }

    /// The executable counterpart of `delta_contrib` for one delta pair.
    fn delta_weight(&self, row: u32, column: u32, delta_row: u32, delta_col: u32) -> (weight: u8)
        requires
            self.well_formed(),
            (row as int) < self.spec_height(),
            (column as int) < self.spec_width(),
            delta_row as int == self.spec_height() - 1 || delta_row == 0 || delta_row == 1,
            delta_col as int == self.spec_width() - 1 || delta_col == 0 || delta_col == 1,
        ensures
            weight as nat == self.delta_contrib(
                row as int,
                column as int,
                delta_row as int,
                delta_col as int,
            ),
            weight <= 1,
    {
        if delta_row == 0 && delta_col == 0 {
            return 0;
        }
        let row_sum = row as u64 + delta_row as u64;
        let col_sum = column as u64 + delta_col as u64;
        proof {
            lemma_mod_bound(row_sum as int, self.spec_height());
            lemma_mod_bound(col_sum as int, self.spec_width());
        }
        let neighbor_row = (row_sum % (self.height as u64)) as u32;
        let neighbor_col = (col_sum % (self.width as u64)) as u32;
        let index = self.get_index(neighbor_row, neighbor_col);
        self.cells[index].as_u8()
    }

    /// Counts the live cells among the 8 toroidal neighbors of a cell.
    /// The count is always at most 8.
    pub fn live_neighbor_count(&self, row: u32, column: u32) -> (count: u8)
        requires
            self.well_formed(),
            (row as int) < self.spec_height(),
            (column as int) < self.spec_width(),
        ensures
            count as nat == self.spec_live_neighbor_count(row as int, column as int),
            count <= 8,
    {
        let up = self.height - 1;
        let left = self.width - 1;
        let mut count: u8 = 0;
        count += self.delta_weight(row, column, up, left);
        count += self.delta_weight(row, column, up, 0);
        count += self.delta_weight(row, column, up, 1);
        count += self.delta_weight(row, column, 0, left);
        count += self.delta_weight(row, column, 0, 0);
        count += self.delta_weight(row, column, 0, 1);
        count += self.delta_weight(row, column, 1, left);
        count += self.delta_weight(row, column, 1, 0);
        count += self.delta_weight(row, column, 1, 1);
        count
    }

    /// Advances the grid by one generation: every cell of the new grid is
    /// the rule applied to the old cell and its old neighbor count, so the
    /// whole update reads only the previous generation.
    pub fn tick(&mut self)
        requires
            old(self).well_formed(),
        ensures
            final(self).spec_width() == old(self).spec_width(),
            final(self).spec_height() == old(self).spec_height(),
            final(self).spec_cells() == old(self).spec_next_cells(),
            final(self).well_formed(),
    {
        let mut next: Vec<Cell> = Vec::new();
        let mut row: u32 = 0;
        while row < self.height
            invariant
                *self == *old(self),
                self.well_formed(),
                row as int <= self.spec_height(),
                next@.len() == (row as int) * self.spec_width(),
                forall|i: int| 0 <= i < next@.len() ==> next@[i] == self.spec_next_cells()[i],
            decreases self.spec_height() - row as int,
        {
            let mut col: u32 = 0;
            while col < self.width
                invariant
                    *self == *old(self),
                    self.well_formed(),
                    (row as int) < self.spec_height(),
                    col as int <= self.spec_width(),
                    next@.len() == (row as int) * self.spec_width() + col as int,
                    forall|i: int| 0 <= i < next@.len() ==> next@[i] == self.spec_next_cells()[i],
                decreases self.spec_width() - col as int,
            {
                let neighbors_count = self.live_neighbor_count(row, col);
                let cell_index = self.get_index(row, col);
                let cell = self.cells[cell_index];
                let refreshed_cell = if cell == Cell::Alive {
                    if neighbors_count < 2 {
                        Cell::Dead
                    } else if neighbors_count <= 3 {
                        Cell::Alive
                    } else {
                        Cell::Dead
                    }
                } else {
                    if neighbors_count == 3 {
                        Cell::Alive
                    } else {
                        Cell::Dead
                    }
                };
                proof {
                    lemma_fundamental_div_mod_converse(
                        (row as int) * self.spec_width() + col as int,
                        self.spec_width(),
                        row as int,
                        col as int,
                    );
                }
                next.push(refreshed_cell);
                col += 1;
            }
            proof {
                assert((row as int + 1) * self.spec_width() == (row as int) * self.spec_width()
                    + self.spec_width()) by (nonlinear_arith);
            }
            row += 1;
        }
        proof {
            assert(next@ =~= old(self).spec_next_cells());
        }
        self.cells = next;
    }
}

/// Neighbor count bounds: a live neighbor count never exceeds 8, for any
/// grid and any cell.
pub proof fn lemma_neighbor_count_bounds(universe: Universe, row: int, col: int)
    ensures
        universe.spec_live_neighbor_count(row, col) <= 8,
{
    // Eight delta pairs contribute a cell value of at most 1 each, and the
    // ninth — the cell's own (0, 0) pair — contributes nothing.
    assert forall|dr: int, dc: int| #[trigger]
        universe.delta_contrib(row, col, dr, dc) <= 1 by {}
    assert(universe.delta_contrib(row, col, 0, 0) == 0);
}

/// Determinism: the next generation depends only on the dimensions and the
/// cells, so two universes in identical states step to identical states.
pub proof fn lemma_tick_deterministic(a: Universe, b: Universe)
    requires
        a.spec_width() == b.spec_width(),
        a.spec_height() == b.spec_height(),
        a.spec_cells() == b.spec_cells(),
    ensures
        a.spec_next_cells() == b.spec_next_cells(),
{
    assert(a.spec_next_cells() =~= b.spec_next_cells());
}

/// Toroidal wraparound: the cell at (0, 0) counts the cell at
/// (height-1, width-1) among its neighbors, and vice versa — each corner's
/// neighbor count is at least the other corner cell's value.
pub proof fn lemma_toroidal_wraparound(universe: Universe)
    requires
        universe.well_formed(),
    ensures
        cell_value(universe.cell_at(universe.spec_height() - 1, universe.spec_width() - 1))
            <= universe.spec_live_neighbor_count(0, 0),
        cell_value(universe.cell_at(0, 0)) <= universe.spec_live_neighbor_count(
            universe.spec_height() - 1,
            universe.spec_width() - 1,
        ),
{
    let h = universe.spec_height();
    let w = universe.spec_width();
    assert((h - 1) % h == h - 1 && h % h == 0 && (h - 1 + 1) % h == 0) by (nonlinear_arith)
        requires
            1 <= h,
    ;
    assert((w - 1) % w == w - 1 && w % w == 0 && (w - 1 + 1) % w == 0) by (nonlinear_arith)
        requires
            1 <= w,
    ;
    // The far corner is counted from (0, 0) through one of four delta pairs,
    // depending on which dimensions are wide enough to have a distinct delta.
    if h == 1 && w == 1 {
        assert(universe.delta_contrib(0, 0, 1, 1) == cell_value(universe.cell_at(h - 1, w - 1)));
    } else if h == 1 {
        assert(universe.delta_contrib(0, 0, 1, w - 1) == cell_value(
            universe.cell_at(h - 1, w - 1),
        ));
    } else if w == 1 {
        assert(universe.delta_contrib(0, 0, h - 1, 1) == cell_value(
            universe.cell_at(h - 1, w - 1),
        ));
    } else {
        assert(universe.delta_contrib(0, 0, h - 1, w - 1) == cell_value(
            universe.cell_at(h - 1, w - 1),
        ));
    }
    // From the far corner, the (1, 1) delta pair wraps back to (0, 0).
    assert(universe.delta_contrib(h - 1, w - 1, 1, 1) == cell_value(universe.cell_at(0, 0)));
}

/// Stability of the empty grid: an all-dead grid of any size steps to
/// itself, because every neighbor count is 0.
pub proof fn lemma_empty_grid_stable(universe: Universe)
    requires
        universe.well_formed(),
        forall|i: int|
            0 <= i < universe.spec_cells().len() ==> universe.spec_cells()[i] == Cell::Dead,
    ensures
        universe.spec_next_cells() == universe.spec_cells(),
{
    let h = universe.spec_height();
    let w = universe.spec_width();
    assert forall|row: int, col: int| #[trigger]
        universe.spec_live_neighbor_count(row, col) == 0 by {
        assert forall|dr: int, dc: int| #[trigger]
            universe.delta_contrib(row, col, dr, dc) == 0 by {
            if !(dr == 0 && dc == 0) {
                lemma_mod_bound(row + dr, h);
                lemma_mod_bound(col + dc, w);
                lemma_row_major_index_in_range(w, h, (row + dr) % h, (col + dc) % w);
            }
        }
    }
    assert(universe.spec_next_cells() =~= universe.spec_cells());
}

} // verus!
