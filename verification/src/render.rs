//! Text rendering of a universe: one line per row, one character per cell,
//! `'-'` for a dead cell and `'+'` for an alive one, each row ended by a
//! newline. Rendering only reads the grid.

use crate::universe::{Cell, Universe, lemma_row_major_index_in_range};
use vstd::arithmetic::div_mod::lemma_fundamental_div_mod_converse;
use vstd::prelude::*;
use vstd::string::StringExecFns;

verus! {

/// The character standing for one cell.
pub open spec fn cell_char(cell: Cell) -> char {
    match cell {
        Cell::Dead => '-',
        Cell::Alive => '+',
    }
}

/// The rendered text of a grid: height lines of width cell characters, each
/// line closed by a newline, rows top to bottom, cells left to right.
pub open spec fn spec_render(universe: Universe) -> Seq<char> {
    let line = universe.spec_width() + 1;
    Seq::new(
        (universe.spec_height() * line) as nat,
        |i: int|
            if i % line == universe.spec_width() {
                '\n'
            } else {
                cell_char(universe.cell_at(i / line, i % line))
            },
    )
}

/// Renders a universe as text.
pub fn render(universe: &Universe) -> (text: String)
    requires
        universe.well_formed(),
    ensures
        text@ == spec_render(*universe),
{
    let width = universe.width();
    let height = universe.height();
    let ghost line = universe.spec_width() + 1;
    let mut text = String::new();
    let mut row: u32 = 0;
    while row < height
        invariant
            universe.well_formed(),
            width as int == universe.spec_width(),
            height as int == universe.spec_height(),
            line == universe.spec_width() + 1,
            row as int <= universe.spec_height(),
            text@.len() == (row as int) * line,
            forall|i: int| 0 <= i < text@.len() ==> text@[i] == spec_render(*universe)[i],
        decreases height - row,
    {
        let mut col: u32 = 0;
        while col < width
            invariant
                universe.well_formed(),
                width as int == universe.spec_width(),
                height as int == universe.spec_height(),
                line == universe.spec_width() + 1,
                (row as int) < universe.spec_height(),
                col as int <= universe.spec_width(),
                text@.len() == (row as int) * line + col as int,
                forall|i: int| 0 <= i < text@.len() ==> text@[i] == spec_render(*universe)[i],
            decreases width - col,
        {
            let cell = universe.get_cell(row, col);
            let glyph = match cell {
                Cell::Dead => "-",
                Cell::Alive => "+",
            };
            proof {
                reveal_strlit("-");
                reveal_strlit("+");
                lemma_fundamental_div_mod_converse(
                    (row as int) * line + col as int,
                    line,
                    row as int,
                    col as int,
                );
                lemma_row_major_index_in_range(
                    line,
                    universe.spec_height(),
                    row as int,
                    col as int,
                );
            }
            text.append(glyph);
            col += 1;
        }
        proof {
            reveal_strlit("\n");
            lemma_fundamental_div_mod_converse(
                (row as int) * line + width as int,
                line,
                row as int,
                width as int,
            );
            lemma_row_major_index_in_range(line, universe.spec_height(), row as int, width as int);
            assert((row as int + 1) * line == (row as int) * line + line) by (nonlinear_arith);
        }
        text.append("\n");
        row += 1;
    }
    proof {
        assert(text@ =~= spec_render(*universe));
    }
    text
}

/// Renderer idempotence: the rendered text depends only on the universe's
/// state, so rendering equal states — in particular the same state twice —
/// yields identical text.
pub proof fn lemma_render_deterministic(a: Universe, b: Universe)
    requires
        a.spec_width() == b.spec_width(),
        a.spec_height() == b.spec_height(),
        a.spec_cells() == b.spec_cells(),
    ensures
        spec_render(a) == spec_render(b),
{
    assert(spec_render(a) =~= spec_render(b));
}

} // verus!
