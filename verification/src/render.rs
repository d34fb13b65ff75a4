//! The textual snapshot: one line per row, one glyph per cell, every
//! row terminated by a newline, the last included.

use vstd::prelude::*;

use crate::Cell;
use crate::grid::Universe;
use crate::grid::flat_index;
use crate::grid::lemma_flat_index_in_range;
use crate::grid::lemma_u32_flat_fits;

verus! {

/// The glyph drawn for one cell.
pub open spec fn glyph(c: Cell) -> char {
    if c is Alive {
        '◼'
    } else {
        '◻'
    }
}

/// One rendered row: the glyphs of row `r`, then a newline.
pub open spec fn render_row(cells: Seq<Cell>, w: int, r: int) -> Seq<char> {
    Seq::new(w as nat, |j: int| glyph(cells[flat_index(r, j, w)])).push('\n')
}

/// The first `r` rendered rows, concatenated in order.
pub open spec fn render_rows(cells: Seq<Cell>, w: int, r: int) -> Seq<char>
    decreases r,
{
    if r <= 0 {
        Seq::empty()
    } else {
        render_rows(cells, w, r - 1) + render_row(cells, w, r - 1)
    }
}

/// The full textual snapshot of a `w`-by-`h` grid.
pub open spec fn render_spec(cells: Seq<Cell>, w: int, h: int) -> Seq<char> {
    render_rows(cells, w, h)
}

/// Rendering is deterministic: any two snapshot texts taken from the
/// same grid state, with no mutation in between, are identical.
pub proof fn lemma_render_deterministic(u: Universe, s1: Seq<char>, s2: Seq<char>)
    requires
        s1 == render_spec(u.cells@, u.width as int, u.height as int),
        s2 == render_spec(u.cells@, u.width as int, u.height as int),
    ensures
        s1 == s2,
{
}

impl Universe {
    /// The textual snapshot of the current state.
    pub fn render(&self) -> (text: String)
        requires
            self.wf(),
        ensures
            text@ == render_spec(self.cells@, self.width as int, self.height as int),
    {
        let w = self.width;
        let h = self.height;
        let mut text = String::new();
        let mut row: u32 = 0;
        while row < h
            invariant
                row <= h,
                self.wf(),
                self.width == w,
                self.height == h,
                text@ == render_rows(self.cells@, w as int, row as int),
            decreases h - row,
        {
            let ghost line0 = text@;
            let mut col: u32 = 0;
            while col < w
                invariant
                    col <= w,
                    row < h,
                    self.wf(),
                    self.width == w,
                    self.height == h,
                    line0 == render_rows(self.cells@, w as int, row as int),
                    text@ == line0 + Seq::new(
                        col as nat,
                        |j: int| glyph(self.cells@[flat_index(row as int, j, w as int)]),
                    ),
                decreases w - col,
            {
                proof {
                    lemma_flat_index_in_range(row as int, col as int, w as int, h as int);
                    lemma_u32_flat_fits(row as int, col as int, w as int);
                }
                let idx: u64 = (row as u64) * (w as u64) + (col as u64);
                let len = self.cells.len();
                proof {
                    assert(idx < len as u64);
                }
                let cell = self.cells[idx as usize];
                match cell {
                    Cell::Dead => text.append("◻"),
                    Cell::Alive => text.append("◼"),
                }
                proof {
                    reveal_strlit("◻");
                    reveal_strlit("◼");
                    assert(text@ =~= line0 + Seq::new(
                        (col + 1) as nat,
                        |j: int| glyph(self.cells@[flat_index(row as int, j, w as int)]),
                    ));
                }
                col = col + 1;
            }
            text.append("\n");
            proof {
                reveal_strlit("\n");
                assert(text@ =~= line0 + render_row(self.cells@, w as int, row as int));
                assert(text@ == render_rows(self.cells@, w as int, row as int + 1));
            }
            row = row + 1;
        }
        text
    }
}

} // verus!
