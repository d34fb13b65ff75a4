//! The transition engine: toroidal neighbour counting and the
//! generation step that applies Conway's four rules to every cell of a
//! read-only snapshot of the current grid.

use vstd::prelude::*;

use crate::Cell;
use crate::GridError;
use crate::grid::Universe;
use crate::grid::flat_index;
use crate::grid::lemma_flat_div_mod;
use crate::grid::lemma_flat_index_in_range;
use crate::grid::lemma_u32_flat_fits;
use vstd::arithmetic::div_mod::lemma_small_mod;

verus! {

/// A cell counted as an integer: one when alive, zero when dead.
pub open spec fn alive_int(c: Cell) -> int {
    if c is Alive {
        1
    } else {
        0
    }
}

/// The cell stored at `(r, c)` of a row-major buffer `w` columns wide.
pub open spec fn cell_at(cells: Seq<Cell>, w: int, r: int, c: int) -> Cell {
    cells[flat_index(r, c, w)]
}

/// The contribution of the cell at `(rr mod h, cc mod w)`: neighbour
/// positions wrap around both grid edges.
pub open spec fn wrapped_alive(cells: Seq<Cell>, w: int, h: int, rr: int, cc: int) -> int {
    alive_int(cell_at(cells, w, rr % h, cc % w))
}

/// The number of live neighbours of `(r, c)` on the torus: the eight
/// offsets drawn from `{h-1, 0, 1} x {w-1, 0, 1}` without `(0, 0)`,
/// each wrapped by the grid dimensions.
pub open spec fn neighbor_count_spec(cells: Seq<Cell>, w: int, h: int, r: int, c: int) -> int {
    wrapped_alive(cells, w, h, r + h - 1, c + w - 1) + wrapped_alive(cells, w, h, r + h - 1, c)
        + wrapped_alive(cells, w, h, r + h - 1, c + 1) + wrapped_alive(cells, w, h, r, c + w - 1)
        + wrapped_alive(cells, w, h, r, c + 1) + wrapped_alive(cells, w, h, r + 1, c + w - 1)
        + wrapped_alive(cells, w, h, r + 1, c) + wrapped_alive(cells, w, h, r + 1, c + 1)
}

/// The state of `(r, c)` one generation later: a live cell survives with
/// two or three live neighbours and dies otherwise; a dead cell becomes
/// alive with exactly three live neighbours and stays dead otherwise.
pub open spec fn next_cell(cells: Seq<Cell>, w: int, h: int, r: int, c: int) -> Cell {
    let n = neighbor_count_spec(cells, w, h, r, c);
    if cell_at(cells, w, r, c) is Alive {
        if n == 2 || n == 3 {
            Cell::Alive
        } else {
            Cell::Dead
        }
    } else {
        if n == 3 {
            Cell::Alive
        } else {
            Cell::Dead
        }
    }
}

/// Toroidal wrap at the corner: the neighbours counted at `(0, 0)` of a
/// `w`-by-`h` grid are exactly the cells `(h-1, w-1)`, `(h-1, 0)`,
/// `(h-1, 1)`, `(0, w-1)`, `(0, 1)`, `(1, w-1)`, `(1, 0)` and `(1, 1)`.
pub proof fn lemma_corner_neighbor_wrap(cells: Seq<Cell>, w: int, h: int)
    requires
        w >= 2,
        h >= 2,
        cells.len() == w * h,
    ensures
        neighbor_count_spec(cells, w, h, 0, 0) == alive_int(cell_at(cells, w, h - 1, w - 1))
            + alive_int(cell_at(cells, w, h - 1, 0)) + alive_int(cell_at(cells, w, h - 1, 1))
            + alive_int(cell_at(cells, w, 0, w - 1)) + alive_int(cell_at(cells, w, 0, 1))
            + alive_int(cell_at(cells, w, 1, w - 1)) + alive_int(cell_at(cells, w, 1, 0))
            + alive_int(cell_at(cells, w, 1, 1)),
{
    lemma_small_mod((h - 1) as nat, h as nat);
    lemma_small_mod(0, h as nat);
    lemma_small_mod(1, h as nat);
    lemma_small_mod((w - 1) as nat, w as nat);
    lemma_small_mod(0, w as nat);
    lemma_small_mod(1, w as nat);
}

impl Universe {
    /// The alive count of the wrapped position `(rr mod h, cc mod w)`.
    fn wrapped_alive_at(&self, rr: u64, cc: u64) -> (n: u8)
        requires
            self.wf(),
            self.width >= 1,
            self.height >= 1,
        ensures
            n == wrapped_alive(
                self.cells@,
                self.width as int,
                self.height as int,
                rr as int,
                cc as int,
            ),
    {
        let h = self.height as u64;
        let w = self.width as u64;
        let nr = rr % h;
        let nc = cc % w;
        proof {
            lemma_flat_index_in_range(nr as int, nc as int, w as int, h as int);
            lemma_u32_flat_fits(nr as int, nc as int, w as int);
        }
        let idx: u64 = nr * w + nc;
        let len = self.cells.len();
        proof {
            assert(idx < len as u64);
        }
        match self.cells[idx as usize] {
            Cell::Alive => 1,
            Cell::Dead => 0,
        }
    }

    /// The number of live neighbours of `(row, column)` on the torus.
    pub fn live_neighbor_count(&self, row: u32, column: u32) -> (count: u8)
        requires
            self.wf(),
            self.width >= 1,
            self.height >= 1,
            row < self.height,
            column < self.width,
        ensures
            count == neighbor_count_spec(
                self.cells@,
                self.width as int,
                self.height as int,
                row as int,
                column as int,
            ),
    {
        let h = self.height as u64;
        let w = self.width as u64;
        let r = row as u64;
        let c = column as u64;
        let mut count: u8 = 0;
        count = count + self.wrapped_alive_at(r + h - 1, c + w - 1);
        count = count + self.wrapped_alive_at(r + h - 1, c);
        count = count + self.wrapped_alive_at(r + h - 1, c + 1);
        count = count + self.wrapped_alive_at(r, c + w - 1);
        count = count + self.wrapped_alive_at(r, c + 1);
        count = count + self.wrapped_alive_at(r + 1, c + w - 1);
        count = count + self.wrapped_alive_at(r + 1, c);
        count = count + self.wrapped_alive_at(r + 1, c + 1);
        count
    }

    /// Advance the universe by exactly one generation. The whole next
    /// generation is computed from a snapshot of the current one, so no
    /// cell observes another cell's already-updated state. A grid with a
    /// zero dimension is rejected as degenerate and left unchanged.
    #[verifier::rlimit(50)]
    pub fn tick(&mut self) -> (r: Result<(), GridError>)
        requires
            old(self).wf(),
        ensures
            final(self).wf(),
            final(self).width == old(self).width,
            final(self).height == old(self).height,
            r is Ok <==> (old(self).width > 0 && old(self).height > 0),
            r is Err ==> final(self).cells@ == old(self).cells@ && r->Err_0
                == GridError::DegenerateGrid,
            final(self).cells@.len() == old(self).cells@.len(),
            r is Ok ==> forall|i: int, j: int|
                0 <= i < old(self).height as int && 0 <= j < old(self).width as int
                    ==> final(self).cells@[flat_index(i, j, old(self).width as int)]
                    == #[trigger] next_cell(
                    old(self).cells@,
                    old(self).width as int,
                    old(self).height as int,
                    i,
                    j,
                ),
    {
        if self.width == 0 || self.height == 0 {
            return Err(GridError::DegenerateGrid);
        }
        let w = self.width;
        let h = self.height;
        let ghost cells0 = self.cells@;
        let ghost wi = w as int;
        let ghost hi = h as int;
        let mut next: Vec<Cell> = Vec::new();
        let mut row: u32 = 0;
        while row < h
            invariant
                row <= h,
                w >= 1,
                h >= 1,
                self.wf(),
                self.width == w,
                self.height == h,
                self.cells@ == cells0,
                wi == w as int,
                hi == h as int,
                next@.len() == row as int * wi,
                forall|k: int|
                    0 <= k < next@.len() ==> #[trigger] next@[k] == next_cell(
                        cells0,
                        wi,
                        hi,
                        k / wi,
                        k % wi,
                    ),
            decreases h - row,
        {
            let mut col: u32 = 0;
            while col < w
                invariant
                    col <= w,
                    row < h,
                    w >= 1,
                    h >= 1,
                    self.wf(),
                    self.width == w,
                    self.height == h,
                    self.cells@ == cells0,
                    wi == w as int,
                    hi == h as int,
                    next@.len() == row as int * wi + col as int,
                    forall|k: int|
                        0 <= k < next@.len() ==> #[trigger] next@[k] == next_cell(
                            cells0,
                            wi,
                            hi,
                            k / wi,
                            k % wi,
                        ),
                decreases w - col,
            {
                proof {
                    lemma_flat_index_in_range(row as int, col as int, wi, hi);
                    lemma_u32_flat_fits(row as int, col as int, wi);
                }
                let idx: u64 = (row as u64) * (w as u64) + (col as u64);
                let len = self.cells.len();
                proof {
                    assert(idx < len as u64);
                }
                let cell = self.cells[idx as usize];
                let live_neighbors = self.live_neighbor_count(row, col);
                let next_c = match cell {
                    Cell::Alive => {
                        if live_neighbors == 2 || live_neighbors == 3 {
                            Cell::Alive
                        } else {
                            Cell::Dead
                        }
                    },
                    Cell::Dead => {
                        if live_neighbors == 3 {
                            Cell::Alive
                        } else {
                            Cell::Dead
                        }
                    },
                };
                next.push(next_c);
                proof {
                    lemma_flat_div_mod(row as int, col as int, wi);
                    assert(next@.last() == next_cell(cells0, wi, hi, row as int, col as int));
                }
                col = col + 1;
            }
            proof {
                assert((row as int + 1) * wi == row as int * wi + wi) by (nonlinear_arith);
            }
            row = row + 1;
        }
        proof {
            assert(hi * wi == wi * hi) by (nonlinear_arith);
        }
        self.cells = next;
        proof {
            assert forall|i: int, j: int| 0 <= i < hi && 0 <= j < wi implies self.cells@[flat_index(
                i,
                j,
                wi,
            )] == #[trigger] next_cell(cells0, wi, hi, i, j) by {
                lemma_flat_index_in_range(i, j, wi, hi);
                lemma_flat_div_mod(i, j, wi);
            }
        }
        Ok(())
    }
}

} // verus!
