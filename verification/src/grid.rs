//! The grid store: the `Universe` aggregate, row-major flat indexing,
//! resizing (a hard reset), clearing, toggling and randomising cells,
//! and bounds-checked stamping of live cells.

use vstd::prelude::*;

use crate::Cell;
use crate::GridError;
use crate::toggled;

verus! {

/// An all-dead cell buffer of the given length.
pub open spec fn all_dead_cells(n: nat) -> Seq<Cell> {
    Seq::new(n, |i: int| Cell::Dead)
}

/// The flat, row-major position of `(row, col)` on a grid `w` columns wide.
pub open spec fn flat_index(row: int, col: int, w: int) -> int {
    row * w + col
}

/// The coordinate pairs of a point list, as mathematical integers.
pub open spec fn pts_int(pts: Seq<(u128, u128)>) -> Seq<(int, int)> {
    pts.map_values(|p: (u128, u128)| (p.0 as int, p.1 as int))
}

/// Whether some point of `pts` lands on flat position `i`.
pub open spec fn hits(pts: Seq<(int, int)>, w: int, i: int) -> bool {
    exists|k: int| 0 <= k < pts.len() && #[trigger] flat_index(pts[k].0, pts[k].1, w) == i
}

/// Whether every point of `pts` lies inside the dimensions of a grid
/// `w` columns wide and `h` rows high.
pub open spec fn fits_grid(w: int, h: int, pts: Seq<(int, int)>) -> bool {
    forall|k: int| 0 <= k < pts.len() ==> (#[trigger] pts[k]).0 < h && pts[k].1 < w
}

/// The cell buffer after setting every position hit by `pts` to alive,
/// leaving every other cell as it was.
pub open spec fn stamp_all(cells: Seq<Cell>, w: int, pts: Seq<(int, int)>) -> Seq<Cell> {
    Seq::new(cells.len(), |i: int| if hits(pts, w, i) { Cell::Alive } else { cells[i] })
}

/// A row-major position formed from coordinates below `2^32` fits in 64 bits.
pub proof fn lemma_u32_flat_fits(r: int, c: int, w: int)
    by (nonlinear_arith)
    requires
        0 <= r < 0x1_0000_0000,
        0 <= c < 0x1_0000_0000,
        0 <= w < 0x1_0000_0000,
    ensures
        0 <= r * w + c < 0x1_0000_0000_0000_0000,
{
}

/// A valid coordinate pair maps inside the `w * h` cell buffer.
pub proof fn lemma_flat_index_in_range(r: int, c: int, w: int, h: int)
    by (nonlinear_arith)
    requires
        0 <= r < h,
        0 <= c < w,
    ensures
        0 <= flat_index(r, c, w) < w * h,
{
}

/// Row-major indexing is injective over the valid coordinate range:
/// distinct in-range coordinate pairs map to distinct flat positions.
pub proof fn lemma_index_injective(w: int, h: int, r1: int, c1: int, r2: int, c2: int)
    by (nonlinear_arith)
    requires
        0 <= r1 < h,
        0 <= c1 < w,
        0 <= r2 < h,
        0 <= c2 < w,
        flat_index(r1, c1, w) == flat_index(r2, c2, w),
    ensures
        r1 == r2,
        c1 == c2,
{
}

/// A flat row-major position decomposes back into its coordinates.
pub proof fn lemma_flat_div_mod(r: int, c: int, w: int)
    requires
        0 <= r,
        0 <= c < w,
    ensures
        flat_index(r, c, w) / w == r,
        flat_index(r, c, w) % w == c,
{
    vstd::arithmetic::div_mod::lemma_fundamental_div_mod_converse(r * w + c, w, r, c);
}

/// An all-dead cell buffer of the requested length.
fn dead_cells(n: usize) -> (v: Vec<Cell>)
    ensures
        v@ == all_dead_cells(n as nat),
{
    let mut v: Vec<Cell> = Vec::new();
    let mut i: usize = 0;
    while i < n
        invariant
            i <= n,
            v@ == all_dead_cells(i as nat),
        decreases n - i,
    {
        v.push(Cell::Dead);
        proof {
            assert(v@ =~= all_dead_cells((i + 1) as nat));
        }
        i = i + 1;
    }
    v
}

/// Relies on rand::random::<bool>: one draw from the thread-local
/// generator, uniform over the two booleans. Nothing is assumed of
/// which boolean comes back.
#[verifier::external_body]
fn random_bool() -> bool {
    rand::random::<bool>()
}

/// The automaton: a `width * height` cell buffer in row-major order.
pub struct Universe {
    pub width: u32,
    pub height: u32,
    pub cells: Vec<Cell>,
}

impl Universe {
    /// The structural invariant: the buffer holds exactly one cell per
    /// grid position.
    pub open spec fn wf(&self) -> bool {
        self.cells@.len() == self.width as int * self.height as int
    }

    /// A fresh universe: a fixed 64-by-64 grid, all cells dead.
    pub fn new() -> (u: Universe)
        ensures
            u.wf(),
            u.width == 64,
            u.height == 64,
            u.cells@ == all_dead_cells((64 * 64) as nat),
    {
        let cells = dead_cells(64 * 64);
        Universe { width: 64, height: 64, cells }
    }

    /// The number of columns.
    pub fn width(&self) -> (w: u32)
        ensures
            w == self.width,
    {
        self.width
    }

    /// The number of rows.
    pub fn height(&self) -> (h: u32)
        ensures
            h == self.height,
    {
        self.height
    }

    /// A snapshot of the whole cell buffer, for a host renderer.
    pub fn cells(&self) -> (snapshot: Vec<Cell>)
        ensures
            snapshot@ == self.cells@,
    {
        let n = self.cells.len();
        let mut v: Vec<Cell> = Vec::new();
        let mut i: usize = 0;
        while i < n
            invariant
                i <= n,
                n == self.cells@.len(),
                v@ == self.cells@.take(i as int),
            decreases n - i,
        {
            v.push(self.cells[i]);
            proof {
                assert(v@ =~= self.cells@.take(i as int + 1));
            }
            i = i + 1;
        }
        proof {
            assert(self.cells@.take(n as int) =~= self.cells@);
        }
        v
    }

    /// A read-only view of the cell buffer.
    pub fn get_cells(&self) -> (r: &Vec<Cell>)
        ensures
            r@ == self.cells@,
    {
        &self.cells
    }

    /// The flat position of `(row, column)`, or `OutOfBounds` when that
    /// position falls at or past the end of the cell buffer. The function
    /// itself does no wrapping: callers wanting toroidal semantics wrap
    /// before calling.
    pub fn get_index(&self, row: u32, column: u32) -> (r: Result<usize, GridError>)
        requires
            self.wf(),
        ensures
            r is Ok <==> flat_index(row as int, column as int, self.width as int)
                < self.cells@.len(),
            r is Ok ==> r->Ok_0 == flat_index(row as int, column as int, self.width as int),
            r is Err ==> r->Err_0 == GridError::OutOfBounds,
    {
        proof {
            lemma_u32_flat_fits(row as int, column as int, self.width as int);
        }
        let idx: u64 = (row as u64) * (self.width as u64) + (column as u64);
        if idx < self.cells.len() as u64 {
            Ok(idx as usize)
        } else {
            Err(GridError::OutOfBounds)
        }
    }

    /// Replace the whole buffer with dead cells, keeping the dimensions.
    pub fn all_dead(&mut self)
        requires
            old(self).wf(),
        ensures
            final(self).wf(),
            cleared_from(*old(self), *final(self)),
            final(self).cells@ == all_dead_cells(old(self).cells@.len()),
    {
        let n = self.cells.len();
        self.cells = dead_cells(n);
    }

    /// Replace every cell independently from a sequence of injected
    /// boolean draws: `true` makes a cell alive, `false` dead.
    pub fn randomise_with(&mut self, bits: &Vec<bool>)
        requires
            old(self).wf(),
            bits@.len() == old(self).cells@.len(),
        ensures
            final(self).wf(),
            final(self).width == old(self).width,
            final(self).height == old(self).height,
            final(self).cells@.len() == old(self).cells@.len(),
            forall|i: int|
                0 <= i < bits@.len() ==> final(self).cells@[i] == (if bits@[i] {
                    Cell::Alive
                } else {
                    Cell::Dead
                }),
    {
        let n = bits.len();
        let mut next: Vec<Cell> = Vec::new();
        let mut i: usize = 0;
        while i < n
            invariant
                i <= n,
                n == bits@.len(),
                next@.len() == i,
                forall|j: int|
                    0 <= j < i ==> next@[j] == (if bits@[j] {
                        Cell::Alive
                    } else {
                        Cell::Dead
                    }),
            decreases n - i,
        {
            if bits[i] {
                next.push(Cell::Alive);
            } else {
                next.push(Cell::Dead);
            }
            i = i + 1;
        }
        self.cells = next;
    }

    /// Replace every cell independently with a fresh uniform random draw.
    pub fn randomise(&mut self)
        requires
            old(self).wf(),
        ensures
            final(self).wf(),
            final(self).width == old(self).width,
            final(self).height == old(self).height,
            final(self).cells@.len() == old(self).cells@.len(),
    {
        let n = self.cells.len();
        let mut bits: Vec<bool> = Vec::new();
        let mut i: usize = 0;
        while i < n
            invariant
                i <= n,
                bits@.len() == i,
            decreases n - i,
        {
            bits.push(random_bool());
            i = i + 1;
        }
        self.randomise_with(&bits);
    }

    /// Set the width of the universe. Resets all cells to the dead state.
    pub fn set_width(&mut self, width: u32)
        requires
            old(self).wf(),
            width as int * old(self).height as int <= usize::MAX as int,
        ensures
            final(self).wf(),
            final(self).width == width,
            final(self).height == old(self).height,
            final(self).cells@ == all_dead_cells(
                (width as int * old(self).height as int) as nat,
            ),
    {
        proof {
            lemma_u32_flat_fits(width as int, 0, self.height as int);
        }
        let n: usize = ((width as u64) * (self.height as u64)) as usize;
        self.width = width;
        self.cells = dead_cells(n);
    }

    /// Set the height of the universe. Resets all cells to the dead state.
    pub fn set_height(&mut self, height: u32)
        requires
            old(self).wf(),
            old(self).width as int * height as int <= usize::MAX as int,
        ensures
            final(self).wf(),
            final(self).width == old(self).width,
            final(self).height == height,
            final(self).cells@ == all_dead_cells(
                (old(self).width as int * height as int) as nat,
            ),
    {
        proof {
            lemma_u32_flat_fits(self.width as int, 0, height as int);
        }
        let n: usize = ((self.width as u64) * (height as u64)) as usize;
        self.height = height;
        self.cells = dead_cells(n);
    }

    /// Flip the cell at `(row, column)` in place, or report `OutOfBounds`
    /// and leave the grid unchanged.
    pub fn toggle_cell(&mut self, row: u32, column: u32) -> (r: Result<(), GridError>)
        requires
            old(self).wf(),
        ensures
            final(self).wf(),
            final(self).width == old(self).width,
            final(self).height == old(self).height,
            r is Ok <==> flat_index(row as int, column as int, old(self).width as int)
                < old(self).cells@.len(),
            r is Ok ==> final(self).cells@ == old(self).cells@.update(
                flat_index(row as int, column as int, old(self).width as int),
                toggled(
                    old(self).cells@[flat_index(
                        row as int,
                        column as int,
                        old(self).width as int,
                    )],
                ),
            ),
            r is Err ==> final(self).cells@ == old(self).cells@ && r->Err_0
                == GridError::OutOfBounds,
    {
        let idx = match self.get_index(row, column) {
            Ok(idx) => idx,
            Err(e) => {
                return Err(e);
            },
        };
        let mut c = self.cells[idx];
        c.toggle();
        self.cells[idx] = c;
        Ok(())
    }

    /// Set the cells at `pts` to alive, after checking that every point
    /// lies inside the grid dimensions; on failure nothing is changed.
    pub(crate) fn stamp_points(&mut self, pts: &Vec<(u128, u128)>) -> (r: Result<(), GridError>)
        requires
            old(self).wf(),
        ensures
            final(self).wf(),
            final(self).width == old(self).width,
            final(self).height == old(self).height,
            r is Ok <==> fits_grid(old(self).width as int, old(self).height as int, pts_int(pts@)),
            r is Ok ==> final(self).cells@ == stamp_all(
                old(self).cells@,
                old(self).width as int,
                pts_int(pts@),
            ),
            r is Err ==> final(self).cells@ == old(self).cells@ && r->Err_0
                == GridError::OutOfBounds,
    {
        let w = self.width as u128;
        let h = self.height as u128;
        let n = pts.len();
        let mut k: usize = 0;
        while k < n
            invariant
                k <= n,
                n == pts@.len(),
                w == self.width as int,
                h == self.height as int,
                self.wf(),
                self.width == old(self).width,
                self.height == old(self).height,
                self.cells@ == old(self).cells@,
                forall|j: int|
                    0 <= j < k ==> (#[trigger] pts_int(pts@)[j]).0 < h && pts_int(pts@)[j].1 < w,
            decreases n - k,
        {
            let p = pts[k];
            proof {
                let ghost ki = k as int;
                assert(pts_int(pts@)[ki] == (pts@[ki].0 as int, pts@[ki].1 as int));
            }
            if p.0 >= h || p.1 >= w {
                return Err(GridError::OutOfBounds);
            }
            k = k + 1;
        }
        let ghost cells0 = self.cells@;
        let len = self.cells.len();
        let mut k: usize = 0;
        while k < n
            invariant
                k <= n,
                n == pts@.len(),
                w == self.width as int,
                h == self.height as int,
                len == cells0.len(),
                cells0.len() == w as int * h as int,
                self.wf(),
                self.width == old(self).width,
                self.height == old(self).height,
                fits_grid(w as int, h as int, pts_int(pts@)),
                self.cells@ == stamp_all(cells0, w as int, pts_int(pts@).take(k as int)),
            decreases n - k,
        {
            let p = pts[k];
            proof {
                let ghost ki = k as int;
                assert(pts_int(pts@)[ki] == (pts@[ki].0 as int, pts@[ki].1 as int));
                assert(pts_int(pts@)[ki].0 < h && pts_int(pts@)[ki].1 < w);
                lemma_u32_flat_fits(p.0 as int, p.1 as int, w as int);
                lemma_flat_index_in_range(p.0 as int, p.1 as int, w as int, h as int);
            }
            let idx: u128 = p.0 * w + p.1;
            let iu: usize = idx as usize;
            self.cells[iu] = Cell::Alive;
            proof {
                assert(self.cells@ == stamp_all(cells0, w as int, pts_int(pts@).take(k as int))
                    .update(
                    flat_index(pts_int(pts@)[k as int].0, pts_int(pts@)[k as int].1, w as int),
                    Cell::Alive,
                ));
                lemma_stamp_step(cells0, w as int, pts_int(pts@), k as int);
                assert(self.cells@ == stamp_all(cells0, w as int, pts_int(pts@).take(k as int + 1)));
            }
            k = k + 1;
        }
        proof {
            assert(pts_int(pts@).take(n as int) =~= pts_int(pts@));
        }
        Ok(())
    }

    /// Set the cell at each listed `(row, column)` pair to alive, after
    /// checking every pair; on failure nothing is changed.
    pub fn set_cells(&mut self, cells: &[(u32, u32)]) -> (r: Result<(), GridError>)
        requires
            old(self).wf(),
        ensures
            final(self).wf(),
            final(self).width == old(self).width,
            final(self).height == old(self).height,
            r is Ok <==> fits_grid(
                old(self).width as int,
                old(self).height as int,
                pts_of_u32(cells@),
            ),
            r is Ok ==> final(self).cells@ == stamp_all(
                old(self).cells@,
                old(self).width as int,
                pts_of_u32(cells@),
            ),
            r is Err ==> final(self).cells@ == old(self).cells@ && r->Err_0
                == GridError::OutOfBounds,
    {
        let n = cells.len();
        let mut pts: Vec<(u128, u128)> = Vec::new();
        let mut k: usize = 0;
        while k < n
            invariant
                k <= n,
                n == cells@.len(),
                pts@.len() == k,
                forall|j: int|
                    0 <= j < k ==> #[trigger] pts@[j] == (cells@[j].0 as u128, cells@[j].1 as u128),
            decreases n - k,
        {
            let p = *vstd::slice::slice_index_get(cells, k);
            pts.push((p.0 as u128, p.1 as u128));
            k = k + 1;
        }
        proof {
            assert(pts_int(pts@) =~= pts_of_u32(cells@));
        }
        self.stamp_points(&pts)
    }
}

/// The coordinate pairs of a `(u32, u32)` list, as mathematical integers.
pub open spec fn pts_of_u32(pts: Seq<(u32, u32)>) -> Seq<(int, int)> {
    pts.map_values(|p: (u32, u32)| (p.0 as int, p.1 as int))
}

/// Whether `post` is the state `pre` moves to when all its cells are
/// cleared: same dimensions, same buffer length, every cell dead.
pub open spec fn cleared_from(pre: Universe, post: Universe) -> bool {
    &&& post.width == pre.width
    &&& post.height == pre.height
    &&& post.cells@ == all_dead_cells(pre.cells@.len())
}

/// Clearing is idempotent: clearing twice in a row leaves exactly the
/// state that one clearing produces.
pub proof fn lemma_clear_idempotent(u1: Universe, u2: Universe, u3: Universe)
    requires
        cleared_from(u1, u2),
        cleared_from(u2, u3),
    ensures
        u3.width == u2.width,
        u3.height == u2.height,
        u3.cells@ == u2.cells@,
{
}

/// Stamping one more in-bounds point onto an already-stamped buffer is
/// the same as stamping the longer prefix at once.
proof fn lemma_stamp_step(cells: Seq<Cell>, w: int, pts: Seq<(int, int)>, j: int)
    requires
        0 <= j < pts.len(),
        0 <= flat_index(pts[j].0, pts[j].1, w) < cells.len(),
    ensures
        stamp_all(cells, w, pts.take(j)).update(
            flat_index(pts[j].0, pts[j].1, w),
            Cell::Alive,
        ) == stamp_all(cells, w, pts.take(j + 1)),
{
    let idx = flat_index(pts[j].0, pts[j].1, w);
    let a = stamp_all(cells, w, pts.take(j)).update(idx, Cell::Alive);
    let b = stamp_all(cells, w, pts.take(j + 1));
    assert forall|i: int| 0 <= i < cells.len() implies a[i] == b[i] by {
        if i == idx {
            assert(pts.take(j + 1)[j] == pts[j]);
            assert(flat_index(pts.take(j + 1)[j].0, pts.take(j + 1)[j].1, w) == i);
            assert(hits(pts.take(j + 1), w, i));
        } else {
            if hits(pts.take(j + 1), w, i) {
                let k = choose|k: int|
                    0 <= k < pts.take(j + 1).len() && #[trigger] flat_index(
                        pts.take(j + 1)[k].0,
                        pts.take(j + 1)[k].1,
                        w,
                    ) == i;
                assert(pts.take(j + 1)[k] == pts[k]);
                assert(k != j);
                assert(pts.take(j)[k] == pts[k]);
                assert(flat_index(pts.take(j)[k].0, pts.take(j)[k].1, w) == i);
                assert(hits(pts.take(j), w, i));
            }
            if hits(pts.take(j), w, i) {
                let k = choose|k: int|
                    0 <= k < pts.take(j).len() && #[trigger] flat_index(
                        pts.take(j)[k].0,
                        pts.take(j)[k].1,
                        w,
                    ) == i;
                assert(pts.take(j)[k] == pts[k]);
                assert(pts.take(j + 1)[k] == pts[k]);
                assert(flat_index(pts.take(j + 1)[k].0, pts.take(j + 1)[k].1, w) == i);
                assert(hits(pts.take(j + 1), w, i));
            }
        }
    }
    assert(a =~= b);
}

} // verus!
