//! The pattern loader: a permissive character-by-character parser that
//! turns a multi-line glyph text into relative live-cell coordinates,
//! and the placement operations that stamp a pattern onto the grid at
//! an offset with all-or-nothing bounds checking.

use vstd::prelude::*;

use crate::GridError;
use crate::grid::Universe;
use crate::grid::fits_grid;
use crate::grid::pts_int;
use crate::grid::stamp_all;

verus! {

/// The coordinates contributed by the rest of a glyph text, scanned with
/// the cursor at `(row, col)`: a live glyph `O` records the cursor and
/// advances the column, a dead glyph `.` only advances the column, a
/// newline moves the cursor to the start of the next row, and any other
/// character is skipped.
pub open spec fn parse_from(s: Seq<char>, row: int, col: int) -> Seq<(int, int)>
    decreases s.len(),
{
    if s.len() == 0 {
        Seq::empty()
    } else if s[0] == 'O' {
        seq![(row, col)] + parse_from(s.skip(1), row, col + 1)
    } else if s[0] == '.' {
        parse_from(s.skip(1), row, col + 1)
    } else if s[0] == '\n' {
        parse_from(s.skip(1), row + 1, 0)
    } else {
        parse_from(s.skip(1), row, col)
    }
}

/// The ordered list of relative live-cell coordinates denoted by a glyph
/// text, scanned from `(0, 0)`.
pub open spec fn parse_pattern(s: Seq<char>) -> Seq<(int, int)> {
    parse_from(s, 0, 0)
}

/// The coordinate pairs of a parsed pattern, as mathematical integers.
pub open spec fn pat_int(pat: Seq<(usize, usize)>) -> Seq<(int, int)> {
    pat.map_values(|p: (usize, usize)| (p.0 as int, p.1 as int))
}

/// A pattern moved to the origin `(x, y)`: `x` is added to every row
/// offset and `y` to every column offset.
pub open spec fn shift_pattern(pat: Seq<(int, int)>, x: int, y: int) -> Seq<(int, int)> {
    pat.map_values(|p: (int, int)| (p.0 + x, p.1 + y))
}

/// The nine cells of the built-in spaceship shape, anchored at `(x, y)`.
pub open spec fn spaceship_points(x: int, y: int) -> Seq<(int, int)> {
    seq![
        (x, y),
        (x + 1, y),
        (x + 2, y),
        (x + 3, y),
        (x, y + 1),
        (x + 4, y + 1),
        (x, y + 2),
        (x + 1, y + 3),
        (x + 4, y + 3),
    ]
}

impl Universe {
    /// Parse a glyph text into the ordered list of relative live-cell
    /// coordinates, in the order the live glyphs occur. Stray characters
    /// are skipped, never an error; ragged rows are fine; an input with
    /// no live glyph yields an empty list.
    pub fn parse_text_input(&self, input_string: &str) -> (pattern: Vec<(usize, usize)>)
        ensures
            pat_int(pattern@) == parse_pattern(input_string@),
    {
        let ghost s = input_string@;
        let n = input_string.unicode_len();
        let mut mini_grid: Vec<(usize, usize)> = Vec::new();
        let mut row: usize = 0;
        let mut column: usize = 0;
        let mut i: usize = 0;
        proof {
            assert(s.skip(0) =~= s);
            assert(pat_int(mini_grid@) =~= Seq::<(int, int)>::empty());
            assert((pat_int(mini_grid@) + parse_from(s, 0, 0)) =~= parse_from(s, 0, 0));
        }
        while i < n
            invariant
                i <= n,
                n == s.len(),
                s == input_string@,
                row <= i,
                column <= i,
                parse_pattern(s) == pat_int(mini_grid@) + parse_from(
                    s.skip(i as int),
                    row as int,
                    column as int,
                ),
            decreases n - i,
        {
            let ghost g0 = mini_grid@;
            let ghost ii = i as int;
            let ghost r0 = row as int;
            let ghost c0 = column as int;
            let c = input_string.get_char(i);
            proof {
                assert(s.skip(ii).len() > 0);
                assert(s.skip(ii)[0] == s[ii]);
                assert(s.skip(ii).skip(1) =~= s.skip(ii + 1));
            }
            if c == 'O' {
                mini_grid.push((row, column));
                proof {
                    assert(parse_from(s.skip(ii), r0, c0) == seq![(r0, c0)] + parse_from(
                        s.skip(ii + 1),
                        r0,
                        c0 + 1,
                    ));
                    assert(pat_int(mini_grid@) =~= pat_int(g0) + seq![(r0, c0)]);
                    assert((pat_int(g0) + (seq![(r0, c0)] + parse_from(s.skip(ii + 1), r0, c0 + 1)))
                        =~= ((pat_int(g0) + seq![(r0, c0)]) + parse_from(
                        s.skip(ii + 1),
                        r0,
                        c0 + 1,
                    )));
                }
                column = column + 1;
            } else if c == '.' {
                proof {
                    assert(parse_from(s.skip(ii), r0, c0) == parse_from(
                        s.skip(ii + 1),
                        r0,
                        c0 + 1,
                    ));
                }
                column = column + 1;
            } else if c == '\n' {
                proof {
                    assert(parse_from(s.skip(ii), r0, c0) == parse_from(s.skip(ii + 1), r0 + 1, 0));
                }
                row = row + 1;
                column = 0;
            } else {
                proof {
                    assert(parse_from(s.skip(ii), r0, c0) == parse_from(s.skip(ii + 1), r0, c0));
                }
            }
            i = i + 1;
        }
        proof {
            assert(s.skip(n as int) =~= Seq::<char>::empty());
            assert((pat_int(mini_grid@) + Seq::<(int, int)>::empty()) =~= pat_int(mini_grid@));
        }
        mini_grid
    }

    /// Parse `input_string` and set every cell the pattern covers,
    /// shifted to the origin `(x, y)`, to alive. Every target position is
    /// checked against the grid dimensions first: when any falls outside,
    /// `OutOfBounds` is reported and the grid is left exactly as it was.
    pub fn place_item_on_grid(&mut self, x: u32, y: u32, input_string: &str) -> (r: Result<
        (),
        GridError,
    >)
        requires
            old(self).wf(),
        ensures
            final(self).wf(),
            final(self).width == old(self).width,
            final(self).height == old(self).height,
            r is Ok <==> fits_grid(
                old(self).width as int,
                old(self).height as int,
                shift_pattern(parse_pattern(input_string@), x as int, y as int),
            ),
            r is Ok ==> final(self).cells@ == stamp_all(
                old(self).cells@,
                old(self).width as int,
                shift_pattern(parse_pattern(input_string@), x as int, y as int),
            ),
            r is Err ==> final(self).cells@ == old(self).cells@ && r->Err_0
                == GridError::OutOfBounds,
    {
        let thing_to_place = self.parse_text_input(input_string);
        let m = thing_to_place.len();
        let mut pts: Vec<(u128, u128)> = Vec::new();
        let mut k: usize = 0;
        while k < m
            invariant
                k <= m,
                m == thing_to_place@.len(),
                pts@.len() == k,
                forall|j: int|
                    0 <= j < k ==> (#[trigger] pts@[j]).0 == x as int + thing_to_place@[j].0 as int
                        && pts@[j].1 == y as int + thing_to_place@[j].1 as int,
            decreases m - k,
        {
            let p = thing_to_place[k];
            pts.push(((x as u128) + (p.0 as u128), (y as u128) + (p.1 as u128)));
            k = k + 1;
        }
        proof {
            assert(pts_int(pts@) =~= shift_pattern(
                pat_int(thing_to_place@),
                x as int,
                y as int,
            ));
        }
        self.stamp_points(&pts)
    }

    /// Stamp the built-in nine-cell spaceship shape with its anchor at
    /// `(x, y)`, under the same all-or-nothing bounds contract as pattern
    /// placement.
    pub fn add_spaceship(&mut self, x: u32, y: u32) -> (r: Result<(), GridError>)
        requires
            old(self).wf(),
        ensures
            final(self).wf(),
            final(self).width == old(self).width,
            final(self).height == old(self).height,
            r is Ok <==> fits_grid(
                old(self).width as int,
                old(self).height as int,
                spaceship_points(x as int, y as int),
            ),
            r is Ok ==> final(self).cells@ == stamp_all(
                old(self).cells@,
                old(self).width as int,
                spaceship_points(x as int, y as int),
            ),
            r is Err ==> final(self).cells@ == old(self).cells@ && r->Err_0
                == GridError::OutOfBounds,
    {
        let xw = x as u128;
        let yw = y as u128;
        let mut pts: Vec<(u128, u128)> = Vec::new();
        pts.push((xw, yw));
        pts.push((xw + 1, yw));
        pts.push((xw + 2, yw));
        pts.push((xw + 3, yw));
        pts.push((xw, yw + 1));
        pts.push((xw + 4, yw + 1));
        pts.push((xw, yw + 2));
        pts.push((xw + 1, yw + 3));
        pts.push((xw + 4, yw + 3));
        proof {
            assert(pts_int(pts@) =~= spaceship_points(x as int, y as int));
        }
        self.stamp_points(&pts)
    }
}

} // verus!
