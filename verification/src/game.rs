//! The board engine: a grid of cells with the update rule and the editing
//! operations on it.

use vstd::prelude::*;
use crate::chance::toss;
use crate::grid::{
    alive, arranged, blank, cell_index, cleared, coords, in_bounds, is_live, lemma_row_scan,
    lemma_rows_scan, lemma_window_is_neighborhood, live_cells, live_rows, neighbor_count,
    next_state, rectangular, row_coords, same_shape, step, window_count, with_cell, Grid,
};
use crate::input::{advanced, edited, InputState};

verus! {

/// A board of cells, made for a window of `size` pixels (width, height) in
/// which each cell is a square of `scale` pixels.
pub struct ConwaysGame {
    size: [i32; 2],
    scale: i32,
    board: Vec<Vec<bool>>,
}

impl View for ConwaysGame {
    type V = Grid;

    closed spec fn view(&self) -> Grid {
        Seq::new(self.board@.len(), |r: int| self.board@[r]@)
    }
}

impl ConwaysGame {
    /// The width in pixels that the board was made for.
    pub closed spec fn spec_width(&self) -> int {
        self.size[0] as int
    }

    /// The height in pixels that the board was made for.
    pub closed spec fn spec_height(&self) -> int {
        self.size[1] as int
    }

    /// The side of a cell in pixels.
    pub closed spec fn spec_scale(&self) -> int {
        self.scale as int
    }

    /// The number of rows: the height divided by the cell size, remainder dropped.
    pub open spec fn spec_rows(&self) -> int {
        self.spec_height() / self.spec_scale()
    }

    /// The number of columns: the width divided by the cell size, remainder dropped.
    pub open spec fn spec_cols(&self) -> int {
        self.spec_width() / self.spec_scale()
    }

    /// What never changes after construction: width, height and cell size.
    pub open spec fn frame(&self) -> (int, int, int) {
        (self.spec_width(), self.spec_height(), self.spec_scale())
    }

    /// Validity: a positive cell size, non-negative pixel dimensions, and a
    /// board of exactly `spec_rows()` rows of `spec_cols()` cells.
    pub open spec fn wf(&self) -> bool {
        &&& self.spec_scale() > 0
        &&& self.spec_width() >= 0
        &&& self.spec_height() >= 0
        &&& rectangular(self@, self.spec_rows(), self.spec_cols())
    }

    /// A board for a window of `size` pixels (width, height) with cells of
    /// `scale` pixels, all of them dead.
    pub fn new(size: [i32; 2], scale: i32) -> (game: Self)
        requires
            scale > 0,
            size[0] >= 0,
            size[1] >= 0,
        ensures
            game.wf(),
            game.frame() == (size[0] as int, size[1] as int, scale as int),
            game@ == blank(size[1] / scale, size[0] / scale),
    {
        let cols: usize = (size[0] / scale) as usize;
        let rows: usize = (size[1] / scale) as usize;
        let mut board: Vec<Vec<bool>> = Vec::new();
        let mut r: usize = 0;
        while r < rows
            invariant
                r <= rows,
                board@.len() == r,
                forall|k: int| 0 <= k < r ==> (#[trigger] board@[k])@ == Seq::new(cols as nat, |c: int| false),
            decreases rows - r,
        {
            let mut row: Vec<bool> = Vec::new();
            let mut c: usize = 0;
            while c < cols
                invariant
                    c <= cols,
                    row@ == Seq::new(c as nat, |k: int| false),
                decreases cols - c,
            {
                row.push(false);
                c += 1;
            }
            board.push(row);
            r += 1;
        }
        let game = ConwaysGame { size, scale, board };
        game
    }

    /// The number of rows.
    pub fn rows(&self) -> (rows: usize)
        requires
            self.wf(),
        ensures
            rows == self.spec_rows(),
            rows == self@.len(),
    {
        self.board.len()
    }

    /// The number of columns.
    pub fn cols(&self) -> (cols: usize)
        requires
            self.wf(),
        ensures
            cols == self.spec_cols(),
    {
        (self.size[0] / self.scale) as usize
    }

    /// The side of a cell in pixels.
    pub fn scale(&self) -> (scale: i32)
        ensures
            scale == self.spec_scale(),
    {
        self.scale
    }

    /// The pixel dimensions, width then height, that the board was made for.
    pub fn size(&self) -> (size: [i32; 2])
        ensures
            size[0] == self.spec_width(),
            size[1] == self.spec_height(),
    {
        self.size
    }

    /// Whether the cell in row `row`, column `col` lives. Outside the board
    /// nothing lives.
    pub fn is_alive(&self, row: usize, col: usize) -> (living: bool)
        requires
            self.wf(),
        ensures
            living == alive(self@, row as int, col as int),
    {
        if row < self.board.len() && col < self.board[row].len() {
            self.board[row][col]
        } else {
            false
        }
    }

    /// The number of living cells among the eight that touch row `y`, column
    /// `x`. The cell itself is not counted, and neither is anything beyond an
    /// edge. `(y, x)` need not be on the board.
    pub fn count_neighbors(&self, y: i32, x: i32) -> (count: i32)
        requires
            self.wf(),
        ensures
            count == neighbor_count(self@, y as int, x as int),
    {
        let rows: usize = self.board.len();
        let cols: usize = self.cols();
        let mut count: i32 = 0;
        let mut di: i64 = -1;
        while di <= 1
            invariant
                self.wf(),
                rows == self@.len(),
                cols == self.spec_cols(),
                -1 <= di <= 2,
                count == window_count(self@, y as int, x as int, 3 * (di + 1)),
                0 <= count <= 3 * (di + 1),
            decreases 2 - di,
        {
            let i: i64 = y as i64 + di;
            let mut dj: i64 = -1;
            while dj <= 1
                invariant
                    self.wf(),
                    rows == self@.len(),
                    cols == self.spec_cols(),
                    -1 <= di <= 1,
                    -1 <= dj <= 2,
                    i == y + di,
                    count == window_count(self@, y as int, x as int, 3 * (di + 1) + (dj + 1)),
                    0 <= count <= 3 * (di + 1) + (dj + 1),
                decreases 2 - dj,
            {
                let j: i64 = x as i64 + dj;
                if (di != 0 || dj != 0) && i >= 0 && (i as usize) < rows && j >= 0
                    && (j as usize) < cols {
                    assert(self@[i as int] == self.board@[i as int]@);
                    if self.board[i as usize][j as usize] {
                        count += 1;
                    }
                }
                dj += 1;
            }
            di += 1;
        }
        proof {
            lemma_window_is_neighborhood(self@, y as int, x as int);
        }
        count
    }

    /// Sets the cell in row `row`, column `col` to `living`. A coordinate
    /// outside the board is ignored.
    pub fn set_cell(&mut self, row: usize, col: usize, living: bool)
        requires
            old(self).wf(),
        ensures
            final(self).wf(),
            final(self).frame() == old(self).frame(),
            final(self)@ == with_cell(old(self)@, row as int, col as int, living),
    {
        if row < self.board.len() && col < self.board[row].len() {
            self.board[row][col] = living;
            assert(self@ =~~= with_cell(old(self)@, row as int, col as int, living));
        }
    }

    /// Applies the rule to the cell in row `i`, column `j`, given `count` as
    /// the number of its living neighbours. A coordinate outside the board is
    /// ignored.
    pub fn act_on_count(&mut self, i: usize, j: usize, count: i32)
        requires
            old(self).wf(),
        ensures
            final(self).wf(),
            final(self).frame() == old(self).frame(),
            final(self)@ == with_cell(
                old(self)@,
                i as int,
                j as int,
                next_state(alive(old(self)@, i as int, j as int), count as int),
            ),
    {
        if i < self.board.len() && j < self.board[i].len() {
            if self.board[i][j] {
                if count < 2 || count > 3 {
                    self.board[i][j] = false;
                }
            } else {
                if count == 3 {
                    self.board[i][j] = true;
                }
            }
            assert(self@ =~~= with_cell(
                old(self)@,
                i as int,
                j as int,
                next_state(alive(old(self)@, i as int, j as int), count as int),
            ));
        }
    }

    /// Kills every cell.
    pub fn clear_board(&mut self)
        requires
            old(self).wf(),
        ensures
            final(self).wf(),
            final(self).frame() == old(self).frame(),
            final(self)@ == cleared(old(self)@),
    {
        let rows: usize = self.board.len();
        let cols: usize = self.cols();
        let mut i: usize = 0;
        while i < rows
            invariant
                self.wf(),
                self.frame() == old(self).frame(),
                rows == self@.len(),
                cols == self.spec_cols(),
                i <= rows,
                forall|r: int, c: int| 0 <= r < i && 0 <= c < cols ==> !(#[trigger] self@[r][c]),
            decreases rows - i,
        {
            let mut j: usize = 0;
            while j < cols
                invariant
                    self.wf(),
                    self.frame() == old(self).frame(),
                    rows == self@.len(),
                    cols == self.spec_cols(),
                    i < rows,
                    j <= cols,
                    forall|r: int, c: int| 0 <= r < i && 0 <= c < cols ==> !(#[trigger] self@[r][c]),
                    forall|c: int| 0 <= c < j ==> !(#[trigger] self@[i as int][c]),
                decreases cols - j,
            {
                self.set_cell(i, j, false);
                j += 1;
            }
            i += 1;
        }
        assert(self@ =~~= cleared(old(self)@));
    }

    /// One generation. The neighbour counts of all cells are taken first, on
    /// the board as it stands; only then is any cell changed.
    pub fn update_board(&mut self)
        requires
            old(self).wf(),
        ensures
            final(self).wf(),
            final(self).frame() == old(self).frame(),
            final(self)@ == step(old(self)@),
    {
        let rows: usize = self.board.len();
        let cols: usize = self.cols();
        let mut counts: Vec<Vec<i32>> = Vec::new();
        let mut i: usize = 0;
        while i < rows
            invariant
                self.wf(),
                rows == self@.len(),
                cols == self.spec_cols(),
                rows <= i32::MAX,
                cols <= i32::MAX,
                i <= rows,
                counts@.len() == i,
                forall|r: int| 0 <= r < i ==> (#[trigger] counts@[r])@.len() == cols,
                forall|r: int, c: int|
                    0 <= r < i && 0 <= c < cols ==> (#[trigger] counts@[r]@[c]) == neighbor_count(
                        self@,
                        r,
                        c,
                    ),
            decreases rows - i,
        {
            let mut row: Vec<i32> = Vec::new();
            let mut j: usize = 0;
            while j < cols
                invariant
                    self.wf(),
                    rows <= i32::MAX,
                    cols <= i32::MAX,
                    i < rows,
                    j <= cols,
                    row@.len() == j,
                    forall|c: int|
                        0 <= c < j ==> (#[trigger] row@[c]) == neighbor_count(self@, i as int, c),
                decreases cols - j,
            {
                row.push(self.count_neighbors(i as i32, j as i32));
                j += 1;
            }
            counts.push(row);
            i += 1;
        }
        let mut i: usize = 0;
        while i < rows
            invariant
                old(self).wf(),
                self.wf(),
                self.frame() == old(self).frame(),
                rows == self@.len(),
                cols == self.spec_cols(),
                i <= rows,
                counts@.len() == rows,
                forall|r: int| 0 <= r < rows ==> (#[trigger] counts@[r])@.len() == cols,
                forall|r: int, c: int|
                    0 <= r < rows && 0 <= c < cols ==> (#[trigger] counts@[r]@[c])
                        == neighbor_count(old(self)@, r, c),
                forall|r: int| 0 <= r < i ==> (#[trigger] self@[r]) == step(old(self)@)[r],
                forall|r: int| i <= r < rows ==> (#[trigger] self@[r]) == old(self)@[r],
            decreases rows - i,
        {
            let mut j: usize = 0;
            while j < cols
                invariant
                    old(self).wf(),
                    self.wf(),
                    self.frame() == old(self).frame(),
                    rows == self@.len(),
                    cols == self.spec_cols(),
                    i < rows,
                    j <= cols,
                    counts@.len() == rows,
                    forall|r: int| 0 <= r < rows ==> (#[trigger] counts@[r])@.len() == cols,
                    forall|r: int, c: int|
                        0 <= r < rows && 0 <= c < cols ==> (#[trigger] counts@[r]@[c])
                            == neighbor_count(old(self)@, r, c),
                    forall|r: int| 0 <= r < i ==> (#[trigger] self@[r]) == step(old(self)@)[r],
                    forall|r: int| i < r < rows ==> (#[trigger] self@[r]) == old(self)@[r],
                    forall|c: int|
                        0 <= c < j ==> (#[trigger] self@[i as int][c]) == step(old(self)@)[i as int][c],
                    forall|c: int|
                        j <= c < cols ==> (#[trigger] self@[i as int][c]) == old(self)@[i as int][c],
                decreases cols - j,
            {
                self.act_on_count(i, j, counts[i][j]);
                j += 1;
            }
            i += 1;
        }
    }

    /// The living cells as (row, column) pairs, for painting: row by row from
    /// the top, and within a row from left to right.
    pub fn cells_to_render(&self) -> (cells: Vec<(usize, usize)>)
        requires
            self.wf(),
        ensures
            coords(cells@) == live_cells(self@),
    {
        let rows: usize = self.board.len();
        let cols: usize = self.cols();
        let mut cells: Vec<(usize, usize)> = Vec::new();
        let mut i: usize = 0;
        while i < rows
            invariant
                self.wf(),
                rows == self@.len(),
                cols == self.spec_cols(),
                i <= rows,
                coords(cells@) =~= live_rows(self@, i as nat).flatten(),
            decreases rows - i,
        {
            let mut j: usize = 0;
            while j < cols
                invariant
                    self.wf(),
                    rows == self@.len(),
                    cols == self.spec_cols(),
                    i < rows,
                    j <= cols,
                    coords(cells@) =~= live_rows(self@, i as nat).flatten() + row_coords(
                        i as int,
                        j as nat,
                    ).filter(is_live(self@)),
                decreases cols - j,
            {
                proof {
                    lemma_row_scan(self@, i as int, j as nat);
                    assert(self@[i as int] == self.board@[i as int]@);
                }
                let ghost seen = coords(cells@);
                if self.board[i][j] {
                    cells.push((i, j));
                    assert(coords(cells@) =~= seen.push((i as int, j as int)));
                }
                j += 1;
            }
            proof {
                lemma_rows_scan(self@, i as nat);
            }
            i += 1;
        }
        cells
    }

    /// The pixel position, x then y, of the top left corner of the cell in
    /// row `row`, column `col`; `None` for a coordinate outside the board.
    pub fn cell_origin(&self, row: usize, col: usize) -> (origin: Option<[i32; 2]>)
        requires
            self.wf(),
        ensures
            origin is Some <==> in_bounds(self@, row as int, col as int),
            origin matches Some(p) ==> p[0] == col * self.spec_scale() && p[1] == row
                * self.spec_scale(),
    {
        if row < self.board.len() && col < self.cols() {
            proof {
                let s = self.scale as int;
                let w = self.size[0] as int;
                let h = self.size[1] as int;
                assert(0 <= col * s <= w) by (nonlinear_arith)
                    requires
                        0 <= col < w / s,
                        s > 0,
                        w >= 0,
                ;
                assert(0 <= row * s <= h) by (nonlinear_arith)
                    requires
                        0 <= row < h / s,
                        s > 0,
                        h >= 0,
                ;
            }
            Some([col as i32 * self.scale, row as i32 * self.scale])
        } else {
            None
        }
    }

    /// Brings to life the cell under the pixel `position` (x, then y). A
    /// position off the board is ignored.
    pub fn toggle_on_at_click(&mut self, position: [i32; 2])
        requires
            old(self).wf(),
        ensures
            final(self).wf(),
            final(self).frame() == old(self).frame(),
            final(self)@ == with_cell(
                old(self)@,
                cell_index(position[1] as int, old(self).spec_scale()),
                cell_index(position[0] as int, old(self).spec_scale()),
                true,
            ),
    {
        self.put_at(position, true);
    }

    /// Kills the cell under the pixel `position` (x, then y). A position off
    /// the board is ignored.
    pub fn toggle_off_at_click(&mut self, position: [i32; 2])
        requires
            old(self).wf(),
        ensures
            final(self).wf(),
            final(self).frame() == old(self).frame(),
            final(self)@ == with_cell(
                old(self)@,
                cell_index(position[1] as int, old(self).spec_scale()),
                cell_index(position[0] as int, old(self).spec_scale()),
                false,
            ),
    {
        self.put_at(position, false);
    }

    fn put_at(&mut self, position: [i32; 2], living: bool)
        requires
            old(self).wf(),
        ensures
            final(self).wf(),
            final(self).frame() == old(self).frame(),
            final(self)@ == with_cell(
                old(self)@,
                cell_index(position[1] as int, old(self).spec_scale()),
                cell_index(position[0] as int, old(self).spec_scale()),
                living,
            ),
    {
        let x: i32 = position[0];
        let y: i32 = position[1];
        if x >= 0 && y >= 0 {
            let row: usize = (y / self.scale) as usize;
            let col: usize = (x / self.scale) as usize;
            self.set_cell(row, col, living);
        } else {
            proof {
                let s = self.scale as int;
                if x < 0 {
                    assert(x as int / s < 0) by (nonlinear_arith)
                        requires
                            x < 0,
                            s > 0,
                    ;
                } else {
                    assert(y as int / s < 0) by (nonlinear_arith)
                        requires
                            y < 0,
                            s > 0,
                    ;
                }
            }
        }
    }

    /// Sets every cell from `states`, read row by row from the top and each
    /// row from left to right. Unless `states` holds exactly one state for
    /// each cell, nothing is changed and the result is `false`.
    pub fn fill_board(&mut self, states: &Vec<bool>) -> (filled: bool)
        requires
            old(self).wf(),
        ensures
            final(self).wf(),
            final(self).frame() == old(self).frame(),
            filled == (states@.len() == old(self).spec_rows() * old(self).spec_cols()),
            filled ==> final(self)@ == arranged(
                states@,
                old(self).spec_rows(),
                old(self).spec_cols(),
            ),
            !filled ==> final(self)@ == old(self)@,
    {
        let rows: usize = self.board.len();
        let cols: usize = self.cols();
        proof {
            let s = self.scale as int;
            let w = self.size[0] as int;
            let h = self.size[1] as int;
            assert(w / s <= w && h / s <= h) by (nonlinear_arith)
                requires
                    s > 0,
                    w >= 0,
                    h >= 0,
            ;
            assert(rows * cols <= 0x7fff_ffff * 0x7fff_ffff) by (nonlinear_arith)
                requires
                    0 <= rows <= 0x7fff_ffff,
                    0 <= cols <= 0x7fff_ffff,
            ;
        }
        if states.len() as u64 != rows as u64 * cols as u64 {
            return false;
        }
        let mut k: usize = 0;
        let mut i: usize = 0;
        while i < rows
            invariant
                self.wf(),
                self.frame() == old(self).frame(),
                rows == self@.len(),
                cols == self.spec_cols(),
                states@.len() == rows * cols,
                i <= rows,
                k == i * cols,
                forall|r: int, c: int|
                    0 <= r < i && 0 <= c < cols ==> (#[trigger] self@[r][c]) == states@[r * cols
                        + c],
            decreases rows - i,
        {
            let mut j: usize = 0;
            while j < cols
                invariant
                    self.wf(),
                    self.frame() == old(self).frame(),
                    rows == self@.len(),
                    cols == self.spec_cols(),
                    states@.len() == rows * cols,
                    i < rows,
                    j <= cols,
                    k == i * cols + j,
                    forall|r: int, c: int|
                        0 <= r < i && 0 <= c < cols ==> (#[trigger] self@[r][c]) == states@[r
                            * cols + c],
                    forall|c: int|
                        0 <= c < j ==> (#[trigger] self@[i as int][c]) == states@[i * cols + c],
                decreases cols - j,
            {
                assert(i * cols + cols <= rows * cols) by (nonlinear_arith)
                    requires
                        i < rows,
                        cols >= 0,
                ;
                self.set_cell(i, j, states[k]);
                assert(states@.len() == states.len());
                j += 1;
                k += 1;
            }
            assert((i + 1) * cols == i * cols + cols) by (nonlinear_arith);
            i += 1;
        }
        assert(self@ =~~= arranged(states@, rows as int, cols as int));
        true
    }

    /// Gives every cell the outcome of a coin toss of its own.
    pub fn randomize_board(&mut self)
        requires
            old(self).wf(),
        ensures
            final(self).wf(),
            final(self).frame() == old(self).frame(),
            same_shape(final(self)@, old(self)@),
    {
        let rows: usize = self.board.len();
        let cols: usize = self.cols();
        let mut tosses: Vec<bool> = Vec::new();
        let mut i: usize = 0;
        while i < rows
            invariant
                i <= rows,
                tosses@.len() == i * cols,
            decreases rows - i,
        {
            let mut j: usize = 0;
            while j < cols
                invariant
                    j <= cols,
                    tosses@.len() == i * cols + j,
                decreases cols - j,
            {
                tosses.push(toss());
                j += 1;
            }
            assert((i + 1) * cols == i * cols + cols) by (nonlinear_arith);
            i += 1;
        }
        let filled: bool = self.fill_board(&tosses);
        assert(filled);
    }

    /// One frame of the controls: a generation if asked for, then a random
    /// board if asked for, then the edits.
    pub fn update(&mut self, input: &InputState)
        requires
            old(self).wf(),
        ensures
            final(self).wf(),
            final(self).frame() == old(self).frame(),
            !input.randomize ==> final(self)@ == edited(
                advanced(old(self)@, *input),
                *input,
                old(self).spec_scale(),
            ),
            input.randomize ==> exists|drawn: Grid|
                same_shape(drawn, old(self)@) && final(self)@ == #[trigger] edited(
                    drawn,
                    *input,
                    old(self).spec_scale(),
                ),
    {
        if input.advance {
            self.update_board();
        }
        if input.randomize {
            self.randomize_board();
        }
        let ghost drawn = self@;
        if input.clear {
            self.clear_board();
        }
        if input.paint {
            self.toggle_on_at_click(input.cursor);
        }
        if input.erase {
            self.toggle_off_at_click(input.cursor);
        }
        assert(self@ == edited(drawn, *input, old(self).spec_scale()));
    }
}

} // verus!
