//! The mathematical model of a board: a sequence of rows of cells, and the
//! rules of the game stated over it.

use vstd::prelude::*;

verus! {

/// A board as a value: `g[r][c]` says whether the cell in row `r`, column `c` lives.
pub type Grid = Seq<Seq<bool>>;

/// Whether `(r, c)` names a cell of `g`.
pub open spec fn in_bounds(g: Grid, r: int, c: int) -> bool {
    0 <= r < g.len() && 0 <= c < g[r].len()
}

/// Whether `(r, c)` is a living cell of `g`. Outside the board nothing lives.
pub open spec fn alive(g: Grid, r: int, c: int) -> bool {
    in_bounds(g, r, c) && g[r][c]
}

/// Whether `g` has exactly `rows` rows of `cols` cells each.
pub open spec fn rectangular(g: Grid, rows: int, cols: int) -> bool {
    &&& g.len() == rows
    &&& forall|r: int| 0 <= r < g.len() ==> (#[trigger] g[r]).len() == cols
}

/// Whether two boards have the same rows of the same lengths.
pub open spec fn same_shape(a: Grid, b: Grid) -> bool {
    &&& a.len() == b.len()
    &&& forall|r: int| 0 <= r < a.len() ==> (#[trigger] a[r]).len() == b[r].len()
}

/// The board of `rows` by `cols` cells on which nothing lives.
pub open spec fn blank(rows: int, cols: int) -> Grid {
    Seq::new(rows as nat, |r: int| Seq::new(cols as nat, |c: int| false))
}

/// The board of the shape of `g` on which nothing lives.
pub open spec fn cleared(g: Grid) -> Grid {
    Seq::new(g.len(), |r: int| Seq::new(g[r].len(), |c: int| false))
}

/// The board of `rows` by `cols` cells whose states are `states`, read row
/// by row from the top and each row from left to right.
pub open spec fn arranged(states: Seq<bool>, rows: int, cols: int) -> Grid {
    Seq::new(rows as nat, |r: int| Seq::new(cols as nat, |c: int| states[r * cols + c]))
}

/// `g` with the cell `(r, c)` set to `state`. A coordinate outside the board
/// changes nothing.
pub open spec fn with_cell(g: Grid, r: int, c: int, state: bool) -> Grid {
    if in_bounds(g, r, c) {
        g.update(r, g[r].update(c, state))
    } else {
        g
    }
}

/// The row (or column) that the pixel offset `pixel` falls in when cells are
/// `scale` pixels wide: the quotient rounded down, so that offsets left of or
/// above the board get a negative index and name no cell.
pub open spec fn cell_index(pixel: int, scale: int) -> int {
    pixel / scale
}

/// One for a living cell, zero otherwise.
pub open spec fn tally(living: bool) -> int {
    if living {
        1
    } else {
        0
    }
}

/// The number of living cells among the eight cells that touch `(r, c)`.
/// The cell itself is not among them, and cells beyond an edge do not exist:
/// the board does not wrap around.
pub open spec fn neighbor_count(g: Grid, r: int, c: int) -> int {
    tally(alive(g, r - 1, c - 1)) + tally(alive(g, r - 1, c)) + tally(alive(g, r - 1, c + 1))
        + tally(alive(g, r, c - 1)) + tally(alive(g, r, c + 1))
        + tally(alive(g, r + 1, c - 1)) + tally(alive(g, r + 1, c)) + tally(alive(g, r + 1, c + 1))
}

/// Whether `p` is one of the eight coordinates that touch `(r, c)`: at most
/// one row and one column away, and not `(r, c)` itself.
pub open spec fn touches(p: (int, int), r: int, c: int) -> bool {
    &&& r - 1 <= p.0 <= r + 1
    &&& c - 1 <= p.1 <= c + 1
    &&& p != (r, c)
}

/// The living cells that touch `(r, c)`.
pub open spec fn live_neighbors(g: Grid, r: int, c: int) -> Set<(int, int)> {
    Set::new(|p: (int, int)| touches(p, r, c) && alive(g, p.0, p.1))
}

/// Whether nothing lives on `g`.
pub open spec fn all_dead(g: Grid) -> bool {
    forall|r: int, c: int| !alive(g, r, c)
}

/// The living neighbours of `(r, c)` among the first `k` cells of the three
/// by three window around it, read row by row from its top left corner. The
/// fifth cell of the window is `(r, c)` itself and never counts.
pub open spec fn window_count(g: Grid, r: int, c: int, k: int) -> int
    decreases k,
{
    if k <= 0 {
        0
    } else {
        let n = k - 1;
        window_count(g, r, c, n) + tally(n != 4 && alive(g, r - 1 + n / 3, c - 1 + n % 3))
    }
}

/// The whole window holds exactly the eight neighbours.
pub proof fn lemma_window_is_neighborhood(g: Grid, r: int, c: int)
    ensures
        window_count(g, r, c, 9) == neighbor_count(g, r, c),
{
    reveal_with_fuel(window_count, 10);
}

/// The rule of the game for one cell: a living cell stays alive with two or
/// three living neighbours, a dead cell comes alive with exactly three.
pub open spec fn next_state(living: bool, count: int) -> bool {
    if living {
        count == 2 || count == 3
    } else {
        count == 3
    }
}

/// One generation: every cell takes the state that the rule gives it from
/// its own state and its neighbour count on `g`, the board before the step.
pub open spec fn step(g: Grid) -> Grid {
    Seq::new(
        g.len(),
        |r: int| Seq::new(g[r].len(), |c: int| next_state(g[r][c], neighbor_count(g, r, c))),
    )
}

/// Whether `p` comes before `q` when a board is read row by row from the
/// top, each row from left to right.
pub open spec fn reads_before(p: (int, int), q: (int, int)) -> bool {
    p.0 < q.0 || (p.0 == q.0 && p.1 < q.1)
}

/// Whether `cells` lists, in reading order and each once, exactly the living
/// cells of `g` that come before `end`.
pub open spec fn lists_living_before(g: Grid, cells: Seq<(int, int)>, end: (int, int)) -> bool {
    &&& forall|k: int|
        0 <= k < cells.len() ==> alive(g, (#[trigger] cells[k]).0, cells[k].1) && reads_before(
            cells[k],
            end,
        )
    &&& forall|r: int, c: int|
        alive(g, r, c) && reads_before((r, c), end) ==> cells.contains((r, c))
    &&& forall|j: int, k: int|
        0 <= j < k < cells.len() ==> reads_before(#[trigger] cells[j], #[trigger] cells[k])
}

/// The coordinates `(r, 0)`, `(r, 1)`, ... of the first `cols` cells of row `r`.
pub open spec fn row_coords(r: int, cols: nat) -> Seq<(int, int)> {
    Seq::new(cols, |c: int| (r, c))
}

/// The test "this coordinate is a living cell of `g`".
pub open spec fn is_live(g: Grid) -> spec_fn((int, int)) -> bool {
    |p: (int, int)| alive(g, p.0, p.1)
}

/// The living cells of row `r`, from left to right.
pub open spec fn live_in_row(g: Grid, r: int) -> Seq<(int, int)> {
    row_coords(r, g[r].len()).filter(is_live(g))
}

/// The living cells of the first `rows` rows, each row's in turn.
pub open spec fn live_rows(g: Grid, rows: nat) -> Seq<Seq<(int, int)>> {
    Seq::new(rows, |r: int| live_in_row(g, r))
}

/// The coordinates of all living cells, row by row from the top and within
/// a row from left to right.
pub open spec fn live_cells(g: Grid) -> Seq<(int, int)> {
    live_rows(g, g.len()).flatten()
}

/// A list of cell indices read as coordinates.
pub open spec fn coords(cells: Seq<(usize, usize)>) -> Seq<(int, int)> {
    Seq::new(cells.len(), |k: int| (cells[k].0 as int, cells[k].1 as int))
}

/// Reading one more cell of a row adds that cell to the row's living cells
/// exactly when it lives.
pub proof fn lemma_row_scan(g: Grid, r: int, c: nat)
    ensures
        row_coords(r, c + 1).filter(is_live(g)) == if alive(g, r, c as int) {
            row_coords(r, c).filter(is_live(g)).push((r, c as int))
        } else {
            row_coords(r, c).filter(is_live(g))
        },
{
    assert(row_coords(r, c + 1) =~= row_coords(r, c).push((r, c as int)));
    row_coords(r, c).lemma_filter_push((r, c as int), is_live(g));
}

/// Reading one more row adds that row's living cells after those of the
/// rows above.
pub proof fn lemma_rows_scan(g: Grid, rows: nat)
    ensures
        live_rows(g, rows + 1).flatten() == live_rows(g, rows).flatten() + live_in_row(
            g,
            rows as int,
        ),
{
    assert(live_rows(g, rows + 1) =~= live_rows(g, rows).push(live_in_row(g, rows as int)));
    live_rows(g, rows).lemma_flatten_push(live_in_row(g, rows as int));
}

} // verus!
