//! Laws of the game, proved over the model of the board.

use vstd::prelude::*;
use crate::grid::{
    alive, all_dead, cell_index, cleared, in_bounds, is_live, lemma_row_scan, lemma_rows_scan,
    lists_living_before, live_cells, live_neighbors, live_rows, neighbor_count, next_state,
    reads_before, row_coords, same_shape, step, with_cell, Grid,
};

verus! {

/// A generation changes no dimension of the board.
pub proof fn lemma_step_keeps_shape(g: Grid)
    ensures
        same_shape(step(g), g),
{
}

/// After a generation each cell of the board has the state that the rule
/// gives it from its state and its neighbour count before the generation.
pub proof fn lemma_step_cell(g: Grid, r: int, c: int)
    requires
        in_bounds(g, r, c),
    ensures
        alive(step(g), r, c) == next_state(alive(g, r, c), neighbor_count(g, r, c)),
{
}

/// The neighbour count of a cell does not depend on the cell's own state.
pub proof fn lemma_count_ignores_center(g: Grid, r: int, c: int, state: bool)
    ensures
        neighbor_count(with_cell(g, r, c, state), r, c) == neighbor_count(g, r, c),
{
    let h = with_cell(g, r, c, state);
    assert forall|i: int, j: int| (i, j) != (r, c) implies alive(h, i, j) == alive(g, i, j) by {}
}

/// The neighbour count of `(r, c)` is the number of living cells that touch
/// it. Each of them lies on the board and none is `(r, c)` itself, so the
/// count takes in neither the cell nor anything beyond an edge.
pub proof fn lemma_count_is_live_neighbors(g: Grid, r: int, c: int)
    ensures
        live_neighbors(g, r, c).finite(),
        neighbor_count(g, r, c) == live_neighbors(g, r, c).len(),
        forall|p: (int, int)| #[trigger]
            live_neighbors(g, r, c).contains(p) ==> in_bounds(g, p.0, p.1) && p != (r, c),
{
    let s0 = Set::<(int, int)>::empty();
    let s1 = put_if_alive(s0, g, (r - 1, c - 1));
    let s2 = put_if_alive(s1, g, (r - 1, c));
    let s3 = put_if_alive(s2, g, (r - 1, c + 1));
    let s4 = put_if_alive(s3, g, (r, c - 1));
    let s5 = put_if_alive(s4, g, (r, c + 1));
    let s6 = put_if_alive(s5, g, (r + 1, c - 1));
    let s7 = put_if_alive(s6, g, (r + 1, c));
    let s8 = put_if_alive(s7, g, (r + 1, c + 1));
    assert(s8 =~= live_neighbors(g, r, c));
}

/// `s` with `p` added if `p` is a living cell of `g`.
spec fn put_if_alive(s: Set<(int, int)>, g: Grid, p: (int, int)) -> Set<(int, int)> {
    if alive(g, p.0, p.1) {
        s.insert(p)
    } else {
        s
    }
}

/// Nothing comes to life on a board on which nothing lives: a generation
/// leaves such a board as it is.
pub proof fn lemma_dead_stays_dead(g: Grid)
    requires
        all_dead(g),
    ensures
        all_dead(step(g)),
        step(g) == g,
{
    assert forall|r: int, c: int| in_bounds(g, r, c) implies !step(g)[r][c] by {
        assert(!alive(g, r, c));
        assert(!alive(g, r - 1, c - 1) && !alive(g, r - 1, c) && !alive(g, r - 1, c + 1));
        assert(!alive(g, r, c - 1) && !alive(g, r, c + 1));
        assert(!alive(g, r + 1, c - 1) && !alive(g, r + 1, c) && !alive(g, r + 1, c + 1));
    }
    assert forall|r: int, c: int| in_bounds(g, r, c) implies !g[r][c] by {
        assert(!alive(g, r, c));
    }
    assert forall|r: int| 0 <= r < g.len() implies #[trigger] step(g)[r] == g[r] by {
        assert forall|c: int| 0 <= c < g[r].len() implies step(g)[r][c] == g[r][c] by {
            assert(in_bounds(g, r, c));
        }
        assert(step(g)[r] =~= g[r]);
    }
    assert(step(g) =~= g);
}

/// A living cell with no living neighbour is dead after a generation.
pub proof fn lemma_lonely_cell_dies(g: Grid, r: int, c: int)
    requires
        alive(g, r, c),
        neighbor_count(g, r, c) == 0,
    ensures
        !alive(step(g), r, c),
{
}

/// A living cell with exactly four living neighbours is dead after a
/// generation; with exactly two or three it is still alive.
pub proof fn lemma_crowding(g: Grid, r: int, c: int)
    requires
        alive(g, r, c),
    ensures
        neighbor_count(g, r, c) == 4 ==> !alive(step(g), r, c),
        neighbor_count(g, r, c) == 2 || neighbor_count(g, r, c) == 3 ==> alive(step(g), r, c),
{
}

/// The list of living cells holds every living cell of the board once and
/// nothing else, in reading order: row by row from the top, each row from
/// left to right.
pub proof fn lemma_live_cells_in_reading_order(g: Grid)
    ensures
        forall|k: int|
            0 <= k < live_cells(g).len() ==> alive(
                g,
                (#[trigger] live_cells(g)[k]).0,
                live_cells(g)[k].1,
            ),
        forall|r: int, c: int| alive(g, r, c) ==> live_cells(g).contains((r, c)),
        forall|j: int, k: int|
            0 <= j < k < live_cells(g).len() ==> reads_before(
                #[trigger] live_cells(g)[j],
                #[trigger] live_cells(g)[k],
            ),
{
    lemma_scan(g, g.len(), 0);
    assert(row_coords(g.len() as int, 0).filter(is_live(g)) =~= Seq::<(int, int)>::empty()) by {
        row_coords(g.len() as int, 0).lemma_filter_len(is_live(g));
    }
    assert(live_cells(g) =~= scanned(g, g.len(), 0));
}

/// The living cells met when reading `g` up to, and without, the cell
/// `(r, c)`: those of the rows above `r`, then those of the first `c` cells
/// of row `r`.
spec fn scanned(g: Grid, r: nat, c: nat) -> Seq<(int, int)> {
    live_rows(g, r).flatten() + row_coords(r as int, c).filter(is_live(g))
}

/// Reading up to `(r, c)` gives the living cells before `(r, c)`.
proof fn lemma_scan(g: Grid, r: nat, c: nat)
    requires
        r <= g.len(),
        r < g.len() ==> c <= g[r as int].len(),
        r == g.len() ==> c == 0,
    ensures
        lists_living_before(g, scanned(g, r, c), (r as int, c as int)),
    decreases r, c,
{
    let here = scanned(g, r, c);
    if c > 0 {
        let left = (c - 1) as nat;
        lemma_scan(g, r, left);
        lemma_row_scan(g, r as int, left);
        let seen = scanned(g, r, left);
        if alive(g, r as int, left as int) {
            assert(here =~= seen.push((r as int, left as int)));
            assert(here[here.len() - 1] == (r as int, left as int));
            assert forall|i: int, j: int|
                alive(g, i, j) && reads_before((i, j), (r as int, c as int)) implies here.contains(
                (i, j),
            ) by {
                if (i, j) == (r as int, left as int) {
                } else {
                    assert(seen.contains((i, j)));
                    let k = choose|k: int| 0 <= k < seen.len() && seen[k] == (i, j);
                    assert(here[k] == (i, j));
                }
            }
        } else {
            assert(here =~= seen);
        }
    } else if r > 0 {
        let above = (r - 1) as nat;
        lemma_scan(g, above, g[above as int].len());
        lemma_rows_scan(g, above);
        assert(row_coords(r as int, 0).filter(is_live(g)) =~= Seq::<(int, int)>::empty()) by {
            row_coords(r as int, 0).lemma_filter_len(is_live(g));
        }
        assert(here =~= scanned(g, above, g[above as int].len()));
    } else {
        assert(live_rows(g, 0) =~= Seq::<Seq<(int, int)>>::empty());
        assert(row_coords(0, 0).filter(is_live(g)) =~= Seq::<(int, int)>::empty()) by {
            row_coords(0, 0).lemma_filter_len(is_live(g));
        }
        assert(here =~= Seq::<(int, int)>::empty());
    }
}

/// A board on which nothing lives has nothing to paint.
pub proof fn lemma_dead_board_renders_nothing(g: Grid)
    requires
        all_dead(g),
    ensures
        live_cells(g) == Seq::<(int, int)>::empty(),
{
    lemma_live_cells_in_reading_order(g);
    if live_cells(g).len() > 0 {
        let p = live_cells(g)[0];
        assert(alive(g, p.0, p.1));
    }
    assert(live_cells(g) =~= Seq::<(int, int)>::empty());
}

/// A cleared board has nothing to paint.
pub proof fn lemma_cleared_renders_nothing(g: Grid)
    ensures
        live_cells(cleared(g)) == Seq::<(int, int)>::empty(),
{
    lemma_dead_board_renders_nothing(cleared(g));
}

/// Painting and then erasing at one pixel leaves the board as erasing alone
/// would: the cell under the pixel is dead and every other cell is as before.
pub proof fn lemma_paint_then_erase(g: Grid, x: int, y: int, scale: int)
    ensures
        ({
            let r = cell_index(y, scale);
            let c = cell_index(x, scale);
            with_cell(with_cell(g, r, c, true), r, c, false) == with_cell(g, r, c, false)
        }),
{
    let r = cell_index(y, scale);
    let c = cell_index(x, scale);
    assert(with_cell(with_cell(g, r, c, true), r, c, false) =~~= with_cell(g, r, c, false));
}

/// Painting and then erasing at one pixel gives the board back as it was,
/// provided that the cell under the pixel was dead to begin with.
pub proof fn lemma_paint_then_erase_restores(g: Grid, x: int, y: int, scale: int)
    requires
        !alive(g, cell_index(y, scale), cell_index(x, scale)),
    ensures
        ({
            let r = cell_index(y, scale);
            let c = cell_index(x, scale);
            with_cell(with_cell(g, r, c, true), r, c, false) == g
        }),
{
    let r = cell_index(y, scale);
    let c = cell_index(x, scale);
    assert(with_cell(with_cell(g, r, c, true), r, c, false) =~~= g);
}

} // verus!
