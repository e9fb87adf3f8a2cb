//! What the user asks for in one frame, and what it does to a board.

use vstd::prelude::*;
use crate::grid::{cell_index, cleared, step, with_cell, Grid};

verus! {

/// A snapshot of the controls at one frame.
pub struct InputState {
    /// Advance the board by one generation.
    pub advance: bool,
    /// Give every cell a random state.
    pub randomize: bool,
    /// Kill every cell.
    pub clear: bool,
    /// Bring the cell under the cursor to life.
    pub paint: bool,
    /// Kill the cell under the cursor.
    pub erase: bool,
    /// The cursor in pixels, x then y, from the top left corner of the board.
    pub cursor: [i32; 2],
}

/// The board after the generation that `input` asks for, if it asks for one.
pub open spec fn advanced(g: Grid, input: InputState) -> Grid {
    if input.advance {
        step(g)
    } else {
        g
    }
}

/// The board after the edits that `input` asks for, in their fixed order:
/// first clearing, then painting under the cursor, then erasing under it.
pub open spec fn edited(g: Grid, input: InputState, scale: int) -> Grid {
    let r = cell_index(input.cursor[1] as int, scale);
    let c = cell_index(input.cursor[0] as int, scale);
    let wiped = if input.clear {
        cleared(g)
    } else {
        g
    };
    let painted = if input.paint {
        with_cell(wiped, r, c, true)
    } else {
        wiped
    };
    if input.erase {
        with_cell(painted, r, c, false)
    } else {
        painted
    }
}

} // verus!
