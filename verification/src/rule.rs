//! The rule of the game, for one cell and for a whole grid.

use crate::board::{comes_before, rectangular, ruled, survives};
use crate::grid::Grid;
use crate::neighbors::NeighborCounts;
use vstd::prelude::*;

verus! {

/// Whether a cell is alive in the next generation, given whether it is
/// alive now and how many of its neighbours are: with three it lives,
/// with two it stays as it is, with any other number it is dead.
pub fn next_state(alive: bool, count: u8) -> (next: bool)
    ensures
        next == survives(alive, count as nat),
{
    match count {
        3 => true,
        2 if alive => true,
        _ => false,
    }
}

/// What the cell at `(a, c)` holds while the rule is being applied and the
/// cell at `(x, y)` is the next to be written: its new flag if it has been
/// written, and its old flag if not.
spec fn in_progress(
    before: Seq<Seq<bool>>,
    counts: Seq<Seq<u8>>,
    a: int,
    c: int,
    x: int,
    y: int,
) -> bool {
    if comes_before(a, c, x, y) {
        survives(before[a][c], counts[a][c] as nat)
    } else {
        before[a][c]
    }
}

/// Applies the rule to every cell of `grid`, each with the count that
/// `counts` holds for it. Every new flag comes from the old flag of the
/// same cell and its count alone, so the order in which cells are written
/// does not matter.
pub fn update_cells(grid: &mut Grid, counts: &NeighborCounts)
    requires
        old(grid).wf(),
        counts.wf(),
        rectangular(counts@, old(grid)@.len(), old(grid)@[0].len()),
    ensures
        final(grid).wf(),
        final(grid)@ == ruled(old(grid)@, counts@),
{
    let width: usize = grid.width();
    let height: usize = grid.height();
    let ghost before = grid@;
    let mut x: usize = 0;
    while x < width
        invariant
            x <= width,
            grid.wf(),
            counts.wf(),
            rectangular(before, width as nat, height as nat),
            rectangular(grid@, width as nat, height as nat),
            rectangular(counts@, width as nat, height as nat),
            forall|a: int, c: int|
                0 <= a < width && 0 <= c < height ==> #[trigger] grid@[a][c] == in_progress(
                    before,
                    counts@,
                    a,
                    c,
                    x as int,
                    0,
                ),
        decreases width - x,
    {
        let mut y: usize = 0;
        while y < height
            invariant
                x < width,
                y <= height,
                grid.wf(),
                counts.wf(),
                rectangular(before, width as nat, height as nat),
                rectangular(grid@, width as nat, height as nat),
                rectangular(counts@, width as nat, height as nat),
                forall|a: int, c: int|
                    0 <= a < width && 0 <= c < height ==> #[trigger] grid@[a][c] == in_progress(
                        before,
                        counts@,
                        a,
                        c,
                        x as int,
                        y as int,
                    ),
            decreases height - y,
        {
            let alive: bool = grid.get(x, y);
            let count: u8 = counts.get(x, y);
            grid.set(x, y, next_state(alive, count));
            y = y + 1;
        }
        x = x + 1;
    }
    assert(grid@ =~~= ruled(before, counts@));
}

} // verus!
