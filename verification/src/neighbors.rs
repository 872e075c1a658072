//! Neighbour counting: for every cell, the number of living cells among the
//! eight around it.
//!
//! The counts are gathered by scattering: each living cell adds one to the
//! count of each of its neighbours on the board. The proof shows that this
//! gives every cell the number that a direct look at its eight neighbours
//! would give.

use crate::board::{
    adjacent, alive_at, at_most_eight, comes_before, in_bounds, lemma_live_neighbors_bounded,
    live_neighbors, neighbor_tally, populated, rectangular,
};
use crate::error::SetupError;
use crate::grid::Grid;
use vstd::prelude::*;

verus! {

/// One count for each cell of a grid of the same size. The counts are
/// derived data: `count_neighbors` fills them anew from a grid.
#[derive(Debug)]
pub struct NeighborCounts {
    counts: Vec<Vec<u8>>,
}

impl View for NeighborCounts {
    type V = Seq<Seq<u8>>;

    /// `self@[x][y]` is the count held for the cell at `(x, y)`.
    closed spec fn view(&self) -> Seq<Seq<u8>> {
        self.counts.deep_view()
    }
}

impl NeighborCounts {
    /// The counts form a rectangle with at least one cell, and none is above
    /// eight.
    pub open spec fn wf(&self) -> bool {
        populated(self@) && at_most_eight(self@)
    }

    /// Counts for a grid of `width` by `height` cells, all of them zero.
    /// Counts for a grid with no cells are refused.
    pub fn new(width: usize, height: usize) -> (made: Result<NeighborCounts, SetupError>)
        ensures
            made is Ok <==> width > 0 && height > 0,
            made matches Ok(counts) ==> {
                &&& counts.wf()
                &&& rectangular(counts@, width as nat, height as nat)
                &&& forall|x: int, y: int|
                    in_bounds(counts@, x, y) ==> #[trigger] counts@[x][y] == 0
            },
            made matches Err(error) ==> error == SetupError::InvalidConfiguration,
    {
        if width == 0 || height == 0 {
            return Err(SetupError::InvalidConfiguration);
        }
        let mut rows: Vec<Vec<u8>> = Vec::new();
        let mut x: usize = 0;
        while x < width
            invariant
                x <= width,
                rows.len() == x,
                forall|a: int| 0 <= a < x ==> rows[a]@ == Seq::new(height as nat, |c: int| 0u8),
            decreases width - x,
        {
            rows.push(vec![0u8; height]);
            x = x + 1;
        }
        let counts = NeighborCounts { counts: rows };
        assert(counts@ =~~= Seq::new(width as nat, |a: int| Seq::new(height as nat, |c: int| 0u8)));
        Ok(counts)
    }

    /// The number of columns.
    pub fn width(&self) -> (width: usize)
        requires
            self.wf(),
        ensures
            width == self@.len(),
            width > 0,
    {
        self.counts.len()
    }

    /// The number of counts in each column.
    pub fn height(&self) -> (height: usize)
        requires
            self.wf(),
        ensures
            height == self@[0].len(),
            height > 0,
    {
        self.counts[0].len()
    }

    /// The count held for the cell at `(x, y)`.
    pub fn get(&self, x: usize, y: usize) -> (count: u8)
        requires
            self.wf(),
            x < self@.len(),
            y < self@[0].len(),
        ensures
            count == self@[x as int][y as int],
            count <= 8,
    {
        proof {
            assert(self@[x as int] == self.counts[x as int]@);
            assert(in_bounds(self@, x as int, y as int));
        }
        self.counts[x][y]
    }
}

/// `counts` has `width` columns of `height` counts each.
spec fn shaped(counts: Vec<Vec<u8>>, width: usize, height: usize) -> bool {
    &&& counts.len() == width
    &&& forall|a: int| 0 <= a < width ==> (#[trigger] counts[a]).len() == height
}

/// 1 if `flag` holds and 0 if not.
spec fn one_if(flag: bool) -> int {
    if flag {
        1
    } else {
        0
    }
}

/// 1 if the cell at `(u, v)` is alive and is visited before `(x, y)`.
spec fn seen_at(board: Seq<Seq<bool>>, u: int, v: int, x: int, y: int) -> int {
    one_if(alive_at(board, u, v) && comes_before(u, v, x, y))
}

/// The living neighbours of `(a, c)` among the cells visited before
/// `(x, y)`: what the scatter has added to the count of `(a, c)` by then.
spec fn seen_neighbors(board: Seq<Seq<bool>>, a: int, c: int, x: int, y: int) -> int {
    seen_at(board, a - 1, c - 1, x, y) + seen_at(board, a - 1, c, x, y)
        + seen_at(board, a - 1, c + 1, x, y) + seen_at(board, a, c - 1, x, y)
        + seen_at(board, a, c + 1, x, y) + seen_at(board, a + 1, c - 1, x, y)
        + seen_at(board, a + 1, c, x, y) + seen_at(board, a + 1, c + 1, x, y)
}

/// `(a, c)` is a neighbour of `(x, y)` that the walk around `(x, y)` has
/// passed when it stands at offset `(dx, dy)`, offsets running from 0 to 2.
spec fn marked(a: int, c: int, x: int, y: int, dx: int, dy: int) -> bool {
    adjacent(x, y, a, c) && comes_before(a - x + 1, c - y + 1, dx, dy)
}

/// Sets every count to zero.
fn reset(counts: &mut Vec<Vec<u8>>, width: usize, height: usize)
    requires
        shaped(*old(counts), width, height),
    ensures
        shaped(*final(counts), width, height),
        forall|a: int, c: int|
            0 <= a < width && 0 <= c < height ==> #[trigger] final(counts)[a][c] == 0,
{
    let mut x: usize = 0;
    while x < width
        invariant
            x <= width,
            shaped(*counts, width, height),
            forall|a: int, c: int| 0 <= a < x && 0 <= c < height ==> #[trigger] counts[a][c] == 0,
        decreases width - x,
    {
        let mut y: usize = 0;
        while y < height
            invariant
                x < width,
                y <= height,
                shaped(*counts, width, height),
                forall|a: int, c: int|
                    0 <= a < x && 0 <= c < height ==> #[trigger] counts[a][c] == 0,
                forall|c: int| 0 <= c < y ==> #[trigger] counts[x as int][c] == 0,
            decreases height - y,
        {
            counts[x][y] = 0;
            y = y + 1;
        }
        x = x + 1;
    }
}

/// Adds one to the count of each neighbour of `(x, y)` that lies on the
/// board.
fn mark_neighbors(counts: &mut Vec<Vec<u8>>, x: usize, y: usize, width: usize, height: usize)
    requires
        shaped(*old(counts), width, height),
        x < width,
        y < height,
        forall|a: int, c: int|
            0 <= a < width && 0 <= c < height && adjacent(x as int, y as int, a, c)
                ==> #[trigger] old(counts)[a][c] < u8::MAX,
    ensures
        shaped(*final(counts), width, height),
        forall|a: int, c: int|
            0 <= a < width && 0 <= c < height ==> #[trigger] final(counts)[a][c]
                == old(counts)[a][c] + one_if(adjacent(x as int, y as int, a, c)),
{
    let mut dx: usize = 0;
    while dx < 3
        invariant
            dx <= 3,
            x < width,
            y < height,
            shaped(*old(counts), width, height),
            shaped(*counts, width, height),
            forall|a: int, c: int|
                0 <= a < width && 0 <= c < height && adjacent(x as int, y as int, a, c)
                    ==> #[trigger] old(counts)[a][c] < u8::MAX,
            forall|a: int, c: int|
                0 <= a < width && 0 <= c < height ==> #[trigger] counts[a][c]
                    == old(counts)[a][c] + one_if(marked(a, c, x as int, y as int, dx as int, 0)),
        decreases 3 - dx,
    {
        let mut dy: usize = 0;
        while dy < 3
            invariant
                dx < 3,
                dy <= 3,
                x < width,
                y < height,
                shaped(*old(counts), width, height),
                shaped(*counts, width, height),
                forall|a: int, c: int|
                    0 <= a < width && 0 <= c < height && adjacent(x as int, y as int, a, c)
                        ==> #[trigger] old(counts)[a][c] < u8::MAX,
                forall|a: int, c: int|
                    0 <= a < width && 0 <= c < height ==> #[trigger] counts[a][c]
                        == old(counts)[a][c] + one_if(
                        marked(a, c, x as int, y as int, dx as int, dy as int),
                    ),
            decreases 3 - dy,
        {
            if !(dx == 1 && dy == 1) && (x >= 1 || dx >= 1) && (y >= 1 || dy >= 1) {
                let nx: usize = if dx == 0 { x - 1 } else { x + (dx - 1) };
                let ny: usize = if dy == 0 { y - 1 } else { y + (dy - 1) };
                if nx < width && ny < height {
                    assert(adjacent(x as int, y as int, nx as int, ny as int));
                    assert(!marked(nx as int, ny as int, x as int, y as int, dx as int, dy as int));
                    assert(counts[nx as int][ny as int] == old(counts)[nx as int][ny as int]);
                    counts[nx][ny] = counts[nx][ny] + 1;
                }
            }
            dy = dy + 1;
        }
        dx = dx + 1;
    }
}

/// When the scatter moves on from the cell at `(x, y)`, every count has
/// grown by one if that cell is alive and a neighbour of the count's cell,
/// and not at all otherwise. No count is ever above eight.
proof fn lemma_seen_grows(board: Seq<Seq<bool>>, x: int, y: int)
    requires
        in_bounds(board, x, y),
    ensures
        forall|a: int, c: int|
            #![trigger seen_neighbors(board, a, c, x, y)]
            {
                &&& 0 <= seen_neighbors(board, a, c, x, y) <= 8
                &&& seen_neighbors(board, a, c, x, y + 1) == seen_neighbors(board, a, c, x, y)
                    + one_if(board[x][y] && adjacent(x, y, a, c))
            },
{
}

/// At the end of column `x` the scatter stands where column `x + 1` begins.
proof fn lemma_seen_column_done(board: Seq<Seq<bool>>, x: int, height: int)
    requires
        rectangular(board, board.len(), height as nat),
        0 <= height,
    ensures
        forall|a: int, c: int|
            #![trigger seen_neighbors(board, a, c, x, height)]
            seen_neighbors(board, a, c, x, height) == seen_neighbors(board, a, c, x + 1, 0),
{
}

/// Once every column has been visited, the scatter has given each cell the
/// number of its living neighbours.
proof fn lemma_seen_all(board: Seq<Seq<bool>>)
    ensures
        forall|a: int, c: int|
            #![trigger seen_neighbors(board, a, c, board.len() as int, 0)]
            seen_neighbors(board, a, c, board.len() as int, 0) == live_neighbors(board, a, c),
{
}

/// Fills `counts` with the neighbour count of every cell of `grid`: the
/// number of living cells among the eight around it, where coordinates
/// beyond the edge hold no cell. What `counts` held before plays no part.
pub fn count_neighbors(grid: &Grid, counts: &mut NeighborCounts)
    requires
        grid.wf(),
        old(counts).wf(),
        rectangular(old(counts)@, grid@.len(), grid@[0].len()),
    ensures
        final(counts).wf(),
        final(counts)@ == neighbor_tally(grid@),
{
    let width: usize = grid.width();
    let height: usize = grid.height();
    let ghost board = grid@;
    proof {
        assert forall|a: int| 0 <= a < width implies (#[trigger] counts.counts[a]).len()
            == height by {
            assert(counts@[a] == counts.counts[a]@);
        }
    }
    reset(&mut counts.counts, width, height);
    let mut x: usize = 0;
    while x < width
        invariant
            x <= width,
            grid.wf(),
            board == grid@,
            rectangular(board, width as nat, height as nat),
            shaped(counts.counts, width, height),
            forall|a: int, c: int|
                0 <= a < width && 0 <= c < height ==> #[trigger] counts.counts[a][c]
                    == seen_neighbors(board, a, c, x as int, 0),
        decreases width - x,
    {
        let mut y: usize = 0;
        while y < height
            invariant
                x < width,
                y <= height,
                grid.wf(),
                board == grid@,
                rectangular(board, width as nat, height as nat),
                shaped(counts.counts, width, height),
                forall|a: int, c: int|
                    0 <= a < width && 0 <= c < height ==> #[trigger] counts.counts[a][c]
                        == seen_neighbors(board, a, c, x as int, y as int),
            decreases height - y,
        {
            proof {
                lemma_seen_grows(board, x as int, y as int);
            }
            if grid.get(x, y) {
                mark_neighbors(&mut counts.counts, x, y, width, height);
            }
            y = y + 1;
        }
        proof {
            lemma_seen_column_done(board, x as int, height as int);
        }
        x = x + 1;
    }
    proof {
        lemma_seen_all(board);
        assert forall|a: int, c: int| in_bounds(board, a, c) implies #[trigger] live_neighbors(
            board,
            a,
            c,
        ) <= 8 by {
            lemma_live_neighbors_bounded(board, a, c);
        }
        assert forall|a: int| 0 <= a < width implies #[trigger] counts@[a]
            == counts.counts[a]@ by {}
        assert(counts@ =~~= neighbor_tally(board));
    }
}

} // verus!
