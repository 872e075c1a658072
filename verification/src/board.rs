//! The mathematical model of a board and of one generation.
//!
//! A board is a sequence of columns, `board[x][y]` being the cell at
//! coordinate `(x, y)`. Coordinates outside the board hold no cell: there is
//! no wrap-around, and everything beyond the edge counts as dead.

use vstd::prelude::*;

verus! {

/// `board` has `width` columns of `height` cells each.
pub open spec fn rectangular<T>(board: Seq<Seq<T>>, width: nat, height: nat) -> bool {
    &&& board.len() == width
    &&& forall|x: int| 0 <= x < width ==> (#[trigger] board[x]).len() == height
}

/// A board that a grid can hold: rectangular, with at least one cell.
pub open spec fn populated<T>(board: Seq<Seq<T>>) -> bool {
    &&& board.len() > 0
    &&& board[0].len() > 0
    &&& rectangular(board, board.len(), board[0].len())
}

/// `(x, y)` names a cell of `board`.
pub open spec fn in_bounds<T>(board: Seq<Seq<T>>, x: int, y: int) -> bool {
    0 <= x < board.len() && 0 <= y < board[x].len()
}

/// The cell at `(x, y)` exists and is alive.
pub open spec fn alive_at(board: Seq<Seq<bool>>, x: int, y: int) -> bool {
    in_bounds(board, x, y) && board[x][y]
}

/// 1 for a living cell at `(x, y)`, 0 for a dead one or none at all.
pub open spec fn population_at(board: Seq<Seq<bool>>, x: int, y: int) -> nat {
    if alive_at(board, x, y) {
        1
    } else {
        0
    }
}

/// `(x, y)` and `(u, v)` are distinct and touch, by a side or by a corner.
pub open spec fn adjacent(x: int, y: int, u: int, v: int) -> bool {
    &&& x - 1 <= u <= x + 1
    &&& y - 1 <= v <= y + 1
    &&& !(u == x && v == y)
}

/// `(u, v)` comes before `(x, y)` when cells are visited column by column,
/// each column from its first cell to its last.
pub open spec fn comes_before(u: int, v: int, x: int, y: int) -> bool {
    u < x || (u == x && v < y)
}

/// The number of living cells among the eight Moore neighbours of `(x, y)`.
pub open spec fn live_neighbors(board: Seq<Seq<bool>>, x: int, y: int) -> nat {
    population_at(board, x - 1, y - 1) + population_at(board, x - 1, y)
        + population_at(board, x - 1, y + 1) + population_at(board, x, y - 1)
        + population_at(board, x, y + 1) + population_at(board, x + 1, y - 1)
        + population_at(board, x + 1, y) + population_at(board, x + 1, y + 1)
}

/// No count of `counts` is above eight.
pub open spec fn at_most_eight(counts: Seq<Seq<u8>>) -> bool {
    forall|x: int, y: int| in_bounds(counts, x, y) ==> #[trigger] counts[x][y] <= 8
}

/// The rule: a cell with three living neighbours lives, a living cell with
/// two stays alive, every other cell is dead.
pub open spec fn survives(alive: bool, neighbors: nat) -> bool {
    neighbors == 3 || (neighbors == 2 && alive)
}

/// The neighbour count of every cell of `board`.
pub open spec fn neighbor_tally(board: Seq<Seq<bool>>) -> Seq<Seq<u8>> {
    Seq::new(
        board.len(),
        |x: int| Seq::new(board[x].len(), |y: int| live_neighbors(board, x, y) as u8),
    )
}

/// The board that results when every cell of `board` meets the rule with
/// the count that `counts` holds for it.
pub open spec fn ruled(board: Seq<Seq<bool>>, counts: Seq<Seq<u8>>) -> Seq<Seq<bool>> {
    Seq::new(
        board.len(),
        |x: int| Seq::new(board[x].len(), |y: int| survives(board[x][y], counts[x][y] as nat)),
    )
}

/// One generation: every cell meets the rule with its neighbour count in
/// `board`, all cells at once.
pub open spec fn next_generation(board: Seq<Seq<bool>>) -> Seq<Seq<bool>> {
    Seq::new(
        board.len(),
        |x: int|
            Seq::new(board[x].len(), |y: int| survives(board[x][y], live_neighbors(board, x, y))),
    )
}

/// `board` after `n` generations.
pub open spec fn generations(board: Seq<Seq<bool>>, n: nat) -> Seq<Seq<bool>>
    decreases n,
{
    if n == 0 {
        board
    } else {
        next_generation(generations(board, (n - 1) as nat))
    }
}

/// No cell of `board` is alive.
pub open spec fn all_dead(board: Seq<Seq<bool>>) -> bool {
    forall|x: int, y: int| in_bounds(board, x, y) ==> !(#[trigger] board[x][y])
}

/// Every cell of `board` is alive.
pub open spec fn all_alive(board: Seq<Seq<bool>>) -> bool {
    forall|x: int, y: int| in_bounds(board, x, y) ==> #[trigger] board[x][y]
}

/// The number of coordinates among the eight around `(x, y)` that lie on a
/// board of `width` by `height` cells.
pub open spec fn neighbors_on_board(width: nat, height: nat, x: int, y: int) -> nat {
    let columns: nat = if 0 < x && x + 1 < width {
        3
    } else if 0 < x || x + 1 < width {
        2
    } else {
        1
    };
    let rows: nat = if 0 < y && y + 1 < height {
        3
    } else if 0 < y || y + 1 < height {
        2
    } else {
        1
    };
    (columns * rows - 1) as nat
}

/// A neighbour count never includes a coordinate beyond the edge: it is at
/// most the number of neighbours that lie on the board, which is eight in
/// the interior, at most five along an edge and at most three in a corner.
pub proof fn lemma_live_neighbors_bounded(board: Seq<Seq<bool>>, x: int, y: int)
    requires
        populated(board),
        in_bounds(board, x, y),
    ensures
        live_neighbors(board, x, y) <= neighbors_on_board(board.len(), board[0].len(), x, y) <= 8,
        x == 0 || y == 0 || x == board.len() - 1 || y == board[0].len() - 1
            ==> live_neighbors(board, x, y) <= 5,
        (x == 0 || x == board.len() - 1) && (y == 0 || y == board[0].len() - 1)
            ==> live_neighbors(board, x, y) <= 3,
{
}

/// Counting and then applying the rule to the counts is one generation.
pub proof fn lemma_ruled_by_tally(board: Seq<Seq<bool>>)
    requires
        populated(board),
    ensures
        ruled(board, neighbor_tally(board)) == next_generation(board),
{
    assert forall|x: int, y: int| in_bounds(board, x, y) implies #[trigger] live_neighbors(
        board,
        x,
        y,
    ) <= 8 by {
        lemma_live_neighbors_bounded(board, x, y);
    }
    assert(ruled(board, neighbor_tally(board)) =~~= next_generation(board));
}

/// A generation keeps the shape of the board.
pub proof fn lemma_next_generation_shape(board: Seq<Seq<bool>>)
    requires
        populated(board),
    ensures
        populated(next_generation(board)),
        rectangular(next_generation(board), board.len(), board[0].len()),
{
}

/// A tally has the shape of its board, and none of its counts is above
/// eight.
pub proof fn lemma_tally_shape(board: Seq<Seq<bool>>)
    requires
        populated(board),
    ensures
        populated(neighbor_tally(board)),
        rectangular(neighbor_tally(board), board.len(), board[0].len()),
        at_most_eight(neighbor_tally(board)),
{
    let tally = neighbor_tally(board);
    assert forall|x: int, y: int| in_bounds(tally, x, y) implies #[trigger] tally[x][y] <= 8 by {
        lemma_live_neighbors_bounded(board, x, y);
    }
}

} // verus!
