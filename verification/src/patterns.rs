//! What the rule does to a few boards: the empty board, a lone cell, the
//! two-by-two block and the blinker.

use crate::board::{
    alive_at, all_dead, generations, in_bounds, live_neighbors, next_generation, populated,
    survives,
};
use vstd::prelude::*;

verus! {

/// The cell at `(x, y)` is the only living cell of `board`.
pub open spec fn lone_cell(board: Seq<Seq<bool>>, x: int, y: int) -> bool {
    &&& in_bounds(board, x, y)
    &&& forall|u: int, v: int|
        in_bounds(board, u, v) ==> (#[trigger] board[u][v] <==> u == x && v == y)
}

/// The living cells of `board` are the four cells of the two-by-two block
/// whose corner of least coordinates is `(x, y)`.
pub open spec fn block_at(board: Seq<Seq<bool>>, x: int, y: int) -> bool {
    &&& in_bounds(board, x, y)
    &&& in_bounds(board, x + 1, y + 1)
    &&& forall|u: int, v: int|
        in_bounds(board, u, v) ==> (#[trigger] board[u][v] <==> x <= u <= x + 1 && y <= v
            <= y + 1)
}

/// The living cells of `board` are the three cells of column `x` at and
/// next to `(x, y)`, and the board reaches one cell beyond them on either
/// side.
pub open spec fn upright_at(board: Seq<Seq<bool>>, x: int, y: int) -> bool {
    &&& in_bounds(board, x - 1, y - 1)
    &&& in_bounds(board, x + 1, y + 1)
    &&& forall|u: int, v: int|
        in_bounds(board, u, v) ==> (#[trigger] board[u][v] <==> u == x && y - 1 <= v <= y + 1)
}

/// The living cells of `board` are the three cells of row `y` at and next to
/// `(x, y)`, and the board reaches one cell beyond them above and below.
pub open spec fn level_at(board: Seq<Seq<bool>>, x: int, y: int) -> bool {
    &&& in_bounds(board, x - 1, y - 1)
    &&& in_bounds(board, x + 1, y + 1)
    &&& forall|u: int, v: int|
        in_bounds(board, u, v) ==> (#[trigger] board[u][v] <==> v == y && x - 1 <= u <= x + 1)
}

/// Nothing is born on an empty board: a board without a living cell is the
/// same after one generation.
pub proof fn lemma_dead_board_next(board: Seq<Seq<bool>>)
    requires
        populated(board),
        all_dead(board),
    ensures
        next_generation(board) == board,
{
    assert forall|x: int, y: int| in_bounds(board, x, y) implies next_generation(board)[x][y]
        == #[trigger] board[x][y] by {
        assert(live_neighbors(board, x, y) == 0);
    }
    assert(next_generation(board) =~~= board);
}

/// A board without a living cell stays as it is, however many generations
/// pass.
pub proof fn lemma_dead_board_stays_dead(board: Seq<Seq<bool>>, n: nat)
    requires
        populated(board),
        all_dead(board),
    ensures
        generations(board, n) == board,
        all_dead(generations(board, n)),
    decreases n,
{
    if n > 0 {
        lemma_dead_board_stays_dead(board, (n - 1) as nat);
        lemma_dead_board_next(board);
    }
}

/// A living cell without a living neighbour is dead after one generation.
pub proof fn lemma_isolated_cell_dies(board: Seq<Seq<bool>>, x: int, y: int)
    requires
        populated(board),
        in_bounds(board, x, y),
        board[x][y],
        live_neighbors(board, x, y) == 0,
    ensures
        !next_generation(board)[x][y],
{
}

/// A board whose only living cell stands alone is empty after one
/// generation.
pub proof fn lemma_lone_cell_dies(board: Seq<Seq<bool>>, x: int, y: int)
    requires
        populated(board),
        lone_cell(board, x, y),
    ensures
        live_neighbors(board, x, y) == 0,
        all_dead(next_generation(board)),
{
    let next = next_generation(board);
    assert forall|u: int, v: int| in_bounds(next, u, v) implies !(#[trigger] next[u][v]) by {
        assert(in_bounds(board, u, v));
        assert(live_neighbors(board, u, v) <= 1);
    }
}

/// Around a block, a cell of the block counts three living neighbours and
/// any other cell at most two.
proof fn lemma_block_census(board: Seq<Seq<bool>>, x: int, y: int, u: int, v: int)
    requires
        populated(board),
        block_at(board, x, y),
        in_bounds(board, u, v),
    ensures
        board[u][v] ==> live_neighbors(board, u, v) == 3,
        !board[u][v] ==> live_neighbors(board, u, v) <= 2,
{
    assert forall|a: int, c: int| #[trigger]
        alive_at(board, a, c) <==> (x <= a <= x + 1 && y <= c <= y + 1) by {
        if in_bounds(board, a, c) {
            assert(board[a][c] <==> x <= a <= x + 1 && y <= c <= y + 1);
        }
    }
}

/// The two-by-two block is a still life: each of its cells has exactly
/// three living neighbours, every other cell has at most two, and one
/// generation leaves the board as it was.
pub proof fn lemma_block_is_still_life(board: Seq<Seq<bool>>, x: int, y: int)
    requires
        populated(board),
        block_at(board, x, y),
    ensures
        forall|u: int, v: int|
            in_bounds(board, u, v) && board[u][v] ==> #[trigger] live_neighbors(board, u, v) == 3,
        forall|u: int, v: int|
            in_bounds(board, u, v) && !board[u][v] ==> #[trigger] live_neighbors(board, u, v)
                <= 2,
        next_generation(board) == board,
{
    assert forall|u: int, v: int| in_bounds(board, u, v) implies {
        &&& board[u][v] ==> #[trigger] live_neighbors(board, u, v) == 3
        &&& !board[u][v] ==> live_neighbors(board, u, v) <= 2
        &&& next_generation(board)[u][v] == board[u][v]
    } by {
        lemma_block_census(board, x, y, u, v);
    }
    assert(next_generation(board) =~~= board);
}

/// A still life stays as it is, however many generations pass.
pub proof fn lemma_still_life_forever(board: Seq<Seq<bool>>, n: nat)
    requires
        next_generation(board) == board,
    ensures
        generations(board, n) == board,
    decreases n,
{
    if n > 0 {
        lemma_still_life_forever(board, (n - 1) as nat);
    }
}

/// A blinker turns: three living cells in a column become three in a row
/// about the same middle cell.
pub proof fn lemma_upright_turns_level(board: Seq<Seq<bool>>, x: int, y: int)
    requires
        populated(board),
        upright_at(board, x, y),
    ensures
        level_at(next_generation(board), x, y),
{
    let next = next_generation(board);
    assert forall|a: int, c: int| #[trigger]
        alive_at(board, a, c) <==> (a == x && y - 1 <= c <= y + 1) by {
        if in_bounds(board, a, c) {
            assert(board[a][c] <==> a == x && y - 1 <= c <= y + 1);
        }
    }
    assert forall|u: int, v: int| in_bounds(next, u, v) implies (#[trigger] next[u][v] <==> v == y
        && x - 1 <= u <= x + 1) by {
        assert(next[u][v] == survives(board[u][v], live_neighbors(board, u, v)));
    }
}

/// A blinker turns back: three living cells in a row become three in a
/// column about the same middle cell.
pub proof fn lemma_level_turns_upright(board: Seq<Seq<bool>>, x: int, y: int)
    requires
        populated(board),
        level_at(board, x, y),
    ensures
        upright_at(next_generation(board), x, y),
{
    let next = next_generation(board);
    assert forall|a: int, c: int| #[trigger]
        alive_at(board, a, c) <==> (c == y && x - 1 <= a <= x + 1) by {
        if in_bounds(board, a, c) {
            assert(board[a][c] <==> c == y && x - 1 <= a <= x + 1);
        }
    }
    assert forall|u: int, v: int| in_bounds(next, u, v) implies (#[trigger] next[u][v] <==> u == x
        && y - 1 <= v <= y + 1) by {
        assert(next[u][v] == survives(board[u][v], live_neighbors(board, u, v)));
    }
}

/// A blinker has period two: after two generations the board is as it was.
pub proof fn lemma_blinker_returns(board: Seq<Seq<bool>>, x: int, y: int)
    requires
        populated(board),
        upright_at(board, x, y) || level_at(board, x, y),
    ensures
        generations(board, 2) == board,
{
    let once = next_generation(board);
    let twice = next_generation(once);
    if upright_at(board, x, y) {
        lemma_upright_turns_level(board, x, y);
        lemma_level_turns_upright(once, x, y);
    } else {
        lemma_level_turns_upright(board, x, y);
        lemma_upright_turns_level(once, x, y);
    }
    assert(generations(board, 2) == twice) by {
        assert(generations(board, 1) == next_generation(generations(board, 0)));
    }
    assert forall|u: int, v: int| in_bounds(board, u, v) implies twice[u][v]
        == #[trigger] board[u][v] by {
        assert(in_bounds(twice, u, v));
    }
    assert(twice =~~= board);
}

} // verus!
