//! The simulation: a grid, its neighbour counts, the episode clock and the
//! update gate, owned together and driven one frame at a time.
//!
//! A frame runs three stages in order. The clock is given the time that has
//! passed, and a generation falls due if it fires. The neighbours are
//! counted if a generation is due. The rule is applied if a generation is
//! due, and with that the generation is no longer due. So the host may run a
//! frame as often as it draws one, and the board still moves by one
//! generation for each firing of the clock.

use crate::board::{
    at_most_eight, in_bounds, lemma_ruled_by_tally, lemma_tally_shape, neighbor_tally,
    next_generation, populated, rectangular, ruled,
};
use crate::clock::{advanced, fires, Clock, EpisodeTimer, UpdateGate};
use crate::error::SetupError;
use crate::grid::Grid;
use crate::neighbors::{count_neighbors, NeighborCounts};
use crate::rule::update_cells;
use vstd::prelude::*;

verus! {

/// What a simulation holds.
pub struct State {
    /// The alive flag of every cell.
    pub board: Seq<Seq<bool>>,
    /// The neighbour count last taken for every cell.
    pub counts: Seq<Seq<u8>>,
    /// The episode clock.
    pub clock: Clock,
    /// Whether a generation is due.
    pub gate: UpdateGate,
}

/// The board and the counts are rectangles of one size with at least one
/// cell, no count is above eight, and the clock is short of its period.
pub open spec fn coherent(state: State) -> bool {
    &&& populated(state.board)
    &&& populated(state.counts)
    &&& rectangular(state.counts, state.board.len(), state.board[0].len())
    &&& at_most_eight(state.counts)
    &&& state.clock.elapsed < state.clock.period
}

/// The first stage: the clock is given `delta`, and a generation falls due
/// if the clock fires.
pub open spec fn ticked(state: State, delta: nat) -> State {
    State {
        clock: advanced(state.clock, delta),
        gate: if fires(state.clock, delta) {
            UpdateGate::Pending
        } else {
            state.gate
        },
        ..state
    }
}

/// The second stage: if a generation is due, the neighbours are counted
/// anew.
pub open spec fn recounted(state: State) -> State {
    if state.gate == UpdateGate::Pending {
        State { counts: neighbor_tally(state.board), ..state }
    } else {
        state
    }
}

/// The third stage: if a generation is due, every cell meets the rule with
/// the count held for it, and the generation is no longer due.
pub open spec fn updated(state: State) -> State {
    if state.gate == UpdateGate::Pending {
        State { board: ruled(state.board, state.counts), gate: UpdateGate::Idle, ..state }
    } else {
        state
    }
}

/// One frame: the three stages in order.
pub open spec fn frame(state: State, delta: nat) -> State {
    updated(recounted(ticked(state, delta)))
}

/// A grid with everything needed to move it through its generations at the
/// pace of a clock.
#[derive(Debug)]
pub struct Simulation {
    grid: Grid,
    counts: NeighborCounts,
    timer: EpisodeTimer,
    gate: UpdateGate,
}

impl View for Simulation {
    type V = State;

    closed spec fn view(&self) -> State {
        State { board: self.grid@, counts: self.counts@, clock: self.timer@, gate: self.gate }
    }
}

impl Simulation {
    /// The parts of the simulation fit together.
    pub open spec fn wf(&self) -> bool {
        coherent(self@)
    }

    /// A simulation of `grid` whose clock fires every `period` nanoseconds.
    /// It starts with no generation due, no time gathered and every count
    /// at zero: the first generation comes when the first period has gone
    /// by. A period of zero is refused.
    pub fn new(grid: Grid, period: u64) -> (made: Result<Simulation, SetupError>)
        requires
            grid.wf(),
        ensures
            made is Ok <==> period > 0,
            made matches Ok(simulation) ==> {
                &&& simulation.wf()
                &&& simulation@.board == grid@
                &&& simulation@.clock == (Clock { period: period as nat, elapsed: 0 })
                &&& simulation@.gate == UpdateGate::Idle
                &&& forall|x: int, y: int|
                    in_bounds(simulation@.counts, x, y) ==> #[trigger] simulation@.counts[x][y]
                        == 0
            },
            made matches Err(error) ==> error == SetupError::InvalidConfiguration,
    {
        let timer = match EpisodeTimer::new(period) {
            Ok(timer) => timer,
            Err(error) => {
                return Err(error);
            },
        };
        let width: usize = grid.width();
        let height: usize = grid.height();
        let counts = match NeighborCounts::new(width, height) {
            Ok(counts) => counts,
            Err(error) => {
                return Err(error);
            },
        };
        Ok(Simulation { grid, counts, timer, gate: UpdateGate::Idle })
    }

    /// The grid, for reading.
    pub fn grid(&self) -> (grid: &Grid)
        requires
            self.wf(),
        ensures
            grid.wf(),
            grid@ == self@.board,
    {
        &self.grid
    }

    /// Whether a generation is due.
    pub fn gate(&self) -> (gate: UpdateGate)
        ensures
            gate == self@.gate,
    {
        self.gate
    }

    /// The first stage of a frame: gives the clock the `delta` nanoseconds
    /// that have passed; if the clock fires, a generation is due from now
    /// on.
    pub fn start_episode(&mut self, delta: u64)
        requires
            old(self).wf(),
        ensures
            final(self).wf(),
            final(self)@ == ticked(old(self)@, delta as nat),
    {
        if self.timer.tick(delta) {
            self.gate = UpdateGate::Pending;
        }
    }

    /// The second stage of a frame: if a generation is due, counts the
    /// neighbours of every cell anew; if none is, does nothing.
    pub fn count_neighbors(&mut self)
        requires
            old(self).wf(),
        ensures
            final(self).wf(),
            final(self)@ == recounted(old(self)@),
    {
        if self.gate == UpdateGate::Pending {
            count_neighbors(&self.grid, &mut self.counts);
        }
    }

    /// The third stage of a frame: if a generation is due, applies the rule
    /// to every cell with the count held for it, marks the generation as
    /// done and returns `true`; if none is due, does nothing and returns
    /// `false`.
    pub fn update_cells(&mut self) -> (applied: bool)
        requires
            old(self).wf(),
        ensures
            final(self).wf(),
            final(self)@ == updated(old(self)@),
            applied == (old(self)@.gate == UpdateGate::Pending),
    {
        if self.gate == UpdateGate::Idle {
            return false;
        }
        update_cells(&mut self.grid, &self.counts);
        self.gate = UpdateGate::Idle;
        true
    }

    /// One frame: the three stages in order. Returns whether the board moved
    /// on by a generation.
    pub fn advance(&mut self, delta: u64) -> (applied: bool)
        requires
            old(self).wf(),
        ensures
            final(self).wf(),
            final(self)@ == frame(old(self)@, delta as nat),
            applied == (old(self)@.gate == UpdateGate::Pending || fires(
                old(self)@.clock,
                delta as nat,
            )),
    {
        self.start_episode(delta);
        self.count_neighbors();
        self.update_cells()
    }
}

/// Counting again changes nothing: on a board that has not changed, a second
/// count leaves the very counts that the first one gave.
pub proof fn lemma_recount_idempotent(state: State)
    ensures
        recounted(recounted(state)) == recounted(state),
{
}

/// The rule has no memory and no chance in it: two simulations that agree on
/// the board, on the counts and on whether a generation is due have the same
/// board after the update stage, whatever their clocks say.
pub proof fn lemma_update_deterministic(first: State, second: State)
    requires
        first.board == second.board,
        first.counts == second.counts,
        first.gate == second.gate,
    ensures
        updated(first).board == updated(second).board,
        updated(first).gate == updated(second).gate,
{
}

/// One firing lets one update through: once the update stage has run,
/// running it again changes nothing, and while no generation is due it never
/// changes anything.
pub proof fn lemma_update_gated(state: State)
    ensures
        updated(state).gate == UpdateGate::Idle,
        updated(updated(state)) == updated(state),
        state.gate == UpdateGate::Idle ==> updated(state) == state,
{
}

/// What one frame does: the clock moves on by `delta`, no generation is due
/// at its end, and the board has moved by exactly one generation if one was
/// due or the clock fired, and not at all otherwise.
pub proof fn lemma_frame_generation(state: State, delta: nat)
    requires
        coherent(state),
    ensures
        coherent(frame(state, delta)),
        frame(state, delta).clock == advanced(state.clock, delta),
        frame(state, delta).gate == UpdateGate::Idle,
        frame(state, delta).board == if state.gate == UpdateGate::Pending || fires(
            state.clock,
            delta,
        ) {
            next_generation(state.board)
        } else {
            state.board
        },
{
    lemma_ruled_by_tally(state.board);
    lemma_tally_shape(state.board);
}

} // verus!
