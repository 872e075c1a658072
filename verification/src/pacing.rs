//! How many generations a run of frames brings: one for each firing of the
//! clock, however the frames fall.

use crate::board::{generations, next_generation};
use crate::clock::{advanced_through, firings, UpdateGate};
use crate::simulation::{coherent, frame, lemma_frame_generation, State};
use vstd::prelude::*;

verus! {

/// The state after one frame for each of `deltas`, in order.
pub open spec fn frames(state: State, deltas: Seq<nat>) -> State
    decreases deltas.len(),
{
    if deltas.len() == 0 {
        state
    } else {
        frame(frames(state, deltas.drop_last()), deltas.last())
    }
}

/// The time that `deltas` add up to.
pub open spec fn total(deltas: Seq<nat>) -> nat
    decreases deltas.len(),
{
    if deltas.len() == 0 {
        0
    } else {
        total(deltas.drop_last()) + deltas.last()
    }
}

/// A run of frames keeps the parts of a simulation fitting together, and
/// leaves the period of its clock alone.
pub proof fn lemma_frames_coherent(state: State, deltas: Seq<nat>)
    requires
        coherent(state),
    ensures
        coherent(frames(state, deltas)),
        frames(state, deltas).clock.period == state.clock.period,
    decreases deltas.len(),
{
    if deltas.len() > 0 {
        lemma_frames_coherent(state, deltas.drop_last());
        lemma_frame_generation(frames(state, deltas.drop_last()), deltas.last());
    }
}

/// Running two runs of frames one after the other is running them as one.
pub proof fn lemma_frames_concat(state: State, first: Seq<nat>, second: Seq<nat>)
    ensures
        frames(state, first + second) == frames(frames(state, first), second),
    decreases second.len(),
{
    if second.len() == 0 {
        assert(first + second =~= first);
    } else {
        assert((first + second).drop_last() =~= first + second.drop_last());
        lemma_frames_concat(state, first, second.drop_last());
    }
}

/// The rule is applied exactly once for each firing of the clock: after a
/// run of frames that starts with no generation due, the board is as many
/// generations on as the clock has fired, no generation is due, and the
/// clock is where the frames alone have brought it.
pub proof fn lemma_frames_count_firings(state: State, deltas: Seq<nat>)
    requires
        coherent(state),
        state.gate == UpdateGate::Idle,
    ensures
        frames(state, deltas).board == generations(state.board, firings(state.clock, deltas)),
        frames(state, deltas).clock == advanced_through(state.clock, deltas),
        frames(state, deltas).gate == UpdateGate::Idle,
    decreases deltas.len(),
{
    if deltas.len() > 0 {
        let earlier = deltas.drop_last();
        lemma_frames_count_firings(state, earlier);
        lemma_frames_coherent(state, earlier);
        lemma_frame_generation(frames(state, earlier), deltas.last());
    }
}

/// While a run of frames stays within the running period, the clock just
/// adds up.
proof fn lemma_clock_within_period(state: State, deltas: Seq<nat>)
    requires
        coherent(state),
        state.clock.elapsed + total(deltas) < state.clock.period,
    ensures
        frames(state, deltas).clock.elapsed == state.clock.elapsed + total(deltas),
    decreases deltas.len(),
{
    if deltas.len() > 0 {
        lemma_clock_within_period(state, deltas.drop_last());
        lemma_frames_coherent(state, deltas.drop_last());
        lemma_frame_generation(frames(state, deltas.drop_last()), deltas.last());
    }
}

/// Frames that together stay within the running period bring no generation:
/// with no firing outstanding and the clock short of its period by more than
/// the frames add up to, the board is left as it was.
pub proof fn lemma_frames_within_period(state: State, deltas: Seq<nat>)
    requires
        coherent(state),
        state.gate == UpdateGate::Idle,
        state.clock.elapsed + total(deltas) < state.clock.period,
    ensures
        frames(state, deltas).board == state.board,
        frames(state, deltas).gate == UpdateGate::Idle,
        frames(state, deltas).clock.elapsed == state.clock.elapsed + total(deltas),
    decreases deltas.len(),
{
    lemma_clock_within_period(state, deltas);
    if deltas.len() > 0 {
        let earlier = deltas.drop_last();
        lemma_frames_within_period(state, earlier);
        lemma_clock_within_period(state, earlier);
        lemma_frames_coherent(state, earlier);
        lemma_frame_generation(frames(state, earlier), deltas.last());
    }
}

/// However many frames are run while one firing is outstanding, the rule is
/// applied once: one frame or more that together stay within the running
/// period move the board by exactly one generation.
pub proof fn lemma_pending_applies_once(state: State, deltas: Seq<nat>)
    requires
        coherent(state),
        state.gate == UpdateGate::Pending,
        deltas.len() >= 1,
        state.clock.elapsed + total(deltas) < state.clock.period,
    ensures
        frames(state, deltas).board == next_generation(state.board),
        frames(state, deltas).gate == UpdateGate::Idle,
    decreases deltas.len(),
{
    let earlier = deltas.drop_last();
    lemma_frames_coherent(state, earlier);
    lemma_frame_generation(frames(state, earlier), deltas.last());
    if earlier.len() >= 1 {
        lemma_pending_applies_once(state, earlier);
        lemma_clock_within_period(state, earlier);
    }
}

/// The frames that lead up to a firing bring one generation: when the last
/// of a run of frames is the first to take the clock to its period, the
/// board has moved by exactly one generation and the clock starts over.
pub proof fn lemma_frames_up_to_firing(state: State, deltas: Seq<nat>)
    requires
        coherent(state),
        state.gate == UpdateGate::Idle,
        deltas.len() >= 1,
        state.clock.elapsed + total(deltas.drop_last()) < state.clock.period,
        state.clock.elapsed + total(deltas) >= state.clock.period,
    ensures
        frames(state, deltas).board == next_generation(state.board),
        frames(state, deltas).gate == UpdateGate::Idle,
        frames(state, deltas).clock.elapsed == 0,
{
    let earlier = deltas.drop_last();
    lemma_frames_within_period(state, earlier);
    lemma_frames_coherent(state, earlier);
    lemma_frame_generation(frames(state, earlier), deltas.last());
}

/// Many frames within one period bring one generation: frames that lead up
/// to a firing, followed by as many frames as one likes that together stay
/// short of the next period, move the board by exactly one generation.
pub proof fn lemma_frames_across_one_period(state: State, before: Seq<nat>, after: Seq<nat>)
    requires
        coherent(state),
        state.gate == UpdateGate::Idle,
        before.len() >= 1,
        state.clock.elapsed + total(before.drop_last()) < state.clock.period,
        state.clock.elapsed + total(before) >= state.clock.period,
        total(after) < state.clock.period,
    ensures
        frames(state, before + after).board == next_generation(state.board),
        frames(state, before + after).gate == UpdateGate::Idle,
        frames(state, before + after).clock.elapsed == total(after),
{
    lemma_frames_concat(state, before, after);
    lemma_frames_up_to_firing(state, before);
    lemma_frames_coherent(state, before);
    lemma_frames_within_period(frames(state, before), after);
}

/// One frame for each period brings one generation for each frame: after
/// `count` frames, each of them one period long, the board is `count`
/// generations on, and the clock has started over if there was a frame at
/// all.
pub proof fn lemma_once_per_period(state: State, count: nat)
    requires
        coherent(state),
        state.gate == UpdateGate::Idle,
    ensures
        frames(state, Seq::new(count, |i: int| state.clock.period)).board == generations(
            state.board,
            count,
        ),
        frames(state, Seq::new(count, |i: int| state.clock.period)).gate == UpdateGate::Idle,
        frames(state, Seq::new(count, |i: int| state.clock.period)).clock.elapsed == if count
            == 0 {
            state.clock.elapsed
        } else {
            0
        },
    decreases count,
{
    let period = state.clock.period;
    let deltas = Seq::new(count, |i: int| period);
    if count > 0 {
        let earlier = Seq::new((count - 1) as nat, |i: int| period);
        assert(deltas.drop_last() =~= earlier);
        lemma_once_per_period(state, (count - 1) as nat);
        lemma_frames_coherent(state, earlier);
        lemma_frame_generation(frames(state, earlier), period);
    }
}

} // verus!
