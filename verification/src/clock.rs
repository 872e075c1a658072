//! The episode clock: a repeating timer that says when a generation is due,
//! and the update gate that lets each firing through once.

use crate::error::SetupError;
use vstd::prelude::*;

verus! {

/// Whether a generation is due.
#[derive(Clone, Copy, Debug, PartialEq, Eq, Structural)]
pub enum UpdateGate {
    /// The generation of the current period has been applied.
    Idle,
    /// The timer has fired and its generation is still to be applied.
    Pending,
}

/// What a timer holds, in nanoseconds.
pub struct Clock {
    /// The length of one period.
    pub period: nat,
    /// The time gathered since the last firing.
    pub elapsed: nat,
}

/// A timer with `elapsed` gathered fires when `delta` more brings it to its
/// period.
pub open spec fn fires(clock: Clock, delta: nat) -> bool {
    clock.elapsed + delta >= clock.period
}

/// The timer after `delta` more: time adds up until the timer fires, and a
/// timer that fires starts over with nothing gathered.
pub open spec fn advanced(clock: Clock, delta: nat) -> Clock {
    Clock {
        period: clock.period,
        elapsed: if fires(clock, delta) {
            0
        } else {
            clock.elapsed + delta
        },
    }
}

/// The timer after it has been given each of `deltas` in turn.
pub open spec fn advanced_through(clock: Clock, deltas: Seq<nat>) -> Clock
    decreases deltas.len(),
{
    if deltas.len() == 0 {
        clock
    } else {
        advanced(advanced_through(clock, deltas.drop_last()), deltas.last())
    }
}

/// How often the timer fires while it is given each of `deltas` in turn.
pub open spec fn firings(clock: Clock, deltas: Seq<nat>) -> nat
    decreases deltas.len(),
{
    if deltas.len() == 0 {
        0
    } else if fires(advanced_through(clock, deltas.drop_last()), deltas.last()) {
        firings(clock, deltas.drop_last()) + 1
    } else {
        firings(clock, deltas.drop_last())
    }
}

/// A repeating timer. It gathers the time it is given, fires when that
/// reaches its period, and then starts over.
#[derive(Debug)]
pub struct EpisodeTimer {
    period: u64,
    elapsed: u64,
}

impl View for EpisodeTimer {
    type V = Clock;

    closed spec fn view(&self) -> Clock {
        Clock { period: self.period as nat, elapsed: self.elapsed as nat }
    }
}

impl EpisodeTimer {
    /// The period is positive and the time gathered is short of it.
    pub open spec fn wf(&self) -> bool {
        self@.elapsed < self@.period
    }

    /// A timer of the given period, in nanoseconds, with no time gathered.
    /// A period of zero is refused.
    pub fn new(period: u64) -> (made: Result<EpisodeTimer, SetupError>)
        ensures
            made is Ok <==> period > 0,
            made matches Ok(timer) ==> timer.wf() && timer@ == (Clock {
                period: period as nat,
                elapsed: 0,
            }),
            made matches Err(error) ==> error == SetupError::InvalidConfiguration,
    {
        if period == 0 {
            Err(SetupError::InvalidConfiguration)
        } else {
            Ok(EpisodeTimer { period, elapsed: 0 })
        }
    }

    /// The length of one period, in nanoseconds.
    pub fn period(&self) -> (period: u64)
        ensures
            period == self@.period,
    {
        self.period
    }

    /// The time gathered since the last firing, in nanoseconds.
    pub fn elapsed(&self) -> (elapsed: u64)
        ensures
            elapsed == self@.elapsed,
    {
        self.elapsed
    }

    /// Gives the timer `delta` nanoseconds more and says whether it fired.
    /// When it fires it is reset: it starts the next period with nothing
    /// gathered, however far `delta` reached past the end of this one.
    pub fn tick(&mut self, delta: u64) -> (fired: bool)
        requires
            old(self).wf(),
        ensures
            final(self).wf(),
            fired == fires(old(self)@, delta as nat),
            final(self)@ == advanced(old(self)@, delta as nat),
    {
        if delta >= self.period - self.elapsed {
            self.elapsed = 0;
            true
        } else {
            self.elapsed = self.elapsed + delta;
            false
        }
    }
}

} // verus!
