//! The first generation: every cell alive with a given probability, each
//! decided by a draw of its own from a random number generator that the
//! caller has seeded.

use crate::board::{all_alive, all_dead, comes_before, rectangular};
use crate::error::SetupError;
use crate::grid::Grid;
use rand::rngs::StdRng;
use rand::Rng;
use vstd::prelude::*;

verus! {

/// The probability with which a cell starts alive, as the ratio of
/// `numerator` to `denominator`.
#[derive(Clone, Copy, Debug)]
pub struct SpawnRate {
    pub numerator: u32,
    pub denominator: u32,
}

impl SpawnRate {
    /// The ratio is a probability: it is defined and lies between 0 and 1.
    pub open spec fn valid(&self) -> bool {
        0 < self.denominator && self.numerator <= self.denominator
    }

    /// Whether the ratio is a probability.
    pub fn is_valid(&self) -> (valid: bool)
        ensures
            valid == self.valid(),
    {
        0 < self.denominator && self.numerator <= self.denominator
    }

    /// Whether a cell starts alive, given the number drawn for it from the
    /// numbers below the denominator: it does when the draw is below the
    /// numerator, which a fair draw is with the probability that the rate
    /// stands for.
    pub fn spawns(&self, draw: u32) -> (alive: bool)
        ensures
            alive == (draw < self.numerator),
    {
        draw < self.numerator
    }
}

/// `rand::rngs::StdRng`, the standard random number generator. Nothing is
/// known of what it holds.
#[verifier::external_type_specification]
#[verifier::external_body]
pub struct ExStdRng(StdRng);

/// `Rng::gen_range` on the half-open range from 0 to `bound`: some number of
/// the range, that is, one below `bound`. Which one is left open. On an empty
/// range the call panics, so `bound` must not be 0. The generator computes
/// its numbers from its own state alone and asks nothing of the system, so
/// no draw can fail.
#[verifier::external_body]
fn draw_below(rng: &mut StdRng, bound: u32) -> (draw: u32)
    requires
        bound > 0,
    ensures
        draw < bound,
{
    rng.gen_range(0..bound)
}

/// What is certain of a cell that has had its draw: it is dead if the rate
/// is 0 and alive if the rate is 1.
spec fn certain(rate: SpawnRate, alive: bool) -> bool {
    &&& rate.numerator == 0 ==> !alive
    &&& rate.numerator == rate.denominator ==> alive
}

/// A grid of `width` by `height` cells in which every cell is alive with
/// probability `rate`, each decided by its own draw from `rng`. A grid with
/// no cells and a rate that is no probability are refused.
///
/// Which cells live is a matter of the draws, with two exceptions: at rate
/// 0 none does, and at rate 1 all do.
pub fn initialize_cells(
    width: usize,
    height: usize,
    rate: SpawnRate,
    rng: &mut StdRng,
) -> (made: Result<Grid, SetupError>)
    ensures
        made is Ok <==> width > 0 && height > 0 && rate.valid(),
        made matches Ok(grid) ==> {
            &&& grid.wf()
            &&& rectangular(grid@, width as nat, height as nat)
            &&& rate.numerator == 0 ==> all_dead(grid@)
            &&& rate.numerator == rate.denominator ==> all_alive(grid@)
        },
        made matches Err(error) ==> error == SetupError::InvalidConfiguration,
{
    if !rate.is_valid() {
        return Err(SetupError::InvalidConfiguration);
    }
    let mut grid = match Grid::new(width, height) {
        Ok(grid) => grid,
        Err(error) => {
            return Err(error);
        },
    };
    let mut x: usize = 0;
    while x < width
        invariant
            x <= width,
            rate.valid(),
            grid.wf(),
            rectangular(grid@, width as nat, height as nat),
            forall|a: int, c: int|
                0 <= a < width && 0 <= c < height && comes_before(a, c, x as int, 0) ==> certain(
                    rate,
                    #[trigger] grid@[a][c],
                ),
        decreases width - x,
    {
        let mut y: usize = 0;
        while y < height
            invariant
                x < width,
                y <= height,
                rate.valid(),
                grid.wf(),
                rectangular(grid@, width as nat, height as nat),
                forall|a: int, c: int|
                    0 <= a < width && 0 <= c < height && comes_before(a, c, x as int, y as int)
                        ==> certain(rate, #[trigger] grid@[a][c]),
            decreases height - y,
        {
            let draw: u32 = draw_below(rng, rate.denominator);
            grid.set(x, y, rate.spawns(draw));
            y = y + 1;
        }
        x = x + 1;
    }
    Ok(grid)
}

} // verus!
