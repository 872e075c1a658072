//! The one way in which setting up a simulation can fail.

use vstd::prelude::*;

verus! {

/// Why a constructor refused its arguments.
#[derive(Clone, Copy, Debug, PartialEq, Eq, Structural)]
pub enum SetupError {
    /// A grid without cells, a tick period of zero, or a spawn rate that is
    /// no probability.
    InvalidConfiguration,
}

} // verus!
