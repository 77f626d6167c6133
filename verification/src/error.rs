//! Conditions that the scheduler reports to its caller.

use vstd::prelude::*;

verus! {

/// Why a spawn did not take place.
#[derive(Clone, Copy, Debug, PartialEq, Eq, Structural)]
pub enum SpawnError {
    /// Every slot of the pool is in use.
    PoolExhausted,
}

} // verus!
