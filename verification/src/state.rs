//! Lifecycle states of an execution unit.

use vstd::prelude::*;

verus! {

/// Where an execution unit stands in its lifecycle.
#[derive(Clone, Copy, Debug, PartialEq, Eq, Structural)]
pub enum State {
    /// The slot is free: its stack is unused or fully unwound.
    Available,
    /// The unit holds the execution stream.
    Running,
    /// The unit is primed or suspended and may be chosen to run.
    Ready,
}

} // verus!
