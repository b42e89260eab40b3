//! What can be wrong with the configuration of a simulation.

use vstd::prelude::*;

verus! {

/// A configuration that the simulation refuses at construction.
#[derive(Clone, Copy, Debug, PartialEq, Eq, Structural)]
pub enum ConfigError {
    /// A probability above one, that is above a million parts per million.
    ProbabilityOutOfRange,
    /// An organism of the roster whose fields contradict each other.
    MalformedOrganism,
    /// Two prey of the roster with the same id.
    DuplicateId,
}

} // verus!
