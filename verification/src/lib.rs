//! An exploration engine for agent-based simulations.
//!
//! A caller describes a parameterized simulation by implementing the
//! [`explore::model::Model`] trait; the engine searches the parameter space
//! with a genetic algorithm under one of three interchangeable execution
//! strategies (sequential, shared-memory parallel, distributed) and collects
//! one generation record per evaluated individual into an ordered ledger.

pub mod agentimpl;
pub mod engine;
pub mod explore;
pub mod sampling;

use vstd::prelude::*;

verus! {

/// How much progress information a simulation driver reports.
#[derive(Copy, Clone, PartialEq, Eq, Hash, Structural)]
pub enum Info {
    Verbose,
    Normal,
}

/// How input parameter lists are combined into simulation configurations:
/// every combination (full cross-product), or pairwise by index.
#[derive(Copy, Clone, Debug, PartialEq, Eq, Hash, Structural)]
pub enum ExploreMode {
    Exaustive,
    Matched,
}

/// The concurrency topology used to evaluate one generation.
#[derive(Copy, Clone, Debug, PartialEq, Eq, Hash, Structural)]
pub enum ComputationMode {
    Sequential,
    Parallel,
    DistributedMPI,
}

} // verus!
