//! Pipeline topology and compile-failure policy.

use vstd::prelude::*;

verus! {

/// What a build worker does with a binding whose compile command failed.
#[derive(PartialEq, Eq, Structural, Copy, Clone, Debug)]
pub enum CompliationErrorHandlingMethod {
    /// The binding is dropped; its id still counts as processed.
    Ignore,
    /// The binding is appended to the worker's list of compile errors.
    Collect,
    /// The worker stops with a fault.
    Panic,
}

/// How the run phase is laid out relative to the build phase.
#[derive(PartialEq, Eq, Structural, Copy, Clone, Debug)]
pub enum RunMethod {
    /// Compile only; artifacts stay in the staging directory.
    No,
    /// Each build worker runs its own artifact in its own workspace.
    InPlace,
    /// Build and run proceed concurrently, with this many run workers.
    OutOfPlace(usize),
    /// Run workers (this many) start only after every build worker is done.
    Exclusive(usize),
}

impl RunMethod {
    /// Number of dedicated run workers of the topology.
    pub open spec fn spec_run_workers(self) -> usize {
        match self {
            RunMethod::OutOfPlace(n) => n,
            RunMethod::Exclusive(n) => n,
            _ => 0,
        }
    }

    /// Number of dedicated run workers of the topology: the count carried by
    /// `OutOfPlace` and `Exclusive`, and none otherwise.
    pub fn run_worker_count(self) -> (n: usize)
        ensures
            n == self.spec_run_workers(),
    {
        match self {
            RunMethod::OutOfPlace(n) => n,
            RunMethod::Exclusive(n) => n,
            _ => 0,
        }
    }
}

} // verus!
