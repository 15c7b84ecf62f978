//! The job kinds of the engine's task graph.

use vstd::prelude::*;

verus! {

/// The subsystem a job belongs to.
#[derive(Clone, Copy, Debug, PartialEq, Eq, Structural)]
pub enum TaskType {
    Rendering,
    Physics,
    Animation,
    AgenticInference,
}

} // verus!
