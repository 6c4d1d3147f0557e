//! The output materializer, as a decision function: given what a probe
//! of the output path found, decide whether to create the directory,
//! do nothing, or give up. Carrying out the decision is plain
//! filesystem work and stays outside the library; the decision itself
//! is idempotent.
use vstd::prelude::*;

verus! {

/// What a probe of the output path found.
#[derive(Clone, Copy, Debug, PartialEq, Eq, Structural)]
pub enum DirProbe {
    /// The path exists and is a directory.
    Directory,
    /// The path exists but is not a directory.
    NonDirectory,
    /// The path does not exist.
    Absent,
}

/// What to do to materialize the output directory.
#[derive(Clone, Copy, Debug, PartialEq, Eq, Structural)]
pub enum DirAction {
    /// Create the directory.
    Create,
    /// The directory is already there; tolerate it and do nothing.
    Nothing,
}

/// Why the output directory cannot be provided.
#[derive(Clone, Copy, Debug, PartialEq, Eq, Structural)]
pub enum OutputError {
    /// The destination cannot be created or accessed (a path collision
    /// with a non-directory, or any other filesystem refusal).
    OutputUnavailable,
}

/// The decision for each probe outcome: an existing directory is
/// tolerated, an absent path is created, anything else is fatal.
pub open spec fn plan_of(probe: DirProbe) -> Result<DirAction, OutputError> {
    match probe {
        DirProbe::Directory => Ok(DirAction::Nothing),
        DirProbe::Absent => Ok(DirAction::Create),
        DirProbe::NonDirectory => Err(OutputError::OutputUnavailable),
    }
}

/// Decide how to materialize the output directory from what a probe of
/// its path found.
pub fn ensure_dir_plan(probe: DirProbe) -> (r: Result<DirAction, OutputError>)
    ensures
        r == plan_of(probe),
{
    match probe {
        DirProbe::Directory => Ok(DirAction::Nothing),
        DirProbe::Absent => Ok(DirAction::Create),
        DirProbe::NonDirectory => Err(OutputError::OutputUnavailable),
    }
}

/// The state of the path after a decided action is carried out
/// successfully.
pub open spec fn state_after(probe: DirProbe, action: DirAction) -> DirProbe {
    match action {
        DirAction::Create => DirProbe::Directory,
        DirAction::Nothing => probe,
    }
}

/// Materialization is idempotent: once a plan has succeeded and its
/// action has been carried out, planning again finds the directory in
/// place and succeeds without doing anything.
pub proof fn lemma_ensure_dir_idempotent(probe: DirProbe)
    requires
        plan_of(probe) is Ok,
    ensures
        plan_of(state_after(probe, plan_of(probe).unwrap())) == Ok::<
            DirAction,
            OutputError,
        >(DirAction::Nothing),
{
}

} // verus!
