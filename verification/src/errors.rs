//! Typed failures. Every failure is fatal to the whole phase: either a
//! precondition failed before anything was mutated, an external tool
//! exited non-zero at a named step, or an expected artifact was missing
//! after a step that itself reported success.

use vstd::prelude::*;

verus! {

/// The externally-run steps of the three phases, named so a failure can
/// be reported with the step it happened at.
#[derive(Clone, Copy, Debug, PartialEq, Eq, Structural)]
pub enum Step {
    /// Creating the mirror directory and initializing a repository in it.
    MirrorInit,
    /// Fetching the tracked upstream branch.
    Fetch,
    /// Hard-resetting the mirror to the pin.
    Reset,
    /// Applying the patch series.
    Apply,
    /// Regenerating the series from the patched tree.
    Extract,
    /// Running the upstream packaging script.
    Package,
    /// Mirroring the staged output into the vendored directory.
    Sync,
}

/// Why a phase failed.
#[derive(Clone, Copy, Debug, PartialEq, Eq, Structural)]
pub enum PhaseError {
    /// The upstream mirror does not exist; only `checkout` may create it.
    MissingMirror,
    /// The pin file could not be read.
    MissingPin,
    /// The patch series directory could not be read.
    MissingSeries,
    /// Packaging succeeded but no staged subdirectory carried the
    /// expected name prefix.
    MissingStagedDir,
    /// An external tool exited non-zero at the named step.
    StepFailed { step: Step, status: i32 },
}

/// Turn a finished step's exit status into the phase's verdict on it:
/// zero continues, anything else is fatal and names the step.
pub fn step_outcome(step: Step, status: i32) -> (r: Result<(), PhaseError>)
    ensures
        status == 0 ==> r == Ok::<(), PhaseError>(()),
        status != 0 ==> r == Err::<(), PhaseError>(PhaseError::StepFailed { step, status }),
{
    if status == 0 {
        Ok(())
    } else {
        Err(PhaseError::StepFailed { step, status })
    }
}

} // verus!
