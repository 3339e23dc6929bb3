//! Phase planning. Each phase first checks its preconditions against an
//! observation of the host checkout, then yields the ordered actions the
//! operator's tooling must run; an external tool's exit status is judged
//! afterwards with [`crate::errors::step_outcome`]. Failing preconditions
//! yield a typed error before any action — and so before any mutation.

use vstd::prelude::*;
use crate::errors::PhaseError;
use crate::pin::Pin;
use crate::series::sort_names;
use crate::series::sorted_names;
use crate::series::views_of;
use crate::staging::find_prefixed;
use crate::staging::has_prefix;
use crate::staging::staged_prefix;
use crate::staging::staged_prefix_bytes;

verus! {

/// What the surrounding tooling observed of the host checkout before a
/// phase runs: whether the upstream mirror directory and the patch
/// series directory exist. An explicit value, so no phase infers state
/// from the filesystem on its own.
#[derive(Clone, Copy, Debug, PartialEq, Eq, Structural)]
pub struct HostState {
    /// The upstream mirror directory exists.
    pub mirror_present: bool,
    /// The patch series directory exists.
    pub series_dir_present: bool,
}

/// Whether the upstream mirror directory is there. Its absence is an
/// error for every phase but `checkout`, which creates it.
pub fn has_gecko_dev_dir(host: &HostState) -> (r: bool)
    ensures
        r == host.mirror_present,
{
    host.mirror_present
}

/// One external action of a phase, in the order the plan lists them.
/// The operator's tooling runs each and reports its exit status back.
#[derive(Debug, PartialEq, Eq)]
pub enum Action {
    /// Create the mirror directory and initialize an empty repository in it.
    InitMirror,
    /// Fetch the tracked upstream branch, full history, from the fixed
    /// upstream remote.
    FetchUpstream,
    /// Hard-reset the mirror's working tree and index to the pin,
    /// discarding any leftover state of a prior run.
    ResetHard(Pin),
    /// Apply the named patch files, in exactly this order, as one
    /// mail-style sequence with three-way merge and reject-file fallback.
    ApplySeries(Vec<Vec<u8>>),
    /// Rename the existing series directory aside (a fixed ".orig"
    /// suffix), so a failed extraction never destroys the old series.
    RenameSeriesAside,
    /// Regenerate the series from the pin (exclusive) to the tip, one
    /// file per commit: no diffstat, no numbering prefix, no signature,
    /// and a zero commit-id placeholder.
    ExtractSeries(Pin),
    /// Run the upstream packaging script into a fresh staging directory,
    /// with tar-archival disabled.
    Package,
    /// Mirror the staged output into the vendored directory.
    Sync(SyncCommand),
}

/// The one copy step of the vendor phase: a mirror-style sync, never an
/// additive copy.
#[derive(Debug, PartialEq, Eq)]
pub struct SyncCommand {
    /// Name of the staged subdirectory to copy from.
    pub source_subdir: Vec<u8>,
    /// Destination files excluded by the filter rules are deleted.
    pub delete_excluded: bool,
    /// Directories left empty after filtering are pruned.
    pub prune_empty_dirs: bool,
}

/// Shape of a checkout plan: initialize the mirror when it is absent,
/// then fetch, hard-reset to the pin, and apply the series sorted into
/// application order.
pub open spec fn is_checkout_plan(
    plan: Seq<Action>,
    mirror_present: bool,
    pin: Pin,
    names: Seq<Vec<u8>>,
) -> bool {
    let k: int = if mirror_present {
        0
    } else {
        1
    };
    &&& plan.len() == k + 3
    &&& (!mirror_present ==> plan[0] == Action::InitMirror)
    &&& plan[k] == Action::FetchUpstream
    &&& plan[k + 1] == Action::ResetHard(pin)
    &&& (plan[k + 2] matches Action::ApplySeries(s) && sorted_names(s@) && s@.to_multiset()
        == names.to_multiset() && views_of(s@).to_multiset() == views_of(names).to_multiset())
}

/// Index of the series-applying action inside a checkout plan: it comes
/// last, after the optional initialization, the fetch and the reset.
pub open spec fn checkout_apply_index(mirror_present: bool) -> int {
    if mirror_present {
        2
    } else {
        3
    }
}

/// Plan the `checkout` phase. `pin` and `series_names` are `None` when
/// the pin file or the series directory could not be read; either is a
/// precondition failure reported before any action.
pub fn checkout_plan(
    host: &HostState,
    pin: Option<Pin>,
    series_names: Option<Vec<Vec<u8>>>,
) -> (r: Result<Vec<Action>, PhaseError>)
    ensures
        pin is None ==> r == Err::<Vec<Action>, PhaseError>(PhaseError::MissingPin),
        pin is Some && series_names is None ==> r == Err::<Vec<Action>, PhaseError>(
            PhaseError::MissingSeries,
        ),
        pin matches Some(p) ==> (series_names matches Some(names) ==> (r matches Ok(plan)
            && is_checkout_plan(plan@, host.mirror_present, p, names@))),
{
    let p = match pin {
        Some(p) => p,
        None => {
            return Err(PhaseError::MissingPin);
        },
    };
    let names = match series_names {
        Some(n) => n,
        None => {
            return Err(PhaseError::MissingSeries);
        },
    };
    let sorted = sort_names(names);
    let mut plan: Vec<Action> = Vec::new();
    if !host.mirror_present {
        plan.push(Action::InitMirror);
    }
    plan.push(Action::FetchUpstream);
    plan.push(Action::ResetHard(p));
    plan.push(Action::ApplySeries(sorted));
    Ok(plan)
}

/// How applying the series went. Rejected hunks written as sibling
/// reject files do not abort the phase: they defer resolution to a human
/// reviewing the result. Only a non-zero exit of the applying tool does.
#[derive(Debug, PartialEq, Eq)]
pub enum ApplyOutcome {
    /// Every patch applied without a rejected hunk.
    Clean,
    /// The series applied, but these reject files were written.
    AppliedWithConflicts(Vec<Vec<u8>>),
    /// The applying tool exited non-zero; the phase is over.
    Failed(i32),
}

/// Judge the series application from the applying tool's exit status and
/// the reject files found beside the tree afterwards.
pub fn classify_apply(status: i32, reject_names: Vec<Vec<u8>>) -> (r: ApplyOutcome)
    ensures
        status != 0 ==> r == ApplyOutcome::Failed(status),
        status == 0 && reject_names@.len() == 0 ==> r == ApplyOutcome::Clean,
        status == 0 && reject_names@.len() > 0 ==> r == ApplyOutcome::AppliedWithConflicts(
            reject_names,
        ),
{
    if status != 0 {
        ApplyOutcome::Failed(status)
    } else if reject_names.len() == 0 {
        ApplyOutcome::Clean
    } else {
        ApplyOutcome::AppliedWithConflicts(reject_names)
    }
}

/// Shape of a `format-patch` plan: set the old series aside when one
/// exists, then extract the new series anchored at the pin.
pub open spec fn is_format_patch_plan(
    plan: Seq<Action>,
    series_dir_present: bool,
    pin: Pin,
) -> bool {
    if series_dir_present {
        plan.len() == 2 && plan[0] == Action::RenameSeriesAside && plan[1]
            == Action::ExtractSeries(pin)
    } else {
        plan.len() == 1 && plan[0] == Action::ExtractSeries(pin)
    }
}

/// Plan the `format-patch` phase. Without an upstream mirror it fails at
/// once, with no action planned — nothing is created, renamed or
/// modified. This phase never fetches or checks out on its own.
pub fn format_patch_plan(host: &HostState, pin: Option<Pin>) -> (r: Result<
    Vec<Action>,
    PhaseError,
>)
    ensures
        !host.mirror_present ==> r == Err::<Vec<Action>, PhaseError>(PhaseError::MissingMirror),
        host.mirror_present && pin is None ==> r == Err::<Vec<Action>, PhaseError>(
            PhaseError::MissingPin,
        ),
        host.mirror_present ==> (pin matches Some(p) ==> (r matches Ok(plan)
            && is_format_patch_plan(plan@, host.series_dir_present, p))),
{
    if !host.mirror_present {
        return Err(PhaseError::MissingMirror);
    }
    let p = match pin {
        Some(p) => p,
        None => {
            return Err(PhaseError::MissingPin);
        },
    };
    let mut plan: Vec<Action> = Vec::new();
    if host.series_dir_present {
        plan.push(Action::RenameSeriesAside);
    }
    plan.push(Action::ExtractSeries(p));
    Ok(plan)
}

/// Plan the packaging half of the `vendor` phase. Without an upstream
/// mirror it fails at once, with no action planned — in particular no
/// staging directory is created.
pub fn vendor_package_plan(host: &HostState) -> (r: Result<Vec<Action>, PhaseError>)
    ensures
        !host.mirror_present ==> r == Err::<Vec<Action>, PhaseError>(PhaseError::MissingMirror),
        host.mirror_present ==> (r matches Ok(plan) && plan@.len() == 1 && plan@[0]
            == Action::Package),
{
    if !host.mirror_present {
        return Err(PhaseError::MissingMirror);
    }
    let mut plan: Vec<Action> = Vec::new();
    plan.push(Action::Package);
    Ok(plan)
}

/// The first staging-directory entry that carries the expected prefix,
/// if any: packaging is expected to stage exactly one such subdirectory.
pub open spec fn first_staged(staged: Seq<Vec<u8>>) -> Option<Vec<u8>>
    decreases staged.len(),
{
    if staged.len() == 0 {
        None
    } else if has_prefix(staged[0]@, staged_prefix()) {
        Some(staged[0])
    } else {
        first_staged(staged.drop_first())
    }
}

/// [`first_staged`] picks index `i` when `i` is the first match.
proof fn lemma_first_staged_at(staged: Seq<Vec<u8>>, i: int)
    requires
        0 <= i < staged.len(),
        has_prefix(staged[i]@, staged_prefix()),
        forall|j: int| 0 <= j < i ==> !has_prefix(staged[j]@, staged_prefix()),
    ensures
        first_staged(staged) == Some(staged[i]),
    decreases staged.len(),
{
    if i > 0 {
        lemma_first_staged_at(staged.drop_first(), i - 1);
    }
}

/// [`first_staged`] finds nothing when no entry matches.
proof fn lemma_first_staged_none(staged: Seq<Vec<u8>>)
    requires
        forall|j: int| 0 <= j < staged.len() ==> !has_prefix(staged[j]@, staged_prefix()),
    ensures
        first_staged(staged) is None,
    decreases staged.len(),
{
    if staged.len() > 0 {
        lemma_first_staged_none(staged.drop_first());
    }
}

/// Plan the copy half of the `vendor` phase from the staging directory's
/// listing. The sync always mirrors: excluded destination files are
/// deleted and directories left empty by the filter are pruned. Exactly
/// when no staged entry carries the expected prefix, the phase fails —
/// packaging is assumed deterministic, so this is a structural failure.
pub fn vendor_sync_plan(staged_names: Vec<Vec<u8>>) -> (r: Result<Vec<Action>, PhaseError>)
    ensures
        first_staged(staged_names@) is None ==> r == Err::<Vec<Action>, PhaseError>(
            PhaseError::MissingStagedDir,
        ),
        first_staged(staged_names@) matches Some(name) ==> (r matches Ok(plan) && plan@.len() == 1
            && plan@[0] == Action::Sync(
            (SyncCommand {
                source_subdir: name,
                delete_excluded: true,
                prune_empty_dirs: true,
            }),
        )),
{
    let prefix = staged_prefix_bytes();
    let mut staged_names = staged_names;
    match find_prefixed(&staged_names, &prefix) {
        None => {
            proof {
                lemma_first_staged_none(staged_names@);
            }
            Err(PhaseError::MissingStagedDir)
        },
        Some(i) => {
            proof {
                lemma_first_staged_at(staged_names@, i as int);
            }
            let name = staged_names.remove(i);
            let mut plan: Vec<Action> = Vec::new();
            plan.push(
                Action::Sync(
                    SyncCommand {
                        source_subdir: name,
                        delete_excluded: true,
                        prune_empty_dirs: true,
                    },
                ),
            );
            Ok(plan)
        },
    }
}

} // verus!
