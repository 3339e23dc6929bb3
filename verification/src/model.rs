//! A model of the upstream mirror, and the laws of the patch-stack
//! lifecycle proved over it. The mirror itself lives on disk and is
//! driven through the external version-control tool; the model captures
//! what each planned action does to it: which commit the working tree is
//! based on, which diffs sit on top of that base in which order, and
//! whether leftover uncommitted state is present. The laws say that a
//! checkout plan rebuilds the same patched tree from pin and series
//! whatever state the mirror was in, and that extraction reads that tree
//! back without changing it.

use vstd::prelude::*;
use crate::pin::Pin;
use crate::plan::Action;
use crate::plan::checkout_apply_index;
use crate::plan::is_checkout_plan;
use crate::plan::is_format_patch_plan;
use crate::series::lemma_sorted_names_views;
use crate::series::lemma_sorted_views_unique;
use crate::series::lemma_views_of_is_deep_view;
use crate::series::sorted_names;
use crate::series::views_of;

verus! {

/// The mirror as the lifecycle sees it: whether it exists, the commit
/// its working tree was last reset to, the ordered diffs applied on top,
/// and whether uncommitted leftovers of an aborted run are present.
#[verifier::ext_equal]
pub ghost struct MirrorModel {
    /// The mirror directory exists and holds a repository.
    pub exists: bool,
    /// The commit the working tree is based on.
    pub base: Seq<u8>,
    /// The diffs applied on top of the base, in application order.
    pub applied: Seq<Seq<u8>>,
    /// Uncommitted leftover state from a prior aborted run.
    pub dirty: bool,
}

/// What one planned action does to the mirror. Fetching updates only the
/// mirror's stored history, never its working tree; resetting discards
/// everything above the pin; applying the series stacks its diffs on
/// top; extraction, packaging and syncing only read.
pub open spec fn apply_action(m: MirrorModel, a: Action) -> MirrorModel {
    match a {
        Action::InitMirror => MirrorModel { exists: true, ..m },
        Action::FetchUpstream => m,
        Action::ResetHard(p) => MirrorModel {
            exists: m.exists,
            base: p@,
            applied: Seq::empty(),
            dirty: false,
        },
        Action::ApplySeries(names) => MirrorModel { applied: m.applied + names.deep_view(), ..m },
        Action::RenameSeriesAside => m,
        Action::ExtractSeries(_) => m,
        Action::Package => m,
        Action::Sync(_) => m,
    }
}

/// The mirror after a plan's actions have run, in order.
pub open spec fn run_plan(m: MirrorModel, plan: Seq<Action>) -> MirrorModel
    decreases plan.len(),
{
    if plan.len() == 0 {
        m
    } else {
        run_plan(apply_action(m, plan[0]), plan.drop_first())
    }
}

/// The patched tree: the base the mirror sits on together with the
/// ordered diffs applied on top. Both extraction and vendoring operate
/// on exactly this.
pub open spec fn patched_tree(m: MirrorModel) -> (Seq<u8>, Seq<Seq<u8>>) {
    (m.base, m.applied)
}

/// What extraction regenerates from the mirror: one diff per commit
/// between the base and the tip, in order — the applied series. The
/// extracted files carry a zero commit-id placeholder, so the series
/// depends on the diffs alone, never on the commit identifiers a
/// particular run created.
pub open spec fn extracted_series(m: MirrorModel) -> Seq<Seq<u8>> {
    m.applied
}

/// Running the three core checkout actions — fetch, reset to the pin,
/// apply the series — leaves the mirror based on the pin with exactly
/// the series' diffs on top, clean of leftovers, from any prior state.
proof fn lemma_run_core(m: MirrorModel, plan: Seq<Action>, pin: Pin, s: Vec<Vec<u8>>)
    requires
        plan.len() == 3,
        plan[0] == Action::FetchUpstream,
        plan[1] == Action::ResetHard(pin),
        plan[2] == Action::ApplySeries(s),
    ensures
        run_plan(m, plan) == (MirrorModel {
            exists: m.exists,
            base: pin@,
            applied: s.deep_view(),
            dirty: false,
        }),
{
    let p1 = plan.drop_first();
    let p2 = p1.drop_first();
    let p3 = p2.drop_first();
    assert(p1[0] == plan[1] && p1[1] == plan[2]);
    assert(p2[0] == plan[2]);
    assert(p3.len() == 0);
    let m_reset = apply_action(m, plan[1]);
    let m_done = apply_action(m_reset, plan[2]);
    assert(run_plan(m, plan) == run_plan(m, p1));
    assert(run_plan(m, p1) == run_plan(m_reset, p2));
    assert(run_plan(m_reset, p2) == run_plan(m_done, p3));
    assert(run_plan(m_done, p3) == m_done);
    assert(m_done.applied =~= s.deep_view());
    assert(m_done =~= (MirrorModel {
        exists: m.exists,
        base: pin@,
        applied: s.deep_view(),
        dirty: false,
    }));
}

/// A checkout plan's effect on the mirror: whatever state it starts
/// from, afterwards the mirror exists (it is created when absent), is
/// based on the pin, carries exactly the sorted series on top, and holds
/// no leftover state of a prior run.
pub proof fn lemma_checkout_run(
    m0: MirrorModel,
    plan: Seq<Action>,
    mirror_present: bool,
    pin: Pin,
    names: Seq<Vec<u8>>,
)
    requires
        is_checkout_plan(plan, mirror_present, pin, names),
    ensures
        plan[checkout_apply_index(mirror_present)] matches Action::ApplySeries(s) ==> run_plan(
            m0,
            plan,
        ) == (MirrorModel {
            exists: m0.exists || !mirror_present,
            base: pin@,
            applied: s.deep_view(),
            dirty: false,
        }),
{
    if mirror_present {
        if let Action::ApplySeries(s) = plan[2] {
            lemma_run_core(m0, plan, pin, s);
        }
    } else {
        let m_init = apply_action(m0, plan[0]);
        let p1 = plan.drop_first();
        assert(run_plan(m0, plan) == run_plan(m_init, p1));
        assert(p1[0] == plan[1] && p1[1] == plan[2] && p1[2] == plan[3]);
        if let Action::ApplySeries(s) = plan[3] {
            lemma_run_core(m_init, p1, pin, s);
        }
    }
}

/// Round-trip law: when a checkout succeeds, a `format-patch` run
/// immediately afterwards regenerates exactly the ordered series the
/// checkout applied — the input series, sorted into application order —
/// independent of the state the mirror started in and of any commit
/// identifiers the run created.
pub proof fn lemma_round_trip(
    m0: MirrorModel,
    cplan: Seq<Action>,
    fplan: Seq<Action>,
    mirror_present: bool,
    series_dir_present: bool,
    pin: Pin,
    names: Seq<Vec<u8>>,
)
    requires
        is_checkout_plan(cplan, mirror_present, pin, names),
        is_format_patch_plan(fplan, series_dir_present, pin),
    ensures
        cplan[checkout_apply_index(mirror_present)] matches Action::ApplySeries(s) ==> {
            &&& extracted_series(run_plan(run_plan(m0, cplan), fplan)) == s.deep_view()
            &&& sorted_names(s@)
            &&& s@.to_multiset() == names.to_multiset()
        },
{
    lemma_checkout_run(m0, cplan, mirror_present, pin, names);
    lemma_extraction_deterministic(
        run_plan(m0, cplan),
        fplan,
        fplan,
        series_dir_present,
        pin,
    );
}

/// Idempotence law: running the same checkout plan twice leaves the
/// mirror exactly as running it once does, and the patched tree it
/// produces does not depend on the state the mirror started in.
pub proof fn lemma_checkout_idempotent(
    m0: MirrorModel,
    m1: MirrorModel,
    plan: Seq<Action>,
    mirror_present: bool,
    pin: Pin,
    names: Seq<Vec<u8>>,
)
    requires
        is_checkout_plan(plan, mirror_present, pin, names),
    ensures
        run_plan(run_plan(m0, plan), plan) == run_plan(m0, plan),
        patched_tree(run_plan(m0, plan)) == patched_tree(run_plan(m1, plan)),
{
    lemma_checkout_run(m0, plan, mirror_present, pin, names);
    lemma_checkout_run(run_plan(m0, plan), plan, mirror_present, pin, names);
    lemma_checkout_run(m1, plan, mirror_present, pin, names);
}

/// Determinism of the patched tree: any two checkout plans for the same
/// pin and the same series contents — run from any two mirror states,
/// and whether or not either run had to create the mirror first —
/// produce the same patched tree. With the round-trip law this makes
/// pin and series the only durable inputs the tree depends on.
pub proof fn lemma_checkout_tree_deterministic(
    m0: MirrorModel,
    m1: MirrorModel,
    p1: Seq<Action>,
    p2: Seq<Action>,
    mirror_present0: bool,
    mirror_present1: bool,
    pin: Pin,
    names: Seq<Vec<u8>>,
)
    requires
        is_checkout_plan(p1, mirror_present0, pin, names),
        is_checkout_plan(p2, mirror_present1, pin, names),
    ensures
        patched_tree(run_plan(m0, p1)) == patched_tree(run_plan(m1, p2)),
{
    lemma_checkout_run(m0, p1, mirror_present0, pin, names);
    lemma_checkout_run(m1, p2, mirror_present1, pin, names);
    if let Action::ApplySeries(s1) = p1[checkout_apply_index(mirror_present0)] {
        if let Action::ApplySeries(s2) = p2[checkout_apply_index(mirror_present1)] {
            lemma_sorted_names_views(s1@);
            lemma_sorted_names_views(s2@);
            lemma_sorted_views_unique(views_of(s1@), views_of(s2@));
            lemma_views_of_is_deep_view(s1);
            lemma_views_of_is_deep_view(s2);
            assert(s1.deep_view() == s2.deep_view());
        }
    }
}

/// Determinism law: the extraction plan is a function of the observed
/// host state and the pin alone — two plans for the same inputs are
/// equal — and its actions only read the mirror, so extraction run twice
/// against the same patched tree regenerates the same series both times.
pub proof fn lemma_extraction_deterministic(
    m: MirrorModel,
    p1: Seq<Action>,
    p2: Seq<Action>,
    series_dir_present: bool,
    pin: Pin,
)
    requires
        is_format_patch_plan(p1, series_dir_present, pin),
        is_format_patch_plan(p2, series_dir_present, pin),
    ensures
        p1 == p2,
        run_plan(m, p1) == m,
        extracted_series(run_plan(m, p1)) == extracted_series(m),
{
    assert(p1 =~= p2);
    if series_dir_present {
        let q1 = p1.drop_first();
        assert(q1[0] == p1[1]);
        assert(run_plan(m, p1) == run_plan(m, q1));
        assert(run_plan(m, q1) == run_plan(m, q1.drop_first()));
        assert(q1.drop_first().len() == 0);
    } else {
        assert(run_plan(m, p1) == run_plan(m, p1.drop_first()));
        assert(p1.drop_first().len() == 0);
    }
}

/// The vendored directory after a mirror-style sync: exactly those
/// staged files the filter rules keep. The copy is driven with excluded
/// destination files deleted and empty directories pruned, so the result
/// never depends on what the vendored directory held before.
pub open spec fn vendored_after_sync(
    staged: Set<Seq<u8>>,
    keep: spec_fn(Seq<u8>) -> bool,
) -> Set<Seq<u8>> {
    staged.filter(keep)
}

/// Filter law: a file absent from the staged tree — for one removed
/// upstream — is absent from the vendored directory after a sync,
/// whatever was vendored before; the sync mirrors, it never adds up.
pub proof fn lemma_sync_removes_absent_files(
    staged: Set<Seq<u8>>,
    keep: spec_fn(Seq<u8>) -> bool,
    f: Seq<u8>,
)
    requires
        !staged.contains(f),
    ensures
        !vendored_after_sync(staged, keep).contains(f),
{
}

} // verus!
