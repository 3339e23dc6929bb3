use mozjs_vendor::errors::step_outcome;
use mozjs_vendor::errors::PhaseError;
use mozjs_vendor::errors::Step;
use mozjs_vendor::pin::Pin;
use mozjs_vendor::plan::checkout_plan;
use mozjs_vendor::plan::classify_apply;
use mozjs_vendor::plan::format_patch_plan;
use mozjs_vendor::plan::has_gecko_dev_dir;
use mozjs_vendor::plan::vendor_package_plan;
use mozjs_vendor::plan::vendor_sync_plan;
use mozjs_vendor::plan::Action;
use mozjs_vendor::plan::ApplyOutcome;
use mozjs_vendor::plan::HostState;
use mozjs_vendor::plan::SyncCommand;
use mozjs_vendor::series::lex_le_bytes;
use mozjs_vendor::series::sort_names;
use mozjs_vendor::staging::find_prefixed;
use mozjs_vendor::staging::staged_prefix_bytes;
use mozjs_vendor::staging::starts_with_bytes;

fn host(mirror: bool, series: bool) -> HostState {
    HostState { mirror_present: mirror, series_dir_present: series }
}

#[test]
fn pin_trims_trailing_whitespace() {
    let p = Pin::from_raw(b"abc123\n".to_vec());
    assert_eq!(p.bytes().as_slice(), b"abc123");
    let p = Pin::from_raw(b"abc123 \t\r\n".to_vec());
    assert_eq!(p.bytes().as_slice(), b"abc123");
    let p = Pin::from_raw(b"abc123".to_vec());
    assert_eq!(p.bytes().as_slice(), b"abc123");
}

#[test]
fn pin_keeps_inner_whitespace() {
    let p = Pin::from_raw(b"ab c\n".to_vec());
    assert_eq!(p.bytes().as_slice(), b"ab c");
    assert!(!p.is_empty());
}

#[test]
fn pin_of_blank_file_is_empty() {
    let p = Pin::from_raw(b" \t\r\n".to_vec());
    assert_eq!(p.bytes().as_slice(), b"");
    assert!(p.is_empty());
    let p = Pin::from_raw(Vec::new());
    assert!(p.is_empty());
}

#[test]
fn lex_le_orders_names() {
    assert!(lex_le_bytes(&b"0001-a.patch".to_vec(), &b"0002-b.patch".to_vec()));
    assert!(!lex_le_bytes(&b"0002-b.patch".to_vec(), &b"0001-a.patch".to_vec()));
    assert!(lex_le_bytes(&b"0001".to_vec(), &b"0001".to_vec()));
    assert!(lex_le_bytes(&b"a".to_vec(), &b"ab".to_vec()));
    assert!(!lex_le_bytes(&b"ab".to_vec(), &b"a".to_vec()));
    assert!(lex_le_bytes(&b"".to_vec(), &b"".to_vec()));
    assert!(lex_le_bytes(&b"0002".to_vec(), &b"0010".to_vec()));
}

#[test]
fn sort_names_gives_application_order() {
    let names = vec![
        b"0002-second.patch".to_vec(),
        b"0010-tenth.patch".to_vec(),
        b"0001-first.patch".to_vec(),
    ];
    let sorted = sort_names(names);
    assert_eq!(
        sorted,
        vec![
            b"0001-first.patch".to_vec(),
            b"0002-second.patch".to_vec(),
            b"0010-tenth.patch".to_vec(),
        ]
    );
}

#[test]
fn sort_names_keeps_duplicates_and_empties() {
    let sorted = sort_names(vec![b"b".to_vec(), b"a".to_vec(), b"a".to_vec(), b"".to_vec()]);
    assert_eq!(sorted, vec![b"".to_vec(), b"a".to_vec(), b"a".to_vec(), b"b".to_vec()]);
    let sorted = sort_names(Vec::new());
    assert!(sorted.is_empty());
}

#[test]
fn staged_prefix_is_recognized() {
    let prefix = staged_prefix_bytes();
    assert_eq!(prefix.as_slice(), b"mozjs-");
    assert!(starts_with_bytes(&b"mozjs-91.2.0".to_vec(), &prefix));
    assert!(!starts_with_bytes(&b"mozjs".to_vec(), &prefix));
    assert!(!starts_with_bytes(&b"other-91".to_vec(), &prefix));
}

#[test]
fn find_prefixed_picks_first_match() {
    let prefix = staged_prefix_bytes();
    let names = vec![b"notes.txt".to_vec(), b"mozjs-91.2.0".to_vec(), b"mozjs-92.0.0".to_vec()];
    assert_eq!(find_prefixed(&names, &prefix), Some(1));
    let names = vec![b"notes.txt".to_vec(), b"build.log".to_vec()];
    assert_eq!(find_prefixed(&names, &prefix), None);
    assert_eq!(find_prefixed(&Vec::new(), &prefix), None);
}

#[test]
fn checkout_plan_sample_scenario() {
    // Pin "abc123", series of one patch: initialize the absent mirror,
    // fetch, reset to the pin, apply the single patch.
    let pin = Pin::from_raw(b"abc123\n".to_vec());
    let names = Some(vec![b"0001-fix.patch".to_vec()]);
    let plan = checkout_plan(&host(false, true), Some(pin), names).unwrap();
    assert_eq!(plan.len(), 4);
    assert_eq!(plan[0], Action::InitMirror);
    assert_eq!(plan[1], Action::FetchUpstream);
    assert_eq!(plan[2], Action::ResetHard(Pin::from_raw(b"abc123".to_vec())));
    assert_eq!(plan[3], Action::ApplySeries(vec![b"0001-fix.patch".to_vec()]));
}

#[test]
fn checkout_plan_reuses_existing_mirror() {
    let pin = Pin::from_raw(b"abc123\n".to_vec());
    let names = Some(vec![b"0002-b.patch".to_vec(), b"0001-a.patch".to_vec()]);
    let plan = checkout_plan(&host(true, true), Some(pin), names).unwrap();
    assert_eq!(plan.len(), 3);
    assert_eq!(plan[0], Action::FetchUpstream);
    assert_eq!(plan[1], Action::ResetHard(Pin::from_raw(b"abc123".to_vec())));
    // The series is applied in sorted filename order.
    assert_eq!(
        plan[2],
        Action::ApplySeries(vec![b"0001-a.patch".to_vec(), b"0002-b.patch".to_vec()])
    );
}

#[test]
fn checkout_plan_twice_is_identical() {
    // The plan depends only on its inputs: repeating a checkout with an
    // unchanged pin and series plans exactly the same actions.
    let mk = || {
        checkout_plan(
            &host(true, true),
            Some(Pin::from_raw(b"abc123\n".to_vec())),
            Some(vec![b"0001-fix.patch".to_vec()]),
        )
        .unwrap()
    };
    assert_eq!(mk(), mk());
}

#[test]
fn checkout_plan_missing_inputs() {
    let r = checkout_plan(&host(true, true), None, Some(Vec::new()));
    assert_eq!(r, Err(PhaseError::MissingPin));
    let pin = Pin::from_raw(b"abc123".to_vec());
    let r = checkout_plan(&host(true, true), Some(pin), None);
    assert_eq!(r, Err(PhaseError::MissingSeries));
}

#[test]
fn checkout_plan_empty_series() {
    let pin = Pin::from_raw(b"abc123".to_vec());
    let plan = checkout_plan(&host(true, false), Some(pin), Some(Vec::new())).unwrap();
    assert_eq!(plan[2], Action::ApplySeries(Vec::new()));
}

#[test]
fn format_patch_plan_renames_old_series_aside() {
    let pin = Pin::from_raw(b"abc123\n".to_vec());
    let plan = format_patch_plan(&host(true, true), Some(pin)).unwrap();
    assert_eq!(plan.len(), 2);
    assert_eq!(plan[0], Action::RenameSeriesAside);
    assert_eq!(plan[1], Action::ExtractSeries(Pin::from_raw(b"abc123".to_vec())));
}

#[test]
fn format_patch_plan_without_old_series() {
    let pin = Pin::from_raw(b"abc123".to_vec());
    let plan = format_patch_plan(&host(true, false), Some(pin)).unwrap();
    assert_eq!(plan, vec![Action::ExtractSeries(Pin::from_raw(b"abc123".to_vec()))]);
}

#[test]
fn format_patch_plan_twice_is_identical() {
    // Extraction is deterministic: the same host state and pin plan the
    // same extraction, anchored at the pin with a zero commit id.
    let mk = || format_patch_plan(&host(true, true), Some(Pin::from_raw(b"abc123".to_vec())));
    assert_eq!(mk(), mk());
}

#[test]
fn format_patch_fails_fast_without_mirror() {
    // No mirror: the phase fails before anything is planned — nothing is
    // created and no series directory is renamed.
    let pin = Pin::from_raw(b"abc123".to_vec());
    let r = format_patch_plan(&host(false, true), Some(pin));
    assert_eq!(r, Err(PhaseError::MissingMirror));
}

#[test]
fn format_patch_missing_pin() {
    let r = format_patch_plan(&host(true, true), None);
    assert_eq!(r, Err(PhaseError::MissingPin));
}

#[test]
fn vendor_fails_fast_without_mirror() {
    // No mirror: no packaging is planned, so no staging directory is
    // ever created.
    let r = vendor_package_plan(&host(false, false));
    assert_eq!(r, Err(PhaseError::MissingMirror));
}

#[test]
fn vendor_packages_with_mirror() {
    let plan = vendor_package_plan(&host(true, true)).unwrap();
    assert_eq!(plan, vec![Action::Package]);
}

#[test]
fn vendor_sync_mirrors_the_staged_subdir() {
    let names = vec![b"README".to_vec(), b"mozjs-91.2.0".to_vec()];
    let plan = vendor_sync_plan(names).unwrap();
    assert_eq!(plan.len(), 1);
    assert_eq!(
        plan[0],
        Action::Sync(SyncCommand {
            source_subdir: b"mozjs-91.2.0".to_vec(),
            delete_excluded: true,
            prune_empty_dirs: true,
        })
    );
}

#[test]
fn vendor_sync_without_staged_subdir_fails() {
    let r = vendor_sync_plan(vec![b"README".to_vec()]);
    assert_eq!(r, Err(PhaseError::MissingStagedDir));
    let r = vendor_sync_plan(Vec::new());
    assert_eq!(r, Err(PhaseError::MissingStagedDir));
}

#[test]
fn step_outcome_judges_exit_status() {
    assert_eq!(step_outcome(Step::Fetch, 0), Ok(()));
    assert_eq!(
        step_outcome(Step::Fetch, 128),
        Err(PhaseError::StepFailed { step: Step::Fetch, status: 128 })
    );
    assert_eq!(
        step_outcome(Step::Reset, 1),
        Err(PhaseError::StepFailed { step: Step::Reset, status: 1 })
    );
}

#[test]
fn classify_apply_tri_state() {
    assert_eq!(classify_apply(0, Vec::new()), ApplyOutcome::Clean);
    assert_eq!(
        classify_apply(0, vec![b"js/src/jit.cpp.rej".to_vec()]),
        ApplyOutcome::AppliedWithConflicts(vec![b"js/src/jit.cpp.rej".to_vec()])
    );
    assert_eq!(classify_apply(2, vec![b"a.rej".to_vec()]), ApplyOutcome::Failed(2));
}

#[test]
fn mirror_presence_is_read_from_the_host_state() {
    assert!(has_gecko_dev_dir(&host(true, false)));
    assert!(!has_gecko_dev_dir(&host(false, true)));
}
