use cargo_xwin::cache::{
    choose_sysroot_url, find_sysroot_asset, latest_release_url, plan_sysroot, AttemptOutcome,
    CacheStep, DownloadState, DownloadStep, EnsureSession, Retry, RetryPolicy, SysrootDownload,
    SysrootPlan,
};

fn arches(xs: &[&str]) -> Vec<String> {
    xs.iter().map(|s| s.to_string()).collect()
}

fn policy() -> RetryPolicy {
    RetryPolicy { max_attempts: 3, base_delay_secs: 1 }
}

/// Runs a session against scripted outcomes; returns the fetches made (with
/// their delays) and the marker committed, if any.
fn run(marker: &str, requested: &[&str], outcomes: &[AttemptOutcome]) -> (Vec<(Vec<String>, u64)>, Option<String>, bool) {
    let (mut session, mut step) = EnsureSession::start(marker, &arches(requested), policy());
    let mut fetches = Vec::new();
    let mut outcomes = outcomes.iter();
    loop {
        match step {
            CacheStep::UpToDate => return (fetches, None, true),
            CacheStep::Failed => return (fetches, None, false),
            CacheStep::Commit { marker } => return (fetches, Some(marker), true),
            CacheStep::Fetch { arches, delay_secs, .. } => {
                fetches.push((arches, delay_secs));
                step = session.on_outcome(*outcomes.next().unwrap());
            }
        }
    }
}

#[test]
fn first_ensure_fetches_once_and_marks_done() {
    let (fetches, marker, ok) = run("", &["x86_64"], &[AttemptOutcome::Unpacked]);
    assert!(ok);
    assert_eq!(fetches, vec![(arches(&["x86_64"]), 0)]);
    assert_eq!(marker.as_deref(), Some("x86_64"));
    let (fetches, marker, ok) = run("x86_64", &["x86_64"], &[]);
    assert!(ok);
    assert!(fetches.is_empty());
    assert_eq!(marker, None);
}

#[test]
fn ensure_of_a_subset_is_up_to_date() {
    let (fetches, _, ok) = run("x86_64 aarch64\n", &["aarch64"], &[]);
    assert!(ok);
    assert!(fetches.is_empty());
}

#[test]
fn superset_grows_the_marker_to_the_union() {
    let (_, marker, _) = run("", &["x86_64"], &[AttemptOutcome::Unpacked]);
    let marker = marker.unwrap();
    let (fetches, marker, ok) = run(&marker, &["x86_64", "aarch64"], &[AttemptOutcome::Unpacked]);
    assert!(ok);
    assert_eq!(fetches, vec![(arches(&["aarch64"]), 0)]);
    assert_eq!(marker.as_deref(), Some("x86_64 aarch64"));
}

#[test]
fn failed_unpack_leaves_marker_untouched() {
    let (fetches, marker, ok) = run("x86", &["x86_64"], &[AttemptOutcome::Fatal]);
    assert!(!ok);
    assert_eq!(fetches.len(), 1);
    assert_eq!(marker, None);
    let (fetches, marker, ok) = run(
        "x86",
        &["x86_64"],
        &[AttemptOutcome::Transient, AttemptOutcome::Transient, AttemptOutcome::Transient],
    );
    assert!(!ok);
    assert_eq!(fetches.len(), 3);
    assert_eq!(marker, None);
}

#[test]
fn retries_wait_one_then_two_units() {
    let (fetches, marker, ok) = run(
        "",
        &["x86_64"],
        &[AttemptOutcome::Transient, AttemptOutcome::Transient, AttemptOutcome::Unpacked],
    );
    assert!(ok);
    assert_eq!(marker.as_deref(), Some("x86_64"));
    let delays: Vec<u64> = fetches.iter().map(|f| f.1).collect();
    assert_eq!(delays, vec![0, 1, 2]);
    assert!(delays.iter().sum::<u64>() >= 1 + 2);
}

#[test]
fn retry_clears_staging_between_attempts() {
    let (mut session, step) = EnsureSession::start("", &arches(&["x86"]), policy());
    assert!(matches!(step, CacheStep::Fetch { clear_staging: false, .. }));
    let step = session.on_outcome(AttemptOutcome::Transient);
    assert!(matches!(step, CacheStep::Fetch { clear_staging: true, delay_secs: 1, .. }));
}

#[test]
fn no_attempts_allowed_fails_at_once() {
    let (_, step) = EnsureSession::start("", &arches(&["x86"]), RetryPolicy { max_attempts: 0, base_delay_secs: 1 });
    assert!(matches!(step, CacheStep::Failed));
}

#[test]
fn backoff_doubles_and_saturates() {
    let mut r = Retry::new(RetryPolicy { max_attempts: 70, base_delay_secs: 5 });
    let mut delays = Vec::new();
    while let Some(d) = r.after_failure() {
        delays.push(d);
    }
    assert_eq!(&delays[..4], &[5, 10, 20, 40]);
    assert_eq!(*delays.last().unwrap(), u64::MAX);
    assert_eq!(r.failures, 70);
}

#[test]
fn marker_round_trip() {
    let s = DownloadState::parse("  x86_64\taarch64 \n");
    assert_eq!(s.arches, arches(&["x86_64", "aarch64"]));
    assert_eq!(s.render(), "x86_64 aarch64");
    assert_eq!(DownloadState::parse(&s.render()).arches, s.arches);
    assert!(DownloadState::parse("").arches.is_empty());
    let m = s.merged(&arches(&["x86", "x86_64", "x86"]));
    assert_eq!(m.arches, arches(&["x86_64", "aarch64", "x86"]));
    assert_eq!(s.missing(&arches(&["x86", "aarch64", "aarch"])), arches(&["x86", "aarch"]));
}

#[test]
fn sysroot_plan() {
    assert_eq!(plan_sysroot(true, true), SysrootPlan::Reuse);
    assert_eq!(plan_sysroot(true, false), SysrootPlan::Download { remove_stale: true });
    assert_eq!(plan_sysroot(false, false), SysrootPlan::Download { remove_stale: false });
}

#[test]
fn sysroot_url_selection() {
    assert_eq!(
        latest_release_url(),
        "https://api.github.com/repos/trcrsired/windows-msvc-sysroot/releases/latest"
    );
    let assets = vec![
        ("other.zip".to_string(), "https://x/other.zip".to_string()),
        ("windows-msvc-sysroot.tar.xz".to_string(), "https://x/a.tar.xz".to_string()),
        ("windows-msvc-sysroot.tar.xz".to_string(), "https://x/b.tar.xz".to_string()),
    ];
    assert_eq!(find_sysroot_asset(&assets).as_deref(), Some("https://x/a.tar.xz"));
    assert_eq!(find_sysroot_asset(&assets[..1].to_vec()), None);
    assert_eq!(choose_sysroot_url(Some("u".into()), Some("l".into())), "u");
    assert_eq!(choose_sysroot_url(None, Some("l".into())), "l");
    assert_eq!(
        choose_sysroot_url(None, None),
        "https://github.com/trcrsired/windows-msvc-sysroot/releases/download/2025-01-22/windows-msvc-sysroot.tar.xz"
    );
    assert_eq!(cargo_xwin::cache::bearer("t0k"), "Bearer t0k");
}

#[test]
fn sysroot_retry_clears_partial_unpack() {
    let (mut d, step) = SysrootDownload::start(policy());
    assert!(matches!(step, DownloadStep::Attempt { delay_secs: 0, clear_partial: false }));
    let step = d.on_result(false);
    assert!(matches!(step, DownloadStep::Attempt { delay_secs: 1, clear_partial: true }));
    let step = d.on_result(false);
    assert!(matches!(step, DownloadStep::Attempt { delay_secs: 2, clear_partial: true }));
    assert!(matches!(d.on_result(false), DownloadStep::Failed));
    let (mut d, _) = SysrootDownload::start(policy());
    assert!(matches!(d.on_result(true), DownloadStep::Done));
    let (_, step) = SysrootDownload::start(RetryPolicy { max_attempts: 0, base_delay_secs: 1 });
    assert!(matches!(step, DownloadStep::Failed));
}

#[test]
fn duplicate_marker_entries_are_read_once() {
    let s = DownloadState::parse("x86 x86_64 x86");
    assert_eq!(s.arches, arches(&["x86", "x86_64"]));
    let (fetches, marker, ok) = run("x86 x86", &["x86", "aarch64"], &[AttemptOutcome::Unpacked]);
    assert!(ok);
    assert_eq!(fetches, vec![(arches(&["aarch64"]), 0)]);
    assert_eq!(marker.as_deref(), Some("x86 aarch64"));
}
