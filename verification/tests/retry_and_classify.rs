use rbuster::classify::bucket_access_of_status;
use rbuster::classify::classify;
use rbuster::config::Mode;
use rbuster::config::RunConfig;
use rbuster::outcome::Baseline;
use rbuster::outcome::BucketAccess;
use rbuster::outcome::FailureCause;
use rbuster::outcome::ProbeOutcome;
use rbuster::outcome::ProbePayload;
use rbuster::progress::ProgressTracker;
use rbuster::retry::run_retries;
use rbuster::retry::AttemptResult;

fn http_success(status: u16, size: usize) -> ProbeOutcome {
    ProbeOutcome::Success {
        payload: ProbePayload::Http { status, size, redirect: None, words: 0, lines: 0 },
        elapsed_ms: 0,
    }
}

#[test]
fn tftp_retry_recovers_from_loss() {
    // Every other datagram lost, three retries allowed: the answer on the
    // second transmission resolves the probe.
    let attempts = vec![
        AttemptResult::Lost,
        AttemptResult::Answered { size: 512 },
        AttemptResult::Lost,
        AttemptResult::Answered { size: 512 },
    ];
    let (outcome, used, waited) = run_retries(&attempts, 3, 1000, 0);
    match outcome {
        ProbeOutcome::Success { payload: ProbePayload::Tftp { size }, elapsed_ms } => {
            assert_eq!(size, 512);
            assert_eq!(elapsed_ms, 1000);
        }
        other => panic!("expected success, got {:?}", other),
    }
    assert_eq!(used, 2);
    assert!(waited <= 1000 * 4);
}

#[test]
fn tftp_retry_exhaustion_is_transient() {
    let attempts = vec![
        AttemptResult::Lost,
        AttemptResult::Lost,
        AttemptResult::Lost,
        AttemptResult::Lost,
    ];
    let (outcome, used, waited) = run_retries(&attempts, 3, 1000, 0);
    assert!(matches!(
        outcome,
        ProbeOutcome::TransientFailure { cause: FailureCause::Timeout }
    ));
    assert_eq!(used, 4);
    assert_eq!(waited, 4000);
    assert!(waited <= 1000 * 4);
}

#[test]
fn tftp_error_datagram_is_authoritative() {
    let attempts = vec![
        AttemptResult::ErrorDatagram,
        AttemptResult::Answered { size: 9 },
        AttemptResult::Answered { size: 9 },
        AttemptResult::Answered { size: 9 },
    ];
    let (outcome, used, waited) = run_retries(&attempts, 3, 1000, 50);
    assert!(matches!(outcome, ProbeOutcome::Filtered));
    assert_eq!(used, 1);
    assert_eq!(waited, 0);
}

#[test]
fn classify_dir_status_and_size_rules() {
    let config = RunConfig::new(Mode::Dir, 1);
    let hit = classify(&http_success(200, 100), &config, &None);
    assert!(hit.report && hit.counts_found && !hit.is_error);
    let denied = classify(&http_success(404, 100), &config, &None);
    assert!(!denied.report && !denied.counts_found);

    let mut sized = RunConfig::new(Mode::Dir, 1);
    sized.deny_sizes.push(100);
    let suppressed = classify(&http_success(200, 100), &sized, &None);
    assert!(!suppressed.report);
}

#[test]
fn classify_vhost_without_baseline_uses_status() {
    let config = RunConfig::new(Mode::Vhost, 1);
    let c = classify(&http_success(200, 5), &config, &None);
    assert!(c.report);
    let d = classify(&http_success(404, 5), &config, &None);
    assert!(!d.report);
}

#[test]
fn classify_vhost_tolerance_boundary() {
    let mut config = RunConfig::new(Mode::Vhost, 1);
    config.size_tolerance = 10;
    let baseline = Some(Baseline { status: 200, size: 1000 });
    let near = classify(&http_success(200, 1010), &config, &baseline);
    assert!(!near.report);
    let far = classify(&http_success(200, 1011), &config, &baseline);
    assert!(far.report);
}

#[test]
fn classify_failures_count_errors() {
    let config = RunConfig::new(Mode::Dir, 1);
    let t = classify(
        &ProbeOutcome::TransientFailure { cause: FailureCause::Reset },
        &config,
        &None,
    );
    assert!(t.is_error && !t.report && !t.counts_found);
    let f = classify(
        &ProbeOutcome::FatalFailure { cause: FailureCause::Certificate },
        &config,
        &None,
    );
    assert!(f.is_error && !f.report);
    let filtered = classify(&ProbeOutcome::Filtered, &config, &None);
    assert!(!filtered.is_error && !filtered.report && !filtered.counts_found);
}

#[test]
fn bucket_access_reads_listing_status() {
    assert_eq!(bucket_access_of_status(200), BucketAccess::Public);
    assert_eq!(bucket_access_of_status(401), BucketAccess::Private);
    assert_eq!(bucket_access_of_status(403), BucketAccess::Private);
    assert_eq!(bucket_access_of_status(404), BucketAccess::NotFound);
    assert_eq!(bucket_access_of_status(500), BucketAccess::NotFound);
}

#[test]
fn classify_bucket_private_counts() {
    let config = RunConfig::new(Mode::Bucket, 1);
    let private = classify(
        &ProbeOutcome::Success {
            payload: ProbePayload::Bucket { access: BucketAccess::Private, sample: vec![] },
            elapsed_ms: 0,
        },
        &config,
        &None,
    );
    assert!(private.report && private.counts_found);
    let absent = classify(
        &ProbeOutcome::Success {
            payload: ProbePayload::Bucket { access: BucketAccess::NotFound, sample: vec![] },
            elapsed_ms: 0,
        },
        &config,
        &None,
    );
    assert!(absent.report && !absent.counts_found);
}

#[test]
fn progress_tracker_counts() {
    let mut t = ProgressTracker::new(10, false);
    t.inc();
    t.inc();
    t.inc_found();
    t.inc_error();
    assert_eq!(t.ticked, 2);
    assert_eq!(t.found_count(), 1);
    assert_eq!(t.error_count(), 1);
    assert!(!t.finished);
    t.finish();
    assert!(t.finished);
    assert_eq!(t.found_count(), 1);
}
