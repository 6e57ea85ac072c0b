use pinboard_backup::dispatch::{
    job_directory, make_entry, run_dispatch, CacheEntry, Dispatcher, DownloadOutcome, JobState,
    JOB_TIMEOUT_SECS,
};
use pinboard_backup::service::target_url;

fn entries(ids: &[&[u8]]) -> Vec<CacheEntry> {
    ids.iter().map(|s| make_entry(s.to_vec())).collect()
}

#[test]
fn bookmark_id_strips_the_cached_prefix() {
    let e = make_entry(b"/cached/abc123".to_vec());
    assert_eq!(e.cache_id, b"/cached/abc123".to_vec());
    assert_eq!(e.bookmark_id, b"abc123".to_vec());
}

#[test]
fn repeated_prefix_is_stripped_repeatedly() {
    let e = make_entry(b"/cached//cached/x".to_vec());
    assert_eq!(e.bookmark_id, b"x".to_vec());
}

#[test]
fn identifier_without_prefix_is_kept_whole() {
    let e = make_entry(b"other/path".to_vec());
    assert_eq!(e.bookmark_id, b"other/path".to_vec());
}

#[test]
fn target_url_is_origin_plus_identifier() {
    assert_eq!(
        target_url(&b"/cached/abc".to_vec()),
        b"https://pinboard.in/cached/abc".to_vec()
    );
}

#[test]
fn job_directory_is_output_slash_bookmark() {
    assert_eq!(
        job_directory(&b"pinboard".to_vec(), &b"abc".to_vec()),
        b"pinboard/abc".to_vec()
    );
}

#[test]
fn timeout_is_sixty_seconds() {
    assert_eq!(JOB_TIMEOUT_SECS, 60);
}

#[test]
fn fresh_run_succeeds_everywhere() {
    // The example scenario: three crawled identifiers dispatched with a
    // limit of two against a capability that always succeeds, into an empty
    // output directory.
    let es = entries(&[b"/cached/a", b"/cached/b", b"/cached/c"]);
    let existing = vec![false, false, false];
    let outcomes = vec![
        DownloadOutcome::Succeeded,
        DownloadOutcome::Succeeded,
        DownloadOutcome::Succeeded,
    ];
    let d = run_dispatch(&es, &b"pinboard".to_vec(), 2, &existing, &outcomes);
    let s = d.summarize();
    assert_eq!(s.succeeded, 3);
    assert_eq!(s.skipped, 0);
    assert_eq!(s.failed, 0);
    assert_eq!(s.timed_out, 0);
    assert!(!d.run_failed());
}

#[test]
fn second_run_skips_every_existing_directory() {
    // Rerunning over the same output directory: every target directory is
    // already there, so every job is skipped and nothing is re-downloaded.
    let es = entries(&[b"/cached/a", b"/cached/b", b"/cached/c"]);
    let existing = vec![true, true, true];
    let outcomes = vec![
        DownloadOutcome::Succeeded,
        DownloadOutcome::Succeeded,
        DownloadOutcome::Succeeded,
    ];
    let d = run_dispatch(&es, &b"pinboard".to_vec(), 2, &existing, &outcomes);
    let s = d.summarize();
    assert_eq!(s.skipped, 3);
    assert_eq!(s.succeeded, 0);
    assert!(!d.run_failed());
}

#[test]
fn one_timeout_leaves_the_other_jobs_untouched() {
    let es = entries(&[b"/cached/a", b"/cached/b", b"/cached/c"]);
    let existing = vec![false, false, false];
    let outcomes = vec![
        DownloadOutcome::Succeeded,
        DownloadOutcome::TimedOut,
        DownloadOutcome::Succeeded,
    ];
    let d = run_dispatch(&es, &b"pinboard".to_vec(), 2, &existing, &outcomes);
    assert!(matches!(d.job(0).state, JobState::Succeeded));
    assert!(matches!(d.job(1).state, JobState::TimedOut));
    assert!(matches!(d.job(2).state, JobState::Succeeded));
    let s = d.summarize();
    assert_eq!(s.timed_out, 1);
    assert_eq!(s.succeeded, 2);
    assert!(d.run_failed());
}

#[test]
fn failure_keeps_its_reason() {
    let es = entries(&[b"/cached/a"]);
    let existing = vec![false];
    let outcomes = vec![DownloadOutcome::Failed(b"exit status 4".to_vec())];
    let d = run_dispatch(&es, &b"out".to_vec(), 1, &existing, &outcomes);
    match &d.job(0).state {
        JobState::Failed(reason) => assert_eq!(reason, &b"exit status 4".to_vec()),
        _ => panic!("expected a failed job"),
    }
    assert!(d.run_failed());
}

#[test]
fn pool_never_holds_more_than_the_limit() {
    // Drive the dispatcher by hand with a limit of two: after two starts the
    // pool is full, and a worker frees up only when a job finishes.
    let es = entries(&[b"/cached/a", b"/cached/b", b"/cached/c"]);
    let mut d = Dispatcher::new(&es, &b"out".to_vec(), 2);
    assert_eq!(d.concurrency_limit(), 2);
    assert!(d.can_start());
    assert!(d.start_job(0, false));
    assert!(d.can_start());
    assert!(d.start_job(1, false));
    assert_eq!(d.running_count(), 2);
    assert!(!d.can_start());
    d.finish_job(0, &DownloadOutcome::Succeeded);
    assert_eq!(d.running_count(), 1);
    assert!(d.can_start());
    assert!(d.start_job(2, false));
    d.finish_job(1, &DownloadOutcome::TimedOut);
    d.finish_job(2, &DownloadOutcome::Succeeded);
    assert_eq!(d.running_count(), 0);
}

#[test]
fn skipping_takes_no_worker_and_never_starts() {
    let es = entries(&[b"/cached/a"]);
    let mut d = Dispatcher::new(&es, &b"out".to_vec(), 1);
    let started = d.start_job(0, true);
    assert!(!started);
    assert_eq!(d.running_count(), 0);
    assert!(matches!(d.job(0).state, JobState::SkippedExisting));
}

#[test]
fn next_pending_walks_the_jobs_in_order() {
    let es = entries(&[b"/cached/a", b"/cached/b"]);
    let mut d = Dispatcher::new(&es, &b"out".to_vec(), 1);
    assert_eq!(d.next_pending(), Some(0));
    d.start_job(0, false);
    assert_eq!(d.next_pending(), Some(1));
    d.start_job(1, true);
    assert_eq!(d.next_pending(), None);
    d.finish_job(0, &DownloadOutcome::Succeeded);
    assert_eq!(d.next_pending(), None);
}

#[test]
fn jobs_carry_their_derived_url_and_directory() {
    let es = entries(&[b"/cached/abc"]);
    let d = Dispatcher::new(&es, &b"pinboard".to_vec(), 1);
    assert_eq!(d.job_count(), 1);
    let j = d.job(0);
    assert_eq!(j.url, b"https://pinboard.in/cached/abc".to_vec());
    assert_eq!(j.directory, b"pinboard/abc".to_vec());
    assert!(matches!(j.state, JobState::Pending));
}
