use hd_analyzer_core::jobs::{CancelToken, JobRegistry, JobState, ProgressSnapshot};

#[test]
fn terminal_progress_requires_no_active_units() {
    let mut progress = ProgressSnapshot::new("job".to_string(), "req".to_string());
    progress.state = JobState::Completed;
    progress.active_units = 1;

    assert!(!progress.is_terminal());
}

#[test]
fn supersede_marks_matching_active_jobs() {
    let mut registry = JobRegistry::default();
    registry.create("/tmp/a".to_string(), "config".to_string());

    let superseded = registry.supersede_path("/tmp/a");

    assert_eq!(superseded.len(), 1);
}

#[test]
fn active_exact_reuses_matching_active_job() {
    let mut registry = JobRegistry::default();
    let created = registry.create("/tmp/a".to_string(), "config".to_string());

    let active = registry.active_exact("/tmp/a", "config");

    assert_eq!(active.unwrap().job_id, created.job_id);
}

#[test]
fn jobs_are_numbered_in_order() {
    let mut registry = JobRegistry::new();
    let first = registry.create("/a".to_string(), "f".to_string());
    let second = registry.create("/b".to_string(), "f".to_string());
    assert_eq!(first.job_id, "scan-1");
    assert_eq!(first.request_id, "req-1");
    assert_eq!(second.job_id, "scan-2");
    assert_eq!(second.state, JobState::Queued);
}

#[test]
fn superseding_reaches_descendants_only_while_active() {
    let mut registry = JobRegistry::new();
    registry.create("/a/b".to_string(), "f".to_string());
    registry.create("/c".to_string(), "f".to_string());
    let done = registry.create("/a/d".to_string(), "f".to_string());
    registry.set_state(&done.job_id, JobState::Completed);
    let ids = registry.supersede_path("/a");
    assert_eq!(ids, vec!["scan-1".to_string()]);
    assert_eq!(registry.state("scan-1"), Some(JobState::Superseded));
    assert_eq!(registry.state("scan-2"), Some(JobState::Queued));
    assert_eq!(registry.state("scan-3"), Some(JobState::Completed));
    assert!(registry.active_exact("/a/b", "f").is_none());
}

#[test]
fn cancel_sets_flag_and_state() {
    let mut registry = JobRegistry::new();
    let job = registry.create("/a".to_string(), "f".to_string());
    assert!(!job.cancel_token.is_canceled());
    assert!(registry.cancel(&job.job_id));
    assert!(job.cancel_token.is_canceled());
    assert_eq!(registry.state(&job.job_id), Some(JobState::Canceled));
    assert!(!registry.cancel("scan-9"));
}

#[test]
fn active_paths_lists_each_active_root_once() {
    let mut registry = JobRegistry::new();
    registry.create("/a".to_string(), "f".to_string());
    registry.create("/a/".to_string(), "g".to_string());
    let done = registry.create("/b".to_string(), "f".to_string());
    registry.set_state(&done.job_id, JobState::Failed);
    assert_eq!(registry.active_paths(), vec!["/a".to_string()]);
}

#[test]
fn cancel_token_shares_its_flag() {
    let token = CancelToken::new();
    let shared = token.share();
    shared.cancel();
    assert!(token.is_canceled());
}

#[test]
fn fresh_snapshot_is_queued_and_empty() {
    let snapshot = ProgressSnapshot::new("j".to_string(), "r".to_string());
    assert_eq!(snapshot.state, JobState::Queued);
    assert_eq!(snapshot.completed_units, 0);
    assert!(!snapshot.is_terminal());
    let mut done = snapshot.clone();
    done.state = JobState::Failed;
    assert!(done.is_terminal());
}
