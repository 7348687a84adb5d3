use hd_analyzer_core::driver::{
    DeleteSafetyClassification, DirectoryListing, DriverError, DriverEvent, EntryKind, NodeState,
    PathDeleteSafety, ReadIssueKind, StartScanRequest,
};
use hd_analyzer_core::drives::MountedDrive;
use hd_analyzer_core::jobs::{JobRegistry, JobState, ProgressSnapshot};
use hd_analyzer_core::local::LocalHdDriver;
use hd_analyzer_core::rules::{ScanConfig, SizeMeasurementMode};
use hd_analyzer_core::scan::{
    read_failure_is_issue, unreadable_directory, DirectoryNode, EntryReading, ListingBuilder,
    MeasuredDirectory, MeasuredEntry,
};
use hd_analyzer_core::size::{measure_file_without_dedupe, FileFacts, HardLinkDedupe};

fn safety() -> PathDeleteSafety {
    PathDeleteSafety {
        classification: DeleteSafetyClassification::UserContent,
        can_delete_now: true,
        flags: Vec::new(),
        reason: "User content".to_string(),
    }
}

fn file_facts(len: u64, blocks: u64) -> FileFacts {
    FileFacts { len, blocks: Some(blocks), compressed_size: None, link_count: Some(1), dev: Some(1), ino: Some(len) }
}

fn scan_request(path: &str) -> StartScanRequest {
    StartScanRequest {
        volume_root: "/v".to_string(),
        path: path.to_string(),
        config: ScanConfig::default(),
        replace_existing: false,
        request_id: "r".to_string(),
    }
}

fn empty_listing(path: &str) -> DirectoryListing {
    DirectoryListing {
        path: path.to_string(),
        config_fingerprint: "f".to_string(),
        children: Vec::new(),
        total_visible_size: 0,
        total_measured_size: 0,
        total_logical_size: 0,
        state: NodeState::Complete,
        loaded_depth: 1,
        has_more_depth: false,
        issues: Vec::new(),
        generation: 0,
    }
}

#[test]
fn canceling_an_ended_job_keeps_its_state() {
    let mut registry = JobRegistry::new();
    let done = registry.create("/a".to_string(), "f".to_string());
    registry.set_state(&done.job_id, JobState::Completed);
    assert!(registry.cancel(&done.job_id));
    assert_eq!(registry.state(&done.job_id), Some(JobState::Completed));
    assert!(done.cancel_token.is_canceled());

    let running = registry.create("/b".to_string(), "f".to_string());
    registry.set_state(&running.job_id, JobState::Running);
    assert!(registry.cancel(&running.job_id));
    assert_eq!(registry.state(&running.job_id), Some(JobState::Canceled));

    assert!(!registry.cancel("scan-99"));
}

#[test]
fn progress_is_terminal_only_when_every_unit_ended() {
    let mut progress = ProgressSnapshot::new("job".to_string(), "req".to_string());
    progress.state = JobState::Completed;
    progress.active_units = 0;
    progress.scheduled_units = 5;
    assert!(!progress.is_terminal());
    progress.completed_units = 3;
    progress.skipped_units = 1;
    assert!(!progress.is_terminal());
    progress.failed_units = 1;
    assert!(progress.is_terminal());
}

#[test]
fn a_canceled_job_finishes_quietly() {
    let mut driver = LocalHdDriver::new();
    let drives: Vec<MountedDrive> = Vec::new();
    let start = driver.start_scan(scan_request("/v/a"), Ok("/v/a".to_string()), None, &drives).unwrap();
    let handle = start.job.unwrap().handle;
    let events = driver.finish_job_with(&handle, Ok(empty_listing("/v/a")), true);
    assert!(events.is_empty());
    // The canceled job is no longer active: a new request is not joined to it.
    let again = driver.start_scan(scan_request("/v/a"), Ok("/v/a".to_string()), None, &drives).unwrap();
    assert_eq!(again.receipt.job_id, "scan-2");
    // Finishing the ended job again reports nothing, even without the flag.
    assert!(driver.finish_job_with(&handle, Ok(empty_listing("/v/a")), false).is_empty());
}

#[test]
fn a_job_runs_unless_canceled_before_start() {
    let mut driver = LocalHdDriver::new();
    let drives: Vec<MountedDrive> = Vec::new();
    let first = driver.start_scan(scan_request("/v/a"), Ok("/v/a".to_string()), None, &drives).unwrap();
    let handle = first.job.unwrap().handle;
    assert!(!driver.cancel_before_start(&handle, false));
    let joined = driver.start_scan(scan_request("/v/a"), Ok("/v/a".to_string()), None, &drives).unwrap();
    assert_eq!(joined.receipt.job_id, "scan-1");
    assert!(driver.cancel_before_start(&handle, true));
    let fresh = driver.start_scan(scan_request("/v/a"), Ok("/v/a".to_string()), None, &drives).unwrap();
    assert_eq!(fresh.receipt.job_id, "scan-2");
}

#[test]
fn a_completed_job_reports_a_terminal_snapshot() {
    let mut driver = LocalHdDriver::new();
    let drives: Vec<MountedDrive> = Vec::new();
    let start = driver.start_scan(scan_request("/v/a"), Ok("/v/a".to_string()), None, &drives).unwrap();
    let handle = start.job.unwrap().handle;
    let _ = driver.mark_running(&handle);
    let events = driver.finish_job_with(&handle, Ok(empty_listing("/v/a")), false);
    assert_eq!(events.len(), 3);
    assert!(matches!(events[0], DriverEvent::DirectoryReady { .. }));
    match &events[1] {
        DriverEvent::ProgressSnapshot { snapshot, .. } => {
            assert_eq!(snapshot.state, JobState::Completed);
            assert!(snapshot.is_terminal());
        }
        other => panic!("unexpected {:?}", other),
    }
    assert!(matches!(events[2], DriverEvent::JobFinished { .. }));
}

#[test]
fn a_failed_scan_fails_its_job() {
    let mut driver = LocalHdDriver::new();
    let drives: Vec<MountedDrive> = Vec::new();
    let start = driver.start_scan(scan_request("/v/a"), Ok("/v/a".to_string()), None, &drives).unwrap();
    let handle = start.job.unwrap().handle;
    let events = driver.finish_job_with(&handle, Err(DriverError::JobNotFound("x".to_string())), false);
    match &events[..] {
        [DriverEvent::JobFailed { job_id, message, .. }] => {
            assert_eq!(job_id, "scan-1");
            assert_eq!(message, "job not found: x");
        }
        other => panic!("unexpected {:?}", other),
    }
}

#[test]
fn scans_join_under_the_given_fingerprint() {
    let mut driver = LocalHdDriver::new();
    let drives: Vec<MountedDrive> = Vec::new();
    let first = driver
        .start_scan_with_fingerprint(scan_request("/v/a"), Ok("/v/a".to_string()), None, &drives, "fp-1".to_string())
        .unwrap();
    let job = first.job.expect("a new job");
    assert_eq!(job.handle.config_fingerprint, "fp-1");
    let same = driver
        .start_scan_with_fingerprint(scan_request("/v/a"), Ok("/v/a".to_string()), None, &drives, "fp-1".to_string())
        .unwrap();
    assert!(same.job.is_none());
    assert_eq!(same.receipt.job_id, "scan-1");
    let other = driver
        .start_scan_with_fingerprint(scan_request("/v/a"), Ok("/v/a".to_string()), None, &drives, "fp-2".to_string())
        .unwrap();
    assert_eq!(other.receipt.job_id, "scan-2");
    assert_eq!(other.job.unwrap().handle.config_fingerprint, "fp-2");
}

#[test]
fn hidden_entries_count_but_get_no_row() {
    let config = ScanConfig::default();
    let mut builder = ListingBuilder::new();
    let hidden = measure_file_without_dedupe(&file_facts(1000, 4), SizeMeasurementMode::LogicalAndAllocated);
    let shown = measure_file_without_dedupe(&file_facts(600, 2), SizeMeasurementMode::LogicalAndAllocated);
    builder.add_entry(&config, "/v", 0, "/v/.secret".to_string(), ".secret".to_string(), EntryReading::File(hidden), safety());
    builder.add_entry(&config, "/v", 0, "/v/shown".to_string(), "shown".to_string(), EntryReading::File(shown), safety());
    let small_dir = DirectoryNode { size: 4096, logical_size: 10, children_known: true, issues: Vec::new(), state: NodeState::Complete };
    builder.add_entry(&config, "/v", 0, "/v/small".to_string(), "small".to_string(), EntryReading::Directory(small_dir), safety());
    assert_eq!(builder.children.len(), 1);
    assert_eq!(builder.children[0].name, "shown");
    assert_eq!(builder.children[0].depth_from_request, 1);
    assert_eq!(builder.total_measured_size, 2048 + 1024 + 4096);
    assert_eq!(builder.total_logical_size, 1000 + 600 + 10);
    assert_eq!(builder.total_visible_size, 1024);
    let listing = builder.finish("/v", &config, "f".to_string());
    assert!(listing.total_visible_size <= listing.total_measured_size);
}

#[test]
fn measured_directories_list_only_shown_children() {
    let config = ScanConfig::default();
    let mut directory = MeasuredDirectory::new(&config);
    let hidden = MeasuredEntry::new(
        &config,
        "/v/.cache".to_string(),
        ".cache".to_string(),
        EntryKind::File,
        500,
        400,
        false,
        Vec::new(),
        Vec::new(),
        true,
    );
    let shown = MeasuredEntry::new(
        &config,
        "/v/doc".to_string(),
        "doc".to_string(),
        EntryKind::File,
        300,
        250,
        false,
        Vec::new(),
        Vec::new(),
        true,
    );
    directory.add_entry(&config, hidden);
    directory.add_entry(&config, shown);
    assert_eq!(directory.child_paths(), vec!["/v/doc".to_string()]);
    let (listing, summaries) = directory.into_listing("/v", &config, "f".to_string(), vec![safety()]);
    assert!(summaries.is_empty());
    assert_eq!(listing.children.len(), 1);
    assert_eq!(listing.children[0].name, "doc");
    assert_eq!(listing.total_measured_size, 800);
    assert_eq!(listing.total_logical_size, 650);
    assert_eq!(listing.total_visible_size, 300);
}

#[test]
fn unreadable_directories_become_issues_when_they_exist() {
    assert!(read_failure_is_issue(true, None, false));
    assert!(read_failure_is_issue(false, Some(1), false));
    assert!(read_failure_is_issue(false, None, true));
    assert!(!read_failure_is_issue(false, Some(2), false));

    let kept = unreadable_directory(
        "/v/locked".to_string(),
        std::io::Error::from(std::io::ErrorKind::PermissionDenied),
        false,
    )
    .unwrap();
    assert_eq!(kept.path, "/v/locked");
    assert_eq!(kept.kind, ReadIssueKind::PermissionDenied);

    let still_there = unreadable_directory(
        "/v/odd".to_string(),
        std::io::Error::new(std::io::ErrorKind::Other, "odd"),
        true,
    )
    .unwrap();
    assert_eq!(still_there.kind, ReadIssueKind::MetadataFailed);

    let gone = unreadable_directory("/v/gone".to_string(), std::io::Error::from(std::io::ErrorKind::NotFound), false);
    assert!(gone.is_err());
}

#[test]
fn a_fresh_driver_can_start_scans() {
    let mut driver = LocalHdDriver::new();
    assert!(driver.can_start_scan());
    let drives: Vec<MountedDrive> = Vec::new();
    let _ = driver.start_scan(scan_request("/v/a"), Ok("/v/a".to_string()), None, &drives).unwrap();
    assert!(driver.can_start_scan());
    let registry = JobRegistry::new();
    assert!(registry.can_create());
}

#[test]
fn rows_take_their_directory_as_parent() {
    let config = ScanConfig { min_visible_folder_bytes: None, ..ScanConfig::default() };
    let mut builder = ListingBuilder::new();
    let file = measure_file_without_dedupe(&file_facts(600, 2), SizeMeasurementMode::LogicalAndAllocated);
    builder.add_entry(&config, "/v/top", 2, "/v/top/a".to_string(), "a".to_string(), EntryReading::File(file), safety());
    let dir = DirectoryNode { size: 4096, logical_size: 10, children_known: false, issues: Vec::new(), state: NodeState::Partial };
    builder.add_entry(&config, "/v/top", 2, "/v/top/d".to_string(), "d".to_string(), EntryReading::Directory(dir), safety());
    assert_eq!(builder.children.len(), 2);
    for row in &builder.children {
        assert_eq!(row.parent_path.as_deref(), Some("/v/top"));
        assert_eq!(row.depth_from_request, 3);
        assert!(row.visible);
        assert_eq!(row.delete_safety, safety());
    }
    assert_eq!(builder.children[0].state, NodeState::Complete);
    assert!(builder.children[0].children_known);
    assert_eq!(builder.children[1].state, NodeState::Partial);
    assert!(!builder.children[1].children_known);
    assert!(builder.has_more_depth);
}

#[test]
fn a_job_canceled_before_its_worker_starts_stays_canceled() {
    let mut driver = LocalHdDriver::new();
    let drives: Vec<MountedDrive> = Vec::new();
    let start = driver.start_scan(scan_request("/v/a"), Ok("/v/a".to_string()), None, &drives).unwrap();
    let handle = start.job.unwrap().handle;
    assert!(driver.cancel_job(&handle.job_id).is_ok());
    assert!(matches!(driver.mark_running(&handle), DriverEvent::JobStarted { .. }));
    // Still canceled: a new request for the path is not joined to it.
    let again = driver.start_scan(scan_request("/v/a"), Ok("/v/a".to_string()), None, &drives).unwrap();
    assert_eq!(again.receipt.job_id, "scan-2");
    assert!(driver.finish_job_with(&handle, Ok(empty_listing("/v/a")), false).is_empty());

    let mut registry = JobRegistry::new();
    let queued = registry.create("/b".to_string(), "f".to_string());
    registry.start(&queued.job_id);
    assert_eq!(registry.state(&queued.job_id), Some(JobState::Running));
    assert!(registry.cancel(&queued.job_id));
    registry.start(&queued.job_id);
    assert_eq!(registry.state(&queued.job_id), Some(JobState::Canceled));
}

#[test]
fn hard_links_count_once_only_when_deduplicated() {
    let first = FileFacts { len: 8192, blocks: Some(16), compressed_size: None, link_count: Some(2), dev: Some(3), ino: Some(7) };
    let second = first;
    let mode = SizeMeasurementMode::LogicalAndAllocated;
    let mut on = HardLinkDedupe::new();
    let a = on.measure_file_with_policy(&first, true, mode);
    let b = on.measure_file_with_policy(&second, true, mode);
    assert_eq!(a.allocated_bytes, 8192);
    assert!(!a.deduped);
    assert_eq!(b.allocated_bytes, 0);
    assert!(b.deduped);
    assert_eq!(b.logical_bytes, 8192);
    let mut off = HardLinkDedupe::new();
    let c = off.measure_file_with_policy(&first, false, mode);
    let d = off.measure_file_with_policy(&second, false, mode);
    assert_eq!(c.allocated_bytes + d.allocated_bytes, 2 * (a.allocated_bytes + b.allocated_bytes));
}
