use hd_analyzer_core::cache::CacheFreshness;
use hd_analyzer_core::driver::{
    adjusted_total, ensure_inside_volume, normalize_path_lexically, DirectoryListing,
    DirectorySizeSummary, DriverError, DriverEvent, EntryKind, InvalidationScope, NodeState,
    PathDeleteSafety, PathNode, PreciseDirectoryScan, PreciseScanProfile, StartScanRequest,
    DeleteSafetyClassification,
};
use hd_analyzer_core::drives::{Drive, MountedDrive};
use hd_analyzer_core::jobs::JobState;
use hd_analyzer_core::lexical::equivalent_paths;
use hd_analyzer_core::local::{
    drive_mount_matches_root, estimate_volume_root_used_space, progress_event, DirectoryRequest,
    LocalHdDriver,
};
use hd_analyzer_core::rules::ScanConfig;
use hd_analyzer_core::scan::{PreciseDirectoryProgressUpdate, PreciseScanProgress, PreciseScanUpdate};

fn safety() -> PathDeleteSafety {
    PathDeleteSafety {
        classification: DeleteSafetyClassification::UserContent,
        can_delete_now: true,
        flags: Vec::new(),
        reason: "User content".to_string(),
    }
}

fn node(path: &str, name: &str, kind: EntryKind, size: u64, visible: bool) -> PathNode {
    PathNode {
        path: path.to_string(),
        name: name.to_string(),
        kind,
        parent_path: Some("/v/top".to_string()),
        depth_from_request: 1,
        size,
        logical_size: size,
        state: NodeState::Partial,
        visible,
        children_known: kind != EntryKind::Directory,
        active_job_id: None,
        delete_safety: safety(),
        issues: Vec::new(),
    }
}

fn listing(path: &str, fingerprint: &str, children: Vec<PathNode>) -> DirectoryListing {
    let total: u64 = children.iter().map(|c| c.size).sum();
    DirectoryListing {
        path: path.to_string(),
        config_fingerprint: fingerprint.to_string(),
        children,
        total_visible_size: total,
        total_measured_size: total,
        total_logical_size: total,
        state: NodeState::Complete,
        loaded_depth: 1,
        has_more_depth: true,
        issues: Vec::new(),
        generation: 0,
    }
}

fn summary(path: &str, fingerprint: &str, size: u64) -> DirectorySizeSummary {
    DirectorySizeSummary {
        path: path.to_string(),
        config_fingerprint: fingerprint.to_string(),
        allocated_size: size,
        logical_size: size + 1,
        has_visible_children: false,
        issues: Vec::new(),
    }
}

fn io_error() -> std::io::Error {
    std::io::Error::new(std::io::ErrorKind::NotFound, "missing")
}

#[test]
fn equivalent_paths_accepts_lexically_equal_paths() {
    let left = std::path::Path::new("volume").join("folder").join("..").join("root");
    let right = std::path::Path::new("volume").join("root");

    assert!(equivalent_paths(left.to_str().unwrap(), right.to_str().unwrap()));
}

#[test]
fn driver_rejects_parent_path_outside_volume_root() {
    let driver = LocalHdDriver::new();
    let error = driver
        .scoped_existing_path("/vol", "/outside", Ok("/vol".to_string()), Ok("/outside".to_string()))
        .unwrap_err();
    assert!(matches!(error, DriverError::PathOutsideVolume(_)));
}

#[test]
fn driver_accepts_child_path_inside_volume_root() {
    let driver = LocalHdDriver::new();
    let scoped = driver
        .scoped_existing_path("/vol", "/vol/child", Ok("/real/vol".to_string()), Ok("/real/vol/child".to_string()))
        .unwrap();
    assert_eq!(scoped, "/real/vol/child");
}

#[test]
fn driver_invalidation_rejects_lexical_escape_outside_volume_root() {
    let driver = LocalHdDriver::new();
    let error = driver
        .scoped_invalidation_path("/vol", "/vol/../outside", Ok("/vol".to_string()), None)
        .unwrap_err();
    assert!(matches!(error, DriverError::PathOutsideVolume(_)));
}

#[test]
fn driver_invalidation_allows_missing_child_inside_volume_root() {
    let mut driver = LocalHdDriver::new();
    let scoped = driver.scoped_invalidation_path("/vol", "/vol/missing", Ok("/real/vol".to_string()), None);
    assert_eq!(scoped.as_deref().unwrap(), "/real/vol/missing");
    let receipt = driver.invalidate_path(scoped, InvalidationScope::PathAndDescendants).unwrap();
    assert!(receipt.invalidated_paths.is_empty());
    assert!(receipt.superseded_job_ids.is_empty());
}

#[test]
fn scoped_paths_report_the_failed_resolution() {
    let driver = LocalHdDriver::new();
    match driver.scoped_existing_path("/vol", "/vol/a", Err(io_error()), Ok("/vol/a".to_string())) {
        Err(DriverError::Io { path, .. }) => assert_eq!(path, "/vol"),
        other => panic!("unexpected {:?}", other),
    }
    match driver.scoped_existing_path("/vol", "/vol/a", Ok("/vol".to_string()), Err(io_error())) {
        Err(DriverError::Io { path, .. }) => assert_eq!(path, "/vol/a"),
        other => panic!("unexpected {:?}", other),
    }
    let relative = driver.scoped_invalidation_path("/vol", "a/./b/../c", Ok("/real".to_string()), None);
    assert_eq!(relative.unwrap(), "/real/a/c");
    let escaping = driver.scoped_invalidation_path("/vol", "../../x", Ok("/real".to_string()), None);
    assert!(matches!(escaping, Err(DriverError::InvalidPath(_))));
}

#[test]
fn volume_rules_and_normalization() {
    assert!(ensure_inside_volume("/v", "/v").is_ok());
    assert!(ensure_inside_volume("/v", "/v/a/b").is_ok());
    match ensure_inside_volume("/v", "/va") {
        Err(DriverError::PathOutsideVolume(m)) => assert_eq!(m, "/va is outside /v"),
        other => panic!("unexpected {:?}", other),
    }
    assert_eq!(normalize_path_lexically("/a/./b/../c/").unwrap(), "/a/c");
    match normalize_path_lexically("/a/../..") {
        Err(DriverError::InvalidPath(m)) => assert_eq!(m, "Path escapes its root: /a/../.."),
        other => panic!("unexpected {:?}", other),
    }
    assert_eq!(adjusted_total(10, 3, 7), 14);
    assert_eq!(adjusted_total(10, 7, 3), 6);
    assert_eq!(adjusted_total(2, 7, 3), 0);
    assert_eq!(adjusted_total(u64::MAX - 1, 0, 5), u64::MAX);
}

#[test]
fn cached_listing_takes_cached_directory_totals() {
    let mut driver = LocalHdDriver::new();
    let config = ScanConfig { min_visible_folder_bytes: None, ..ScanConfig::default() };
    let fingerprint = config.normalized().fingerprint();
    let precise = PreciseDirectoryScan {
        listing: listing("/v/top/nested", &fingerprint, Vec::new()),
        summaries: vec![summary("/v/top/nested", &fingerprint, 40)],
        profile: PreciseScanProfile::default(),
    };
    let stored = driver.discover_precise_and_cache("/v/top/nested", Ok(precise)).unwrap();
    assert_eq!(stored.generation, 1);

    let children = vec![
        node("/v/top/nested", "nested", EntryKind::Directory, 0, true),
        node("/v/top/f", "f", EntryKind::File, 3, true),
    ];
    let discovered = listing("/v/top", &fingerprint, children);
    let cached = driver.discover_and_cache_with_progress("/v/top", Ok(discovered)).unwrap();
    let nested = cached.children.iter().find(|n| n.name == "nested").unwrap();
    assert_eq!(nested.state, NodeState::Complete);
    assert_eq!(nested.size, 40);
    assert_eq!(nested.logical_size, 41);
    assert!(nested.children_known);
    assert_eq!(cached.total_measured_size, 43);
    assert_eq!(cached.total_visible_size, 43);
    assert_eq!(cached.total_logical_size, 44);
    assert!(!cached.has_more_depth);
    assert_eq!(cached.generation, 2);

    match driver.get_directory_with_open_progress(Ok("/v/top".to_string()), &config) {
        DirectoryRequest::Ready(Ok(l)) => assert_eq!(l.total_measured_size, 43),
        _ => panic!("expected a cached listing"),
    }
    match driver.get_directory_with_open_progress(Ok("/v/other".to_string()), &config) {
        DirectoryRequest::Discover { path, config: c } => {
            assert_eq!(path, "/v/other");
            assert_eq!(c, config.normalized());
        }
        _ => panic!("expected a discovery"),
    }
    let receipt = driver
        .invalidate_path(Ok("/v/top".to_string()), InvalidationScope::PathOnly)
        .unwrap();
    assert_eq!(receipt.invalidated_paths, vec!["/v/top".to_string()]);
    assert!(matches!(
        driver.get_directory_with_open_progress(Ok("/v/top".to_string()), &config),
        DirectoryRequest::Discover { .. }
    ));
    assert!(matches!(
        driver.get_directory_with_open_progress(Err(DriverError::ScanCanceled), &config),
        DirectoryRequest::Ready(Err(DriverError::ScanCanceled))
    ));
}

#[test]
fn failed_reads_are_reported_and_change_nothing() {
    let mut driver = LocalHdDriver::new();
    match driver.discover_and_cache_with_progress("/v/x", Err(io_error())) {
        Err(DriverError::Io { path, .. }) => assert_eq!(path, "/v/x"),
        other => panic!("unexpected {:?}", other),
    }
    let interrupted = std::io::Error::new(std::io::ErrorKind::Interrupted, "stop");
    assert!(matches!(
        driver.discover_precise_and_cache("/v/x", Err(interrupted)),
        Err(DriverError::ScanCanceled)
    ));
    assert!(matches!(
        driver.discover_precise_and_cache("/v/x", Err(io_error())),
        Err(DriverError::Io { .. })
    ));
}

fn request(path: &str, replace_existing: bool) -> StartScanRequest {
    StartScanRequest {
        volume_root: "/v".to_string(),
        path: path.to_string(),
        config: ScanConfig::default(),
        replace_existing,
        request_id: "r".to_string(),
    }
}

#[test]
fn scans_join_active_jobs_unless_replacing() {
    let mut driver = LocalHdDriver::new();
    let drives: Vec<MountedDrive> = Vec::new();
    let first = driver.start_scan(request("/v/a", false), Ok("/v/a".to_string()), None, &drives).unwrap();
    let job = first.job.expect("a new job");
    assert_eq!(first.receipt.job_id, "scan-1");
    assert_eq!(job.handle.state, JobState::Queued);
    assert!(matches!(job.queued, DriverEvent::JobQueued { .. }));
    assert_eq!(job.estimated_total_bytes, None);

    let joined = driver.start_scan(request("/v/a", false), Ok("/v/a".to_string()), None, &drives).unwrap();
    assert!(joined.job.is_none());
    assert_eq!(joined.receipt.job_id, "scan-1");

    let replaced = driver.start_scan(request("/v/a", true), Ok("/v/a".to_string()), None, &drives).unwrap();
    assert_eq!(replaced.receipt.job_id, "scan-2");
    assert!(driver.cancel_job("scan-1").is_ok());
    match driver.cancel_job("scan-7") {
        Err(DriverError::JobNotFound(id)) => assert_eq!(id, "scan-7"),
        other => panic!("unexpected {:?}", other),
    }
    assert!(matches!(
        driver.start_scan(request("/v/a", true), Err(DriverError::ScanCanceled), None, &drives),
        Err(DriverError::ScanCanceled)
    ));
}

#[test]
fn finished_jobs_report_their_outcome() {
    let mut driver = LocalHdDriver::new();
    let drives: Vec<MountedDrive> = Vec::new();
    let start = driver.start_scan(request("/v/a", false), Ok("/v/a".to_string()), None, &drives).unwrap();
    let handle = start.job.unwrap().handle;
    assert!(!driver.cancel_if_requested(&handle));
    match driver.mark_running(&handle) {
        DriverEvent::JobStarted { job_id, path, .. } => {
            assert_eq!(job_id, "scan-1");
            assert_eq!(path, "/v/a");
        }
        other => panic!("unexpected {:?}", other),
    }
    let done = listing("/v/a", "f", vec![node("/v/a/x", "x", EntryKind::File, 9, true)]);
    let events = driver.finish_job(&handle, Ok(done));
    assert_eq!(events.len(), 3);
    match &events[1] {
        DriverEvent::ProgressSnapshot { snapshot, .. } => {
            assert_eq!(snapshot.state, JobState::Completed);
            assert_eq!(snapshot.bytes_measured, 9);
            assert_eq!(snapshot.completed_units, 1);
            assert_eq!(snapshot.estimated_total_bytes, Some(9));
        }
        other => panic!("unexpected {:?}", other),
    }
    assert!(matches!(events[2], DriverEvent::JobFinished { .. }));

    let second = driver.start_scan(request("/v/b", false), Ok("/v/b".to_string()), None, &drives).unwrap();
    let failing = second.job.unwrap().handle;
    let events = driver.finish_job(&failing, Err(DriverError::PermissionDenied("/v/b".to_string())));
    match &events[..] {
        [DriverEvent::JobFailed { message, .. }] => assert_eq!(message, "permission denied: /v/b"),
        other => panic!("unexpected {:?}", other),
    }
    let third = driver.start_scan(request("/v/c", false), Ok("/v/c".to_string()), None, &drives).unwrap();
    let canceled = third.job.unwrap().handle;
    assert!(driver.finish_job(&canceled, Err(DriverError::ScanCanceled)).is_empty());
    canceled.cancel_token.cancel();
    assert!(driver.cancel_if_requested(&canceled));
}

#[test]
fn progress_reports_snapshot_or_directory_totals() {
    let mut driver = LocalHdDriver::new();
    let drives: Vec<MountedDrive> = Vec::new();
    let start = driver.start_scan(request("/v/a", false), Ok("/v/a".to_string()), None, &drives).unwrap();
    let handle = start.job.unwrap().handle;
    let progress = PreciseScanProgress { entries_visited: 5, files_visited: 4, directories_visited: 1, bytes_measured: 77 };
    match progress_event(&handle, Some(100), PreciseScanUpdate { progress, directory_updates: Vec::new() }) {
        DriverEvent::ProgressSnapshot { snapshot, .. } => {
            assert_eq!(snapshot.scheduled_units, 100);
            assert_eq!(snapshot.discovered_units, 5);
            assert_eq!(snapshot.active_units, 1);
            assert_eq!(snapshot.bytes_measured, 77);
            assert_eq!(snapshot.state, JobState::Running);
        }
        other => panic!("unexpected {:?}", other),
    }
    let updates = vec![PreciseDirectoryProgressUpdate { path: "/v/a/d".to_string(), allocated_bytes: 8, logical_bytes: 6 }];
    match progress_event(&handle, None, PreciseScanUpdate { progress, directory_updates: updates }) {
        DriverEvent::DirectoryProgress { path, updates, snapshot, .. } => {
            assert_eq!(path, "/v/a");
            assert_eq!(updates[0].size, 8);
            assert_eq!(updates[0].state, NodeState::Working);
            assert_eq!(snapshot.scheduled_units, 0);
        }
        other => panic!("unexpected {:?}", other),
    }
}

fn mounted(mount: &str, canonical: Option<&str>, total: u64, available: u64) -> MountedDrive {
    MountedDrive {
        drive: Drive {
            label: mount.to_string(),
            mount_point: mount.to_string(),
            total_space: total,
            available_space: available,
            file_system: "fs".to_string(),
        },
        canonical_mount: canonical.map(|c| c.to_string()),
    }
}

#[test]
fn volume_estimate_uses_the_drive_at_the_root() {
    let drives = vec![
        mounted("/other", None, 10, 5),
        mounted("/link", Some("/vol"), 100, 30),
        mounted("/vol", None, 50, 50),
    ];
    assert!(drive_mount_matches_root(&drives[1], "/vol"));
    assert!(!drive_mount_matches_root(&drives[0], "/vol"));
    assert_eq!(estimate_volume_root_used_space("/vol", "/vol/", &drives), Some(70));
    assert_eq!(estimate_volume_root_used_space("/vol", "/vol/sub", &drives), None);
    let empty = vec![mounted("/vol", None, 50, 50)];
    assert_eq!(estimate_volume_root_used_space("/vol", "/vol", &empty), None);

    let mut driver = LocalHdDriver::new();
    let config = ScanConfig::default();
    assert_eq!(driver.estimate_scan_total_bytes(None, "/vol", &config, &drives), None);
    assert_eq!(driver.estimate_scan_total_bytes(Some("/vol".to_string()), "/vol", &config, &drives), Some(70));
    let fingerprint = config.fingerprint();
    let precise = PreciseDirectoryScan {
        listing: listing("/vol", &fingerprint, Vec::new()),
        summaries: vec![summary("/vol/sub", &fingerprint, 12)],
        profile: PreciseScanProfile::default(),
    };
    driver.discover_precise_and_cache("/vol", Ok(precise)).unwrap();
    assert_eq!(driver.estimate_scan_total_bytes(Some("/vol".to_string()), "/vol/sub", &config, &drives), Some(12));
    let _ = CacheFreshness::Fresh;
}
