use hd_analyzer_core::driver::{
    DirectoryListing, DirectoryProgressUpdate, DriverError, DriverEvent, InvalidationReceipt,
    InvalidationScope, NodeState, ReadIssueKind, ScanIssue, StartScanReceipt, Volume,
};
use hd_analyzer_core::dto::{
    command_error, display_path, CommandError, CommandErrorCode, DirectoryListingDto, DriveDto,
    FsOpenProgressEventDto, FsProgressEventDto, InvalidationReceiptDto, InvalidationScopeDto,
    ScanConfigDto, ScanIssueDto, StartScanReceiptDto,
};
use hd_analyzer_core::jobs::ProgressSnapshot;
use hd_analyzer_core::rules::{ScanConfig, SizeMeasurementMode};
use hd_analyzer_core::scan::DirectoryOpenProgress;

#[test]
fn maps_volume_to_camel_case_dto_shape() {
    let volume = Volume {
        id: "/data".to_string(),
        display_name: "Data".to_string(),
        root_path: "/data".to_string(),
        mount_point: "/data".to_string(),
        total_bytes: 100,
        available_bytes: 40,
        filesystem: "apfs".to_string(),
        storage_kind: "SSD".to_string(),
        is_removable: false,
        is_read_only: true,
        is_accessible: true,
        access_issue: None,
    };

    let dto = DriveDto::from(&volume);

    assert_eq!(dto.id, "/data");
    assert_eq!(dto.used_space, 60);
    assert_eq!(dto.storage_kind, "SSD");
    assert!(dto.is_read_only);
}

#[test]
fn supplied_scan_config_can_disable_min_visible_folder_filter() {
    let dto = ScanConfigDto {
        requested_depth: Some(2),
        preload_depth: Some(1),
        show_hidden: Some(false),
        expand_above_bytes: Some(1_000_000_000u64),
        min_visible_folder_bytes: None,
        stay_on_filesystem: Some(true),
        follow_symlinks: Some(false),
        dedupe_hard_links: None,
        size_measurement_mode: Some(SizeMeasurementMode::LogicalOnly),
        live_updates: None,
    };

    let config = ScanConfig::from(dto);

    assert_eq!(config.min_visible_folder_bytes, None);
    assert_eq!(config.size_measurement_mode, SizeMeasurementMode::LogicalOnly);
}

#[test]
fn maps_outside_volume_driver_error_to_outside_volume_code() {
    let error = command_error(DriverError::PathOutsideVolume("outside".to_string()));

    assert_eq!(error.code, CommandErrorCode::PathOutsideVolume);
}

#[test]
fn default_scan_config_dto_round_trips_to_the_default_config() {
    let config = ScanConfig::from(ScanConfigDto::default());
    assert_eq!(config, ScanConfig::default());
}

#[test]
fn left_out_rules_take_defaults_and_are_normalized() {
    let dto = ScanConfigDto {
        requested_depth: Some(1),
        preload_depth: Some(5),
        show_hidden: None,
        expand_above_bytes: None,
        min_visible_folder_bytes: Some(7),
        stay_on_filesystem: None,
        follow_symlinks: None,
        dedupe_hard_links: None,
        size_measurement_mode: None,
        live_updates: None,
    };
    let config = ScanConfig::from(dto);
    let default = ScanConfig::default();
    assert_eq!(config.preload_depth, 1);
    assert_eq!(config.expand_above_bytes, default.expand_above_bytes);
    assert_eq!(config.min_visible_folder_bytes, Some(7));
    assert_eq!(config.live_updates, default.live_updates);
}

#[test]
fn command_errors_carry_code_and_message() {
    let cases = vec![
        (DriverError::JobNotFound("scan-3".to_string()), CommandErrorCode::JobNotFound, "job not found: scan-3"),
        (DriverError::DriverUnavailable("x".to_string()), CommandErrorCode::DriverUnavailable, "driver unavailable: x"),
        (DriverError::InvalidPath("p".to_string()), CommandErrorCode::InvalidRoot, "invalid path: p"),
        (DriverError::PermissionDenied("q".to_string()), CommandErrorCode::PathOutsideRoot, "permission denied: q"),
        (DriverError::ScanCanceled, CommandErrorCode::ScanStartFailed, "scan canceled"),
        (
            DriverError::PathOutsideVolume("/a is outside /b".to_string()),
            CommandErrorCode::PathOutsideVolume,
            "path is outside the selected volume: /a is outside /b",
        ),
    ];
    for (error, code, message) in cases {
        let mapped = command_error(error);
        assert_eq!(mapped.code, code);
        assert_eq!(mapped.message, message);
    }
    let io = command_error(DriverError::Io {
        path: "/x".to_string(),
        source: std::io::Error::new(std::io::ErrorKind::NotFound, "gone"),
    });
    assert_eq!(io.code, CommandErrorCode::DriverUnavailable);
    assert_eq!(io.message, "filesystem operation failed for /x: gone");
    let made = CommandError::new(CommandErrorCode::NoDrives, "No mounted drives found.".to_string());
    assert_eq!(made.message, "No mounted drives found.");
}

#[test]
fn issue_dto_names_the_kind() {
    let issue = ScanIssue {
        path: "/a".to_string(),
        kind: ReadIssueKind::FilesystemBoundary,
        message: "m".to_string(),
    };
    let dto = ScanIssueDto::from(&issue);
    assert_eq!(dto.kind, "FilesystemBoundary");
    assert_eq!(dto.path, "/a");
    assert_eq!(display_path(&"/x/y".to_string()), "/x/y");
}

#[test]
fn listing_dto_keeps_every_field() {
    let listing = DirectoryListing {
        path: "/v".to_string(),
        config_fingerprint: "f".to_string(),
        children: Vec::new(),
        total_visible_size: 1,
        total_measured_size: 2,
        total_logical_size: 3,
        state: NodeState::Partial,
        loaded_depth: 1,
        has_more_depth: true,
        issues: vec![ScanIssue {
            path: "/v/x".to_string(),
            kind: ReadIssueKind::PermissionDenied,
            message: "no".to_string(),
        }],
        generation: 9,
    };
    let dto = DirectoryListingDto::from(&listing);
    assert_eq!(dto.total_logical_size, 3);
    assert_eq!(dto.generation, 9);
    assert_eq!(dto.issues[0].kind, "PermissionDenied");
    assert!(dto.has_more_depth);
}

#[test]
fn progress_events_map_to_interface_events() {
    let snapshot = ProgressSnapshot::new("scan-1".to_string(), "req-1".to_string());
    let event = DriverEvent::DirectoryProgress {
        job_id: "scan-1".to_string(),
        request_id: "req-1".to_string(),
        path: "/v".to_string(),
        updates: vec![DirectoryProgressUpdate {
            path: "/v/a".to_string(),
            size: 5,
            logical_size: 4,
            state: NodeState::Working,
        }],
        snapshot: snapshot.clone(),
    };
    match FsProgressEventDto::from(event) {
        FsProgressEventDto::DirectoryProgress { job_id, path, updates, snapshot: s, .. } => {
            assert_eq!(job_id, "scan-1");
            assert_eq!(path, "/v");
            assert_eq!(updates.len(), 1);
            assert_eq!(updates[0].size, 5);
            assert_eq!(s, snapshot);
        }
        other => panic!("unexpected {:?}", other),
    }
    let invalidated = FsProgressEventDto::from(DriverEvent::PathInvalidated {
        path: "/v/a".to_string(),
        scope: InvalidationScope::PathOnly,
        generation: 3,
    });
    assert_eq!(
        invalidated,
        FsProgressEventDto::PathInvalidated {
            path: "/v/a".to_string(),
            scope: InvalidationScope::PathOnly,
            generation: 3,
        }
    );
}

#[test]
fn receipts_and_scopes_convert() {
    let receipt = StartScanReceiptDto::from(StartScanReceipt {
        job_id: "scan-2".to_string(),
        request_id: "req-2".to_string(),
    });
    assert_eq!(receipt.job_id, "scan-2");
    let invalidation = InvalidationReceiptDto::from(InvalidationReceipt {
        invalidated_paths: vec!["/a".to_string()],
        superseded_job_ids: vec!["scan-1".to_string()],
    });
    assert_eq!(invalidation.invalidated_paths, vec!["/a".to_string()]);
    assert_eq!(
        InvalidationScope::from(InvalidationScopeDto::PathAndDescendants),
        InvalidationScope::PathAndDescendants
    );
    let progress = FsOpenProgressEventDto::new("/a".to_string(), DirectoryOpenProgress { entries_processed: 12 });
    assert_eq!(progress.entries_processed, 12);
}
