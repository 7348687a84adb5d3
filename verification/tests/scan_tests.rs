use hd_analyzer_core::driver::{
    DeleteSafetyClassification, EntryKind, NodeState, PathDeleteSafety, PathNode, ReadIssueKind,
};
use hd_analyzer_core::rules::{ScanConfig, SizeMeasurementMode};
use hd_analyzer_core::scan::{
    crosses_filesystem_boundary, entry_action, filesystem_issue, issue_kind_for, sort_nodes,
    EntryAction, ListingBuilder,
};
use hd_analyzer_core::size::{measure_file_without_dedupe, FileFacts, HardLinkDedupe};

fn safety() -> PathDeleteSafety {
    PathDeleteSafety {
        classification: DeleteSafetyClassification::UserContent,
        can_delete_now: true,
        flags: Vec::new(),
        reason: "User content".to_string(),
    }
}

fn facts(len: u64, blocks: u64, links: u64, ino: u64) -> FileFacts {
    FileFacts {
        len,
        blocks: Some(blocks),
        compressed_size: None,
        link_count: Some(links),
        dev: Some(1),
        ino: Some(ino),
    }
}

fn node(name: &str, size: u64) -> PathNode {
    PathNode {
        path: format!("/r/{name}"),
        name: name.to_string(),
        kind: EntryKind::File,
        parent_path: Some("/r".to_string()),
        depth_from_request: 1,
        size,
        logical_size: size,
        state: NodeState::Complete,
        visible: true,
        children_known: true,
        active_job_id: None,
        delete_safety: safety(),
        issues: Vec::new(),
    }
}

#[test]
fn filesystem_issue_classifies_raw_eperm_as_permission_denied() {
    let issue = filesystem_issue("/protected".to_string(), std::io::Error::from_raw_os_error(1));

    assert_eq!(issue.kind, ReadIssueKind::PermissionDenied);
}

#[test]
fn other_failures_are_metadata_failures() {
    let issue = filesystem_issue(
        "/missing".to_string(),
        std::io::Error::new(std::io::ErrorKind::NotFound, "gone"),
    );
    assert_eq!(issue.kind, ReadIssueKind::MetadataFailed);
    assert_eq!(issue.path, "/missing");
    assert_eq!(issue_kind_for(true, None), ReadIssueKind::PermissionDenied);
    assert_eq!(issue_kind_for(false, Some(2)), ReadIssueKind::MetadataFailed);
}

#[test]
fn measurement_uses_nonzero_size_for_normal_file() {
    let mut dedupe = HardLinkDedupe::new();
    let measurement = dedupe.measure_file(&facts(5, 8, 1, 10));

    assert!(measurement.allocated_bytes > 0);
    assert_eq!(measurement.allocated_bytes, 8 * 512);
    assert_eq!(measurement.logical_bytes, 5);
}

#[test]
fn hard_linked_file_counts_allocated_size_once() {
    let mut dedupe = HardLinkDedupe::new();
    let first_size = dedupe.measure_file(&facts(6, 8, 2, 42));
    let second_size = dedupe.measure_file(&facts(6, 8, 2, 42));

    assert!(first_size.allocated_bytes > 0);
    assert_eq!(second_size.allocated_bytes, 0);
    assert!(second_size.deduped);
}

#[test]
fn logical_only_mode_uses_the_length() {
    let measurement = measure_file_without_dedupe(&facts(5, 8, 1, 10), SizeMeasurementMode::LogicalOnly);
    assert_eq!(measurement.allocated_bytes, 5);
    let mut dedupe = HardLinkDedupe::new();
    let first = dedupe.measure_file_with_policy(&facts(6, 8, 2, 7), false, SizeMeasurementMode::LogicalAndAllocated);
    let second = dedupe.measure_file_with_policy(&facts(6, 8, 2, 7), false, SizeMeasurementMode::LogicalAndAllocated);
    assert_eq!(first.allocated_bytes, second.allocated_bytes);
    assert!(!second.deduped);
}

#[test]
fn hidden_files_count_without_rows() {
    let mut builder = ListingBuilder::new();
    let hidden = facts(3, 8, 1, 1);
    let visible = facts(3, 8, 1, 2);
    let mut dedupe = HardLinkDedupe::new();
    let hidden_m = dedupe.measure_file(&hidden);
    let visible_m = dedupe.measure_file(&visible);
    builder.add_file("/r", 0, "/r/.hidden".to_string(), ".hidden".to_string(), false, &hidden_m, safety());
    builder.add_file("/r", 0, "/r/visible".to_string(), "visible".to_string(), true, &visible_m, safety());
    let listing = builder.finish("/r", &ScanConfig::default(), "fp".to_string());
    assert_eq!(listing.children.len(), 1);
    assert_eq!(listing.children[0].name, "visible");
    assert!(listing.total_measured_size > listing.total_visible_size);
    assert!(listing.total_logical_size > listing.children[0].logical_size);
    assert!(listing.issues.is_empty());
}

#[test]
fn boundary_directories_are_reported_when_visible() {
    let mut builder = ListingBuilder::new();
    builder.add_boundary("/r/mnt".to_string(), true);
    builder.add_boundary("/r/.mnt".to_string(), false);
    assert_eq!(builder.issues.len(), 1);
    assert_eq!(builder.issues[0].kind, ReadIssueKind::FilesystemBoundary);
    assert_eq!(builder.issues[0].message, "Directory is on a different filesystem.");
}

#[test]
fn rows_sort_by_size_then_name_stably() {
    let sorted = sort_nodes(vec![node("b", 1), node("c", 5), node("a", 1)]);
    let names: Vec<&str> = sorted.iter().map(|n| n.name.as_str()).collect();
    assert_eq!(names, vec!["c", "a", "b"]);
}

#[test]
fn entry_actions_follow_the_configuration() {
    let config = ScanConfig::default();
    assert_eq!(entry_action(&config, true, false, false, false), EntryAction::MeasureLink);
    assert_eq!(entry_action(&config, false, true, false, true), EntryAction::Boundary);
    assert_eq!(entry_action(&config, false, true, false, false), EntryAction::Directory);
    assert_eq!(entry_action(&config, false, false, true, false), EntryAction::File);
    assert_eq!(entry_action(&config, false, false, false, false), EntryAction::Skip);
}

#[test]
fn filesystem_boundary_needs_two_known_devices() {
    assert!(!crosses_filesystem_boundary(None, Some(2)));
    assert!(!crosses_filesystem_boundary(Some(1), None));
    assert!(!crosses_filesystem_boundary(Some(1), Some(1)));
    assert!(crosses_filesystem_boundary(Some(1), Some(2)));
}
