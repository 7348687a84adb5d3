use hd_analyzer_core::aggregate::{snapshot_due, ScanAggregator};
use hd_analyzer_core::browser::{
    key_command, App, Command, DirectorySizes, EnterTarget, Key, ReadError, ScanResult, ScanUpdate,
    Screen,
};
use hd_analyzer_core::categories::FileKind;
use hd_analyzer_core::drives::Drive;

fn drive(mount_point: &str, total_space: u64, available_space: u64) -> Drive {
    Drive {
        label: "Disk".to_string(),
        mount_point: mount_point.to_string(),
        total_space,
        available_space,
        file_system: "apfs".to_string(),
    }
}

fn sizes(pairs: &[(&str, u64)]) -> DirectorySizes {
    let mut sizes = DirectorySizes::new();
    for (path, size) in pairs {
        sizes.insert(path, *size);
    }
    sizes
}

fn result(root: &str, bytes: u64, pairs: &[(&str, u64)], errors: usize) -> ScanResult {
    let mut result = ScanResult::started(root.to_string());
    result.bytes_scanned = bytes;
    result.directory_sizes = sizes(pairs);
    for i in 0..errors {
        result.read_errors.push(ReadError { path: format!("/x{i}"), error: "denied".to_string() });
    }
    result
}

fn browsing(root: &str, subdirs: &[&str], scan: ScanResult, drives: Vec<Drive>) -> App {
    let mut app = App::new(drives);
    app.result = Some(scan);
    app.result_path = Some(root.to_string());
    app.current_subdirs = Some(subdirs.iter().map(|s| s.to_string()).collect());
    app.screen = Screen::Results;
    app
}

#[test]
fn directory_sizes_compare_paths_by_components() {
    let mut sizes = DirectorySizes::new();
    sizes.insert("/a/b", 5);
    assert_eq!(sizes.get("/a//b/"), Some(5));
    sizes.insert("/a/b/", 7);
    assert_eq!(sizes.get("/a/b"), Some(7));
    assert_eq!(sizes.get("/a"), None);
    assert_eq!(sizes.size_of("/a"), 0);
}

#[test]
fn rescan_replaces_subtree_and_moves_ancestors() {
    let mut existing = sizes(&[("/", 100), ("/a", 60), ("/a/b", 40), ("/a/b/c", 10), ("/d", 40)]);
    let fresh = sizes(&[("/a/b", 70), ("/a/b/e", 70)]);
    let total = existing.merge_rescan("/", "/a/b", &fresh, 70, 100);
    assert_eq!(total, 130);
    assert_eq!(existing.get("/a/b"), Some(70));
    assert_eq!(existing.get("/a/b/e"), Some(70));
    assert_eq!(existing.get("/a/b/c"), None);
    assert_eq!(existing.get("/a"), Some(90));
    assert_eq!(existing.get("/"), Some(130));
    assert_eq!(existing.get("/d"), Some(40));
}

#[test]
fn rescan_that_shrinks_never_goes_below_zero() {
    let mut existing = sizes(&[("/r", 10), ("/r/a", 50)]);
    let fresh = DirectorySizes::new();
    let total = existing.merge_rescan("/r", "/r/a", &fresh, 0, 10);
    assert_eq!(total, 0);
    assert_eq!(existing.get("/r"), Some(0));
    assert_eq!(existing.get("/r/a"), None);
}

#[test]
fn rescan_leaves_directories_outside_the_root_alone() {
    let mut existing = sizes(&[("/", 5), ("/r", 10), ("/r/a", 4)]);
    let fresh = sizes(&[("/r/a", 6)]);
    existing.merge_rescan("/r", "/r/a", &fresh, 6, 10);
    assert_eq!(existing.get("/r"), Some(12));
    assert_eq!(existing.get("/"), Some(5));
}

#[test]
fn entries_are_sorted_by_size_then_path() {
    let scan = result("/r", 100, &[("/r/b", 10), ("/r/a", 10), ("/r/c", 30)], 0);
    let app = browsing("/r", &["/r/a", "/r/b", "/r/c", "/r/d"], scan, vec![]);
    let rows: Vec<(String, u64)> = app
        .current_directory_entries()
        .into_iter()
        .map(|e| (e.path, e.size))
        .collect();
    assert_eq!(
        rows,
        vec![
            ("/r/c".to_string(), 30),
            ("/r/a".to_string(), 10),
            ("/r/b".to_string(), 10),
            ("/r/d".to_string(), 0),
        ]
    );
}

#[test]
fn hidden_space_row_appears_at_root_with_errors() {
    let scan = result("/r", 1_000, &[("/r/a", 1_000)], 1);
    let app = browsing("/r", &["/r/a"], scan, vec![drive("/r", 5_000_000, 1_000)]);
    let rows = app.current_directory_entries();
    assert_eq!(rows.len(), 2);
    assert_eq!(rows[1].path, "HIDDEN_SPACE_VIRTUAL_NODE");
    assert_eq!(rows[1].size, 5_000_000 - 1_000 - 1_000);
}

#[test]
fn hidden_space_row_needs_a_large_gap() {
    let scan = result("/r", 1_000, &[("/r/a", 1_000)], 1);
    let app = browsing("/r", &["/r/a"], scan, vec![drive("/r", 1_001_000, 0)]);
    assert_eq!(app.current_directory_entries().len(), 1);
}

#[test]
fn hidden_space_row_needs_read_errors() {
    let scan = result("/r", 1_000, &[("/r/a", 1_000)], 0);
    let app = browsing("/r", &["/r/a"], scan, vec![drive("/r", 50_000_000, 0)]);
    assert_eq!(app.current_directory_entries().len(), 1);
}

#[test]
fn selection_wraps_around() {
    let mut app = App::new(vec![drive("/a", 1, 0), drive("/b", 1, 0)]);
    app.previous_drive();
    assert_eq!(app.selected_drive, 1);
    app.next_drive();
    assert_eq!(app.selected_drive, 0);

    let scan = result("/r", 0, &[], 0);
    let mut app = browsing("/r", &["/r/a", "/r/b"], scan, vec![]);
    app.previous_result_entry();
    assert_eq!(app.selected_result_entry, 1);
    app.next_result_entry();
    assert_eq!(app.selected_result_entry, 0);
}

#[test]
fn start_scan_without_drives_reports_it() {
    let mut app = App::new(vec![]);
    assert_eq!(app.start_scan(), None);
    assert_eq!(app.error_message.as_deref(), Some("No drives were detected on this machine."));
}

#[test]
fn start_scan_reuses_the_shown_scan_of_the_drive() {
    let mut app = App::new(vec![drive("/r", 1, 0)]);
    assert_eq!(app.start_scan(), Some("/r".to_string()));
    app.begin_scan("/r".to_string(), vec!["/r/a".to_string()]);
    assert_eq!(app.screen, Screen::Results);
    app.screen = Screen::SelectDrive;
    assert_eq!(app.start_scan(), None);
    assert_eq!(app.screen, Screen::Results);
}

#[test]
fn entering_rows_and_going_up() {
    let scan = result("/r", 10, &[("/r/a", 10)], 1);
    let mut app = browsing("/r", &["/r/a"], scan, vec![drive("/r", 50_000_000, 0)]);
    match app.enter_target() {
        EnterTarget::Directory(path) => assert_eq!(path, "/r/a"),
        other => panic!("unexpected {other:?}"),
    }
    app.open_directory("/r/a".to_string(), vec![]);
    assert_eq!(app.result_path.as_deref(), Some("/r"));
    app.open_directory("/r/a".to_string(), vec!["/r/a/x".to_string()]);
    assert_eq!(app.result_path.as_deref(), Some("/r/a"));
    assert_eq!(app.parent_target(), Some("/r".to_string()));

    app.show_directory("/r".to_string(), vec!["/r/a".to_string()]);
    assert_eq!(app.parent_target(), None);
    app.selected_result_entry = 1;
    assert!(matches!(app.enter_target(), EnterTarget::ErrorLog));
}

#[test]
fn keys_map_to_commands_per_screen() {
    assert_eq!(key_command(Screen::SelectDrive, Key::Char('q')), Command::Quit);
    assert_eq!(key_command(Screen::SelectDrive, Key::Enter), Command::StartScan);
    assert_eq!(key_command(Screen::Results, Key::Enter), Command::EnterDirectory);
    assert_eq!(key_command(Screen::Results, Key::Char('h')), Command::GoToParent);
    assert_eq!(key_command(Screen::Results, Key::Char('r')), Command::Rescan);
    assert_eq!(key_command(Screen::ErrorLog, Key::Left), Command::CloseErrorLog);
    assert_eq!(key_command(Screen::ErrorLog, Key::Char('x')), Command::Nothing);
}

#[test]
fn error_log_scrolls_within_its_lines() {
    let scan = result("/r", 0, &[], 2);
    let mut app = browsing("/r", &[], scan, vec![]);
    app.scroll_errors_down();
    app.scroll_errors_down();
    assert_eq!(app.error_scroll, 1);
    app.scroll_errors_up();
    app.scroll_errors_up();
    assert_eq!(app.error_scroll, 0);
}

#[test]
fn poll_applies_snapshot_and_keeps_running() {
    let mut app = App::new(vec![drive("/r", 1, 0)]);
    app.begin_scan("/r".to_string(), vec![]);
    let mut tally = ScanAggregator::new("/r".to_string());
    tally.record("/r/a/f", 10, Some(FileKind::Video));
    let update = tally.snapshot();
    assert!(app.poll_scanner(vec![update], None));
    let shown = app.result.as_ref().expect("scan shown");
    assert_eq!(shown.bytes_scanned, 10);
    assert_eq!(shown.directory_sizes.get("/r/a"), Some(10));
    assert_eq!(shown.directory_sizes.get("/r"), Some(10));
}

#[test]
fn poll_applies_finished_scan() {
    let mut app = App::new(vec![drive("/r", 1, 0)]);
    app.begin_scan("/r".to_string(), vec![]);
    let finished = result("/r", 42, &[("/r", 42)], 0);
    assert!(!app.poll_scanner(vec![ScanUpdate::Finished(Ok(finished))], None));
    assert_eq!(app.result.as_ref().map(|r| r.bytes_scanned), Some(42));
    assert!(app.progress.is_none());
    assert_eq!(app.screen, Screen::Results);
}

#[test]
fn poll_reports_failed_scan() {
    let mut app = App::new(vec![drive("/r", 1, 0)]);
    app.begin_scan("/r".to_string(), vec![]);
    assert!(!app.poll_scanner(vec![ScanUpdate::Finished(Err("Unable to access /r".to_string()))], None));
    assert_eq!(app.error_message.as_deref(), Some("Unable to access /r"));
    assert_eq!(app.screen, Screen::SelectDrive);
}

#[test]
fn poll_folds_a_rescan_and_refocuses() {
    let scan = result("/r", 100, &[("/r", 100), ("/r/a", 60), ("/r/b", 40)], 0);
    let mut app = browsing("/r", &["/r/a", "/r/b"], scan, vec![]);
    app.selected_result_entry = 1;
    assert_eq!(app.rescan(), Some("/r/b".to_string()));
    let fresh = result("/r/b", 80, &[("/r/b", 80)], 0);
    assert!(!app.poll_scanner(vec![ScanUpdate::PartialFinished(Ok(fresh))], None));
    let shown = app.result.as_ref().expect("scan shown");
    assert_eq!(shown.bytes_scanned, 140);
    assert_eq!(shown.directory_sizes.get("/r"), Some(140));
    // The rescanned directory is now the largest and stays selected.
    assert_eq!(app.selected_result_entry, 0);
    assert!(app.rescan_focused_path.is_none());
}

#[test]
fn tally_bubbles_sizes_up_to_the_root() {
    let mut tally = ScanAggregator::new("/r".to_string());
    tally.record("/r/a", 0, None);
    tally.record("/r/a/b/f", 7, Some(FileKind::Code));
    assert_eq!(tally.files_scanned, 1);
    assert_eq!(tally.directories_scanned, 1);
    let finished = tally.finish(vec![]);
    assert_eq!(finished.directory_sizes.get("/r/a/b"), Some(7));
    assert_eq!(finished.directory_sizes.get("/r/a"), Some(7));
    assert_eq!(finished.directory_sizes.get("/r"), Some(7));
    assert_eq!(finished.directory_sizes.get("/"), None);
    assert_eq!(finished.categories[0].kind, FileKind::Code);
    assert_eq!(finished.categories[0].size, 7);
}

#[test]
fn tally_lists_the_root_when_nothing_was_reported() {
    let tally = ScanAggregator::new("/r".to_string());
    let finished = tally.finish(vec![]);
    assert_eq!(finished.directory_sizes.get("/r"), Some(0));
}

#[test]
fn snapshots_are_throttled_and_skipped_for_rescans() {
    assert!(!snapshot_due(true, 0, 10_000));
    assert!(!snapshot_due(false, 100, 349));
    assert!(snapshot_due(false, 100, 350));
}
