use hd_analyzer_core::live::{progress_publish_due, LiveUpdateCollector};
use hd_analyzer_core::rules::ScanConfig;
use hd_analyzer_core::scan::PreciseScanProgress;

fn config(min_bytes_delta: u64, max_batch_size: usize, throttle_ms: u64) -> ScanConfig {
    let mut config = ScanConfig::default();
    config.live_updates.enabled = true;
    config.live_updates.min_bytes_delta = min_bytes_delta;
    config.live_updates.max_batch_size = max_batch_size;
    config.live_updates.throttle_ms = throttle_ms;
    config
}

#[test]
fn disabled_collector_reports_nothing() {
    let mut config = config(0, 1, 0);
    config.live_updates.enabled = false;
    let mut collector = LiveUpdateCollector::new(&config, 0);
    assert!(collector
        .add_bytes(Some("/a"), 100, 100, PreciseScanProgress::default(), 10_000)
        .is_none());
    assert!(collector.flush_all(PreciseScanProgress::default(), 10_000).is_none());
}

#[test]
fn batch_is_flushed_when_full() {
    let mut collector = LiveUpdateCollector::new(&config(0, 2, 1_000_000), 0);
    let stats = PreciseScanProgress::default();
    assert!(collector.add_bytes(Some("/a"), 10, 5, stats, 1).is_none());
    let update = collector
        .add_bytes(Some("/b"), 20, 7, stats, 2)
        .expect("a full batch is flushed");
    let mut paths: Vec<(String, u64, u64)> = update
        .directory_updates
        .iter()
        .map(|u| (u.path.clone(), u.allocated_bytes, u.logical_bytes))
        .collect();
    paths.sort();
    assert_eq!(
        paths,
        vec![("/a".to_string(), 10, 5), ("/b".to_string(), 20, 7)]
    );
    // Nothing is pending after a flush.
    assert!(collector.flush(stats, 3).is_none());
}

#[test]
fn totals_accumulate_per_directory() {
    let mut collector = LiveUpdateCollector::new(&config(0, 100, 1_000_000), 0);
    let stats = PreciseScanProgress::default();
    assert!(collector.add_bytes(Some("/a"), 10, 1, stats, 1).is_none());
    assert!(collector.add_bytes(Some("/a"), 15, 2, stats, 2).is_none());
    let update = collector.flush(stats, 3).expect("pending totals are flushed");
    assert_eq!(update.directory_updates.len(), 1);
    assert_eq!(update.directory_updates[0].allocated_bytes, 25);
    assert_eq!(update.directory_updates[0].logical_bytes, 3);
}

#[test]
fn small_changes_wait_for_the_least_delta() {
    let mut collector = LiveUpdateCollector::new(&config(100, 1, 1_000_000), 0);
    let stats = PreciseScanProgress::default();
    assert!(collector.add_bytes(Some("/a"), 50, 50, stats, 1).is_none());
    let update = collector
        .add_bytes(Some("/a"), 60, 0, stats, 2)
        .expect("the total reached the least delta");
    assert_eq!(update.directory_updates[0].allocated_bytes, 110);
    // A further change below the delta is not queued.
    assert!(collector.add_bytes(Some("/a"), 10, 10, stats, 3).is_none());
    // Flushing everything reports the total that moved since.
    let last = collector.flush_all(stats, 4).expect("changed totals are reported");
    assert_eq!(last.directory_updates.len(), 1);
    assert_eq!(last.directory_updates[0].allocated_bytes, 120);
    assert_eq!(last.directory_updates[0].logical_bytes, 60);
}

#[test]
fn throttle_flushes_after_time() {
    let mut collector = LiveUpdateCollector::new(&config(0, 100, 250), 1_000);
    let stats = PreciseScanProgress { entries_visited: 3, ..PreciseScanProgress::default() };
    assert!(collector.add_bytes(Some("/a"), 1, 1, stats, 1_100).is_none());
    let update = collector
        .add_bytes(Some("/b"), 1, 1, stats, 1_250)
        .expect("the throttle time passed");
    assert_eq!(update.progress.entries_visited, 3);
    assert_eq!(update.directory_updates.len(), 2);
}

#[test]
fn progress_counts_saturate() {
    let mut progress = PreciseScanProgress { bytes_measured: u64::MAX - 1, ..PreciseScanProgress::default() };
    let after = progress.add_file(10);
    assert_eq!(after.bytes_measured, u64::MAX);
    assert_eq!(after.files_visited, 1);
    assert_eq!(progress.add_entries(4).entries_visited, 4);
    assert_eq!(progress.add_directory().directories_visited, 1);
}

#[test]
fn progress_is_published_after_the_interval() {
    assert!(!progress_publish_due(false, 0, 1_000));
    assert!(!progress_publish_due(true, 1_000, 1_249));
    assert!(progress_publish_due(true, 1_000, 1_250));
}
