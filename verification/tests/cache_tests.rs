use hd_analyzer_core::cache::{CacheFreshness, DirectoryCache};
use hd_analyzer_core::driver::{
    DirectoryListing, DirectorySizeSummary, NodeState, PreciseDirectoryScan, PreciseScanProfile,
};

fn listing(path: &str) -> DirectoryListing {
    DirectoryListing {
        path: path.to_string(),
        config_fingerprint: "a".to_string(),
        children: Vec::new(),
        total_visible_size: 0,
        total_measured_size: 0,
        total_logical_size: 0,
        state: NodeState::Complete,
        loaded_depth: 1,
        has_more_depth: false,
        issues: Vec::new(),
        generation: 0,
    }
}

fn summary(path: &str, allocated_size: u64) -> DirectorySizeSummary {
    DirectorySizeSummary {
        path: path.to_string(),
        config_fingerprint: "a".to_string(),
        allocated_size,
        logical_size: allocated_size / 2,
        has_visible_children: false,
        issues: Vec::new(),
    }
}

#[test]
fn upsert_bumps_generation() {
    let mut cache = DirectoryCache::default();
    let first = cache.upsert(listing("/tmp"), CacheFreshness::Fresh);
    let second = cache.upsert(listing("/tmp/a"), CacheFreshness::Fresh);

    assert!(second.generation > first.generation);
}

#[test]
fn descendant_invalidation_preserves_unrelated_entries() {
    let mut cache = DirectoryCache::default();
    cache.upsert(listing("/tmp/a"), CacheFreshness::Fresh);
    cache.upsert(listing("/tmp/a/b"), CacheFreshness::Fresh);
    cache.upsert(listing("/tmp/c"), CacheFreshness::Fresh);

    let invalidated = cache.mark_stale("/tmp/a", true);

    assert_eq!(invalidated.len(), 2);
    assert_eq!(cache.get("/tmp/c", "a").unwrap().freshness, CacheFreshness::Fresh);
}

#[test]
fn stored_listing_is_read_back_with_its_generation() {
    let mut cache = DirectoryCache::new();
    let stored = cache.upsert(listing("/tmp/x"), CacheFreshness::Partial);
    let read = cache.get("/tmp/x", "a").unwrap();
    assert_eq!(read.generation, 1);
    assert_eq!(read.listing.generation, 1);
    assert_eq!(read.freshness, CacheFreshness::Partial);
    assert_eq!(stored.path, "/tmp/x");
    assert!(read.active_jobs.is_empty());
}

#[test]
fn upsert_replaces_entry_of_equal_path() {
    let mut cache = DirectoryCache::new();
    cache.upsert(listing("/tmp/x"), CacheFreshness::Partial);
    cache.upsert(listing("/tmp//x/"), CacheFreshness::Fresh);
    let read = cache.get("/tmp/x", "a").unwrap();
    assert_eq!(read.freshness, CacheFreshness::Fresh);
    assert_eq!(read.generation, 2);
    assert!(cache.get("/tmp/x", "b").is_none());
}

#[test]
fn path_only_invalidation_reaches_only_the_path() {
    let mut cache = DirectoryCache::new();
    cache.upsert(listing("/tmp/a"), CacheFreshness::Fresh);
    cache.upsert(listing("/tmp/a/b"), CacheFreshness::Fresh);
    let invalidated = cache.mark_stale("/tmp/a", false);
    assert_eq!(invalidated, vec!["/tmp/a".to_string()]);
    assert_eq!(cache.get("/tmp/a", "a").unwrap().freshness, CacheFreshness::Stale);
    assert_eq!(cache.get("/tmp/a", "a").unwrap().listing.state, NodeState::Stale);
    assert_eq!(cache.get("/tmp/a/b", "a").unwrap().freshness, CacheFreshness::Fresh);
}

#[test]
fn invalidated_paths_come_sorted_and_once() {
    let mut cache = DirectoryCache::new();
    cache.upsert(listing("/tmp/a/z"), CacheFreshness::Fresh);
    cache.upsert(listing("/tmp/a"), CacheFreshness::Fresh);
    let mut other = listing("/tmp/a");
    other.config_fingerprint = "b".to_string();
    cache.upsert(other, CacheFreshness::Fresh);
    cache.upsert(listing("/tmp/a/b"), CacheFreshness::Fresh);
    let invalidated = cache.mark_stale("/tmp/a", true);
    assert_eq!(
        invalidated,
        vec!["/tmp/a".to_string(), "/tmp/a/b".to_string(), "/tmp/a/z".to_string()]
    );
}

#[test]
fn precise_scan_totals_are_found_by_path() {
    let mut cache = DirectoryCache::new();
    let precise = PreciseDirectoryScan {
        listing: listing("/v"),
        summaries: vec![summary("/v/a", 10), summary("/v/b", 20), summary("/v/a", 30)],
        profile: PreciseScanProfile::default(),
    };
    let entry = cache.upsert_precise(precise, CacheFreshness::Fresh);
    assert_eq!(entry.generation, 1);
    assert_eq!(cache.get_summary("/v/a", "a").unwrap().allocated_size, 30);
    assert_eq!(cache.get_summary("/v/b/", "a").unwrap().allocated_size, 20);
    assert!(cache.get_summary("/v/a", "b").is_none());
    assert!(cache.get_summary("/v/c", "a").is_none());
    assert!(cache.get("/v", "a").is_some());
}
