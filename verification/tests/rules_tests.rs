use hd_analyzer_core::rules::{LiveUpdateConfig, ScanConfig, SizeMeasurementMode};

#[test]
fn normalized_caps_preload_depth() {
    let config = ScanConfig {
        requested_depth: 2,
        preload_depth: 10,
        ..ScanConfig::default()
    }
    .normalized();

    assert_eq!(config.preload_depth, 2);
}

#[test]
fn fingerprint_changes_when_visibility_changes() {
    let hidden = ScanConfig::default();
    let visible = ScanConfig {
        show_hidden: true,
        ..ScanConfig::default()
    };

    assert_ne!(hidden.fingerprint(), visible.fingerprint());
}

#[test]
fn fingerprint_changes_when_hard_link_policy_changes() {
    let deduped = ScanConfig::default();
    let counted_per_path = ScanConfig {
        dedupe_hard_links: false,
        ..ScanConfig::default()
    };

    assert_ne!(deduped.fingerprint(), counted_per_path.fingerprint());
}

#[test]
fn fingerprint_changes_when_size_measurement_mode_changes() {
    let logical_only = ScanConfig::default();
    let allocated = ScanConfig {
        size_measurement_mode: SizeMeasurementMode::LogicalAndAllocated,
        ..ScanConfig::default()
    };

    assert_ne!(logical_only.fingerprint(), allocated.fingerprint());
}

#[test]
fn fingerprint_changes_when_live_update_policy_changes() {
    let default_updates = ScanConfig::default();
    let slower_updates = ScanConfig {
        live_updates: LiveUpdateConfig {
            throttle_ms: 1_000,
            ..LiveUpdateConfig::default()
        },
        ..ScanConfig::default()
    };

    assert_ne!(default_updates.fingerprint(), slower_updates.fingerprint());
}

#[test]
fn threshold_rules_are_strict_for_expand_and_inclusive_for_visibility() {
    let config = ScanConfig {
        expand_above_bytes: Some(10),
        min_visible_folder_bytes: Some(5),
        requested_depth: 2,
        ..ScanConfig::default()
    };

    assert!(!config.should_expand_folder(10, 0));
    assert!(config.should_expand_folder(11, 0));
    assert!(config.should_show_folder(5));
    assert!(!config.should_show_folder(4));
}

#[test]
fn fingerprint_is_sixteen_hex_digits_and_stable() {
    let config = ScanConfig::default();
    let fp = config.fingerprint();
    assert_eq!(fp.len(), 16);
    assert!(fp.chars().all(|c| c.is_ascii_hexdigit() && !c.is_ascii_uppercase()));
    assert_eq!(fp, config.fingerprint());
}

#[test]
fn normalizing_twice_changes_nothing_more() {
    let once = ScanConfig { requested_depth: 3, preload_depth: 7, ..ScanConfig::default() }.normalized();
    assert_eq!(once.normalized(), once);
    assert_eq!(once.requested_depth, 3);
}

#[test]
fn expansion_needs_depth_below_requested() {
    let config = ScanConfig { expand_above_bytes: Some(10), requested_depth: 2, ..ScanConfig::default() };
    assert!(!config.should_expand_folder(11, 2));
    let never = ScanConfig { expand_above_bytes: None, requested_depth: 2, ..ScanConfig::default() };
    assert!(!never.should_expand_folder(u64::MAX, 0));
    let all_shown = ScanConfig { min_visible_folder_bytes: None, ..ScanConfig::default() };
    assert!(all_shown.should_show_folder(0));
}

#[test]
fn hidden_names_follow_the_dot_rule() {
    let config = ScanConfig::default();
    assert!(config.is_hidden_name(".cache"));
    assert!(!config.is_hidden_name("."));
    assert!(!config.is_hidden_name(".."));
    assert!(!config.is_hidden_name("visible"));
    let shown = ScanConfig { show_hidden: true, ..ScanConfig::default() };
    assert!(!shown.is_hidden_name(".cache"));
}
