use hd_analyzer_core::clock::{chrono_like_timestamp, format_elapsed, format_elapsed_seconds, timestamp_text};
use hd_analyzer_core::commands::{accessible_path, existing_absolute_path, trim};
use hd_analyzer_core::dto::CommandErrorCode;
use hd_analyzer_core::safety::{mode_allows_write_execute, mode_is_executable};

#[test]
fn elapsed_time_uses_the_largest_unit() {
    assert_eq!(format_elapsed_seconds(0), "0s");
    assert_eq!(format_elapsed_seconds(59), "59s");
    assert_eq!(format_elapsed_seconds(61), "1m 1s");
    assert_eq!(format_elapsed_seconds(3_600), "1h 0m 0s");
    assert_eq!(format_elapsed_seconds(3_725), "1h 2m 5s");
    assert_eq!(format_elapsed(std::time::Duration::from_millis(61_900)), "1m 1s");
}

#[test]
fn timestamps_are_decimal_milliseconds() {
    assert_eq!(timestamp_text(Some(1_700_000_000_123)), "1700000000123");
    assert_eq!(timestamp_text(None), "0");
    let now = chrono_like_timestamp();
    assert!(!now.is_empty());
    assert!(now.chars().all(|c| c.is_ascii_digit()));
}

#[test]
fn trim_removes_surrounding_white_space() {
    assert_eq!(trim("  /a b \n"), "/a b");
    assert_eq!(trim(" \t "), "");
    assert_eq!(trim("x"), "x");
}

#[test]
fn command_paths_must_be_absolute_and_non_empty() {
    let empty = existing_absolute_path("   ").unwrap_err();
    assert_eq!(empty.code, CommandErrorCode::InvalidRoot);
    assert_eq!(empty.message, "Path cannot be empty.");
    let relative = existing_absolute_path(" docs/a ").unwrap_err();
    assert_eq!(relative.code, CommandErrorCode::InvalidRoot);
    assert_eq!(relative.message, "Path must be absolute: docs/a");
    assert_eq!(existing_absolute_path(" /Users/a ").unwrap(), "/Users/a");
}

#[test]
fn unreachable_paths_name_the_path() {
    let requested = "/nope".to_string();
    let error = accessible_path(
        &requested,
        Err(std::io::Error::new(std::io::ErrorKind::NotFound, "missing")),
    )
    .unwrap_err();
    assert_eq!(error.code, CommandErrorCode::OpenItemFailed);
    assert_eq!(error.message, "Cannot access /nope: missing");
    assert_eq!(accessible_path(&requested, Ok("/real".to_string())).unwrap(), "/real");
}

#[test]
fn write_permission_follows_owner_group_and_others() {
    assert!(mode_allows_write_execute(0o000, 5, 5, 0, 0));
    assert!(mode_allows_write_execute(0o700, 5, 6, 5, 9));
    assert!(!mode_allows_write_execute(0o577, 5, 6, 5, 6));
    assert!(mode_allows_write_execute(0o030, 1, 6, 5, 6));
    assert!(!mode_allows_write_execute(0o770, 1, 2, 5, 6));
    assert!(mode_allows_write_execute(0o003, 1, 2, 5, 6));
    assert!(mode_is_executable(0o100));
    assert!(!mode_is_executable(0o644));
}
