use hd_analyzer_core::paths::{compact_path, format_bytes};

#[test]
fn compacts_child_path_under_root() {
    let root = "/tmp/root";
    let child = "/tmp/root/a/b";
    assert_eq!(compact_path(child, root), "/tmp/root/a/b");
}

#[test]
fn compact_path_of_root_and_outside_paths() {
    assert_eq!(compact_path("/tmp/root/", "/tmp/root"), "/tmp/root");
    assert_eq!(compact_path("/elsewhere/x", "/tmp/root"), "/elsewhere/x");
    assert_eq!(compact_path("/tmp/root//a", "/tmp/root"), "/tmp/root/a");
}

#[test]
fn bytes_are_written_in_decimal_units() {
    assert_eq!(format_bytes(0), "0 B");
    assert_eq!(format_bytes(1_500), "1.50 kB");
    assert_eq!(format_bytes(2_000_000), "2 MB");
}
