use hd_analyzer_core::drives::{drives_from_disks, DiskReport, Drive};

#[test]
fn used_space_saturates_when_available_exceeds_total() {
    let drive = Drive {
        label: "test".to_string(),
        mount_point: "/tmp".to_string(),
        total_space: 10,
        available_space: 20,
        file_system: "testfs".to_string(),
    };

    assert_eq!(drive.used_space(), 0);
}

fn disk(name: &str, mount: &str, total: u64) -> DiskReport {
    DiskReport {
        name: name.to_string(),
        mount_point: mount.to_string(),
        total_space: total,
        available_space: 1,
        file_system: "apfs".to_string(),
    }
}

#[test]
fn drives_are_deduplicated_sorted_and_labelled() {
    let disks = vec![
        disk("b", "/Volumes/B", 10),
        disk("", "/", 20),
        disk("zero", "/Volumes/Z", 0),
        disk("again", "/Volumes/B/", 30),
        disk("a", "/Volumes/A", 40),
        disk("empty", "", 50),
    ];
    let drives = drives_from_disks(&disks, false).unwrap();
    let mounts: Vec<&str> = drives.iter().map(|d| d.mount_point.as_str()).collect();
    assert_eq!(mounts, vec!["/", "/Volumes/A", "/Volumes/B"]);
    assert_eq!(drives[0].label, "/");
    assert_eq!(drives[1].label, "a (/Volumes/A)");
    assert_eq!(drives[2].total_space, 10);
}

#[test]
fn volume_group_root_is_collapsed_into_its_data_volume() {
    let disks = vec![disk("Macintosh HD", "/", 20), disk("Data", "/System/Volumes/Data", 30)];
    let collapsed = drives_from_disks(&disks, true).unwrap();
    assert_eq!(collapsed.len(), 1);
    assert_eq!(collapsed[0].mount_point, "/System/Volumes/Data");
    let kept = drives_from_disks(&disks, false).unwrap();
    assert_eq!(kept.len(), 2);
    assert!(drives_from_disks(&vec![disk("zero", "/", 0)], false).is_none());
    assert!(drives_from_disks(&Vec::new(), true).is_none());
}
