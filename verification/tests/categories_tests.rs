use hd_analyzer_core::categories::{collect_categories, detect_file_kind, normalized_extension, FileKind};

#[test]
fn classifies_common_code_extensions() {
    assert_eq!(detect_file_kind("main.rs", false), FileKind::Code);
    assert_eq!(detect_file_kind("config.JSON", false), FileKind::Code);
}

#[test]
fn classifies_unknown_extensions_as_other() {
    assert_eq!(detect_file_kind("payload.unknown", false), FileKind::Other);
}

#[test]
fn extensionless_executables_are_apps() {
    assert_eq!(detect_file_kind("/usr/bin/tool", true), FileKind::Apps);
    assert_eq!(detect_file_kind("/usr/bin/tool", false), FileKind::Other);
    assert_eq!(normalized_extension("/a/Movie.MKV"), Some("mkv".to_string()));
    assert_eq!(normalized_extension("/a/.bashrc"), None);
}

#[test]
fn categories_are_listed_largest_first() {
    let usage = collect_categories(vec![
        (FileKind::Code, 5),
        (FileKind::Video, 50),
        (FileKind::Audio, 5),
        (FileKind::Other, 0),
    ]);
    let kinds: Vec<FileKind> = usage.iter().map(|u| u.kind).collect();
    assert_eq!(kinds[0], FileKind::Video);
    assert_eq!(usage[0].size, 50);
    assert_eq!(usage.len(), 4);
    assert_eq!(usage[3].size, 0);
    assert_eq!(FileKind::Documents.label(), "Docs");
}
