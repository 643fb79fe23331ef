use file_scanner::commands::scan::{check_scan_path, completion_progress, initial_progress};
use file_scanner::models::{FileCategory, FileEntry, ScanResult, ScanStats};

#[test]
fn the_empty_path_is_refused() {
    assert_eq!(check_scan_path(""), Err("Path cannot be empty".to_string()));
    assert_eq!(check_scan_path("/"), Ok(()));
    assert_eq!(check_scan_path(" "), Ok(()));
    assert_eq!(check_scan_path("relative/dir"), Ok(()));
}

#[test]
fn the_first_notice_counts_nothing() {
    let progress = initial_progress("/some/dir");
    assert_eq!(progress.scanned_count, 0);
    assert_eq!(progress.current_path, "/some/dir");
    assert_eq!(progress.estimated_progress, None);
}

#[test]
fn the_last_notice_counts_every_entry() {
    let entry = FileEntry::new(
        "/d/a.txt".to_string(),
        "a.txt".to_string(),
        false,
        1,
        "2025-01-01T00:00:00+00:00".to_string(),
        FileCategory::Document,
        "txt".to_string(),
        1,
        "/d".to_string(),
    );
    let mut stats = ScanStats::new();
    stats.add_entry(&entry);
    stats.add_entry(&entry);
    stats.add_entry(&entry);
    let result = ScanResult::new(
        "/d".to_string(),
        vec![entry.clone(), entry.clone(), entry],
        stats,
        vec![],
        "2025-01-01T00:00:01+00:00".to_string(),
        1000,
    );
    let progress = completion_progress(&result);
    assert_eq!(progress.scanned_count, 3);
    assert_eq!(progress.scanned_count, result.entries.len() as u64);
    assert_eq!(progress.current_path, "Completed");
    assert_eq!(progress.estimated_progress, Some(100));
}
