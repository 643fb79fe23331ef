use file_scanner::clock::{ClockReading, Timestamp};
use file_scanner::models::{FailureReason, FileCategory};
use file_scanner::outcome::{IoErrorKind, IoFailure};
use file_scanner::paths::{ParsedPath, PathPart};
use file_scanner::scanner::walker::{
    create_file_entry, scan_directory, NodeMetadata, RootProbe, Scan, ScanOptions, VisitedNode,
    WalkEvent, WalkFailure,
};
use std::path::{Component, Path};

const NOW: Timestamp = Timestamp { secs: 1_735_689_600, nanos: 0 };
const NOW_TEXT: &str = "2025-01-01T00:00:00+00:00";

fn parts(path: &str) -> Vec<PathPart> {
    Path::new(path)
        .components()
        .map(|c| match c {
            Component::Prefix(p) => PathPart::Prefix(p.as_os_str().to_string_lossy().to_string()),
            Component::RootDir => PathPart::RootDir,
            Component::CurDir => PathPart::CurDir,
            Component::ParentDir => PathPart::ParentDir,
            Component::Normal(n) => PathPart::Normal(n.to_string_lossy().to_string()),
        })
        .collect()
}

fn parsed(path: &str) -> ParsedPath {
    ParsedPath { text: path.to_string(), parts: parts(path) }
}

fn parent_text(path: &str) -> Option<String> {
    Path::new(path).parent().map(|p| p.to_string_lossy().to_string())
}

fn directory(root: &str) -> RootProbe {
    RootProbe { exists: true, is_directory: true, canonical: Ok(parsed(root)) }
}

fn unreadable(kind: IoErrorKind, message: &str) -> Result<NodeMetadata, IoFailure> {
    Err(IoFailure { kind, message: message.to_string() })
}

fn missing() -> RootProbe {
    RootProbe {
        exists: false,
        is_directory: false,
        canonical: Err("No such file or directory (os error 2)".to_string()),
    }
}

fn node(path: &str, is_directory: bool, len: u64) -> VisitedNode {
    VisitedNode {
        path: parsed(path),
        parent: parent_text(path),
        metadata: Ok(NodeMetadata {
            is_directory,
            len,
            modified: Some(Timestamp { secs: 1_700_000_000, nanos: 0 }),
        }),
    }
}

fn file_event(path: &str, len: u64) -> WalkEvent {
    WalkEvent::Visited(node(path, false, len))
}

fn dir_event(path: &str) -> WalkEvent {
    WalkEvent::Visited(node(path, true, 4096))
}

fn at(elapsed_ms: u64) -> ClockReading {
    ClockReading { elapsed_ms, now: NOW }
}

#[test]
fn test_scan_nonexistent_path() {
    let result = scan_directory(
        "/nonexistent/path/12345",
        missing(),
        &vec![],
        &NOW,
        0,
    );
    assert!(result.is_err());
    assert!(result.unwrap_err().contains("Path not found"));
}

#[test]
fn test_scan_file_not_directory() {
    let probe = RootProbe {
        exists: true,
        is_directory: false,
        canonical: Ok(parsed("/tmp/dir/test.txt")),
    };
    let result = scan_directory("/tmp/dir/test.txt", probe, &vec![], &NOW, 0);
    assert!(result.is_err());
    assert!(result.unwrap_err().contains("Not a directory"));
}

#[test]
fn test_scan_empty_directory() {
    let events = vec![dir_event("/tmp/dir")];
    let result = scan_directory("/tmp/dir", directory("/tmp/dir"), &events, &NOW, 3);
    assert!(result.is_ok());

    let scan_result = result.unwrap();
    assert_eq!(scan_result.entries.len(), 0);
    assert_eq!(scan_result.stats.total_files, 0);
    assert_eq!(scan_result.stats.total_folders, 0);
}

#[test]
fn test_scan_with_files() {
    let events = vec![
        dir_event("/tmp/dir"),
        file_event("/tmp/dir/document.pdf", 12),
        file_event("/tmp/dir/image.jpg", 12),
        dir_event("/tmp/dir/subdir"),
    ];
    let result = scan_directory("/tmp/dir", directory("/tmp/dir"), &events, &NOW, 3);
    assert!(result.is_ok());

    let scan_result = result.unwrap();
    assert_eq!(scan_result.entries.len(), 3);
    assert_eq!(scan_result.stats.total_files, 2);
    assert_eq!(scan_result.stats.total_folders, 1);
    assert_eq!(scan_result.stats.document_count, 1);
    assert_eq!(scan_result.stats.image_count, 1);
}

#[test]
fn test_file_entry_categories() {
    let events = vec![
        dir_event("/tmp/dir"),
        file_event("/tmp/dir/doc.pdf", 0),
        file_event("/tmp/dir/pic.png", 0),
        file_event("/tmp/dir/vid.mp4", 0),
        file_event("/tmp/dir/aud.mp3", 0),
        file_event("/tmp/dir/other.xyz", 0),
    ];
    let result = scan_directory("/tmp/dir", directory("/tmp/dir"), &events, &NOW, 3);
    assert!(result.is_ok());

    let scan_result = result.unwrap();
    assert_eq!(scan_result.stats.document_count, 1);
    assert_eq!(scan_result.stats.image_count, 1);
    assert_eq!(scan_result.stats.video_count, 1);
    assert_eq!(scan_result.stats.audio_count, 1);
    assert_eq!(scan_result.stats.other_count, 1);
}

#[test]
fn fatal_errors_name_the_requested_path() {
    let not_found = scan_directory("/gone", missing(), &vec![], &NOW, 0);
    assert_eq!(not_found.unwrap_err(), "Path not found: /gone");

    let probe = RootProbe {
        exists: true,
        is_directory: false,
        canonical: Ok(parsed("/a/file")),
    };
    let not_directory = scan_directory("/a/file", probe, &vec![], &NOW, 0);
    assert_eq!(not_directory.unwrap_err(), "Not a directory: /a/file");

    let probe = RootProbe {
        exists: true,
        is_directory: true,
        canonical: Err("too many links".to_string()),
    };
    let no_canonical = scan_directory("/a/dir", probe, &vec![], &NOW, 0);
    assert_eq!(no_canonical.unwrap_err(), "Failed to canonicalize path: too many links");

    let empty = scan_directory("", missing(), &vec![], &NOW, 0);
    assert_eq!(empty.unwrap_err(), "Path not found: ");
}

#[test]
fn a_missing_path_is_reported_before_a_path_that_is_no_directory() {
    let probe = RootProbe {
        exists: false,
        is_directory: false,
        canonical: Ok(parsed("/x")),
    };
    assert_eq!(Scan::begin("/x", probe).unwrap_err(), "Path not found: /x");
}

#[test]
fn the_result_carries_root_time_and_duration() {
    let probe = RootProbe {
        exists: true,
        is_directory: true,
        canonical: Ok(parsed("/real/target")),
    };
    let result = scan_directory("link", probe, &vec![], &NOW, 1234).unwrap();
    assert_eq!(result.root_path, "/real/target");
    assert_eq!(result.completed_at, NOW_TEXT);
    assert_eq!(result.duration_ms, 1234);
    assert!(result.entries.is_empty());
    assert!(result.failed_entries.is_empty());
}

#[test]
fn an_entry_is_built_from_a_file_node() {
    let root = parts("/scan");
    let entry = create_file_entry(&node("/scan/docs/Report.PDF", false, 2048), &root, &NOW).unwrap();
    assert_eq!(entry.path, "/scan/docs/Report.PDF");
    assert_eq!(entry.name, "Report.PDF");
    assert!(!entry.is_directory);
    assert_eq!(entry.size, 2048);
    assert_eq!(entry.modified_at, "2023-11-14T22:13:20+00:00");
    assert_eq!(entry.category, FileCategory::Document);
    assert_eq!(entry.extension, "pdf");
    assert_eq!(entry.depth, 2);
    assert_eq!(entry.parent_path, "/scan/docs");
}

#[test]
fn an_entry_is_built_from_a_directory_node() {
    let root = parts("/scan");
    let entry = create_file_entry(&node("/scan/photos.jpg", true, 4096), &root, &NOW).unwrap();
    assert_eq!(entry.name, "photos.jpg");
    assert!(entry.is_directory);
    assert_eq!(entry.size, 0);
    assert_eq!(entry.category, FileCategory::Folder);
    assert_eq!(entry.extension, "");
    assert_eq!(entry.depth, 1);
    assert_eq!(entry.parent_path, "/scan");
}

#[test]
fn a_node_without_a_time_of_change_takes_the_current_time() {
    let root = parts("/scan");
    let mut n = node("/scan/a.txt", false, 1);
    n.metadata = Ok(NodeMetadata { is_directory: false, len: 1, modified: None });
    let entry = create_file_entry(&n, &root, &NOW).unwrap();
    assert_eq!(entry.modified_at, NOW_TEXT);

    let mut n = node("/scan/b.txt", false, 1);
    n.metadata = Ok(NodeMetadata {
        is_directory: false,
        len: 1,
        modified: Some(Timestamp { secs: i64::MAX, nanos: 0 }),
    });
    let entry = create_file_entry(&n, &root, &NOW).unwrap();
    assert_eq!(entry.modified_at, NOW_TEXT);
}

#[test]
fn a_node_that_is_not_under_the_root_has_depth_zero() {
    let root = parts("/scan");
    let entry = create_file_entry(&node("/elsewhere/a/b.txt", false, 1), &root, &NOW).unwrap();
    assert_eq!(entry.depth, 0);
    assert_eq!(entry.parent_path, "/elsewhere/a");
}

#[test]
fn depth_does_not_depend_on_how_the_root_was_asked_for() {
    for asked in [".", "r", "../x/r", "/link/to/r", "/r/"] {
        let probe = RootProbe { exists: true, is_directory: true, canonical: Ok(parsed("/r")) };
        let events = vec![
            dir_event("/r"),
            file_event("/r/x", 1),
            dir_event("/r/a"),
            file_event("/r/a/b", 1),
        ];
        let result = scan_directory(asked, probe, &events, &NOW, 0).unwrap();
        assert_eq!(result.root_path, "/r");
        let depths: Vec<u32> = result.entries.iter().map(|e| e.depth).collect();
        assert_eq!(depths, vec![1, 1, 2], "asked as {:?}", asked);
        assert!(result.entries.iter().all(|e| e.depth >= 1));
        for e in result.entries.iter().filter(|e| e.depth == 1) {
            assert_eq!(e.parent_path, result.root_path);
        }
        for child in &result.entries {
            for parent in &result.entries {
                if child.parent_path == parent.path {
                    assert_eq!(child.depth, parent.depth + 1);
                }
            }
        }
    }
}

#[test]
fn a_node_without_name_or_parent_gets_empty_texts() {
    let root = parts("/");
    let n = VisitedNode {
        path: parsed("/"),
        parent: None,
        metadata: Ok(NodeMetadata { is_directory: true, len: 0, modified: None }),
    };
    let entry = create_file_entry(&n, &root, &NOW).unwrap();
    assert_eq!(entry.name, "");
    assert_eq!(entry.parent_path, "");
    assert_eq!(entry.depth, 0);
}

#[test]
fn unreadable_metadata_fail_the_entry() {
    let root = parts("/scan");
    let n = VisitedNode {
        path: parsed("/scan/broken"),
        parent: parent_text("/scan/broken"),
        metadata: unreadable(IoErrorKind::NotFound, "No such file or directory (os error 2)"),
    };
    let outcome = create_file_entry(&n, &root, &NOW);
    assert_eq!(
        outcome.unwrap_err(),
        "Failed to get metadata: No such file or directory (os error 2)"
    );
}

#[test]
fn depth_of_direct_children_is_one_and_grows_by_one() {
    let events = vec![
        dir_event("/r"),
        dir_event("/r/level1"),
        file_event("/r/level1/file1.txt", 1),
        dir_event("/r/level1/level2"),
        file_event("/r/level1/level2/file2.txt", 1),
        dir_event("/r/level1/level2/level3"),
        file_event("/r/level1/level2/level3/file3.txt", 1),
        file_event("/r/top.txt", 1),
    ];
    let result = scan_directory("/r", directory("/r"), &events, &NOW, 0).unwrap();
    let depths: Vec<u32> = result.entries.iter().map(|e| e.depth).collect();
    assert_eq!(depths, vec![1, 2, 2, 3, 3, 4, 1]);
    let parents: Vec<&str> = result.entries.iter().map(|e| e.parent_path.as_str()).collect();
    assert_eq!(
        parents,
        vec![
            "/r",
            "/r/level1",
            "/r/level1",
            "/r/level1/level2",
            "/r/level1/level2",
            "/r/level1/level2/level3",
            "/r",
        ]
    );
}

#[test]
fn statistics_match_the_entries_of_a_scan() {
    let events = vec![
        dir_event("/r"),
        file_event("/r/a.pdf", 100),
        dir_event("/r/d"),
        file_event("/r/d/b.jpeg", 200),
        file_event("/r/d/c.MKV", 300),
        file_event("/r/d/noext", 400),
        WalkEvent::Unreadable(WalkFailure {
            path: Some("/r/secret".to_string()),
            kind: Some(IoErrorKind::PermissionDenied),
            message: "IO error for operation on /r/secret: Permission denied (os error 13)"
                .to_string(),
        }),
        file_event("/r/e.flac", 500),
    ];
    let result = scan_directory("/r", directory("/r"), &events, &NOW, 0).unwrap();
    let stats = result.stats;
    assert_eq!(result.entries.len(), 6);
    assert_eq!(stats.total_files + stats.total_folders, result.entries.len() as u64);
    let sizes: u64 = result.entries.iter().filter(|e| !e.is_directory).map(|e| e.size).sum();
    assert_eq!(stats.total_size, sizes);
    assert_eq!(stats.total_size, 1500);
    assert_eq!(
        stats.document_count
            + stats.image_count
            + stats.video_count
            + stats.audio_count
            + stats.other_count,
        stats.total_files
    );
    assert_eq!(stats.video_count, 1);
    assert_eq!(stats.other_count, 1);
    assert_eq!(result.failed_entries.len(), 1);
    assert_eq!(result.failed_entries[0].path, "/r/secret");
    assert_eq!(result.failed_entries[0].reason, FailureReason::PermissionDenied);
    for e in &result.entries {
        assert_eq!(e.category == FileCategory::Folder, e.is_directory);
    }
}

#[test]
fn a_node_that_fails_does_not_end_the_scan() {
    let events = vec![
        dir_event("/r"),
        WalkEvent::Unreadable(WalkFailure {
            path: None,
            kind: None,
            message: "File system loop found".to_string(),
        }),
        WalkEvent::Unreadable(WalkFailure {
            path: Some("/r/x".to_string()),
            kind: Some(IoErrorKind::NotFound),
            message: "gone".to_string(),
        }),
        WalkEvent::Visited(VisitedNode {
            path: parsed("/r/broken"),
            parent: parent_text("/r/broken"),
            metadata: unreadable(IoErrorKind::NotFound, "bad link"),
        }),
        WalkEvent::Visited(VisitedNode {
            path: parsed("/r/private"),
            parent: parent_text("/r/private"),
            metadata: unreadable(IoErrorKind::PermissionDenied, "Permission denied (os error 13)"),
        }),
        WalkEvent::Unreadable(WalkFailure {
            path: Some("/r/locked".to_string()),
            kind: Some(IoErrorKind::PermissionDenied),
            message: "no access".to_string(),
        }),
        file_event("/r/after.txt", 9),
    ];
    let result = scan_directory("/r", directory("/r"), &events, &NOW, 0).unwrap();
    assert_eq!(result.entries.len(), 1);
    assert_eq!(result.entries[0].name, "after.txt");
    assert_eq!(result.failed_entries.len(), 5);
    assert_eq!(result.failed_entries[0].path, "unknown");
    assert_eq!(result.failed_entries[0].reason, FailureReason::Unknown);
    assert_eq!(result.failed_entries[0].error_message, "File system loop found");
    assert_eq!(result.failed_entries[1].path, "/r/x");
    assert_eq!(result.failed_entries[1].reason, FailureReason::Unknown);
    assert_eq!(result.failed_entries[2].path, "/r/broken");
    assert_eq!(result.failed_entries[2].reason, FailureReason::Unknown);
    assert_eq!(result.failed_entries[2].error_message, "Failed to get metadata: bad link");
    assert_eq!(result.failed_entries[3].path, "/r/private");
    assert_eq!(result.failed_entries[3].reason, FailureReason::PermissionDenied);
    assert_eq!(
        result.failed_entries[3].error_message,
        "Failed to get metadata: Permission denied (os error 13)"
    );
    assert_eq!(result.failed_entries[4].path, "/r/locked");
    assert_eq!(result.failed_entries[4].reason, FailureReason::PermissionDenied);
    assert_eq!(result.failed_entries[4].error_message, "no access");
    assert_eq!(result.stats.total_files, 1);
    assert_eq!(result.stats.total_folders, 0);
}

#[test]
fn the_root_is_recognised_by_its_components() {
    let probe = RootProbe {
        exists: true,
        is_directory: true,
        canonical: Ok(parsed("/r")),
    };
    let events = vec![dir_event("/r"), dir_event("/r//"), file_event("/r/a", 1)];
    let result = scan_directory("/r/", probe, &events, &NOW, 0).unwrap();
    assert_eq!(result.entries.len(), 1);
    assert_eq!(result.entries[0].path, "/r/a");
}

#[test]
fn an_entry_that_the_statistics_cannot_take_is_listed_as_failed() {
    let events = vec![
        dir_event("/r"),
        file_event("/r/huge1.bin", u64::MAX - 10),
        file_event("/r/huge2.bin", 11),
        file_event("/r/small.bin", 10),
    ];
    let result = scan_directory("/r", directory("/r"), &events, &NOW, 0).unwrap();
    assert_eq!(result.entries.len(), 2);
    assert_eq!(result.stats.total_size, u64::MAX);
    assert_eq!(result.stats.total_files, 2);
    assert_eq!(result.failed_entries.len(), 1);
    assert_eq!(result.failed_entries[0].path, "/r/huge2.bin");
    assert_eq!(result.failed_entries[0].reason, FailureReason::Unknown);
    assert_eq!(result.failed_entries[0].error_message, "Statistics out of range");
}

#[test]
fn progress_is_given_once_per_interval() {
    let mut scan = Scan::begin("/r", directory("/r")).unwrap();
    assert!(scan.visit(&dir_event("/r"), &at(500)).is_none());
    assert!(scan.visit(&file_event("/r/a", 1), &at(99)).is_none());
    let first = scan.visit(&file_event("/r/b", 1), &at(100)).unwrap();
    assert_eq!(first.scanned_count, 1);
    assert_eq!(first.current_path, "/r/b");
    assert_eq!(first.estimated_progress, None);
    assert!(scan.visit(&file_event("/r/c", 1), &at(150)).is_none());
    assert!(scan.visit(&file_event("/r/d", 1), &at(199)).is_none());
    let second = scan.visit(&file_event("/r/e", 1), &at(200)).unwrap();
    assert_eq!(second.scanned_count, 4);
    assert_eq!(second.current_path, "/r/e");
    assert!(scan.visit(&file_event("/r/f", 1), &at(250)).is_none());
    let third = scan.visit(&file_event("/r/g", 1), &at(1000)).unwrap();
    assert_eq!(third.scanned_count, 6);
    assert_eq!(scan.last_progress_ms, 1000);
    assert_eq!(scan.entries.len(), 7);
}

#[test]
fn progress_is_not_given_for_failures_or_a_clock_that_runs_back() {
    let mut scan = Scan::begin("/r", directory("/r")).unwrap();
    let failure = WalkEvent::Unreadable(WalkFailure {
        path: Some("/r/x".to_string()),
        kind: None,
        message: "m".to_string(),
    });
    assert!(scan.visit(&failure, &at(5000)).is_none());
    assert_eq!(scan.last_progress_ms, 0);
    assert!(scan.visit(&file_event("/r/a", 1), &at(5000)).is_some());
    assert!(scan.visit(&file_event("/r/b", 1), &at(10)).is_none());
    assert_eq!(scan.last_progress_ms, 5000);
}

#[test]
fn progress_counts_never_go_down() {
    let mut scan = Scan::begin("/r", directory("/r")).unwrap();
    let mut last = 0;
    let mut notices = 0;
    for i in 0..50u64 {
        let event = if i % 7 == 3 {
            WalkEvent::Visited(VisitedNode {
                path: parsed(&format!("/r/bad{}", i)),
                parent: Some("/r".to_string()),
                metadata: unreadable(IoErrorKind::Other, "unreadable"),
            })
        } else {
            file_event(&format!("/r/f{}", i), i)
        };
        if let Some(p) = scan.visit(&event, &at(i * 60)) {
            assert!(p.scanned_count >= last);
            last = p.scanned_count;
            notices += 1;
        }
    }
    assert_eq!(notices, 24);
    let result = scan.finish(&NOW, 3000);
    assert_eq!(result.entries.len(), 43);
    assert_eq!(result.failed_entries.len(), 7);
}

#[test]
fn scan_options_builders() {
    let options = ScanOptions::new();
    assert_eq!(options.max_depth, None);
    assert!(!options.follow_links);
    assert_eq!(options, ScanOptions::default());
    let options = options.with_max_depth(2);
    assert_eq!(options.max_depth, Some(2));
    assert!(!options.follow_links);
    let options = options.with_follow_links(true);
    assert_eq!(options.max_depth, Some(2));
    assert!(options.follow_links);
    let options = options.with_follow_links(false).with_max_depth(0);
    assert_eq!(options.max_depth, Some(0));
    assert!(!options.follow_links);
}
