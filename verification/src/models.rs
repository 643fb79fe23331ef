//! Data models of a scan: entries, statistics, failures and results.

pub mod file_entry;
pub mod scan_result;

pub use file_entry::{FileCategory, FileEntry, FileEntryView};
pub use scan_result::{
    FailedEntry, FailedEntryView, FailureReason, ScanProgress, ScanProgressView, ScanResult,
    ScanResultView, ScanStats, ScanStatus, Tally,
};
