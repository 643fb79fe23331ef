//! The notices around a scan that is run on request: the check of the request,
//! and the first and the last progress notice.

use vstd::prelude::*;
use vstd::string::*;
use crate::models::scan_result::{ScanProgress, ScanProgressView, ScanResult};

verus! {

/// The percentage that the last notice of a scan carries.
pub const COMPLETE_PERCENT: u8 = 100;

/// What the check of a requested path gives: an error for the empty path.
pub open spec fn request_outcome(path: Seq<char>) -> Result<(), Seq<char>> {
    if path.len() == 0 {
        Err("Path cannot be empty"@)
    } else {
        Ok(())
    }
}

/// The value of the outcome of the check of a request.
pub open spec fn request_view(outcome: Result<(), String>) -> Result<(), Seq<char>> {
    match outcome {
        Ok(_) => Ok(()),
        Err(message) => Err(message@),
    }
}

/// The notice before the walk starts: nothing scanned, at the requested path.
pub open spec fn first_notice(path: Seq<char>) -> ScanProgressView {
    ScanProgressView { scanned_count: 0, current_path: path, estimated_progress: None }
}

/// The notice after the walk has ended: every entry scanned, at the path
/// `Completed`, with the full percentage.
pub open spec fn last_notice(entries: nat) -> ScanProgressView {
    ScanProgressView {
        scanned_count: entries as u64,
        current_path: "Completed"@,
        estimated_progress: Some(COMPLETE_PERCENT),
    }
}

/// Checks the path of a request before anything else is done: the empty path
/// is refused.
pub fn check_scan_path(path: &str) -> (outcome: Result<(), String>)
    ensures
        request_view(outcome) == request_outcome(path@),
{
    if path.is_empty() {
        Err(String::from_str("Path cannot be empty"))
    } else {
        Ok(())
    }
}

/// The progress notice that opens a scan.
pub fn initial_progress(path: &str) -> (progress: ScanProgress)
    ensures
        progress@ == first_notice(path@),
{
    ScanProgress::new(0, String::from_str(path))
}

/// The progress notice that closes a scan: its count is the number of entries
/// of the result, whether or not nodes failed.
pub fn completion_progress(result: &ScanResult) -> (progress: ScanProgress)
    ensures
        progress@ == last_notice(result.entries@.len()),
        progress.scanned_count == result.entries@.len(),
{
    ScanProgress::new(result.entries.len() as u64, String::from_str("Completed")).with_progress(
        COMPLETE_PERCENT,
    )
}

} // verus!
