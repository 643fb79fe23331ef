//! The decisions of the commands: batches of deletions and copies, and the
//! notices around a scan.

pub mod file_ops;
pub mod scan;

pub use file_ops::{
    categorize_io_error, categorize_trash_error, CopyAction, CopyBatch, CopyEvent, DeleteAction,
    DeleteBatch, DeleteEvent, FailedEntry, FailureReason, FileOperationResult, OperationType,
};
pub use scan::{check_scan_path, completion_progress, initial_progress};
