//! Classification of files and the walk over a directory tree.

pub mod file_info;
pub mod walker;

pub use file_info::{classify_extension, get_extension};
pub use walker::{create_file_entry, scan_directory, Scan, ScanOptions};
