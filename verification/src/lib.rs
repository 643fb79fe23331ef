//! Directory scanning and bulk file operations, with the rules of both proved.
//!
//! The crate holds the decisions of a file scanner: how a file is classified,
//! how a visited node becomes an entry, how statistics add up, when progress is
//! reported, and how a batch of deletions or copies settles each of its items.
//! It never touches the file system itself. The caller performs each read or
//! write and hands the outcome over as plain values.

pub mod clock;
pub mod commands;
pub mod models;
pub mod outcome;
pub mod paths;
pub mod scanner;
pub mod text;
