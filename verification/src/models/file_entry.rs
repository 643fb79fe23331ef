//! One file or folder found by a scan, and the category it falls under.

use vstd::prelude::*;

verus! {

/// Coarse classification of a file by its type.
#[derive(Debug, Clone, Copy, PartialEq, Eq, Hash, Structural)]
pub enum FileCategory {
    Document,
    Image,
    Video,
    Audio,
    Folder,
    Other,
}

impl Default for FileCategory {
    fn default() -> (category: Self)
        ensures
            category == FileCategory::Other,
    {
        FileCategory::Other
    }
}

/// A single file or folder of a scan result.
#[derive(Debug, Clone)]
pub struct FileEntry {
    /// Full path; unique within one scan.
    pub path: String,
    /// File name, extension included.
    pub name: String,
    /// Whether the entry is a directory.
    pub is_directory: bool,
    /// Size in bytes; 0 for a directory.
    pub size: u64,
    /// Time of the last change, as an RFC 3339 text.
    pub modified_at: String,
    /// The category of the entry.
    pub category: FileCategory,
    /// Extension in lower case without the dot; empty for a directory.
    pub extension: String,
    /// Number of path components below the root of the scan.
    pub depth: u32,
    /// Path of the containing folder.
    pub parent_path: String,
}

/// The mathematical value of a [`FileEntry`]: texts as sequences of characters.
pub struct FileEntryView {
    pub path: Seq<char>,
    pub name: Seq<char>,
    pub is_directory: bool,
    pub size: u64,
    pub modified_at: Seq<char>,
    pub category: FileCategory,
    pub extension: Seq<char>,
    pub depth: u32,
    pub parent_path: Seq<char>,
}

impl FileEntryView {
    /// An entry is well formed when it is a folder exactly if it is a directory,
    /// and a directory has neither a size nor an extension.
    pub open spec fn wf(self) -> bool {
        &&& self.category == FileCategory::Folder <==> self.is_directory
        &&& self.is_directory ==> self.size == 0 && self.extension.len() == 0
    }
}

impl View for FileEntry {
    type V = FileEntryView;

    open spec fn view(&self) -> FileEntryView {
        FileEntryView {
            path: self.path@,
            name: self.name@,
            is_directory: self.is_directory,
            size: self.size,
            modified_at: self.modified_at@,
            category: self.category,
            extension: self.extension@,
            depth: self.depth,
            parent_path: self.parent_path@,
        }
    }
}

impl FileEntry {
    /// Builds an entry from its nine attributes, each taken as given.
    pub fn new(
        path: String,
        name: String,
        is_directory: bool,
        size: u64,
        modified_at: String,
        category: FileCategory,
        extension: String,
        depth: u32,
        parent_path: String,
    ) -> (entry: Self)
        ensures
            entry.path == path,
            entry.name == name,
            entry.is_directory == is_directory,
            entry.size == size,
            entry.modified_at == modified_at,
            entry.category == category,
            entry.extension == extension,
            entry.depth == depth,
            entry.parent_path == parent_path,
    {
        FileEntry {
            path,
            name,
            is_directory,
            size,
            modified_at,
            category,
            extension,
            depth,
            parent_path,
        }
    }
}


/// The values of a list of entries, in the same order.
pub open spec fn entry_views(entries: Seq<FileEntry>) -> Seq<FileEntryView> {
    entries.map_values(|e: FileEntry| e@)
}

/// Appending an entry to a list appends its value to the list's values.
pub proof fn lemma_entry_views_push(entries: Seq<FileEntry>, entry: FileEntry)
    ensures
        entry_views(entries.push(entry)) == entry_views(entries).push(entry@),
{
    assert(entry_views(entries.push(entry)) =~= entry_views(entries).push(entry@));
}

} // verus!
