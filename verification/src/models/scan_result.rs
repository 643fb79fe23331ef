//! Statistics, failures, progress and the result of a scan.

use vstd::prelude::*;
use crate::models::file_entry::{entry_views, FileCategory, FileEntry, FileEntryView};

verus! {

/// Why a node could not be scanned.
#[derive(Debug, Clone, Copy, PartialEq, Eq, Structural)]
pub enum FailureReason {
    PermissionDenied,
    FileLocked,
    PathNotFound,
    Unknown,
}

/// A node that a scan could not process.
#[derive(Debug, Clone)]
pub struct FailedEntry {
    /// Path of the node.
    pub path: String,
    /// Class of the failure.
    pub reason: FailureReason,
    /// Message for a human reader.
    pub error_message: String,
}

/// The mathematical value of a [`FailedEntry`].
pub struct FailedEntryView {
    pub path: Seq<char>,
    pub reason: FailureReason,
    pub error_message: Seq<char>,
}

impl View for FailedEntry {
    type V = FailedEntryView;

    open spec fn view(&self) -> FailedEntryView {
        FailedEntryView {
            path: self.path@,
            reason: self.reason,
            error_message: self.error_message@,
        }
    }
}

impl FailedEntry {
    /// Records a failure as given.
    pub fn new(path: String, reason: FailureReason, error_message: String) -> (failed: Self)
        ensures
            failed.path == path,
            failed.reason == reason,
            failed.error_message == error_message,
    {
        FailedEntry { path, reason, error_message }
    }
}

/// The values of a list of failures, in the same order.
pub open spec fn failure_views(failures: Seq<FailedEntry>) -> Seq<FailedEntryView> {
    failures.map_values(|f: FailedEntry| f@)
}

/// Appending a failure to a list appends its value to the list's values.
pub proof fn lemma_failure_views_push(failures: Seq<FailedEntry>, failure: FailedEntry)
    ensures
        failure_views(failures.push(failure)) == failure_views(failures).push(failure@),
{
    assert(failure_views(failures.push(failure)) =~= failure_views(failures).push(failure@));
}

/// Counts and sizes over a list of entries, as unbounded numbers.
pub struct Tally {
    pub files: nat,
    pub folders: nat,
    pub bytes: nat,
    pub documents: nat,
    pub images: nat,
    pub videos: nat,
    pub audio: nat,
    pub other: nat,
}

impl Tally {
    /// The tally of no entry.
    pub open spec fn zero() -> Tally {
        Tally {
            files: 0,
            folders: 0,
            bytes: 0,
            documents: 0,
            images: 0,
            videos: 0,
            audio: 0,
            other: 0,
        }
    }

    /// The tally after one more entry. A directory counts as a folder and
    /// nothing else. A file counts as a file, adds its size, and counts under
    /// its category; a file marked as a folder counts under no category.
    pub open spec fn plus(self, entry: FileEntryView) -> Tally {
        if entry.is_directory {
            Tally { folders: self.folders + 1, ..self }
        } else {
            let counted = Tally {
                files: self.files + 1,
                bytes: self.bytes + entry.size as nat,
                ..self
            };
            match entry.category {
                FileCategory::Document => Tally { documents: self.documents + 1, ..counted },
                FileCategory::Image => Tally { images: self.images + 1, ..counted },
                FileCategory::Video => Tally { videos: self.videos + 1, ..counted },
                FileCategory::Audio => Tally { audio: self.audio + 1, ..counted },
                FileCategory::Other => Tally { other: self.other + 1, ..counted },
                FileCategory::Folder => counted,
            }
        }
    }

    /// The tally of a list of entries, taken in order.
    pub open spec fn of(entries: Seq<FileEntryView>) -> Tally
        decreases entries.len(),
    {
        if entries.len() == 0 {
            Tally::zero()
        } else {
            Tally::of(entries.drop_last()).plus(entries.last())
        }
    }

    /// Every number of the tally fits a 64-bit counter.
    pub open spec fn fits(self) -> bool {
        &&& self.files <= u64::MAX
        &&& self.folders <= u64::MAX
        &&& self.bytes <= u64::MAX
        &&& self.documents <= u64::MAX
        &&& self.images <= u64::MAX
        &&& self.videos <= u64::MAX
        &&& self.audio <= u64::MAX
        &&& self.other <= u64::MAX
    }

    /// The five per-category counts of files add up to the number of files.
    pub open spec fn balanced(self) -> bool {
        self.documents + self.images + self.videos + self.audio + self.other == self.files
    }
}

/// The sizes of the entries that are no directories, added up.
pub open spec fn file_bytes(entries: Seq<FileEntryView>) -> nat
    decreases entries.len(),
{
    if entries.len() == 0 {
        0
    } else if entries.last().is_directory {
        file_bytes(entries.drop_last())
    } else {
        file_bytes(entries.drop_last()) + entries.last().size as nat
    }
}

/// Every entry of the list is well formed.
pub open spec fn all_wf(entries: Seq<FileEntryView>) -> bool {
    forall|i: int| 0 <= i < entries.len() ==> (#[trigger] entries[i]).wf()
}

/// Files and folders together are as many as the entries.
pub proof fn lemma_tally_counts_entries(entries: Seq<FileEntryView>)
    ensures
        Tally::of(entries).files + Tally::of(entries).folders == entries.len(),
    decreases entries.len(),
{
    if entries.len() > 0 {
        lemma_tally_counts_entries(entries.drop_last());
    }
}

/// The total size is the sum of the sizes of the entries that are no
/// directories.
pub proof fn lemma_tally_bytes(entries: Seq<FileEntryView>)
    ensures
        Tally::of(entries).bytes == file_bytes(entries),
    decreases entries.len(),
{
    if entries.len() > 0 {
        lemma_tally_bytes(entries.drop_last());
    }
}

/// Over well-formed entries the per-category counts add up to the number of
/// files.
pub proof fn lemma_tally_balanced(entries: Seq<FileEntryView>)
    requires
        all_wf(entries),
    ensures
        Tally::of(entries).balanced(),
    decreases entries.len(),
{
    if entries.len() > 0 {
        let head = entries.drop_last();
        assert forall|i: int| 0 <= i < head.len() implies (#[trigger] head[i]).wf() by {
            assert(head[i] == entries[i]);
        }
        lemma_tally_balanced(head);
        assert(entries.last() == entries[entries.len() - 1]);
        assert(entries.last().wf());
    }
}

/// The tally of a list with one more entry at its end.
pub proof fn lemma_tally_push(entries: Seq<FileEntryView>, entry: FileEntryView)
    ensures
        Tally::of(entries.push(entry)) == Tally::of(entries).plus(entry),
{
    assert(entries.push(entry).drop_last() =~= entries);
}

/// Statistics of a scan: one accumulator per scan, which only grows.
#[derive(Debug, Clone, Copy, PartialEq, Eq, Structural)]
pub struct ScanStats {
    /// Number of files, folders excluded.
    pub total_files: u64,
    /// Number of folders.
    pub total_folders: u64,
    /// Size of all files in bytes.
    pub total_size: u64,
    /// Number of documents.
    pub document_count: u64,
    /// Number of images.
    pub image_count: u64,
    /// Number of videos.
    pub video_count: u64,
    /// Number of audio files.
    pub audio_count: u64,
    /// Number of other files.
    pub other_count: u64,
}

impl View for ScanStats {
    type V = Tally;

    open spec fn view(&self) -> Tally {
        Tally {
            files: self.total_files as nat,
            folders: self.total_folders as nat,
            bytes: self.total_size as nat,
            documents: self.document_count as nat,
            images: self.image_count as nat,
            videos: self.video_count as nat,
            audio: self.audio_count as nat,
            other: self.other_count as nat,
        }
    }
}

impl Default for ScanStats {
    fn default() -> (stats: Self)
        ensures
            stats@ == Tally::zero(),
    {
        ScanStats {
            total_files: 0,
            total_folders: 0,
            total_size: 0,
            document_count: 0,
            image_count: 0,
            video_count: 0,
            audio_count: 0,
            other_count: 0,
        }
    }
}

impl ScanStats {
    /// Whether every counter can take the entry without leaving its range.
    pub open spec fn accepts(self, entry: FileEntryView) -> bool {
        self@.plus(entry).fits()
    }

    /// Statistics with every counter at zero.
    pub fn new() -> (stats: Self)
        ensures
            stats@ == Tally::zero(),
    {
        ScanStats {
            total_files: 0,
            total_folders: 0,
            total_size: 0,
            document_count: 0,
            image_count: 0,
            video_count: 0,
            audio_count: 0,
            other_count: 0,
        }
    }

    /// Tells whether [`ScanStats::add_entry`] may be called with this entry.
    pub fn can_add(&self, entry: &FileEntry) -> (ok: bool)
        ensures
            ok == self.accepts(entry@),
    {
        if entry.is_directory {
            self.total_folders < u64::MAX
        } else {
            let room: bool = self.total_files < u64::MAX && entry.size <= u64::MAX - self.total_size;
            let counter: u64 = match entry.category {
                FileCategory::Document => self.document_count,
                FileCategory::Image => self.image_count,
                FileCategory::Video => self.video_count,
                FileCategory::Audio => self.audio_count,
                FileCategory::Other => self.other_count,
                FileCategory::Folder => 0,
            };
            room && counter < u64::MAX
        }
    }

    /// Adds one entry to the statistics.
    pub fn add_entry(&mut self, entry: &FileEntry)
        requires
            old(self).accepts(entry@),
        ensures
            final(self)@ == old(self)@.plus(entry@),
            old(self)@.balanced() && entry@.wf() ==> final(self)@.balanced(),
    {
        if entry.is_directory {
            self.total_folders += 1;
        } else {
            self.total_files += 1;
            self.total_size += entry.size;
            match entry.category {
                FileCategory::Document => self.document_count += 1,
                FileCategory::Image => self.image_count += 1,
                FileCategory::Video => self.video_count += 1,
                FileCategory::Audio => self.audio_count += 1,
                FileCategory::Other => self.other_count += 1,
                FileCategory::Folder => {},
            }
        }
    }

    /// The count of each category, one pair for each of the six categories. The
    /// number of folders stands for the category of folders.
    pub fn category_counts(&self) -> (counts: Vec<(FileCategory, u64)>)
        ensures
            counts@ == seq![
                (FileCategory::Document, self.document_count),
                (FileCategory::Image, self.image_count),
                (FileCategory::Video, self.video_count),
                (FileCategory::Audio, self.audio_count),
                (FileCategory::Other, self.other_count),
                (FileCategory::Folder, self.total_folders),
            ],
    {
        let mut counts: Vec<(FileCategory, u64)> = Vec::new();
        counts.push((FileCategory::Document, self.document_count));
        counts.push((FileCategory::Image, self.image_count));
        counts.push((FileCategory::Video, self.video_count));
        counts.push((FileCategory::Audio, self.audio_count));
        counts.push((FileCategory::Other, self.other_count));
        counts.push((FileCategory::Folder, self.total_folders));
        assert(counts@ =~= seq![
            (FileCategory::Document, self.document_count),
            (FileCategory::Image, self.image_count),
            (FileCategory::Video, self.video_count),
            (FileCategory::Audio, self.audio_count),
            (FileCategory::Other, self.other_count),
            (FileCategory::Folder, self.total_folders),
        ]);
        counts
    }
}

/// The result of a scan.
#[derive(Debug, Clone)]
pub struct ScanResult {
    /// The root of the scan, in canonical form.
    pub root_path: String,
    /// The entries found, in the order of the walk.
    pub entries: Vec<FileEntry>,
    /// Statistics over the entries.
    pub stats: ScanStats,
    /// The nodes that could not be scanned.
    pub failed_entries: Vec<FailedEntry>,
    /// Time at which the scan ended, as an RFC 3339 text.
    pub completed_at: String,
    /// Duration of the scan in milliseconds.
    pub duration_ms: u64,
}

/// The mathematical value of a [`ScanResult`].
pub struct ScanResultView {
    pub root_path: Seq<char>,
    pub entries: Seq<FileEntryView>,
    pub stats: Tally,
    pub failed_entries: Seq<FailedEntryView>,
    pub completed_at: Seq<char>,
    pub duration_ms: u64,
}

impl ScanResultView {
    /// A result is consistent when its entries are well formed and its
    /// statistics are the tally of its entries.
    pub open spec fn wf(self) -> bool {
        &&& all_wf(self.entries)
        &&& self.stats == Tally::of(self.entries)
    }
}

impl View for ScanResult {
    type V = ScanResultView;

    open spec fn view(&self) -> ScanResultView {
        ScanResultView {
            root_path: self.root_path@,
            entries: entry_views(self.entries@),
            stats: self.stats@,
            failed_entries: failure_views(self.failed_entries@),
            completed_at: self.completed_at@,
            duration_ms: self.duration_ms,
        }
    }
}

impl ScanResult {
    /// Assembles a result from its six parts, each taken as given.
    pub fn new(
        root_path: String,
        entries: Vec<FileEntry>,
        stats: ScanStats,
        failed_entries: Vec<FailedEntry>,
        completed_at: String,
        duration_ms: u64,
    ) -> (result: Self)
        ensures
            result.root_path == root_path,
            result.entries == entries,
            result.stats == stats,
            result.failed_entries == failed_entries,
            result.completed_at == completed_at,
            result.duration_ms == duration_ms,
    {
        ScanResult { root_path, entries, stats, failed_entries, completed_at, duration_ms }
    }
}

/// In a consistent result, files and folders together are as many as the
/// entries, the total size is the sum of the sizes of the files, and the
/// per-category counts add up to the number of files.
pub proof fn lemma_result_statistics(result: ScanResultView)
    requires
        result.wf(),
    ensures
        result.stats.files + result.stats.folders == result.entries.len(),
        result.stats.bytes == file_bytes(result.entries),
        result.stats.documents + result.stats.images + result.stats.videos + result.stats.audio
            + result.stats.other == result.stats.files,
{
    lemma_tally_counts_entries(result.entries);
    lemma_tally_bytes(result.entries);
    lemma_tally_balanced(result.entries);
}

/// The state of a scan as a user interface shows it.
#[derive(Debug, Clone, Copy, PartialEq, Eq, Structural)]
pub enum ScanStatus {
    Idle,
    Scanning,
    Completed,
    Error,
}

impl Default for ScanStatus {
    fn default() -> (status: Self)
        ensures
            status == ScanStatus::Idle,
    {
        ScanStatus::Idle
    }
}

/// A progress notice of a running scan.
#[derive(Debug, Clone)]
pub struct ScanProgress {
    /// Number of entries scanned so far.
    pub scanned_count: u64,
    /// Path that the scan is at.
    pub current_path: String,
    /// Estimated progress in percent, where one can be given.
    pub estimated_progress: Option<u8>,
}

/// The mathematical value of a [`ScanProgress`].
pub struct ScanProgressView {
    pub scanned_count: u64,
    pub current_path: Seq<char>,
    pub estimated_progress: Option<u8>,
}

impl View for ScanProgress {
    type V = ScanProgressView;

    open spec fn view(&self) -> ScanProgressView {
        ScanProgressView {
            scanned_count: self.scanned_count,
            current_path: self.current_path@,
            estimated_progress: self.estimated_progress,
        }
    }
}

impl ScanProgress {
    /// A notice without an estimate.
    pub fn new(scanned_count: u64, current_path: String) -> (progress: Self)
        ensures
            progress.scanned_count == scanned_count,
            progress.current_path == current_path,
            progress.estimated_progress is None,
    {
        ScanProgress { scanned_count, current_path, estimated_progress: None }
    }

    /// The same notice with an estimate in percent.
    pub fn with_progress(self, progress: u8) -> (updated: Self)
        ensures
            updated.scanned_count == self.scanned_count,
            updated.current_path == self.current_path,
            updated.estimated_progress == Some(progress),
    {
        ScanProgress {
            scanned_count: self.scanned_count,
            current_path: self.current_path,
            estimated_progress: Some(progress),
        }
    }
}

} // verus!
