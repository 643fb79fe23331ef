//! The walk over a directory tree, one event at a time.
//!
//! The caller walks the tree and reports each node as a [`WalkEvent`]. A
//! [`Scan`] turns the events into entries, statistics and failures, and says
//! when a progress notice is due.
//!
//! A scan has one root: the canonical form of the path that was asked for.
//! The walk is run on that path, so that every node lies under it, whatever
//! the spelling of the request.

use vstd::prelude::*;
use vstd::string::*;
use crate::clock::{change_time, change_time_text, time_of, time_text, ClockReading, Timestamp};
use crate::models::file_entry::{
    entry_views, lemma_entry_views_push, FileCategory, FileEntry, FileEntryView,
};
use crate::models::scan_result::{
    all_wf, failure_views, lemma_failure_views_push, lemma_tally_push, FailedEntry,
    FailedEntryView, FailureReason, ScanProgress, ScanProgressView, ScanResult, ScanResultView,
    ScanStats, Tally,
};
use crate::outcome::{IoErrorKind, IoFailure, IoFailureView};
use crate::paths::{
    depth_below, depth_of, file_name, file_name_of, is_prefix, lemma_child_depth,
    lemma_depth_under_root, lemma_nested_depth, parent_of, part_views, same_path, ParsedPath,
    ParsedPathView, PathPart, PathPartView,
};
use crate::scanner::file_info::{
    classification, classify_extension, get_extension, lower_extension_of,
};
use crate::text::prefixed;

verus! {

/// The least time between two progress notices, in milliseconds.
pub const PROGRESS_INTERVAL_MS: u64 = 100;

/// Options of a scan.
#[derive(Debug, Clone, Copy, PartialEq, Eq, Structural)]
pub struct ScanOptions {
    /// Greatest depth to walk to, the root being depth 0; `None` for no limit.
    pub max_depth: Option<usize>,
    /// Whether symbolic links are followed.
    pub follow_links: bool,
}

impl Default for ScanOptions {
    fn default() -> (options: Self)
        ensures
            options.max_depth is None,
            !options.follow_links,
    {
        ScanOptions { max_depth: None, follow_links: false }
    }
}

impl ScanOptions {
    /// Options without a depth limit that do not follow links.
    pub fn new() -> (options: Self)
        ensures
            options.max_depth is None,
            !options.follow_links,
    {
        ScanOptions { max_depth: None, follow_links: false }
    }

    /// The same options with a depth limit.
    pub fn with_max_depth(self, depth: usize) -> (options: Self)
        ensures
            options.max_depth == Some(depth),
            options.follow_links == self.follow_links,
    {
        ScanOptions { max_depth: Some(depth), follow_links: self.follow_links }
    }

    /// The same options with the choice on symbolic links.
    pub fn with_follow_links(self, follow: bool) -> (options: Self)
        ensures
            options.max_depth == self.max_depth,
            options.follow_links == follow,
    {
        ScanOptions { max_depth: self.max_depth, follow_links: follow }
    }
}

/// What the file system says of a node.
#[derive(Debug, Clone, Copy, PartialEq, Eq, Structural)]
pub struct NodeMetadata {
    /// Whether the node is a directory.
    pub is_directory: bool,
    /// Length of the node in bytes.
    pub len: u64,
    /// Time of the last change, where the file system gives one.
    pub modified: Option<Timestamp>,
}

/// A node that the walk reached.
#[derive(Debug)]
pub struct VisitedNode {
    /// The path of the node.
    pub path: ParsedPath,
    /// The text of the path of the containing folder, where there is one.
    pub parent: Option<String>,
    /// The metadata of the node, or the error on reading them.
    pub metadata: Result<NodeMetadata, IoFailure>,
}

/// The mathematical value of a [`VisitedNode`].
pub struct VisitedNodeView {
    pub path: ParsedPathView,
    pub parent: Option<Seq<char>>,
    pub metadata: Result<NodeMetadata, IoFailureView>,
}

impl View for VisitedNode {
    type V = VisitedNodeView;

    open spec fn view(&self) -> VisitedNodeView {
        VisitedNodeView {
            path: self.path@,
            parent: match self.parent {
                Some(p) => Some(p@),
                None => None,
            },
            metadata: match self.metadata {
                Ok(m) => Ok(m),
                Err(e) => Err(e@),
            },
        }
    }
}

/// A node that the walk could not reach.
#[derive(Debug, Clone)]
pub struct WalkFailure {
    /// The path at which the walk failed, where it is known.
    pub path: Option<String>,
    /// The kind of the underlying error, where there is one.
    pub kind: Option<IoErrorKind>,
    /// The message of the error.
    pub message: String,
}

/// The mathematical value of a [`WalkFailure`].
pub struct WalkFailureView {
    pub path: Option<Seq<char>>,
    pub kind: Option<IoErrorKind>,
    pub message: Seq<char>,
}

impl View for WalkFailure {
    type V = WalkFailureView;

    open spec fn view(&self) -> WalkFailureView {
        WalkFailureView {
            path: match self.path {
                Some(p) => Some(p@),
                None => None,
            },
            kind: self.kind,
            message: self.message@,
        }
    }
}

/// One step of a walk.
#[derive(Debug)]
pub enum WalkEvent {
    /// The walk reached a node.
    Visited(VisitedNode),
    /// The walk failed at a node and went on.
    Unreadable(WalkFailure),
}

/// The mathematical value of a [`WalkEvent`].
pub enum WalkEventView {
    Visited(VisitedNodeView),
    Unreadable(WalkFailureView),
}

impl View for WalkEvent {
    type V = WalkEventView;

    open spec fn view(&self) -> WalkEventView {
        match self {
            WalkEvent::Visited(node) => WalkEventView::Visited(node@),
            WalkEvent::Unreadable(failure) => WalkEventView::Unreadable(failure@),
        }
    }
}

/// The values of a list of events, in the same order.
pub open spec fn event_views(events: Seq<WalkEvent>) -> Seq<WalkEventView> {
    events.map_values(|e: WalkEvent| e@)
}

/// What the file system says of the path that a scan is asked for.
#[derive(Debug)]
pub struct RootProbe {
    /// Whether the path exists.
    pub exists: bool,
    /// Whether the path is a directory.
    pub is_directory: bool,
    /// The canonical form of the path, or the message of the error on
    /// computing it.
    pub canonical: Result<ParsedPath, String>,
}

/// The mathematical value of a [`RootProbe`].
pub struct RootProbeView {
    pub exists: bool,
    pub is_directory: bool,
    pub canonical: Result<ParsedPathView, Seq<char>>,
}

impl View for RootProbe {
    type V = RootProbeView;

    open spec fn view(&self) -> RootProbeView {
        RootProbeView {
            exists: self.exists,
            is_directory: self.is_directory,
            canonical: match self.canonical {
                Ok(p) => Ok(p@),
                Err(e) => Err(e@),
            },
        }
    }
}

/// The text of an optional text, empty where it is missing.
pub open spec fn text_or_empty(text: Option<Seq<char>>) -> Seq<char> {
    match text {
        Some(t) => t,
        None => Seq::<char>::empty(),
    }
}

/// The entry of a node with readable metadata, under a root given by its
/// components, built at the time `now`. Its depth is the number of components
/// of its path below the root.
pub open spec fn entry_of(
    node: VisitedNodeView,
    metadata: NodeMetadata,
    root: Seq<PathPartView>,
    now: Timestamp,
) -> FileEntryView {
    let name = text_or_empty(file_name_of(node.path.parts));
    let extension = if metadata.is_directory {
        Seq::<char>::empty()
    } else {
        lower_extension_of(name)
    };
    FileEntryView {
        path: node.path.text,
        name: name,
        is_directory: metadata.is_directory,
        size: if metadata.is_directory {
            0
        } else {
            metadata.len
        },
        modified_at: change_time_text(metadata.modified, now),
        category: if metadata.is_directory {
            FileCategory::Folder
        } else {
            classification(extension)
        },
        extension: extension,
        depth: depth_of(root, node.path.parts),
        parent_path: text_or_empty(node.parent),
    }
}

/// What building the entry of a node gives: the entry, or the message that
/// the metadata could not be read.
pub open spec fn entry_outcome(node: VisitedNodeView, root: Seq<PathPartView>, now: Timestamp)
    -> Result<FileEntryView, Seq<char>> {
    match node.metadata {
        Ok(metadata) => Ok(entry_of(node, metadata, root, now)),
        Err(e) => Err("Failed to get metadata: "@ + e.message),
    }
}

/// The value of the outcome of building an entry.
pub open spec fn outcome_view(outcome: Result<FileEntry, String>) -> Result<
    FileEntryView,
    Seq<char>,
> {
    match outcome {
        Ok(entry) => Ok(entry@),
        Err(message) => Err(message@),
    }
}

/// Every entry built from a node is well formed.
pub proof fn lemma_entry_of_wf(
    node: VisitedNodeView,
    metadata: NodeMetadata,
    root: Seq<PathPartView>,
    now: Timestamp,
)
    ensures
        entry_of(node, metadata, root, now).wf(),
{
}

/// Builds the entry of a visited node. It fails only where the metadata of the
/// node could not be read. The time of change is always filled in, as long as
/// the current time can be written.
pub fn create_file_entry(node: &VisitedNode, root: &Vec<PathPart>, now: &Timestamp) -> (outcome:
    Result<FileEntry, String>)
    ensures
        outcome_view(outcome) == entry_outcome(node@, part_views(root@), *now),
        outcome matches Ok(entry) ==> entry@.wf(),
        outcome matches Ok(entry) ==> (now.has_text() ==> entry.modified_at@.len() > 0),
{
    let metadata = match &node.metadata {
        Ok(m) => *m,
        Err(e) => {
            return Err(prefixed("Failed to get metadata: ", e.message.as_str()));
        },
    };
    let name = match file_name(&node.path.parts) {
        Some(n) => n,
        None => String::new(),
    };
    let is_directory = metadata.is_directory;
    let size: u64 = if is_directory {
        0
    } else {
        metadata.len
    };
    let modified_at = change_time(metadata.modified, now);
    let extension = if is_directory {
        String::new()
    } else {
        get_extension(name.as_str())
    };
    let category = if is_directory {
        FileCategory::Folder
    } else {
        classify_extension(extension.as_str())
    };
    let depth = depth_below(root, &node.path.parts);
    let parent_path = match &node.parent {
        Some(p) => p.clone(),
        None => String::new(),
    };
    Ok(
        FileEntry::new(
            node.path.text.clone(),
            name,
            is_directory,
            size,
            modified_at,
            category,
            extension,
            depth,
            parent_path,
        ),
    )
}


/// A scan in progress: what the walk has found so far.
#[derive(Debug)]
pub struct Scan {
    /// The root of the scan in canonical form, as text.
    pub root_path: String,
    /// The components of the root. The walk starts at this path: the node
    /// with this path is the root itself and is left out, and depths are
    /// counted below it.
    pub root_parts: Vec<PathPart>,
    /// The entries found so far, in the order of the walk.
    pub entries: Vec<FileEntry>,
    /// Statistics over the entries.
    pub stats: ScanStats,
    /// The nodes that could not be scanned.
    pub failed_entries: Vec<FailedEntry>,
    /// Reading of the clock at the last progress notice, in milliseconds.
    pub last_progress_ms: u64,
}

/// The mathematical value of a [`Scan`].
pub struct ScanView {
    pub root_path: Seq<char>,
    pub root_parts: Seq<PathPartView>,
    pub entries: Seq<FileEntryView>,
    pub stats: Tally,
    pub failed_entries: Seq<FailedEntryView>,
    pub last_progress_ms: u64,
}

impl View for Scan {
    type V = ScanView;

    open spec fn view(&self) -> ScanView {
        ScanView {
            root_path: self.root_path@,
            root_parts: part_views(self.root_parts@),
            entries: entry_views(self.entries@),
            stats: self.stats@,
            failed_entries: failure_views(self.failed_entries@),
            last_progress_ms: self.last_progress_ms,
        }
    }
}

/// The reason of a failure on a node, by the kind of the underlying error:
/// access denied where the error says so, unknown otherwise.
pub open spec fn node_failure_reason(kind: Option<IoErrorKind>) -> FailureReason {
    if kind == Some(IoErrorKind::PermissionDenied) {
        FailureReason::PermissionDenied
    } else {
        FailureReason::Unknown
    }
}

/// The failure recorded for a node whose metadata could not be read.
pub open spec fn metadata_failure(path: Seq<char>, failure: IoFailureView) -> FailedEntryView {
    FailedEntryView {
        path: path,
        reason: node_failure_reason(Some(failure.kind)),
        error_message: "Failed to get metadata: "@ + failure.message,
    }
}

/// The failure recorded for a node whose entry the statistics cannot take.
pub open spec fn range_failure(path: Seq<char>) -> FailedEntryView {
    FailedEntryView {
        path: path,
        reason: FailureReason::Unknown,
        error_message: "Statistics out of range"@,
    }
}

/// The failure recorded for a node that the walk could not reach: access
/// denied where the underlying error says so, unknown otherwise.
pub open spec fn walk_failure(failure: WalkFailureView) -> FailedEntryView {
    FailedEntryView {
        path: match failure.path {
            Some(p) => p,
            None => "unknown"@,
        },
        reason: node_failure_reason(failure.kind),
        error_message: failure.message,
    }
}

impl ScanView {
    /// The scan is consistent: its entries are well formed and its statistics
    /// are the tally of its entries.
    pub open spec fn wf(self) -> bool {
        &&& all_wf(self.entries)
        &&& self.stats == Tally::of(self.entries)
    }

    /// Whether the event reports a node other than the root of the walk.
    pub open spec fn reports_node(self, event: WalkEventView) -> bool {
        event matches WalkEventView::Visited(node) && node.path.parts != self.root_parts
    }

    /// Whether enough time has passed since the last notice.
    pub open spec fn progress_due(self, clock: ClockReading) -> bool {
        clock.elapsed_ms - self.last_progress_ms >= PROGRESS_INTERVAL_MS
    }

    /// The notice that an event gives rise to: one for a node other than the
    /// root when the interval has passed, with the number of entries so far
    /// and the path of the node; none otherwise.
    pub open spec fn notice(self, event: WalkEventView, clock: ClockReading) -> Option<
        ScanProgressView,
    > {
        match event {
            WalkEventView::Visited(node) => if node.path.parts != self.root_parts
                && self.progress_due(clock) {
                Some(
                    ScanProgressView {
                        scanned_count: self.entries.len() as u64,
                        current_path: node.path.text,
                        estimated_progress: None,
                    },
                )
            } else {
                None
            },
            WalkEventView::Unreadable(_) => None,
        }
    }

    /// The scan with one more entry.
    pub open spec fn with_entry(self, entry: FileEntryView) -> ScanView {
        ScanView { entries: self.entries.push(entry), stats: self.stats.plus(entry), ..self }
    }

    /// The scan with one more failure.
    pub open spec fn with_failure(self, failure: FailedEntryView) -> ScanView {
        ScanView { failed_entries: self.failed_entries.push(failure), ..self }
    }

    /// The scan after a node other than the root: one more entry, or one more
    /// failure where the metadata could not be read or the statistics cannot
    /// take the entry.
    pub open spec fn with_node(self, node: VisitedNodeView, now: Timestamp) -> ScanView {
        match node.metadata {
            Ok(metadata) => {
                let entry = entry_of(node, metadata, self.root_parts, now);
                if self.stats.plus(entry).fits() {
                    self.with_entry(entry)
                } else {
                    self.with_failure(range_failure(node.path.text))
                }
            },
            Err(failure) => self.with_failure(metadata_failure(node.path.text, failure)),
        }
    }

    /// The scan after one event of the walk.
    pub open spec fn after(self, event: WalkEventView, clock: ClockReading) -> ScanView {
        match event {
            WalkEventView::Visited(node) => if node.path.parts == self.root_parts {
                self
            } else {
                let timed = if self.progress_due(clock) {
                    ScanView { last_progress_ms: clock.elapsed_ms, ..self }
                } else {
                    self
                };
                timed.with_node(node, clock.now)
            },
            WalkEventView::Unreadable(failure) => self.with_failure(walk_failure(failure)),
        }
    }

    /// The scan after a list of events, all handled at the same reading of the
    /// clock.
    pub open spec fn after_all(self, events: Seq<WalkEventView>, clock: ClockReading) -> ScanView
        decreases events.len(),
    {
        if events.len() == 0 {
            self
        } else {
            self.after_all(events.drop_last(), clock).after(events.last(), clock)
        }
    }

    /// The result of the scan, stamped with the time of its end and its
    /// duration.
    pub open spec fn result(self, completed: Timestamp, duration_ms: u64) -> ScanResultView {
        ScanResultView {
            root_path: self.root_path,
            entries: self.entries,
            stats: self.stats,
            failed_entries: self.failed_entries,
            completed_at: time_text(completed),
            duration_ms: duration_ms,
        }
    }
}

/// Every entry of the list has a time of change.
pub open spec fn dated(entries: Seq<FileEntryView>) -> bool {
    forall|i: int| 0 <= i < entries.len() ==> (#[trigger] entries[i]).modified_at.len() > 0
}

/// A list of entries with a time of change keeps that with one more such
/// entry.
pub proof fn lemma_dated_push(entries: Seq<FileEntryView>, entry: FileEntryView)
    ensures
        dated(entries) && entry.modified_at.len() > 0 ==> dated(entries.push(entry)),
{
    if dated(entries) && entry.modified_at.len() > 0 {
        assert forall|i: int| 0 <= i < entries.push(entry).len() implies (
        #[trigger] entries.push(entry)[i]).modified_at.len() > 0 by {
            if i < entries.len() {
                assert(entries.push(entry)[i] == entries[i]);
            }
        }
    }
}

/// What starting a scan gives: the fresh scan, or the message of the fatal
/// error. The path must exist and be a directory, and its canonical form must
/// be known.
pub open spec fn begin_outcome(root_path: Seq<char>, probe: RootProbeView) -> Result<
    ScanView,
    Seq<char>,
> {
    if !probe.exists {
        Err("Path not found: "@ + root_path)
    } else if !probe.is_directory {
        Err("Not a directory: "@ + root_path)
    } else {
        match probe.canonical {
            Err(e) => Err("Failed to canonicalize path: "@ + e),
            Ok(canonical) => Ok(
                ScanView {
                    root_path: canonical.text,
                    root_parts: canonical.parts,
                    entries: Seq::empty(),
                    stats: Tally::zero(),
                    failed_entries: Seq::empty(),
                    last_progress_ms: 0,
                },
            ),
        }
    }
}

/// The value of the outcome of starting a scan.
pub open spec fn begun_view(outcome: Result<Scan, String>) -> Result<ScanView, Seq<char>> {
    match outcome {
        Ok(scan) => Ok(scan@),
        Err(message) => Err(message@),
    }
}

/// The value of an optional notice.
pub open spec fn notice_view(notice: Option<ScanProgress>) -> Option<ScanProgressView> {
    match notice {
        Some(progress) => Some(progress@),
        None => None,
    }
}

/// One event keeps a consistent scan consistent.
pub proof fn lemma_after_keeps_wf(scan: ScanView, event: WalkEventView, clock: ClockReading)
    requires
        scan.wf(),
    ensures
        scan.after(event, clock).wf(),
{
    let next = scan.after(event, clock);
    if let WalkEventView::Visited(node) = event {
        if node.path.parts != scan.root_parts {
            if let Ok(metadata) = node.metadata {
                let entry = entry_of(node, metadata, scan.root_parts, clock.now);
                if scan.stats.plus(entry).fits() {
                    lemma_entry_of_wf(node, metadata, scan.root_parts, clock.now);
                    lemma_tally_push(scan.entries, entry);
                    assert forall|i: int| 0 <= i < next.entries.len() implies (
                    #[trigger] next.entries[i]).wf() by {
                        if i < scan.entries.len() {
                            assert(next.entries[i] == scan.entries[i]);
                        }
                    }
                }
            }
        }
    }
}

/// One event settles at most one node: it adds one entry, or one failure, or,
/// for the root of the walk, nothing. What was recorded before stays in front.
pub proof fn lemma_after_extends(scan: ScanView, event: WalkEventView, clock: ClockReading)
    ensures
        ({
            let next = scan.after(event, clock);
            let added = (next.entries.len() - scan.entries.len()) + (next.failed_entries.len()
                - scan.failed_entries.len());
            &&& next.entries.len() >= scan.entries.len()
            &&& next.failed_entries.len() >= scan.failed_entries.len()
            &&& next.entries.subrange(0, scan.entries.len() as int) == scan.entries
            &&& next.failed_entries.subrange(0, scan.failed_entries.len() as int)
                == scan.failed_entries
            &&& added == if event is Unreadable || scan.reports_node(event) {
                1int
            } else {
                0int
            }
        }),
{
    let next = scan.after(event, clock);
    assert(next.entries.subrange(0, scan.entries.len() as int) =~= scan.entries);
    assert(next.failed_entries.subrange(0, scan.failed_entries.len() as int)
        =~= scan.failed_entries);
}

/// A notice is given only when at least the interval has passed since the last
/// one, and the scan then remembers the time of the notice; without a notice
/// the remembered time stays.
pub proof fn lemma_notice_throttled(scan: ScanView, event: WalkEventView, clock: ClockReading)
    ensures
        scan.notice(event, clock) is Some <==> scan.reports_node(event) && clock.elapsed_ms
            - scan.last_progress_ms >= 100,
        scan.notice(event, clock) is Some ==> scan.after(event, clock).last_progress_ms
            == clock.elapsed_ms,
        scan.notice(event, clock) is None ==> scan.after(event, clock).last_progress_ms
            == scan.last_progress_ms,
        scan.notice(event, clock) matches Some(progress) ==> progress.scanned_count
            == scan.entries.len() as u64,
{
}

/// Classifies a failure on a node by the kind of the underlying error.
pub fn failure_reason(kind: Option<IoErrorKind>) -> (reason: FailureReason)
    ensures
        reason == node_failure_reason(kind),
{
    match kind {
        Some(IoErrorKind::PermissionDenied) => FailureReason::PermissionDenied,
        _ => FailureReason::Unknown,
    }
}

impl Scan {
    /// Starts a scan of `root_path`. A path that does not exist, is no
    /// directory or has no canonical form is refused before any node is
    /// visited. The root of the scan is the canonical form: the walk is to be
    /// run on it.
    pub fn begin(root_path: &str, probe: RootProbe) -> (outcome: Result<Scan, String>)
        ensures
            begun_view(outcome) == begin_outcome(root_path@, probe@),
            outcome matches Ok(scan) ==> scan@.wf(),
    {
        if !probe.exists {
            return Err(prefixed("Path not found: ", root_path));
        }
        if !probe.is_directory {
            return Err(prefixed("Not a directory: ", root_path));
        }
        match probe.canonical {
            Err(e) => Err(prefixed("Failed to canonicalize path: ", e.as_str())),
            Ok(canonical) => {
                let scan = Scan {
                    root_path: canonical.text,
                    root_parts: canonical.parts,
                    entries: Vec::new(),
                    stats: ScanStats::new(),
                    failed_entries: Vec::new(),
                    last_progress_ms: 0,
                };
                assert(scan@.entries =~= Seq::empty());
                assert(scan@.failed_entries =~= Seq::empty());
                Ok(scan)
            },
        }
    }

    fn record_failure(&mut self, failure: FailedEntry)
        ensures
            final(self)@ == old(self)@.with_failure(failure@),
    {
        proof {
            lemma_failure_views_push(self.failed_entries@, failure);
        }
        self.failed_entries.push(failure);
    }

    /// Handles one event of the walk at the given reading of the clock, and
    /// returns the progress notice that is due, if one is.
    pub fn visit(&mut self, event: &WalkEvent, clock: &ClockReading) -> (notice: Option<
        ScanProgress,
    >)
        ensures
            final(self)@ == old(self)@.after(event@, *clock),
            notice_view(notice) == old(self)@.notice(event@, *clock),
            old(self)@.wf() ==> final(self)@.wf(),
            clock.now.has_text() && dated(old(self)@.entries) ==> dated(final(self)@.entries),
    {
        proof {
            if old(self)@.wf() {
                lemma_after_keeps_wf(old(self)@, event@, *clock);
            }
        }
        match event {
            WalkEvent::Visited(node) => {
                if same_path(&node.path.parts, &self.root_parts) {
                    return None;
                }
                let notice = if clock.elapsed_ms >= self.last_progress_ms && clock.elapsed_ms
                    - self.last_progress_ms >= PROGRESS_INTERVAL_MS {
                    self.last_progress_ms = clock.elapsed_ms;
                    Some(ScanProgress::new(self.entries.len() as u64, node.path.text.clone()))
                } else {
                    None
                };
                match create_file_entry(node, &self.root_parts, &clock.now) {
                    Ok(entry) => {
                        if self.stats.can_add(&entry) {
                            proof {
                                lemma_entry_views_push(self.entries@, entry);
                                lemma_dated_push(entry_views(self.entries@), entry@);
                            }
                            self.stats.add_entry(&entry);
                            self.entries.push(entry);
                        } else {
                            self.record_failure(
                                FailedEntry::new(
                                    node.path.text.clone(),
                                    FailureReason::Unknown,
                                    String::from_str("Statistics out of range"),
                                ),
                            );
                        }
                    },
                    Err(message) => {
                        let kind = match &node.metadata {
                            Ok(_) => None,
                            Err(failure) => Some(failure.kind),
                        };
                        self.record_failure(
                            FailedEntry::new(node.path.text.clone(), failure_reason(kind), message),
                        );
                    },
                }
                notice
            },
            WalkEvent::Unreadable(failure) => {
                let path = match &failure.path {
                    Some(p) => p.clone(),
                    None => String::from_str("unknown"),
                };
                let reason = failure_reason(failure.kind);
                self.record_failure(FailedEntry::new(path, reason, failure.message.clone()));
                None
            },
        }
    }

    /// Ends the scan and assembles its result, stamped with the time of the
    /// end and the duration.
    pub fn finish(self, completed: &Timestamp, duration_ms: u64) -> (result: ScanResult)
        ensures
            result@ == self@.result(*completed, duration_ms),
            self@.wf() ==> result@.wf(),
            completed.has_text() ==> result.completed_at@.len() > 0,
    {
        let completed_at = time_of(completed);
        ScanResult::new(
            self.root_path,
            self.entries,
            self.stats,
            self.failed_entries,
            completed_at,
            duration_ms,
        )
    }
}


/// The reading of the clock under which a finished walk is replayed: no time
/// has passed, so no notice falls due.
pub open spec fn replay_clock(now: Timestamp) -> ClockReading {
    ClockReading { elapsed_ms: 0, now: now }
}

/// What scanning a directory gives, from what the file system said of the
/// root and the events of the walk: the fatal error of the start, or the
/// result of the scan after every event.
pub open spec fn scan_outcome(
    root_path: Seq<char>,
    probe: RootProbeView,
    events: Seq<WalkEventView>,
    now: Timestamp,
    duration_ms: u64,
) -> Result<ScanResultView, Seq<char>> {
    match begin_outcome(root_path, probe) {
        Err(message) => Err(message),
        Ok(start) => Ok(start.after_all(events, replay_clock(now)).result(now, duration_ms)),
    }
}

/// The value of the outcome of a scan.
pub open spec fn scanned_view(outcome: Result<ScanResult, String>) -> Result<
    ScanResultView,
    Seq<char>,
> {
    match outcome {
        Ok(result) => Ok(result@),
        Err(message) => Err(message@),
    }
}

/// Any number of events keeps a consistent scan consistent.
pub proof fn lemma_after_all_keeps_wf(
    scan: ScanView,
    events: Seq<WalkEventView>,
    clock: ClockReading,
)
    requires
        scan.wf(),
    ensures
        scan.after_all(events, clock).wf(),
    decreases events.len(),
{
    if events.len() > 0 {
        lemma_after_all_keeps_wf(scan, events.drop_last(), clock);
        lemma_after_keeps_wf(scan.after_all(events.drop_last(), clock), events.last(), clock);
    }
}

/// Scans a directory from a finished walk: checks the root, then handles the
/// events in order and assembles the result. Only a bad root is a fatal
/// error; a node that failed is listed in the result.
pub fn scan_directory(
    root_path: &str,
    probe: RootProbe,
    events: &Vec<WalkEvent>,
    now: &Timestamp,
    duration_ms: u64,
) -> (outcome: Result<ScanResult, String>)
    ensures
        scanned_view(outcome) == scan_outcome(
            root_path@,
            probe@,
            event_views(events@),
            *now,
            duration_ms,
        ),
        outcome matches Ok(result) ==> result@.wf(),
        outcome matches Ok(result) ==> (now.has_text() ==> dated(result@.entries)
            && result.completed_at@.len() > 0),
{
    let ghost start = begin_outcome(root_path@, probe@);
    let mut scan = match Scan::begin(root_path, probe) {
        Ok(scan) => scan,
        Err(message) => {
            return Err(message);
        },
    };
    let clock = ClockReading { elapsed_ms: 0, now: *now };
    let ghost all = event_views(events@);
    let mut i: usize = 0;
    while i < events.len()
        invariant
            i <= events.len(),
            all == event_views(events@),
            start is Ok,
            clock == replay_clock(*now),
            scan@ == start->Ok_0.after_all(all.take(i as int), clock),
            scan@.wf(),
            now.has_text() ==> dated(scan@.entries),
        decreases events.len() - i,
    {
        assert(all.take(i + 1).drop_last() =~= all.take(i as int));
        assert(all.take(i + 1).last() == events@[i as int]@);
        scan.visit(&events[i], &clock);
        i += 1;
    }
    assert(all.take(i as int) =~= all);
    Ok(scan.finish(now, duration_ms))
}


/// The number of events that settle a node: every failure of the walk, and
/// every node other than the root of the walk.
pub open spec fn settled_events(root_parts: Seq<PathPartView>, events: Seq<WalkEventView>) -> nat
    decreases events.len(),
{
    if events.len() == 0 {
        0
    } else {
        let counted: nat = match events.last() {
            WalkEventView::Visited(node) => if node.path.parts == root_parts {
                0
            } else {
                1
            },
            WalkEventView::Unreadable(_) => 1,
        };
        settled_events(root_parts, events.drop_last()) + counted
    }
}

/// Over a whole walk, every node other than the root is accounted for exactly
/// once, as an entry or as a failure; the root itself is never listed. What
/// was recorded before the walk stays in front.
pub proof fn lemma_after_all_accounts(
    scan: ScanView,
    events: Seq<WalkEventView>,
    clock: ClockReading,
)
    ensures
        ({
            let end = scan.after_all(events, clock);
            &&& end.root_parts == scan.root_parts
            &&& end.root_path == scan.root_path
            &&& end.entries.len() >= scan.entries.len()
            &&& end.failed_entries.len() >= scan.failed_entries.len()
            &&& end.entries.len() + end.failed_entries.len() == scan.entries.len()
                + scan.failed_entries.len() + settled_events(scan.root_parts, events)
        }),
    decreases events.len(),
{
    if events.len() > 0 {
        lemma_after_all_accounts(scan, events.drop_last(), clock);
        lemma_after_extends(scan.after_all(events.drop_last(), clock), events.last(), clock);
    }
}

/// The entry of a node directly inside the root has depth 1.
pub proof fn lemma_entry_depth_of_child(
    node: VisitedNodeView,
    metadata: NodeMetadata,
    root: Seq<PathPartView>,
    name: PathPartView,
    now: Timestamp,
)
    requires
        node.path.parts == root.push(name),
    ensures
        entry_of(node, metadata, root, now).depth == 1,
{
    lemma_child_depth(root, name);
}

/// The entry of a node one level further down has a depth greater by 1, up
/// to the greatest depth that an entry can record.
pub proof fn lemma_entry_depth_nested(
    outer: VisitedNodeView,
    inner: VisitedNodeView,
    outer_metadata: NodeMetadata,
    inner_metadata: NodeMetadata,
    root: Seq<PathPartView>,
    name: PathPartView,
    now: Timestamp,
)
    requires
        is_prefix(root, outer.path.parts),
        inner.path.parts == outer.path.parts.push(name),
        entry_of(outer, outer_metadata, root, now).depth < u32::MAX,
    ensures
        entry_of(inner, inner_metadata, root, now).depth == entry_of(
            outer,
            outer_metadata,
            root,
            now,
        ).depth + 1,
{
    lemma_nested_depth(root, outer.path.parts, name);
}

/// The entry of a node under the root, other than the root itself, has a
/// depth of at least 1. Where its depth is 1, the parent of its path is the
/// root.
pub proof fn lemma_entry_under_root(
    node: VisitedNodeView,
    metadata: NodeMetadata,
    root: Seq<PathPartView>,
    now: Timestamp,
)
    ensures
        is_prefix(root, node.path.parts) && node.path.parts != root ==> entry_of(
            node,
            metadata,
            root,
            now,
        ).depth >= 1,
        entry_of(node, metadata, root, now).depth == 1 && parent_of(node.path.parts) is Some
            ==> parent_of(node.path.parts) == Some(root),
{
    lemma_depth_under_root(root, node.path.parts);
}

/// A scan that is handed a node directly inside its root records the node
/// with depth 1, whatever the root is.
pub proof fn lemma_child_of_root_has_depth_one(
    scan: ScanView,
    node: VisitedNodeView,
    name: PathPartView,
    clock: ClockReading,
)
    requires
        node.path.parts == scan.root_parts.push(name),
        node.metadata is Ok,
        scan.stats.plus(entry_of(node, node.metadata->Ok_0, scan.root_parts, clock.now)).fits(),
    ensures
        ({
            let next = scan.after(WalkEventView::Visited(node), clock);
            &&& next.entries.len() == scan.entries.len() + 1
            &&& next.entries.last().depth == 1
            &&& next.entries.last().path == node.path.text
        }),
{
    lemma_child_depth(scan.root_parts, name);
    assert(scan.root_parts.push(name).len() != scan.root_parts.len());
}

/// Every node that the events report lies under the root.
pub open spec fn walk_under_root(root: Seq<PathPartView>, events: Seq<WalkEventView>) -> bool {
    forall|i: int|
        0 <= i < events.len() ==> ((#[trigger] events[i]) matches WalkEventView::Visited(node)
            ==> is_prefix(root, node.path.parts))
}

/// The entry was built from a node of the events: a node other than the root,
/// with readable metadata, whose path is the path of the entry.
pub open spec fn built_from(
    entry: FileEntryView,
    root: Seq<PathPartView>,
    events: Seq<WalkEventView>,
    now: Timestamp,
) -> bool {
    exists|i: int|
        0 <= i < events.len() && ((#[trigger] events[i]) matches WalkEventView::Visited(node)
            && node.path.parts != root && node.metadata is Ok && entry == entry_of(
            node,
            node.metadata->Ok_0,
            root,
            now,
        ))
}

/// Every entry that a walk adds was built from a node of that walk.
pub proof fn lemma_entries_built_from_nodes(
    scan: ScanView,
    events: Seq<WalkEventView>,
    clock: ClockReading,
)
    ensures
        ({
            let end = scan.after_all(events, clock);
            forall|k: int|
                scan.entries.len() <= k < end.entries.len() ==> built_from(
                    #[trigger] end.entries[k],
                    scan.root_parts,
                    events,
                    clock.now,
                )
        }),
    decreases events.len(),
{
    let end = scan.after_all(events, clock);
    if events.len() > 0 {
        let head = events.drop_last();
        let before = scan.after_all(head, clock);
        lemma_entries_built_from_nodes(scan, head, clock);
        lemma_after_all_accounts(scan, head, clock);
        lemma_after_extends(before, events.last(), clock);
        assert forall|k: int| scan.entries.len() <= k < end.entries.len() implies built_from(
            #[trigger] end.entries[k],
            scan.root_parts,
            events,
            clock.now,
        ) by {
            if k < before.entries.len() {
                assert(end.entries[k] == end.entries.subrange(0, before.entries.len() as int)[k]);
                assert(end.entries[k] == before.entries[k]);
                assert(built_from(before.entries[k], scan.root_parts, head, clock.now));
                let i = choose|i: int|
                    0 <= i < head.len() && ((#[trigger] head[i]) matches WalkEventView::Visited(
                        node,
                    ) && node.path.parts != scan.root_parts && node.metadata is Ok
                        && before.entries[k] == entry_of(
                        node,
                        node.metadata->Ok_0,
                        scan.root_parts,
                        clock.now,
                    ));
                assert(events[i] == head[i]);
            } else {
                assert(events[events.len() - 1] == events.last());
            }
        }
    }
}

/// In a walk that stays under the root, every entry lies under the root: its
/// depth is at least 1, and where its depth is 1 it was built from a node
/// whose parent is the root.
pub proof fn lemma_walk_under_root(
    scan: ScanView,
    events: Seq<WalkEventView>,
    clock: ClockReading,
)
    requires
        walk_under_root(scan.root_parts, events),
    ensures
        ({
            let end = scan.after_all(events, clock);
            forall|k: int|
                scan.entries.len() <= k < end.entries.len() ==> {
                    &&& (#[trigger] end.entries[k]).depth >= 1
                    &&& exists|i: int|
                        0 <= i < events.len() && ((#[trigger] events[i])
                            matches WalkEventView::Visited(node) && end.entries[k].path
                            == node.path.text && end.entries[k].parent_path == text_or_empty(
                            node.parent,
                        ) && is_prefix(scan.root_parts, node.path.parts) && node.path.parts
                            != scan.root_parts && (end.entries[k].depth == 1 && parent_of(
                            node.path.parts,
                        ) is Some ==> parent_of(node.path.parts) == Some(scan.root_parts)))
                }
        }),
{
    let end = scan.after_all(events, clock);
    lemma_entries_built_from_nodes(scan, events, clock);
    assert forall|k: int| scan.entries.len() <= k < end.entries.len() implies {
        &&& (#[trigger] end.entries[k]).depth >= 1
        &&& exists|i: int|
            0 <= i < events.len() && ((#[trigger] events[i]) matches WalkEventView::Visited(node)
                && end.entries[k].path == node.path.text && end.entries[k].parent_path
                == text_or_empty(node.parent) && is_prefix(scan.root_parts, node.path.parts)
                && node.path.parts != scan.root_parts && (end.entries[k].depth == 1 && parent_of(
                node.path.parts,
            ) is Some ==> parent_of(node.path.parts) == Some(scan.root_parts)))
    } by {
        assert(built_from(end.entries[k], scan.root_parts, events, clock.now));
        let i = choose|i: int|
            0 <= i < events.len() && ((#[trigger] events[i]) matches WalkEventView::Visited(node)
                && node.path.parts != scan.root_parts && node.metadata is Ok && end.entries[k]
                == entry_of(node, node.metadata->Ok_0, scan.root_parts, clock.now));
        let node = events[i]->Visited_0;
        lemma_entry_under_root(node, node.metadata->Ok_0, scan.root_parts, clock.now);
    }
}

/// The result of a scan whose walk stays under the canonical root: every
/// entry has a depth of at least 1, whatever the spelling in which the root
/// was asked for, and an entry of depth 1 was built from a node whose parent
/// is the root.
pub proof fn lemma_scan_under_root(
    root_path: Seq<char>,
    probe: RootProbeView,
    events: Seq<WalkEventView>,
    now: Timestamp,
    duration_ms: u64,
)
    requires
        scan_outcome(root_path, probe, events, now, duration_ms) is Ok,
        walk_under_root(probe.canonical->Ok_0.parts, events),
    ensures
        ({
            let result = scan_outcome(root_path, probe, events, now, duration_ms)->Ok_0;
            let root = probe.canonical->Ok_0;
            &&& result.root_path == root.text
            &&& forall|k: int|
                0 <= k < result.entries.len() ==> {
                    &&& (#[trigger] result.entries[k]).depth >= 1
                    &&& exists|i: int|
                        0 <= i < events.len() && ((#[trigger] events[i])
                            matches WalkEventView::Visited(node) && result.entries[k].path
                            == node.path.text && result.entries[k].parent_path == text_or_empty(
                            node.parent,
                        ) && is_prefix(root.parts, node.path.parts) && node.path.parts
                            != root.parts && (result.entries[k].depth == 1 && parent_of(
                            node.path.parts,
                        ) is Some ==> parent_of(node.path.parts) == Some(root.parts)))
                }
        }),
{
    let start = begin_outcome(root_path, probe)->Ok_0;
    lemma_walk_under_root(start, events, replay_clock(now));
    lemma_after_all_accounts(start, events, replay_clock(now));
}

/// No two of the nodes that the events report have the same path.
pub open spec fn distinct_nodes(events: Seq<WalkEventView>) -> bool {
    forall|i: int, j: int|
        0 <= i < j < events.len() ==> ((#[trigger] events[i]) matches WalkEventView::Visited(a)
            ==> ((#[trigger] events[j]) matches WalkEventView::Visited(b) ==> a.path.text
            != b.path.text))
}

/// A walk that reports no path twice gives entries with distinct paths: the
/// path is a key of the entries of a scan.
pub proof fn lemma_walk_keeps_paths_distinct(
    scan: ScanView,
    events: Seq<WalkEventView>,
    clock: ClockReading,
)
    requires
        scan.entries.len() == 0,
        distinct_nodes(events),
    ensures
        distinct_paths(scan.after_all(events, clock).entries),
    decreases events.len(),
{
    if events.len() > 0 {
        let head = events.drop_last();
        let before = scan.after_all(head, clock);
        assert forall|i: int, j: int| 0 <= i < j < head.len() implies ((#[trigger] head[i])
            matches WalkEventView::Visited(a) ==> ((#[trigger] head[j])
            matches WalkEventView::Visited(b) ==> a.path.text != b.path.text)) by {
            assert(head[i] == events[i]);
            assert(head[j] == events[j]);
        }
        lemma_walk_keeps_paths_distinct(scan, head, clock);
        lemma_entries_built_from_nodes(scan, head, clock);
        lemma_after_all_accounts(scan, head, clock);
        if let WalkEventView::Visited(node) = events.last() {
            assert forall|k: int| 0 <= k < before.entries.len() implies (
            #[trigger] before.entries[k]).path != node.path.text by {
                assert(built_from(before.entries[k], scan.root_parts, head, clock.now));
                let i = choose|i: int|
                    0 <= i < head.len() && ((#[trigger] head[i]) matches WalkEventView::Visited(
                        origin,
                    ) && origin.path.parts != scan.root_parts && origin.metadata is Ok
                        && before.entries[k] == entry_of(
                        origin,
                        origin.metadata->Ok_0,
                        scan.root_parts,
                        clock.now,
                    ));
                assert(events[i] == head[i]);
                assert(events[events.len() - 1] == events.last());
            }
        }
        lemma_after_keeps_paths_distinct(before, events.last(), clock);
    }
}

/// No two entries of the list have the same path.
pub open spec fn distinct_paths(entries: Seq<FileEntryView>) -> bool {
    forall|i: int, j: int|
        0 <= i < j < entries.len() ==> (#[trigger] entries[i]).path != (#[trigger] entries[j]).path
}

/// Some entry of the list has the given path.
pub open spec fn has_path(entries: Seq<FileEntryView>, path: Seq<char>) -> bool {
    exists|i: int| 0 <= i < entries.len() && (#[trigger] entries[i]).path == path
}

/// The path stays a key of the entries: a node whose path no entry has yet
/// leaves the paths of the entries distinct.
pub proof fn lemma_after_keeps_paths_distinct(
    scan: ScanView,
    event: WalkEventView,
    clock: ClockReading,
)
    requires
        distinct_paths(scan.entries),
        event matches WalkEventView::Visited(node) ==> !has_path(scan.entries, node.path.text),
    ensures
        distinct_paths(scan.after(event, clock).entries),
{
    let next = scan.after(event, clock);
    assert forall|i: int, j: int| 0 <= i < j < next.entries.len() implies (
    #[trigger] next.entries[i]).path != (#[trigger] next.entries[j]).path by {
        if j < scan.entries.len() {
            assert(next.entries[i] == scan.entries[i]);
            assert(next.entries[j] == scan.entries[j]);
        } else {
            assert(next.entries[i] == scan.entries[i]);
        }
    }
}

/// The counts of the notices of a scan never go down: a later notice counts at
/// least as many entries as an earlier one.
pub proof fn lemma_notice_counts_grow(
    scan: ScanView,
    first: WalkEventView,
    first_clock: ClockReading,
    second: WalkEventView,
    second_clock: ClockReading,
)
    requires
        scan.after(first, first_clock).entries.len() <= u64::MAX,
    ensures
        scan.notice(first, first_clock) matches Some(earlier) ==> (scan.after(
            first,
            first_clock,
        ).notice(second, second_clock) matches Some(later) ==> later.scanned_count
            >= earlier.scanned_count),
{
    lemma_after_extends(scan, first, first_clock);
}

/// A path that does not exist and a path that is no directory are refused
/// with different errors.
pub proof fn lemma_fatal_errors_differ(
    root_path: Seq<char>,
    missing: RootProbeView,
    other: RootProbeView,
)
    requires
        !missing.exists,
        other.exists,
        !other.is_directory,
    ensures
        begin_outcome(root_path, missing) == Err::<ScanView, Seq<char>>(
            "Path not found: "@ + root_path,
        ),
        begin_outcome(root_path, other) == Err::<ScanView, Seq<char>>(
            "Not a directory: "@ + root_path,
        ),
        begin_outcome(root_path, missing) != begin_outcome(root_path, other),
{
    reveal_strlit("Path not found: ");
    reveal_strlit("Not a directory: ");
    let a = "Path not found: "@ + root_path;
    let b = "Not a directory: "@ + root_path;
    assert(a[0] == 'P');
    assert(b[0] == 'N');
}

} // verus!
