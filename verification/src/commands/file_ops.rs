//! Batches of file operations: moving files to the trash and copying files
//! into a folder.
//!
//! A batch never touches the file system. It tells the caller what to do next,
//! takes the outcome, and settles each item as a success or as a classified
//! failure. No failure of an item ends the batch.

use vstd::prelude::*;
use vstd::string::*;
use crate::outcome::{IoErrorKind, IoFailure, IoFailureView, TrashFailure, TrashFailureView};
use crate::paths::{
    file_name, file_name_of, is_parent, parent_of, part_views, ParsedPath, ParsedPathView,
    PathPart, PathPartView,
};
use crate::text::{contains_text, has_substring, prefixed};

verus! {

/// The kind of a batch.
#[derive(Debug, Clone, Copy, PartialEq, Eq, Structural)]
pub enum OperationType {
    Delete,
    Copy,
}

/// Why an item of a batch failed.
#[derive(Debug, Clone, Copy, PartialEq, Eq, Structural)]
pub enum FailureReason {
    PermissionDenied,
    FileLocked,
    PathNotFound,
    TargetNotFound,
    FileExists,
    SameFolder,
    Unknown,
}

/// An item of a batch that failed.
#[derive(Debug, Clone)]
pub struct FailedEntry {
    /// The path of the item as it was given.
    pub path: String,
    /// Class of the failure.
    pub reason: FailureReason,
    /// Message for a human reader.
    pub error_message: String,
}

/// The mathematical value of a [`FailedEntry`].
pub struct FailedEntryView {
    pub path: Seq<char>,
    pub reason: FailureReason,
    pub error_message: Seq<char>,
}

impl View for FailedEntry {
    type V = FailedEntryView;

    open spec fn view(&self) -> FailedEntryView {
        FailedEntryView {
            path: self.path@,
            reason: self.reason,
            error_message: self.error_message@,
        }
    }
}

/// The values of a list of failures, in the same order.
pub open spec fn failure_views(failures: Seq<FailedEntry>) -> Seq<FailedEntryView> {
    failures.map_values(|f: FailedEntry| f@)
}

/// The values of a list of texts, in the same order.
pub open spec fn text_views(texts: Seq<String>) -> Seq<Seq<char>> {
    texts.map_values(|t: String| t@)
}

/// The result of a batch.
#[derive(Debug, Clone)]
pub struct FileOperationResult {
    /// The kind of the batch.
    pub operation: OperationType,
    /// Number of items that succeeded.
    pub success_count: u32,
    /// Number of items that failed.
    pub failed_count: u32,
    /// The items that failed, in the order of the input.
    pub failed_files: Vec<FailedEntry>,
    /// Duration of the batch in milliseconds.
    pub duration_ms: u64,
}

/// The mathematical value of a [`FileOperationResult`].
pub struct FileOperationResultView {
    pub operation: OperationType,
    pub success_count: u32,
    pub failed_count: u32,
    pub failed_files: Seq<FailedEntryView>,
    pub duration_ms: u64,
}

impl View for FileOperationResult {
    type V = FileOperationResultView;

    open spec fn view(&self) -> FileOperationResultView {
        FileOperationResultView {
            operation: self.operation,
            success_count: self.success_count,
            failed_count: self.failed_count,
            failed_files: failure_views(self.failed_files@),
            duration_ms: self.duration_ms,
        }
    }
}

/// Whether a message speaks of a lock or of a file in use.
pub open spec fn speaks_of_lock(message: Seq<char>) -> bool {
    has_substring(message, "locked"@) || has_substring(message, "in use"@)
}

/// Whether a message speaks of permission or denial.
pub open spec fn speaks_of_denial(message: Seq<char>) -> bool {
    has_substring(message, "permission"@) || has_substring(message, "denied"@)
}

/// The class of a failed copy: by the kind of the error where the kind tells,
/// else by the message.
pub open spec fn io_failure_reason(kind: IoErrorKind, message: Seq<char>) -> FailureReason {
    match kind {
        IoErrorKind::PermissionDenied => FailureReason::PermissionDenied,
        IoErrorKind::NotFound => FailureReason::PathNotFound,
        IoErrorKind::AlreadyExists => FailureReason::FileExists,
        IoErrorKind::Other => if speaks_of_lock(message) {
            FailureReason::FileLocked
        } else {
            FailureReason::Unknown
        },
    }
}

/// The class of a failed move to the trash, by the message of the error: a
/// message that speaks of permission or denial tells of denied access, else
/// one that speaks of a lock or of a file in use tells of a locked file, and
/// any other tells nothing.
pub open spec fn trash_failure_reason(message: Seq<char>) -> FailureReason {
    if speaks_of_denial(message) {
        FailureReason::PermissionDenied
    } else if speaks_of_lock(message) {
        FailureReason::FileLocked
    } else {
        FailureReason::Unknown
    }
}

/// Classifies an error of the trash facility, and hands its message on.
pub fn categorize_trash_error(error: &TrashFailure) -> (classified: (FailureReason, String))
    ensures
        classified.0 == trash_failure_reason(error.message@),
        classified.1@ == error.message@,
{
    let message = error.message.clone();
    if contains_text(message.as_str(), "permission") || contains_text(message.as_str(), "denied") {
        (FailureReason::PermissionDenied, message)
    } else if contains_text(message.as_str(), "locked") || contains_text(
        message.as_str(),
        "in use",
    ) {
        (FailureReason::FileLocked, message)
    } else {
        (FailureReason::Unknown, message)
    }
}

/// Classifies an input or output error, and hands its message on.
pub fn categorize_io_error(error: &IoFailure) -> (classified: (FailureReason, String))
    ensures
        classified.0 == io_failure_reason(error.kind, error.message@),
        classified.1@ == error.message@,
{
    let message = error.message.clone();
    match error.kind {
        IoErrorKind::PermissionDenied => (FailureReason::PermissionDenied, message),
        IoErrorKind::NotFound => (FailureReason::PathNotFound, message),
        IoErrorKind::AlreadyExists => (FailureReason::FileExists, message),
        IoErrorKind::Other => {
            if contains_text(message.as_str(), "locked") || contains_text(
                message.as_str(),
                "in use",
            ) {
                (FailureReason::FileLocked, message)
            } else {
                (FailureReason::Unknown, message)
            }
        },
    }
}

/// What the caller of a deletion batch must do next.
#[derive(Debug, Clone)]
pub enum DeleteAction {
    /// Find out whether the path exists.
    Probe(String),
    /// Move the path to the trash.
    Trash(String),
    /// Nothing: every path is settled.
    Done,
}

/// The mathematical value of a [`DeleteAction`].
pub enum DeleteActionView {
    Probe(Seq<char>),
    Trash(Seq<char>),
    Done,
}

impl View for DeleteAction {
    type V = DeleteActionView;

    open spec fn view(&self) -> DeleteActionView {
        match self {
            DeleteAction::Probe(p) => DeleteActionView::Probe(p@),
            DeleteAction::Trash(p) => DeleteActionView::Trash(p@),
            DeleteAction::Done => DeleteActionView::Done,
        }
    }
}

/// What the caller of a deletion batch found.
#[derive(Debug)]
pub enum DeleteEvent {
    /// The answer to [`DeleteAction::Probe`].
    Probed { exists: bool },
    /// The answer to [`DeleteAction::Trash`]: the path is in the trash.
    Trashed,
    /// The answer to [`DeleteAction::Trash`]: the trash facility failed.
    TrashFailed(TrashFailure),
}

/// The mathematical value of a [`DeleteEvent`].
pub enum DeleteEventView {
    Probed { exists: bool },
    Trashed,
    TrashFailed(TrashFailureView),
}

impl View for DeleteEvent {
    type V = DeleteEventView;

    open spec fn view(&self) -> DeleteEventView {
        match self {
            DeleteEvent::Probed { exists } => DeleteEventView::Probed { exists: *exists },
            DeleteEvent::Trashed => DeleteEventView::Trashed,
            DeleteEvent::TrashFailed(failure) => DeleteEventView::TrashFailed(failure@),
        }
    }
}

/// The mathematical value of a [`DeleteBatch`].
pub struct DeleteBatchView {
    /// The paths to delete.
    pub paths: Seq<Seq<char>>,
    /// Number of paths that are settled.
    pub position: nat,
    /// Whether the path in turn is known to exist.
    pub probed: bool,
    /// Number of paths moved to the trash.
    pub success_count: nat,
    /// The paths that failed.
    pub failed_files: Seq<FailedEntryView>,
}

impl DeleteBatchView {
    /// The batch before its first step.
    pub open spec fn start(paths: Seq<Seq<char>>) -> DeleteBatchView {
        DeleteBatchView {
            paths: paths,
            position: 0,
            probed: false,
            success_count: 0,
            failed_files: Seq::empty(),
        }
    }

    /// The batch accounts for every settled path exactly once, as a success or
    /// as a failure, and its counts fit 32 bits.
    pub open spec fn wf(self) -> bool {
        &&& self.paths.len() <= u32::MAX
        &&& self.position <= self.paths.len()
        &&& self.probed ==> self.position < self.paths.len()
        &&& self.success_count + self.failed_files.len() == self.position
    }

    /// Every path is settled.
    pub open spec fn done(self) -> bool {
        self.position >= self.paths.len()
    }

    /// What the caller must do next.
    pub open spec fn pending(self) -> DeleteActionView {
        if self.done() {
            DeleteActionView::Done
        } else if self.probed {
            DeleteActionView::Trash(self.paths[self.position as int])
        } else {
            DeleteActionView::Probe(self.paths[self.position as int])
        }
    }

    /// The batch with the path in turn settled as a failure.
    pub open spec fn failed(self, reason: FailureReason, message: Seq<char>) -> DeleteBatchView {
        DeleteBatchView {
            position: self.position + 1,
            probed: false,
            failed_files: self.failed_files.push(
                FailedEntryView {
                    path: self.paths[self.position as int],
                    reason: reason,
                    error_message: message,
                },
            ),
            ..self
        }
    }

    /// The batch with the path in turn settled as a success.
    pub open spec fn succeeded(self) -> DeleteBatchView {
        DeleteBatchView {
            position: self.position + 1,
            probed: false,
            success_count: self.success_count + 1,
            ..self
        }
    }

    /// The batch after an event. A path that does not exist fails as not found
    /// and is never handed to the trash. An event that does not answer the
    /// pending action changes nothing.
    pub open spec fn after(self, event: DeleteEventView) -> DeleteBatchView {
        if self.done() {
            self
        } else if !self.probed {
            match event {
                DeleteEventView::Probed { exists } => if exists {
                    DeleteBatchView { probed: true, ..self }
                } else {
                    self.failed(
                        FailureReason::PathNotFound,
                        "File not found: "@ + self.paths[self.position as int],
                    )
                },
                _ => self,
            }
        } else {
            match event {
                DeleteEventView::Trashed => self.succeeded(),
                DeleteEventView::TrashFailed(failure) => self.failed(
                    trash_failure_reason(failure.message),
                    failure.message,
                ),
                _ => self,
            }
        }
    }

    /// Whether the event answers the pending action.
    pub open spec fn answered_by(self, event: DeleteEventView) -> bool {
        if self.done() {
            false
        } else if self.probed {
            event is Trashed || event is TrashFailed
        } else {
            event is Probed
        }
    }

    /// The greatest number of answers that the batch can still take: two for
    /// each path that is not settled, less one where the path in turn is
    /// known to exist.
    pub open spec fn steps_left(self) -> int {
        if self.done() {
            0
        } else if self.probed {
            2 * (self.paths.len() - self.position) - 1
        } else {
            2 * (self.paths.len() - self.position)
        }
    }

    /// The result of a batch of which every path is settled.
    pub open spec fn result(self, duration_ms: u64) -> FileOperationResultView {
        FileOperationResultView {
            operation: OperationType::Delete,
            success_count: self.success_count as u32,
            failed_count: self.failed_files.len() as u32,
            failed_files: self.failed_files,
            duration_ms: duration_ms,
        }
    }
}

/// A batch of deletions in progress.
#[derive(Debug)]
pub struct DeleteBatch {
    paths: Vec<String>,
    position: usize,
    probed: bool,
    success_count: u32,
    failed_files: Vec<FailedEntry>,
}

impl View for DeleteBatch {
    type V = DeleteBatchView;

    closed spec fn view(&self) -> DeleteBatchView {
        DeleteBatchView {
            paths: text_views(self.paths@),
            position: self.position as nat,
            probed: self.probed,
            success_count: self.success_count as nat,
            failed_files: failure_views(self.failed_files@),
        }
    }
}

/// What starting a deletion batch gives: the batch, or an error where the
/// paths are more than 32 bits can count.
pub open spec fn delete_start(paths: Seq<Seq<char>>) -> Result<DeleteBatchView, Seq<char>> {
    if paths.len() <= u32::MAX {
        Ok(DeleteBatchView::start(paths))
    } else {
        Err("Too many paths"@)
    }
}

/// The value of the outcome of starting a deletion batch.
pub open spec fn delete_started_view(outcome: Result<DeleteBatch, String>) -> Result<
    DeleteBatchView,
    Seq<char>,
> {
    match outcome {
        Ok(batch) => Ok(batch@),
        Err(message) => Err(message@),
    }
}

/// The value of an optional result.
pub open spec fn optional_result(result: Option<FileOperationResult>) -> Option<
    FileOperationResultView,
> {
    match result {
        Some(r) => Some(r@),
        None => None,
    }
}

/// One event keeps a well-formed batch well formed, and settles at most one
/// path.
pub proof fn lemma_delete_after(batch: DeleteBatchView, event: DeleteEventView)
    requires
        batch.wf(),
    ensures
        batch.after(event).wf(),
        batch.after(event).paths == batch.paths,
        batch.position <= batch.after(event).position <= batch.position + 1,
{
}

/// Every answer brings the batch nearer to its end, whatever the answer says:
/// no failure of a path ends the batch early, and no batch goes on for ever.
/// An event that answers nothing leaves the batch as it is.
pub proof fn lemma_delete_progress(batch: DeleteBatchView, event: DeleteEventView)
    requires
        batch.wf(),
    ensures
        batch.steps_left() >= 0,
        batch.steps_left() == 0 <==> batch.done(),
        batch.answered_by(event) ==> batch.after(event).steps_left() < batch.steps_left(),
        !batch.answered_by(event) ==> batch.after(event) == batch,
{
}

/// In the result of a finished batch the successes and the failures together
/// are as many as the paths; a batch without paths has neither.
pub proof fn lemma_delete_result_counts(batch: DeleteBatchView, duration_ms: u64)
    requires
        batch.wf(),
        batch.done(),
    ensures
        batch.result(duration_ms).success_count + batch.result(duration_ms).failed_count
            == batch.paths.len(),
        batch.result(duration_ms).failed_count == batch.result(duration_ms).failed_files.len(),
        batch.paths.len() == 0 ==> batch.result(duration_ms).success_count == 0
            && batch.result(duration_ms).failed_count == 0,
{
}

/// A path that does not exist is settled at once: one failure with the reason
/// that the path was not found, and no success.
pub proof fn lemma_delete_missing_path(batch: DeleteBatchView)
    requires
        batch.wf(),
        !batch.done(),
        !batch.probed,
    ensures
        ({
            let next = batch.after(DeleteEventView::Probed { exists: false });
            &&& next.success_count == batch.success_count
            &&& next.failed_files.len() == batch.failed_files.len() + 1
            &&& next.failed_files.last().reason == FailureReason::PathNotFound
            &&& next.failed_files.last().path == batch.paths[batch.position as int]
            &&& next.position == batch.position + 1
        }),
{
}

impl DeleteBatch {
    #[verifier::type_invariant]
    spec fn inv(self) -> bool {
        self@.wf()
    }

    /// Starts a batch over the given paths.
    pub fn new(paths: Vec<String>) -> (outcome: Result<DeleteBatch, String>)
        ensures
            delete_started_view(outcome) == delete_start(text_views(paths@)),
            outcome matches Ok(batch) ==> batch@.wf(),
    {
        if paths.len() > u32::MAX as usize {
            return Err(String::from_str("Too many paths"));
        }
        let batch = DeleteBatch {
            paths,
            position: 0,
            probed: false,
            success_count: 0,
            failed_files: Vec::new(),
        };
        assert(batch@.failed_files =~= Seq::empty());
        Ok(batch)
    }

    /// Tells what the caller must do next.
    pub fn next_action(&self) -> (action: DeleteAction)
        ensures
            action@ == self@.pending(),
            self@.wf(),
    {
        proof {
            use_type_invariant(self);
        }
        if self.position >= self.paths.len() {
            DeleteAction::Done
        } else if self.probed {
            DeleteAction::Trash(self.paths[self.position].clone())
        } else {
            DeleteAction::Probe(self.paths[self.position].clone())
        }
    }

    fn settle_failure(self, reason: FailureReason, message: String) -> (next: DeleteBatch)
        requires
            !self@.done(),
        ensures
            next@ == self@.failed(reason, message@),
    {
        proof {
            use_type_invariant(&self);
        }
        let failure = FailedEntry {
            path: self.paths[self.position].clone(),
            reason,
            error_message: message,
        };
        assert(failure_views(self.failed_files@.push(failure)) =~= failure_views(
            self.failed_files@,
        ).push(failure@));
        let mut failed_files = self.failed_files;
        failed_files.push(failure);
        DeleteBatch {
            paths: self.paths,
            position: self.position + 1,
            probed: false,
            success_count: self.success_count,
            failed_files,
        }
    }

    /// Takes the outcome of the pending action and gives the batch after it.
    pub fn advance(self, event: &DeleteEvent) -> (next: DeleteBatch)
        ensures
            next@ == self@.after(event@),
            next@.wf(),
    {
        proof {
            use_type_invariant(&self);
            lemma_delete_after(self@, event@);
        }
        if self.position >= self.paths.len() {
            return self;
        }
        if !self.probed {
            match event {
                DeleteEvent::Probed { exists } => {
                    if *exists {
                        DeleteBatch {
                            paths: self.paths,
                            position: self.position,
                            probed: true,
                            success_count: self.success_count,
                            failed_files: self.failed_files,
                        }
                    } else {
                        let message = prefixed(
                            "File not found: ",
                            self.paths[self.position].as_str(),
                        );
                        self.settle_failure(FailureReason::PathNotFound, message)
                    }
                },
                _ => self,
            }
        } else {
            match event {
                DeleteEvent::Trashed => DeleteBatch {
                    paths: self.paths,
                    position: self.position + 1,
                    probed: false,
                    success_count: self.success_count + 1,
                    failed_files: self.failed_files,
                },
                DeleteEvent::TrashFailed(failure) => {
                    let (reason, message) = categorize_trash_error(failure);
                    self.settle_failure(reason, message)
                },
                _ => self,
            }
        }
    }

    /// Ends the batch. It gives the result once every path is settled, and
    /// nothing before.
    pub fn finish(self, duration_ms: u64) -> (result: Option<FileOperationResult>)
        ensures
            optional_result(result) == if self@.done() {
                Some(self@.result(duration_ms))
            } else {
                None
            },
            result matches Some(r) ==> r.success_count + r.failed_count == self@.paths.len()
                && r.failed_count == r.failed_files@.len(),
    {
        proof {
            use_type_invariant(&self);
        }
        if self.position < self.paths.len() {
            return None;
        }
        let failed_count: u32 = self.failed_files.len() as u32;
        Some(
            FileOperationResult {
                operation: OperationType::Delete,
                success_count: self.success_count,
                failed_count,
                failed_files: self.failed_files,
                duration_ms,
            },
        )
    }
}


/// What the caller of a copy batch must do next.
#[derive(Debug, Clone)]
pub enum CopyAction {
    /// Find out whether the target folder exists and is a directory.
    ProbeTarget(String),
    /// Find out whether the source exists, and split its path.
    ProbeSource(String),
    /// Find out whether the folder holds an item of this name already.
    ProbeDestination { folder: String, file_name: String },
    /// Copy the source into the folder under this name, byte for byte.
    Copy { source: String, folder: String, file_name: String },
    /// Nothing: every source is settled.
    Done,
    /// Nothing: the batch was refused with this message.
    Failed(String),
}

/// The mathematical value of a [`CopyAction`].
pub enum CopyActionView {
    ProbeTarget(Seq<char>),
    ProbeSource(Seq<char>),
    ProbeDestination { folder: Seq<char>, file_name: Seq<char> },
    Copy { source: Seq<char>, folder: Seq<char>, file_name: Seq<char> },
    Done,
    Failed(Seq<char>),
}

impl View for CopyAction {
    type V = CopyActionView;

    open spec fn view(&self) -> CopyActionView {
        match self {
            CopyAction::ProbeTarget(t) => CopyActionView::ProbeTarget(t@),
            CopyAction::ProbeSource(s) => CopyActionView::ProbeSource(s@),
            CopyAction::ProbeDestination { folder, file_name } => CopyActionView::ProbeDestination {
                folder: folder@,
                file_name: file_name@,
            },
            CopyAction::Copy { source, folder, file_name } => CopyActionView::Copy {
                source: source@,
                folder: folder@,
                file_name: file_name@,
            },
            CopyAction::Done => CopyActionView::Done,
            CopyAction::Failed(message) => CopyActionView::Failed(message@),
        }
    }
}

/// What the caller of a copy batch found.
#[derive(Debug)]
pub enum CopyEvent {
    /// The answer to [`CopyAction::ProbeTarget`].
    Target { exists: bool, is_directory: bool },
    /// The answer to [`CopyAction::ProbeSource`], with the components of the
    /// path of the source.
    Source { exists: bool, parts: Vec<PathPart> },
    /// The answer to [`CopyAction::ProbeDestination`], with the path of the
    /// destination as text.
    Destination { text: String, exists: bool },
    /// The answer to [`CopyAction::Copy`]: the copy is made.
    Copied,
    /// The answer to [`CopyAction::Copy`]: the copy failed.
    CopyFailed(IoFailure),
}

/// The mathematical value of a [`CopyEvent`].
pub enum CopyEventView {
    Target { exists: bool, is_directory: bool },
    Source { exists: bool, parts: Seq<PathPartView> },
    Destination { text: Seq<char>, exists: bool },
    Copied,
    CopyFailed(IoFailureView),
}

impl View for CopyEvent {
    type V = CopyEventView;

    open spec fn view(&self) -> CopyEventView {
        match self {
            CopyEvent::Target { exists, is_directory } => CopyEventView::Target {
                exists: *exists,
                is_directory: *is_directory,
            },
            CopyEvent::Source { exists, parts } => CopyEventView::Source {
                exists: *exists,
                parts: part_views(parts@),
            },
            CopyEvent::Destination { text, exists } => CopyEventView::Destination {
                text: text@,
                exists: *exists,
            },
            CopyEvent::Copied => CopyEventView::Copied,
            CopyEvent::CopyFailed(failure) => CopyEventView::CopyFailed(failure@),
        }
    }
}

/// Where a copy batch stands.
#[derive(Debug, Clone, Copy, PartialEq, Eq, Structural)]
pub enum CopyPhase {
    /// The target folder is not checked yet.
    Target,
    /// The source in turn is not looked at yet.
    Source,
    /// The source in turn may be copied if its destination is free.
    Destination,
    /// The source in turn is to be copied.
    Transfer,
    /// The batch was refused.
    Aborted,
}

/// The mathematical value of a [`CopyBatch`].
pub struct CopyBatchView {
    /// The paths to copy.
    pub sources: Seq<Seq<char>>,
    /// The folder to copy into, as text.
    pub target_folder: Seq<char>,
    /// The components of the path of the folder.
    pub target_parts: Seq<PathPartView>,
    /// Where the batch stands.
    pub phase: CopyPhase,
    /// Number of sources that are settled.
    pub position: nat,
    /// The file name of the source in turn, once it is known.
    pub file_name: Seq<char>,
    /// Number of sources copied.
    pub success_count: nat,
    /// The sources that failed.
    pub failed_files: Seq<FailedEntryView>,
    /// The message with which the batch was refused.
    pub error: Seq<char>,
}

impl CopyBatchView {
    /// The batch before its first step.
    pub open spec fn start(sources: Seq<Seq<char>>, target: ParsedPathView) -> CopyBatchView {
        CopyBatchView {
            sources: sources,
            target_folder: target.text,
            target_parts: target.parts,
            phase: CopyPhase::Target,
            position: 0,
            file_name: Seq::empty(),
            success_count: 0,
            failed_files: Seq::empty(),
            error: Seq::empty(),
        }
    }

    /// The batch accounts for every settled source exactly once, as a success
    /// or as a failure, and its counts fit 32 bits.
    pub open spec fn wf(self) -> bool {
        &&& self.sources.len() <= u32::MAX
        &&& self.position <= self.sources.len()
        &&& self.success_count + self.failed_files.len() == self.position
        &&& (self.phase == CopyPhase::Destination || self.phase == CopyPhase::Transfer)
            ==> self.position < self.sources.len()
        &&& (self.phase == CopyPhase::Target || self.phase == CopyPhase::Aborted) ==> self.position
            == 0
    }

    /// The batch was refused.
    pub open spec fn aborted(self) -> bool {
        self.phase == CopyPhase::Aborted
    }

    /// Every source is settled.
    pub open spec fn done(self) -> bool {
        self.phase == CopyPhase::Source && self.position >= self.sources.len()
    }

    /// What the caller must do next.
    pub open spec fn pending(self) -> CopyActionView {
        match self.phase {
            CopyPhase::Target => CopyActionView::ProbeTarget(self.target_folder),
            CopyPhase::Aborted => CopyActionView::Failed(self.error),
            _ => if self.position >= self.sources.len() {
                CopyActionView::Done
            } else {
                match self.phase {
                    CopyPhase::Destination => CopyActionView::ProbeDestination {
                        folder: self.target_folder,
                        file_name: self.file_name,
                    },
                    CopyPhase::Transfer => CopyActionView::Copy {
                        source: self.sources[self.position as int],
                        folder: self.target_folder,
                        file_name: self.file_name,
                    },
                    _ => CopyActionView::ProbeSource(self.sources[self.position as int]),
                }
            },
        }
    }

    /// The batch refused with a message.
    pub open spec fn refused(self, message: Seq<char>) -> CopyBatchView {
        CopyBatchView { phase: CopyPhase::Aborted, error: message, ..self }
    }

    /// The batch in another phase, with the file name of the source in turn.
    pub open spec fn moved_to(self, phase: CopyPhase, file_name: Seq<char>) -> CopyBatchView {
        CopyBatchView { phase: phase, file_name: file_name, ..self }
    }

    /// The batch with the source in turn settled as a failure.
    pub open spec fn failed(self, reason: FailureReason, message: Seq<char>) -> CopyBatchView {
        CopyBatchView {
            phase: CopyPhase::Source,
            position: self.position + 1,
            file_name: Seq::empty(),
            failed_files: self.failed_files.push(
                FailedEntryView {
                    path: self.sources[self.position as int],
                    reason: reason,
                    error_message: message,
                },
            ),
            ..self
        }
    }

    /// The batch with the source in turn settled as a success.
    pub open spec fn succeeded(self) -> CopyBatchView {
        CopyBatchView {
            phase: CopyPhase::Source,
            position: self.position + 1,
            file_name: Seq::empty(),
            success_count: self.success_count + 1,
            ..self
        }
    }

    /// The batch after the answer on its target folder: refused where the
    /// folder does not exist or is no directory.
    pub open spec fn after_target(self, exists: bool, is_directory: bool) -> CopyBatchView {
        if !exists {
            self.refused("Target folder not found: "@ + self.target_folder)
        } else if !is_directory {
            self.refused("Target path is not a directory: "@ + self.target_folder)
        } else {
            self.moved_to(CopyPhase::Source, Seq::empty())
        }
    }

    /// The batch after the answer on the source in turn. A source that does
    /// not exist, has no file name, or lies in the target folder itself fails;
    /// any other source goes on to the check of its destination.
    pub open spec fn after_source(self, exists: bool, parts: Seq<PathPartView>) -> CopyBatchView {
        if !exists {
            self.failed(
                FailureReason::PathNotFound,
                "Source file not found: "@ + self.sources[self.position as int],
            )
        } else {
            match file_name_of(parts) {
                None => self.failed(FailureReason::Unknown, "Could not determine file name"@),
                Some(name) => if parent_of(parts) == Some(self.target_parts) {
                    self.failed(
                        FailureReason::SameFolder,
                        "Source and target folder are the same"@,
                    )
                } else {
                    self.moved_to(CopyPhase::Destination, name)
                },
            }
        }
    }

    /// The batch after the answer on the destination of the source in turn: a
    /// destination that exists is never written over.
    pub open spec fn after_destination(self, text: Seq<char>, exists: bool) -> CopyBatchView {
        if exists {
            self.failed(FailureReason::FileExists, "File already exists: "@ + text)
        } else {
            self.moved_to(CopyPhase::Transfer, self.file_name)
        }
    }

    /// The batch after an event. An event that does not answer the pending
    /// action changes nothing.
    pub open spec fn after(self, event: CopyEventView) -> CopyBatchView {
        match self.phase {
            CopyPhase::Aborted => self,
            CopyPhase::Target => match event {
                CopyEventView::Target { exists, is_directory } => self.after_target(
                    exists,
                    is_directory,
                ),
                _ => self,
            },
            _ => if self.position >= self.sources.len() {
                self
            } else {
                match self.phase {
                    CopyPhase::Destination => match event {
                        CopyEventView::Destination { text, exists } => self.after_destination(
                            text,
                            exists,
                        ),
                        _ => self,
                    },
                    CopyPhase::Transfer => match event {
                        CopyEventView::Copied => self.succeeded(),
                        CopyEventView::CopyFailed(failure) => self.failed(
                            io_failure_reason(failure.kind, failure.message),
                            failure.message,
                        ),
                        _ => self,
                    },
                    _ => match event {
                        CopyEventView::Source { exists, parts } => self.after_source(
                            exists,
                            parts,
                        ),
                        _ => self,
                    },
                }
            },
        }
    }

    /// Whether the event answers the pending action.
    pub open spec fn answered_by(self, event: CopyEventView) -> bool {
        match self.phase {
            CopyPhase::Aborted => false,
            CopyPhase::Target => event is Target,
            _ => if self.position >= self.sources.len() {
                false
            } else {
                match self.phase {
                    CopyPhase::Destination => event is Destination,
                    CopyPhase::Transfer => event is Copied || event is CopyFailed,
                    _ => event is Source,
                }
            },
        }
    }

    /// The greatest number of answers that the batch can still take: one on
    /// the target folder, and three for each source that is not settled, less
    /// those that the source in turn has had.
    pub open spec fn steps_left(self) -> int {
        match self.phase {
            CopyPhase::Aborted => 0,
            CopyPhase::Target => 3 * (self.sources.len() as int) + 1,
            CopyPhase::Source => 3 * (self.sources.len() - self.position),
            CopyPhase::Destination => 3 * (self.sources.len() - self.position) - 1,
            CopyPhase::Transfer => 3 * (self.sources.len() - self.position) - 2,
        }
    }

    /// The result of a batch of which every source is settled.
    pub open spec fn result(self, duration_ms: u64) -> FileOperationResultView {
        FileOperationResultView {
            operation: OperationType::Copy,
            success_count: self.success_count as u32,
            failed_count: self.failed_files.len() as u32,
            failed_files: self.failed_files,
            duration_ms: duration_ms,
        }
    }

    /// What ending the batch gives: the message of the refusal, the result
    /// once every source is settled, and nothing before.
    pub open spec fn outcome(self, duration_ms: u64) -> Option<
        Result<FileOperationResultView, Seq<char>>,
    > {
        if self.aborted() {
            Some(Err(self.error))
        } else if self.done() {
            Some(Ok(self.result(duration_ms)))
        } else {
            None
        }
    }
}

/// A batch of copies in progress.
#[derive(Debug)]
pub struct CopyBatch {
    sources: Vec<String>,
    target_folder: String,
    target_parts: Vec<PathPart>,
    phase: CopyPhase,
    position: usize,
    file_name: String,
    success_count: u32,
    failed_files: Vec<FailedEntry>,
    error: String,
}

impl View for CopyBatch {
    type V = CopyBatchView;

    closed spec fn view(&self) -> CopyBatchView {
        CopyBatchView {
            sources: text_views(self.sources@),
            target_folder: self.target_folder@,
            target_parts: part_views(self.target_parts@),
            phase: self.phase,
            position: self.position as nat,
            file_name: self.file_name@,
            success_count: self.success_count as nat,
            failed_files: failure_views(self.failed_files@),
            error: self.error@,
        }
    }
}

/// What starting a copy batch gives: the batch, or an error where the sources
/// are more than 32 bits can count.
pub open spec fn copy_start(sources: Seq<Seq<char>>, target: ParsedPathView) -> Result<
    CopyBatchView,
    Seq<char>,
> {
    if sources.len() <= u32::MAX {
        Ok(CopyBatchView::start(sources, target))
    } else {
        Err("Too many paths"@)
    }
}

/// The value of the outcome of starting a copy batch.
pub open spec fn copy_started_view(outcome: Result<CopyBatch, String>) -> Result<
    CopyBatchView,
    Seq<char>,
> {
    match outcome {
        Ok(batch) => Ok(batch@),
        Err(message) => Err(message@),
    }
}

/// The value of what ending a copy batch gives.
pub open spec fn copy_outcome_view(outcome: Option<Result<FileOperationResult, String>>) -> Option<
    Result<FileOperationResultView, Seq<char>>,
> {
    match outcome {
        Some(Ok(result)) => Some(Ok(result@)),
        Some(Err(message)) => Some(Err(message@)),
        None => None,
    }
}

/// One event keeps a well-formed batch well formed, and settles at most one
/// source.
pub proof fn lemma_copy_after(batch: CopyBatchView, event: CopyEventView)
    requires
        batch.wf(),
    ensures
        batch.after(event).wf(),
        batch.after(event).sources == batch.sources,
        batch.position <= batch.after(event).position <= batch.position + 1,
        batch.success_count <= batch.after(event).success_count,
{
}

/// Every answer brings the batch nearer to its end, whatever the answer says:
/// no failure of a source ends the batch early, and no batch goes on for
/// ever. An event that answers nothing leaves the batch as it is.
pub proof fn lemma_copy_progress(batch: CopyBatchView, event: CopyEventView)
    requires
        batch.wf(),
    ensures
        batch.steps_left() >= 0,
        batch.steps_left() == 0 <==> batch.done() || batch.aborted(),
        batch.answered_by(event) ==> batch.after(event).steps_left() < batch.steps_left(),
        !batch.answered_by(event) ==> batch.after(event) == batch,
{
}

/// Only a bad target folder refuses a batch: once the folder is accepted, no
/// event refuses the batch any more.
pub proof fn lemma_copy_refused_only_at_the_target(batch: CopyBatchView, event: CopyEventView)
    requires
        batch.wf(),
        !batch.aborted(),
        batch.after(event).aborted(),
    ensures
        batch.phase == CopyPhase::Target,
        event matches CopyEventView::Target { exists, is_directory } && !(exists && is_directory),
        batch.after(event).success_count == 0,
        batch.after(event).failed_files.len() == 0,
{
}

/// In the result of a finished batch the successes and the failures together
/// are as many as the sources; a batch without sources has neither.
pub proof fn lemma_copy_result_counts(batch: CopyBatchView, duration_ms: u64)
    requires
        batch.wf(),
        batch.done(),
    ensures
        batch.result(duration_ms).success_count + batch.result(duration_ms).failed_count
            == batch.sources.len(),
        batch.result(duration_ms).failed_count == batch.result(duration_ms).failed_files.len(),
        batch.sources.len() == 0 ==> batch.result(duration_ms).success_count == 0
            && batch.result(duration_ms).failed_count == 0,
{
}

/// A source that lies in the target folder itself is settled as a failure with
/// the reason that the folders are the same, and is not copied.
pub proof fn lemma_copy_same_folder(batch: CopyBatchView, parts: Seq<PathPartView>)
    requires
        batch.wf(),
        batch.phase == CopyPhase::Source,
        !batch.done(),
        file_name_of(parts) is Some,
        parent_of(parts) == Some(batch.target_parts),
    ensures
        ({
            let next = batch.after(CopyEventView::Source { exists: true, parts: parts });
            &&& next.success_count == batch.success_count
            &&& next.failed_files.len() == batch.failed_files.len() + 1
            &&& next.failed_files.last().reason == FailureReason::SameFolder
            &&& next.position == batch.position + 1
            &&& next.phase == CopyPhase::Source
        }),
{
}

/// A source whose destination exists is settled as a failure with the reason
/// that the file exists; the batch never asks for a copy onto it.
pub proof fn lemma_copy_existing_destination(batch: CopyBatchView, text: Seq<char>)
    requires
        batch.wf(),
        batch.phase == CopyPhase::Destination,
    ensures
        ({
            let next = batch.after(CopyEventView::Destination { text: text, exists: true });
            &&& next.success_count == batch.success_count
            &&& next.failed_files.len() == batch.failed_files.len() + 1
            &&& next.failed_files.last().reason == FailureReason::FileExists
            &&& next.failed_files.last().path == batch.sources[batch.position as int]
            &&& next.position == batch.position + 1
            &&& next.phase == CopyPhase::Source
        }),
{
}

/// The batch asks for a copy only after it has learnt that the destination
/// does not exist.
pub proof fn lemma_copy_only_onto_free_destination(batch: CopyBatchView, event: CopyEventView)
    requires
        batch.wf(),
        !(batch.pending() is Copy),
        batch.after(event).pending() is Copy,
    ensures
        batch.phase == CopyPhase::Destination,
        event matches CopyEventView::Destination { exists, .. } && !exists,
{
}

impl CopyBatch {
    #[verifier::type_invariant]
    spec fn inv(self) -> bool {
        self@.wf()
    }

    /// Starts a batch that copies the sources into the target folder.
    pub fn new(sources: Vec<String>, target: ParsedPath) -> (outcome: Result<CopyBatch, String>)
        ensures
            copy_started_view(outcome) == copy_start(text_views(sources@), target@),
            outcome matches Ok(batch) ==> batch@.wf(),
    {
        if sources.len() > u32::MAX as usize {
            return Err(String::from_str("Too many paths"));
        }
        let batch = CopyBatch {
            sources,
            target_folder: target.text,
            target_parts: target.parts,
            phase: CopyPhase::Target,
            position: 0,
            file_name: String::new(),
            success_count: 0,
            failed_files: Vec::new(),
            error: String::new(),
        };
        assert(batch@.failed_files =~= Seq::empty());
        Ok(batch)
    }

    /// Tells what the caller must do next.
    pub fn next_action(&self) -> (action: CopyAction)
        ensures
            action@ == self@.pending(),
            self@.wf(),
    {
        proof {
            use_type_invariant(self);
        }
        match self.phase {
            CopyPhase::Target => CopyAction::ProbeTarget(self.target_folder.clone()),
            CopyPhase::Aborted => CopyAction::Failed(self.error.clone()),
            _ => {
                if self.position >= self.sources.len() {
                    CopyAction::Done
                } else {
                    match self.phase {
                        CopyPhase::Destination => CopyAction::ProbeDestination {
                            folder: self.target_folder.clone(),
                            file_name: self.file_name.clone(),
                        },
                        CopyPhase::Transfer => CopyAction::Copy {
                            source: self.sources[self.position].clone(),
                            folder: self.target_folder.clone(),
                            file_name: self.file_name.clone(),
                        },
                        _ => CopyAction::ProbeSource(self.sources[self.position].clone()),
                    }
                }
            },
        }
    }

    fn refuse(self, message: String) -> (next: CopyBatch)
        requires
            self@.phase == CopyPhase::Target,
        ensures
            next@ == self@.refused(message@),
    {
        proof {
            use_type_invariant(&self);
        }
        CopyBatch {
            sources: self.sources,
            target_folder: self.target_folder,
            target_parts: self.target_parts,
            phase: CopyPhase::Aborted,
            position: self.position,
            file_name: self.file_name,
            success_count: self.success_count,
            failed_files: self.failed_files,
            error: message,
        }
    }

    fn move_to(self, phase: CopyPhase, file_name: String) -> (next: CopyBatch)
        requires
            self@.moved_to(phase, file_name@).wf(),
        ensures
            next@ == self@.moved_to(phase, file_name@),
    {
        CopyBatch {
            sources: self.sources,
            target_folder: self.target_folder,
            target_parts: self.target_parts,
            phase,
            position: self.position,
            file_name,
            success_count: self.success_count,
            failed_files: self.failed_files,
            error: self.error,
        }
    }

    fn settle_failure(self, reason: FailureReason, message: String) -> (next: CopyBatch)
        requires
            self@.position < self@.sources.len(),
        ensures
            next@ == self@.failed(reason, message@),
    {
        proof {
            use_type_invariant(&self);
        }
        let failure = FailedEntry {
            path: self.sources[self.position].clone(),
            reason,
            error_message: message,
        };
        assert(failure_views(self.failed_files@.push(failure)) =~= failure_views(
            self.failed_files@,
        ).push(failure@));
        let mut failed_files = self.failed_files;
        failed_files.push(failure);
        CopyBatch {
            sources: self.sources,
            target_folder: self.target_folder,
            target_parts: self.target_parts,
            phase: CopyPhase::Source,
            position: self.position + 1,
            file_name: String::new(),
            success_count: self.success_count,
            failed_files,
            error: self.error,
        }
    }

    fn settle_success(self) -> (next: CopyBatch)
        requires
            self@.position < self@.sources.len(),
        ensures
            next@ == self@.succeeded(),
    {
        proof {
            use_type_invariant(&self);
        }
        CopyBatch {
            sources: self.sources,
            target_folder: self.target_folder,
            target_parts: self.target_parts,
            phase: CopyPhase::Source,
            position: self.position + 1,
            file_name: String::new(),
            success_count: self.success_count + 1,
            failed_files: self.failed_files,
            error: self.error,
        }
    }

    fn answer_target(self, exists: bool, is_directory: bool) -> (next: CopyBatch)
        requires
            self@.phase == CopyPhase::Target,
        ensures
            next@ == self@.after_target(exists, is_directory),
    {
        proof {
            use_type_invariant(&self);
        }
        if !exists {
            let message = prefixed("Target folder not found: ", self.target_folder.as_str());
            self.refuse(message)
        } else if !is_directory {
            let message = prefixed(
                "Target path is not a directory: ",
                self.target_folder.as_str(),
            );
            self.refuse(message)
        } else {
            self.move_to(CopyPhase::Source, String::new())
        }
    }

    fn answer_source(self, exists: bool, parts: &Vec<PathPart>) -> (next: CopyBatch)
        requires
            self@.position < self@.sources.len(),
        ensures
            next@ == self@.after_source(exists, part_views(parts@)),
    {
        proof {
            use_type_invariant(&self);
        }
        if !exists {
            let message = prefixed(
                "Source file not found: ",
                self.sources[self.position].as_str(),
            );
            return self.settle_failure(FailureReason::PathNotFound, message);
        }
        match file_name(parts) {
            None => self.settle_failure(
                FailureReason::Unknown,
                String::from_str("Could not determine file name"),
            ),
            Some(name) => {
                if is_parent(&self.target_parts, parts) {
                    self.settle_failure(
                        FailureReason::SameFolder,
                        String::from_str("Source and target folder are the same"),
                    )
                } else {
                    self.move_to(CopyPhase::Destination, name)
                }
            },
        }
    }

    fn answer_destination(self, text: &String, exists: bool) -> (next: CopyBatch)
        requires
            self@.position < self@.sources.len(),
        ensures
            next@ == self@.after_destination(text@, exists),
    {
        proof {
            use_type_invariant(&self);
        }
        if exists {
            let message = prefixed("File already exists: ", text.as_str());
            self.settle_failure(FailureReason::FileExists, message)
        } else {
            let name = self.file_name.clone();
            self.move_to(CopyPhase::Transfer, name)
        }
    }

    /// Takes the outcome of the pending action and gives the batch after it.
    pub fn advance(self, event: &CopyEvent) -> (next: CopyBatch)
        ensures
            next@ == self@.after(event@),
            next@.wf(),
    {
        proof {
            use_type_invariant(&self);
            lemma_copy_after(self@, event@);
        }
        match self.phase {
            CopyPhase::Aborted => self,
            CopyPhase::Target => match event {
                CopyEvent::Target { exists, is_directory } => self.answer_target(
                    *exists,
                    *is_directory,
                ),
                _ => self,
            },
            _ => {
                if self.position >= self.sources.len() {
                    return self;
                }
                match self.phase {
                    CopyPhase::Destination => match event {
                        CopyEvent::Destination { text, exists } => self.answer_destination(
                            text,
                            *exists,
                        ),
                        _ => self,
                    },
                    CopyPhase::Transfer => match event {
                        CopyEvent::Copied => self.settle_success(),
                        CopyEvent::CopyFailed(failure) => {
                            let (reason, message) = categorize_io_error(failure);
                            self.settle_failure(reason, message)
                        },
                        _ => self,
                    },
                    _ => match event {
                        CopyEvent::Source { exists, parts } => self.answer_source(*exists, parts),
                        _ => self,
                    },
                }
            },
        }
    }

    /// Ends the batch. It gives the message of the refusal where the target
    /// folder was refused, the result once every source is settled, and
    /// nothing before.
    pub fn finish(self, duration_ms: u64) -> (outcome: Option<
        Result<FileOperationResult, String>,
    >)
        ensures
            copy_outcome_view(outcome) == self@.outcome(duration_ms),
            outcome matches Some(Ok(r)) ==> r.success_count + r.failed_count
                == self@.sources.len() && r.failed_count == r.failed_files@.len(),
    {
        proof {
            use_type_invariant(&self);
        }
        match self.phase {
            CopyPhase::Aborted => Some(Err(self.error)),
            CopyPhase::Source => {
                if self.position < self.sources.len() {
                    return None;
                }
                let failed_count: u32 = self.failed_files.len() as u32;
                Some(
                    Ok(
                        FileOperationResult {
                            operation: OperationType::Copy,
                            success_count: self.success_count,
                            failed_count,
                            failed_files: self.failed_files,
                            duration_ms,
                        },
                    ),
                )
            },
            _ => None,
        }
    }
}

} // verus!
