//! What the operating system answered to a request, as plain values.

use vstd::prelude::*;

verus! {

/// The kinds of input and output errors that the rules tell apart.
#[derive(Debug, Clone, Copy, PartialEq, Eq, Structural)]
pub enum IoErrorKind {
    /// Access was denied.
    PermissionDenied,
    /// The file or folder was not there.
    NotFound,
    /// The file or folder was there already.
    AlreadyExists,
    /// Any other kind.
    Other,
}

/// An input or output error: its kind and its message.
#[derive(Debug, Clone)]
pub struct IoFailure {
    pub kind: IoErrorKind,
    pub message: String,
}

/// The mathematical value of an [`IoFailure`].
pub struct IoFailureView {
    pub kind: IoErrorKind,
    pub message: Seq<char>,
}

impl View for IoFailure {
    type V = IoFailureView;

    open spec fn view(&self) -> IoFailureView {
        IoFailureView { kind: self.kind, message: self.message@ }
    }
}

/// An error of the trash facility. The rules read its message and nothing
/// else.
#[derive(Debug, Clone)]
pub struct TrashFailure {
    pub message: String,
}

/// The mathematical value of a [`TrashFailure`].
pub struct TrashFailureView {
    pub message: Seq<char>,
}

impl View for TrashFailure {
    type V = TrashFailureView;

    open spec fn view(&self) -> TrashFailureView {
        TrashFailureView { message: self.message@ }
    }
}

} // verus!
