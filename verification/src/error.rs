//! The ways in which a submission fails.

use vstd::prelude::*;
use vstd::string::*;

verus! {

/// Why a submission did not reach the worker. That the worker exited is not
/// among these: an exit is reported as a diagnostic event.
#[derive(Debug, PartialEq, Eq)]
pub enum SupervisorError {
    /// No root was given and none of the directories walked holds the marker.
    RootNotFound,
    /// The root was resolved, but the worker's entry point is not on disk.
    EntryPointMissing { path: String },
    /// The operating system could not create the worker process.
    SpawnFailed { reason: String },
    /// The worker's input stream was closed or failed.
    WriteFailed { reason: String },
    /// The operating system could not tell how the worker ended.
    WaitFailed { reason: String },
    /// The host answered a request that the supervisor had not made.
    OutOfTurn,
}

/// The mathematical value of a [`SupervisorError`].
pub ghost enum SupervisorErrorView {
    RootNotFound,
    EntryPointMissing { path: Seq<char> },
    SpawnFailed { reason: Seq<char> },
    WriteFailed { reason: Seq<char> },
    WaitFailed { reason: Seq<char> },
    OutOfTurn,
}

impl View for SupervisorError {
    type V = SupervisorErrorView;

    open spec fn view(&self) -> SupervisorErrorView {
        match self {
            SupervisorError::RootNotFound => SupervisorErrorView::RootNotFound,
            SupervisorError::EntryPointMissing { path } => SupervisorErrorView::EntryPointMissing {
                path: path@,
            },
            SupervisorError::SpawnFailed { reason } => SupervisorErrorView::SpawnFailed {
                reason: reason@,
            },
            SupervisorError::WriteFailed { reason } => SupervisorErrorView::WriteFailed {
                reason: reason@,
            },
            SupervisorError::WaitFailed { reason } => SupervisorErrorView::WaitFailed {
                reason: reason@,
            },
            SupervisorError::OutOfTurn => SupervisorErrorView::OutOfTurn,
        }
    }
}

impl SupervisorErrorView {
    /// The text shown to the caller: what failed, then the path or the
    /// operating system's reason.
    pub open spec fn message(self) -> Seq<char> {
        match self {
            SupervisorErrorView::RootNotFound => "cannot resolve project root (set NAI_ROOT)"@,
            SupervisorErrorView::EntryPointMissing { path } => "sidecar not found: "@ + path,
            SupervisorErrorView::SpawnFailed { reason } => "failed to spawn sidecar: "@ + reason,
            SupervisorErrorView::WriteFailed { reason } => "failed to write to sidecar: "@
                + reason,
            SupervisorErrorView::WaitFailed { reason } => "failed to wait for sidecar: "@
                + reason,
            SupervisorErrorView::OutOfTurn => "sidecar host answered out of turn"@,
        }
    }
}

/// `head`, then `tail`, as one text.
pub fn labelled(head: &str, tail: &str) -> (text: String)
    ensures
        text@ == head@ + tail@,
{
    let mut text = String::from_str(head);
    text.append(tail);
    text
}

impl SupervisorError {
    /// The text shown to the caller.
    pub fn message(&self) -> (text: String)
        ensures
            text@ == self@.message(),
    {
        match self {
            SupervisorError::RootNotFound => String::from_str(
                "cannot resolve project root (set NAI_ROOT)",
            ),
            SupervisorError::EntryPointMissing { path } => labelled(
                "sidecar not found: ",
                path.as_str(),
            ),
            SupervisorError::SpawnFailed { reason } => labelled(
                "failed to spawn sidecar: ",
                reason.as_str(),
            ),
            SupervisorError::WriteFailed { reason } => labelled(
                "failed to write to sidecar: ",
                reason.as_str(),
            ),
            SupervisorError::WaitFailed { reason } => labelled(
                "failed to wait for sidecar: ",
                reason.as_str(),
            ),
            SupervisorError::OutOfTurn => String::from_str("sidecar host answered out of turn"),
        }
    }
}

} // verus!
