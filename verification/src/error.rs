//! Why a session snapshot or a mutation of it is refused.

use crate::ids::{PaneId, SessionItemId, WorkspaceId};
use crate::text::decimal_text;
use vstd::prelude::*;

verus! {

/// A rule of session snapshots, with what breaks it.
pub enum Violation {
    NoWorkspace,
    NextProjectIdTooSmall,
    DuplicateWorkspace(WorkspaceId),
    SharedProject(u64),
    RelativeRoot,
    DuplicateRoot(Seq<char>),
    ShortAxis,
    FlexCountMismatch,
    FlexOutOfRange,
    DuplicatePane(PaneId),
    RelativeItemPath,
    DuplicateItem(SessionItemId),
    AbsentActiveItem(PaneId),
    MultipleFocusedPanes,
    AbsentActiveWorkspace,
}

/// The words in which a violation is reported.
pub open spec fn violation_message(violation: Violation) -> Seq<char> {
    match violation {
        Violation::NoWorkspace => "a host session must contain at least one workspace"@,
        Violation::NextProjectIdTooSmall => "next project id must be greater than every active project id"@,
        Violation::DuplicateWorkspace(id) => "duplicate workspace id "@ + crate::ids::uuid_text(
            id.value,
        ),
        Violation::SharedProject(number) => "project id "@ + crate::text::decimal(number as nat)
            + " is assigned to multiple workspace scopes"@,
        Violation::RelativeRoot => "project roots must use absolute requested and canonical paths"@,
        Violation::DuplicateRoot(path) => "duplicate canonical project root "@ + path,
        Violation::ShortAxis => "a layout axis must contain at least two children"@,
        Violation::FlexCountMismatch => "layout flex count must match child count"@,
        Violation::FlexOutOfRange => "layout flex values must be finite and positive"@,
        Violation::DuplicatePane(id) => "duplicate pane id "@ + crate::ids::uuid_text(id.value),
        Violation::RelativeItemPath => "file editor paths must be absolute"@,
        Violation::DuplicateItem(id) => "duplicate session item id "@ + crate::ids::uuid_text(
            id.value,
        ),
        Violation::AbsentActiveItem(id) => "pane "@ + crate::ids::uuid_text(id.value)
            + " has an absent active item"@,
        Violation::MultipleFocusedPanes => "a workspace layout cannot contain multiple focused panes"@,
        Violation::AbsentActiveWorkspace => "active workspace is absent from the session"@,
    }
}

/// Why a mutation or a snapshot is refused.
#[derive(Debug)]
pub enum SessionError {
    StaleRevision { expected: u64, current: u64 },
    WorkspaceNotFound(WorkspaceId),
    StaleLayoutRevision { expected: u64, current: u64 },
    Invalid(String),
    ProjectIdExhausted,
    SessionRevisionExhausted,
}

/// A session error, with its text as a sequence of characters.
pub enum SessionFault {
    StaleRevision { expected: u64, current: u64 },
    WorkspaceNotFound(WorkspaceId),
    StaleLayoutRevision { expected: u64, current: u64 },
    Invalid(Seq<char>),
    ProjectIdExhausted,
    SessionRevisionExhausted,
}

impl View for SessionError {
    type V = SessionFault;

    open spec fn view(&self) -> SessionFault {
        match *self {
            SessionError::StaleRevision { expected, current } => SessionFault::StaleRevision {
                expected,
                current,
            },
            SessionError::WorkspaceNotFound(id) => SessionFault::WorkspaceNotFound(id),
            SessionError::StaleLayoutRevision { expected, current } => {
                SessionFault::StaleLayoutRevision { expected, current }
            },
            SessionError::Invalid(message) => SessionFault::Invalid(message@),
            SessionError::ProjectIdExhausted => SessionFault::ProjectIdExhausted,
            SessionError::SessionRevisionExhausted => SessionFault::SessionRevisionExhausted,
        }
    }
}

/// The fault of a broken snapshot rule.
pub open spec fn invalid(violation: Violation) -> SessionFault {
    SessionFault::Invalid(violation_message(violation))
}

/// The words in which a session error is reported.
pub open spec fn fault_message(fault: SessionFault) -> Seq<char> {
    match fault {
        SessionFault::StaleRevision { expected, current } => {
            "session revision is stale: expected "@ + crate::text::decimal(expected as nat)
                + ", current "@ + crate::text::decimal(current as nat)
        },
        SessionFault::WorkspaceNotFound(id) => "workspace "@ + crate::ids::uuid_text(id.value)
            + " does not exist"@,
        SessionFault::StaleLayoutRevision { expected, current } => {
            "layout revision is stale: expected "@ + crate::text::decimal(expected as nat)
                + ", current "@ + crate::text::decimal(current as nat)
        },
        SessionFault::Invalid(message) => "invalid session snapshot: "@ + message,
        SessionFault::ProjectIdExhausted => "project id space is exhausted"@,
        SessionFault::SessionRevisionExhausted => "session revision space is exhausted"@,
    }
}

impl SessionError {
    /// The words in which the error is reported.
    pub fn message(&self) -> (text: String)
        ensures
            text@ == fault_message(self@),
    {
        match self {
            SessionError::StaleRevision { expected, current } => {
                let mut text = "session revision is stale: expected ".to_string();
                text.append(decimal_text(*expected).as_str());
                text.append(", current ");
                text.append(decimal_text(*current).as_str());
                text
            },
            SessionError::WorkspaceNotFound(id) => {
                let mut text = "workspace ".to_string();
                text.append(id.to_text().as_str());
                text.append(" does not exist");
                text
            },
            SessionError::StaleLayoutRevision { expected, current } => {
                let mut text = "layout revision is stale: expected ".to_string();
                text.append(decimal_text(*expected).as_str());
                text.append(", current ");
                text.append(decimal_text(*current).as_str());
                text
            },
            SessionError::Invalid(message) => {
                let mut text = "invalid session snapshot: ".to_string();
                text.append(message.as_str());
                text
            },
            SessionError::ProjectIdExhausted => "project id space is exhausted".to_string(),
            SessionError::SessionRevisionExhausted => {
                "session revision space is exhausted".to_string()
            },
        }
    }
}

/// A message followed by a detail.
pub(crate) fn message_with(prefix: &str, detail: &str) -> (text: String)
    ensures
        text@ == prefix@ + detail@,
{
    let mut text = prefix.to_string();
    text.append(detail);
    text
}

} // verus!
