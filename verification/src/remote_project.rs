//! Opening a project on another machine: on its host session where it is connected, in a workspace
//! that shows it already, or over a new connection.

use crate::connection::{HostId, RemoteConnectionOptions};
use crate::host_session::{ClientModel, HostSessionClient, HostWorkspaceIdentity, IdentityModel};
use crate::open_flow::{ItemOutcome, OutcomeModel};
use crate::remote_connections::{host_window_for, OpenWindow, RemoteOpenError, WindowHandle};
use vstd::prelude::*;

verus! {

/// How far the opening of a project has come.
#[derive(Clone, Copy, Debug, PartialEq, Eq, Structural)]
pub enum ProjectOpening {
    /// It is being looked up whether the host is connected.
    LookingUpHost,
    /// The paths are being opened on the connected host.
    OpeningOnHost,
    /// A workspace that shows the project already is being looked for.
    FindingWorkspace,
    /// The paths are being opened in such a workspace.
    OpeningInWorkspace { window: WindowHandle },
    /// The dialog is being opened.
    OpeningDialog,
    /// The connection is being made.
    Connecting,
    /// The connection is being attached to the window.
    Attaching,
    /// The user is being asked whether to try again, after the connection was made or was not.
    Asking { connected: bool },
    /// There is nothing more to do.
    Finished,
}

/// What happened while a project is being opened.
#[derive(Clone, Copy, Debug, PartialEq, Eq, Structural)]
pub enum ProjectEvent {
    /// Whether the host is connected.
    HostLookedUp { connected: bool },
    /// Whether the paths opened on the host, and whether its connection is there.
    OpenedOnHost { opened: bool, has_connection: bool },
    /// The window of a workspace that shows the project already, and whether its connection is
    /// there.
    WorkspaceFound { window: Option<WindowHandle>, has_connection: bool },
    /// The paths were opened in that workspace, each or not.
    OpenedInWorkspace,
    /// Whether the dialog is there.
    DialogOpened { opened: bool },
    /// The user gave the connection up.
    Cancelled,
    /// Whether the connection was made.
    Connected { connected: bool },
    /// Whether the connection is attached to the window.
    Attached { attached: bool },
    /// Which of the offered answers the user chose, if any.
    Answered { choice: Option<usize> },
}

/// What to do next to open a project.
#[derive(Clone, Copy, Debug, PartialEq, Eq, Structural)]
pub enum ProjectAction {
    /// Open the paths in the active workspace of the connected host.
    OpenOnHost,
    /// Look for a workspace that shows the project already.
    FindWorkspace,
    /// Activate the window and the workspace, and open the paths there.
    OpenInWorkspace { window: WindowHandle },
    /// Show each failure, scroll the opened items to their places and return the window.
    ReportAndNavigate { window: WindowHandle },
    /// Scroll the opened items to their places and return the window.
    Navigate { window: WindowHandle },
    /// Return the window.
    ReturnWindow { window: WindowHandle },
    /// Activate the window and open the dialog.
    OpenDialog,
    /// Make the connection.
    Connect,
    /// Attach the connection to the window.
    Attach,
    /// Close the dialog and ask whether to try again.
    CloseDialogAndAsk,
    /// Register the active project with the extensions and return the window.
    Register { window: WindowHandle },
    /// Close the dialog, then register as above.
    CloseDialogAndRegister { window: WindowHandle },
    /// Look after the trust in the worktrees, then register as above.
    TrackTrustAndRegister { window: WindowHandle },
    /// Report the failure.
    Fail,
}

/// The answer that asks for another try.
pub const RETRY_CHOICE: usize = 0;

/// The answers that are offered after a failure.
pub fn retry_choices() -> (choices: Vec<String>)
    ensures
        crate::text::texts(choices@) == seq!["Retry"@, "Cancel"@],
        RETRY_CHOICE < choices@.len() && choices@[RETRY_CHOICE as int]@ == "Retry"@,
{
    let mut choices: Vec<String> = Vec::new();
    choices.push("Retry".to_string());
    choices.push("Cancel".to_string());
    assert(crate::text::texts(choices@) =~= seq!["Retry"@, "Cancel"@]);
    choices
}

/// The way to an open project. A connected host takes the paths; else a workspace with a live
/// connection does; else a new connection is made, as often as the user asks for another try.
pub open spec fn project_step(state: ProjectOpening, event: ProjectEvent, host: WindowHandle) -> (
    ProjectOpening,
    ProjectAction,
) {
    let done = ProjectOpening::Finished;
    match (state, event) {
        (ProjectOpening::LookingUpHost, ProjectEvent::HostLookedUp { connected }) => if connected {
            (ProjectOpening::OpeningOnHost, ProjectAction::OpenOnHost)
        } else {
            (ProjectOpening::FindingWorkspace, ProjectAction::FindWorkspace)
        },
        (
            ProjectOpening::OpeningOnHost,
            ProjectEvent::OpenedOnHost { opened: true, has_connection },
        ) => (
            done,
            if has_connection {
                ProjectAction::Navigate { window: host }
            } else {
                ProjectAction::ReturnWindow { window: host }
            },
        ),
        (
            ProjectOpening::FindingWorkspace,
            ProjectEvent::WorkspaceFound { window: Some(window), has_connection: true },
        ) => (
            ProjectOpening::OpeningInWorkspace { window },
            ProjectAction::OpenInWorkspace { window },
        ),
        (ProjectOpening::FindingWorkspace, ProjectEvent::WorkspaceFound { .. }) => (
            ProjectOpening::OpeningDialog,
            ProjectAction::OpenDialog,
        ),
        (ProjectOpening::OpeningInWorkspace { window }, ProjectEvent::OpenedInWorkspace) => (
            done,
            ProjectAction::ReportAndNavigate { window },
        ),
        (ProjectOpening::OpeningDialog, ProjectEvent::DialogOpened { opened }) => if opened {
            (ProjectOpening::Connecting, ProjectAction::Connect)
        } else {
            (done, ProjectAction::Register { window: host })
        },
        (ProjectOpening::Connecting, ProjectEvent::Cancelled) => (
            done,
            ProjectAction::CloseDialogAndRegister { window: host },
        ),
        (ProjectOpening::Connecting, ProjectEvent::Connected { connected }) => if connected {
            (ProjectOpening::Attaching, ProjectAction::Attach)
        } else {
            (ProjectOpening::Asking { connected: false }, ProjectAction::CloseDialogAndAsk)
        },
        (ProjectOpening::Attaching, ProjectEvent::Attached { attached }) => if attached {
            (done, ProjectAction::CloseDialogAndRegister { window: host })
        } else {
            (ProjectOpening::Asking { connected: true }, ProjectAction::CloseDialogAndAsk)
        },
        (ProjectOpening::Asking { connected }, ProjectEvent::Answered { choice }) => if choice
            == Some(RETRY_CHOICE) {
            (ProjectOpening::OpeningDialog, ProjectAction::OpenDialog)
        } else if connected {
            (done, ProjectAction::TrackTrustAndRegister { window: host })
        } else {
            (done, ProjectAction::ReturnWindow { window: host })
        },
        _ => (done, ProjectAction::Fail),
    }
}

/// A project that is being opened on another machine.
#[derive(Debug)]
pub struct ProjectOpen {
    pub host_id: HostId,
    pub window: WindowHandle,
    pub state: ProjectOpening,
}

impl ProjectOpen {
    /// Takes what happened and tells what to do next.
    pub fn next_step(&mut self, event: ProjectEvent) -> (action: ProjectAction)
        ensures
            (final(self).state, action) == project_step(old(self).state, event, old(self).window),
            final(self).host_id == old(self).host_id,
            final(self).window == old(self).window,
    {
        let host = self.window;
        let (state, action) = match self.state {
            ProjectOpening::LookingUpHost => after_lookup(event),
            ProjectOpening::OpeningOnHost => after_opening_on_host(event, host),
            ProjectOpening::FindingWorkspace => after_finding(event),
            ProjectOpening::OpeningInWorkspace { window } => match event {
                ProjectEvent::OpenedInWorkspace => (
                    ProjectOpening::Finished,
                    ProjectAction::ReportAndNavigate { window },
                ),
                _ => failed(),
            },
            ProjectOpening::OpeningDialog => after_dialog(event, host),
            ProjectOpening::Connecting => after_connecting(event, host),
            ProjectOpening::Attaching => after_attaching(event, host),
            ProjectOpening::Asking { connected } => after_asking(connected, event, host),
            ProjectOpening::Finished => failed(),
        };
        self.state = state;
        action
    }
}

fn failed() -> (result: (ProjectOpening, ProjectAction))
    ensures
        result == (ProjectOpening::Finished, ProjectAction::Fail),
{
    (ProjectOpening::Finished, ProjectAction::Fail)
}

fn after_lookup(event: ProjectEvent) -> (result: (ProjectOpening, ProjectAction))
    ensures
        forall|host: WindowHandle|
            result == #[trigger] project_step(ProjectOpening::LookingUpHost, event, host),
{
    match event {
        ProjectEvent::HostLookedUp { connected: true } => (
            ProjectOpening::OpeningOnHost,
            ProjectAction::OpenOnHost,
        ),
        ProjectEvent::HostLookedUp { connected: false } => (
            ProjectOpening::FindingWorkspace,
            ProjectAction::FindWorkspace,
        ),
        _ => failed(),
    }
}

fn after_opening_on_host(event: ProjectEvent, host: WindowHandle) -> (result: (
    ProjectOpening,
    ProjectAction,
))
    ensures
        result == project_step(ProjectOpening::OpeningOnHost, event, host),
{
    match event {
        ProjectEvent::OpenedOnHost { opened: true, has_connection } => {
            let action = if has_connection {
                ProjectAction::Navigate { window: host }
            } else {
                ProjectAction::ReturnWindow { window: host }
            };
            (ProjectOpening::Finished, action)
        },
        _ => failed(),
    }
}

fn after_finding(event: ProjectEvent) -> (result: (ProjectOpening, ProjectAction))
    ensures
        forall|host: WindowHandle|
            result == #[trigger] project_step(ProjectOpening::FindingWorkspace, event, host),
{
    match event {
        ProjectEvent::WorkspaceFound { window, has_connection } => match window {
            Some(window) if has_connection => (
                ProjectOpening::OpeningInWorkspace { window },
                ProjectAction::OpenInWorkspace { window },
            ),
            _ => (ProjectOpening::OpeningDialog, ProjectAction::OpenDialog),
        },
        _ => failed(),
    }
}

fn after_dialog(event: ProjectEvent, host: WindowHandle) -> (result: (
    ProjectOpening,
    ProjectAction,
))
    ensures
        result == project_step(ProjectOpening::OpeningDialog, event, host),
{
    match event {
        ProjectEvent::DialogOpened { opened: true } => (
            ProjectOpening::Connecting,
            ProjectAction::Connect,
        ),
        ProjectEvent::DialogOpened { opened: false } => (
            ProjectOpening::Finished,
            ProjectAction::Register { window: host },
        ),
        _ => failed(),
    }
}

fn after_connecting(event: ProjectEvent, host: WindowHandle) -> (result: (
    ProjectOpening,
    ProjectAction,
))
    ensures
        result == project_step(ProjectOpening::Connecting, event, host),
{
    match event {
        ProjectEvent::Cancelled => (
            ProjectOpening::Finished,
            ProjectAction::CloseDialogAndRegister { window: host },
        ),
        ProjectEvent::Connected { connected: true } => (
            ProjectOpening::Attaching,
            ProjectAction::Attach,
        ),
        ProjectEvent::Connected { connected: false } => (
            ProjectOpening::Asking { connected: false },
            ProjectAction::CloseDialogAndAsk,
        ),
        _ => failed(),
    }
}

fn after_attaching(event: ProjectEvent, host: WindowHandle) -> (result: (
    ProjectOpening,
    ProjectAction,
))
    ensures
        result == project_step(ProjectOpening::Attaching, event, host),
{
    match event {
        ProjectEvent::Attached { attached: true } => (
            ProjectOpening::Finished,
            ProjectAction::CloseDialogAndRegister { window: host },
        ),
        ProjectEvent::Attached { attached: false } => (
            ProjectOpening::Asking { connected: true },
            ProjectAction::CloseDialogAndAsk,
        ),
        _ => failed(),
    }
}

fn after_asking(connected: bool, event: ProjectEvent, host: WindowHandle) -> (result: (
    ProjectOpening,
    ProjectAction,
))
    ensures
        result == project_step(ProjectOpening::Asking { connected }, event, host),
{
    match event {
        ProjectEvent::Answered { choice } => {
            let retry = match choice {
                Some(choice) => choice == RETRY_CHOICE,
                None => false,
            };
            if retry {
                (ProjectOpening::OpeningDialog, ProjectAction::OpenDialog)
            } else if connected {
                (ProjectOpening::Finished, ProjectAction::TrackTrustAndRegister { window: host })
            } else {
                (ProjectOpening::Finished, ProjectAction::ReturnWindow { window: host })
            }
        },
        _ => failed(),
    }
}

/// Why a project in a distribution or a container does not open in a host window: the options are
/// of another kind, there is no such window, or no host session can live there.
pub open spec fn non_ssh_refusal(
    options: RemoteConnectionOptions,
    requesting: Option<WindowHandle>,
    windows: Seq<OpenWindow>,
) -> RemoteOpenError {
    if !(options is Wsl || options is Docker) {
        RemoteOpenError::OnlyWslAndContainers
    } else if requesting is None && crate::remote_connections::first_host_window(windows) is None {
        RemoteOpenError::NoHostWindow
    } else {
        RemoteOpenError::NoHostSession
    }
}

/// Starts to open a project in a distribution or a container. No host session can live there as
/// yet, so this always ends in a refusal.
pub fn open_non_ssh_host_project(
    options: &RemoteConnectionOptions,
    requesting: Option<WindowHandle>,
    windows: &Vec<OpenWindow>,
) -> (result: Result<ProjectOpen, RemoteOpenError>)
    ensures
        result == Err::<ProjectOpen, RemoteOpenError>(
            non_ssh_refusal(*options, requesting, windows@),
        ),
{
    let supported = match options {
        RemoteConnectionOptions::Wsl(_) => true,
        RemoteConnectionOptions::Docker(_) => true,
        _ => false,
    };
    if !supported {
        return Err(RemoteOpenError::OnlyWslAndContainers);
    }
    let window = match host_window_for(requesting, windows) {
        Some(window) => window,
        None => return Err(RemoteOpenError::NoHostWindow),
    };
    match HostSessionClient::host_id_for_connection(options) {
        Ok(host_id) => Ok(ProjectOpen { host_id, window, state: ProjectOpening::LookingUpHost }),
        Err(_) => Err(RemoteOpenError::NoHostSession),
    }
}

/// The workspace of a connected host that takes paths: its active one.
pub open spec fn target_of(client: ClientModel) -> Option<IdentityModel> {
    match crate::session::position(client.snapshot.workspaces, client.snapshot.active) {
        Some(index) => Some(
            IdentityModel {
                host: client.host,
                workspace: client.snapshot.workspaces[index].id,
                project: client.snapshot.workspaces[index].project,
            },
        ),
        None => None,
    }
}

/// Gives the workspace of a connected host that takes paths.
pub fn connected_target(client: &HostSessionClient) -> (result: Result<
    HostWorkspaceIdentity,
    RemoteOpenError,
>)
    ensures
        match target_of(client@) {
            Some(target) => result matches Ok(identity) && identity@ == target,
            None => result == Err::<HostWorkspaceIdentity, RemoteOpenError>(
                RemoteOpenError::NoActiveWorkspace,
            ),
        },
{
    let snapshot = client.snapshot();
    match snapshot.workspace_index(snapshot.active_workspace_id) {
        Some(index) => {
            assert(client@.snapshot.workspaces[index as int] == snapshot.workspaces@[index as int]@);
            Ok(
                HostWorkspaceIdentity {
                    host_id: client.host_id().clone(),
                    workspace_id: snapshot.workspaces[index].id,
                    project_id: snapshot.workspaces[index].project_id,
                },
            )
        },
        None => Err(RemoteOpenError::NoActiveWorkspace),
    }
}

/// The messages of the items that failed, in order.
pub open spec fn failure_messages(items: Seq<OutcomeModel>) -> Seq<Seq<char>>
    decreases items.len(),
{
    if items.len() == 0 {
        Seq::<Seq<char>>::empty()
    } else {
        match items.last() {
            OutcomeModel::Failed { message } => failure_messages(items.drop_last()).push(message),
            _ => failure_messages(items.drop_last()),
        }
    }
}

/// What follows from opening paths in a workspace: the failures to show, and for each path its
/// item, if it opened.
#[derive(Debug)]
pub struct OpenedPaths {
    pub errors: Vec<String>,
    pub items: Vec<Option<u64>>,
}

/// Tells the failures from the opened items.
pub fn report_opened_paths(outcomes: &Vec<ItemOutcome>) -> (report: OpenedPaths)
    ensures
        crate::text::texts(report.errors@) == failure_messages(
            crate::open_flow::outcome_models(outcomes@),
        ),
        report.items@.len() == outcomes@.len(),
        forall|i: int|
            0 <= i < outcomes@.len() ==> (#[trigger] report.items@[i]) == match outcomes@[i] {
                ItemOutcome::Opened { item } => Some(item),
                _ => None,
            },
{
    let ghost all = crate::open_flow::outcome_models(outcomes@);
    let mut errors: Vec<String> = Vec::new();
    let mut items: Vec<Option<u64>> = Vec::new();
    let mut i: usize = 0;
    assert(all.take(0) =~= Seq::<OutcomeModel>::empty());
    assert(crate::text::texts(errors@) =~= Seq::<Seq<char>>::empty());
    while i < outcomes.len()
        invariant
            i <= outcomes@.len(),
            all == crate::open_flow::outcome_models(outcomes@),
            items@.len() == i,
            crate::text::texts(errors@) == failure_messages(all.take(i as int)),
            forall|k: int|
                0 <= k < i ==> (#[trigger] items@[k]) == match outcomes@[k] {
                    ItemOutcome::Opened { item } => Some(item),
                    _ => None,
                },
        decreases outcomes@.len() - i,
    {
        let ghost shown = crate::text::texts(errors@);
        proof {
            assert(all.take(i + 1).drop_last() =~= all.take(i as int));
            assert(all.take(i + 1).last() == outcomes@[i as int]@);
        }
        match &outcomes[i] {
            ItemOutcome::Opened { item } => items.push(Some(*item)),
            ItemOutcome::Failed { message } => {
                let ghost text = message@;
                errors.push(message.clone());
                assert(crate::text::texts(errors@) =~= shown.push(text));
                items.push(None);
            },
            ItemOutcome::Absent => items.push(None),
        }
        i += 1;
    }
    assert(all.take(i as int) =~= all);
    OpenedPaths { errors, items }
}

/// A connected host always has a workspace that takes paths: a valid session has an active one.
pub proof fn law_connected_hosts_take_paths(client: ClientModel)
    requires
        crate::session::session_valid(client.snapshot),
    ensures
        target_of(client) matches Some(target) && target.host == client.host && target.workspace
            == client.snapshot.active,
{
    crate::session::lemma_position(client.snapshot.workspaces, client.snapshot.active);
}

/// Whether an action ends the opening of a project: it returns the window or fails.
pub open spec fn is_last(action: ProjectAction) -> bool {
    match action {
        ProjectAction::ReportAndNavigate { .. }
        | ProjectAction::Navigate { .. }
        | ProjectAction::ReturnWindow { .. }
        | ProjectAction::Register { .. }
        | ProjectAction::CloseDialogAndRegister { .. }
        | ProjectAction::TrackTrustAndRegister { .. }
        | ProjectAction::Fail => true,
        _ => false,
    }
}

/// The opening of a project is finished exactly when its window is returned or it fails.
pub proof fn law_last_actions_finish(
    state: ProjectOpening,
    event: ProjectEvent,
    host: WindowHandle,
)
    ensures
        (project_step(state, event, host).0 == ProjectOpening::Finished) == is_last(
            project_step(state, event, host).1,
        ),
{
}

/// Nothing is connected for a host that is connected already: the paths go to it, and whatever
/// happens then, that is the end.
pub proof fn law_connected_hosts_are_used(event: ProjectEvent, host: WindowHandle)
    ensures
        project_step(
            ProjectOpening::LookingUpHost,
            ProjectEvent::HostLookedUp { connected: true },
            host,
        ) == (ProjectOpening::OpeningOnHost, ProjectAction::OpenOnHost),
        project_step(ProjectOpening::OpeningOnHost, event, host).0 == ProjectOpening::Finished,
{
}

/// A workspace whose connection is gone does not stand in the way: a new connection is made, just
/// as where there is no such workspace.
pub proof fn law_dead_workspaces_are_passed_over(window: Option<WindowHandle>, host: WindowHandle)
    ensures
        project_step(
            ProjectOpening::FindingWorkspace,
            ProjectEvent::WorkspaceFound { window, has_connection: false },
            host,
        ) == project_step(
            ProjectOpening::FindingWorkspace,
            ProjectEvent::WorkspaceFound { window: None, has_connection: true },
            host,
        ),
        project_step(
            ProjectOpening::FindingWorkspace,
            ProjectEvent::WorkspaceFound { window, has_connection: false },
            host,
        ).1 == ProjectAction::OpenDialog,
{
}

/// Another try is made exactly where the user asks for one after a failure, and it starts with the
/// dialog as the first one did.
pub proof fn law_retries_are_asked_for(
    state: ProjectOpening,
    event: ProjectEvent,
    host: WindowHandle,
)
    requires
        !(state is FindingWorkspace),
    ensures
        (project_step(state, event, host).1 == ProjectAction::OpenDialog) == (state is Asking
            && event == ProjectEvent::Answered { choice: Some(RETRY_CHOICE) }),
        project_step(state, event, host).1 == ProjectAction::OpenDialog ==> project_step(
            state,
            event,
            host,
        ).0 == ProjectOpening::OpeningDialog,
{
}

} // verus!
