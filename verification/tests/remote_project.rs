use superzed_session::connection::HostId;
use superzed_session::host_session::HostSessionClient;
use superzed_session::open_flow::ItemOutcome;
use superzed_session::remote_connections::{RemoteOpenError, WindowHandle};
use superzed_session::remote_project::{
    connected_target, report_opened_paths, retry_choices, ProjectAction, ProjectEvent,
    ProjectOpen, ProjectOpening, RETRY_CHOICE,
};
use superzed_session::ids::WorkspaceId;
use superzed_session::session::HostSessionSnapshot;

const HOST: WindowHandle = WindowHandle { value: 1 };
const OTHER: WindowHandle = WindowHandle { value: 2 };

fn opening(state: ProjectOpening) -> ProjectOpen {
    ProjectOpen { host_id: HostId::Local, window: HOST, state }
}

fn step(state: ProjectOpening, event: ProjectEvent) -> (ProjectOpening, ProjectAction) {
    let mut project = opening(state);
    let action = project.next_step(event);
    (project.state, action)
}

#[test]
fn connected_hosts_take_the_paths() {
    let mut project = opening(ProjectOpening::LookingUpHost);
    let looked_up = ProjectEvent::HostLookedUp { connected: true };
    assert_eq!(project.next_step(looked_up), ProjectAction::OpenOnHost);
    let opened = ProjectEvent::OpenedOnHost { opened: true, has_connection: true };
    assert_eq!(project.next_step(opened), ProjectAction::Navigate { window: HOST });
    assert_eq!(project.state, ProjectOpening::Finished);
    assert_eq!(
        step(
            ProjectOpening::OpeningOnHost,
            ProjectEvent::OpenedOnHost { opened: true, has_connection: false },
        ),
        (ProjectOpening::Finished, ProjectAction::ReturnWindow { window: HOST })
    );
    assert_eq!(
        step(
            ProjectOpening::OpeningOnHost,
            ProjectEvent::OpenedOnHost { opened: false, has_connection: true },
        ),
        (ProjectOpening::Finished, ProjectAction::Fail)
    );
}

#[test]
fn live_workspaces_take_the_paths() {
    let mut project = opening(ProjectOpening::LookingUpHost);
    let looked_up = ProjectEvent::HostLookedUp { connected: false };
    assert_eq!(project.next_step(looked_up), ProjectAction::FindWorkspace);
    let found = ProjectEvent::WorkspaceFound { window: Some(OTHER), has_connection: true };
    assert_eq!(project.next_step(found), ProjectAction::OpenInWorkspace { window: OTHER });
    assert_eq!(
        project.next_step(ProjectEvent::OpenedInWorkspace),
        ProjectAction::ReportAndNavigate { window: OTHER }
    );
    let dead = ProjectEvent::WorkspaceFound { window: Some(OTHER), has_connection: false };
    assert_eq!(
        step(ProjectOpening::FindingWorkspace, dead),
        (ProjectOpening::OpeningDialog, ProjectAction::OpenDialog)
    );
}

#[test]
fn connections_are_tried_again_on_request() {
    let mut project = opening(ProjectOpening::OpeningDialog);
    let shown = ProjectEvent::DialogOpened { opened: true };
    let failed = ProjectEvent::Connected { connected: false };
    let retry = ProjectEvent::Answered { choice: Some(RETRY_CHOICE) };
    for _ in 0..3 {
        assert_eq!(project.next_step(shown), ProjectAction::Connect);
        assert_eq!(project.next_step(failed), ProjectAction::CloseDialogAndAsk);
        assert_eq!(project.next_step(retry), ProjectAction::OpenDialog);
    }
    assert_eq!(retry_choices(), vec!["Retry".to_string(), "Cancel".to_string()]);
    assert_eq!(project.next_step(shown), ProjectAction::Connect);
    let connected = ProjectEvent::Connected { connected: true };
    assert_eq!(project.next_step(connected), ProjectAction::Attach);
    let refused = ProjectEvent::Attached { attached: false };
    assert_eq!(project.next_step(refused), ProjectAction::CloseDialogAndAsk);
    assert_eq!(
        project.next_step(ProjectEvent::Answered { choice: Some(1) }),
        ProjectAction::TrackTrustAndRegister { window: HOST }
    );
    assert_eq!(
        step(
            ProjectOpening::Asking { connected: false },
            ProjectEvent::Answered { choice: None },
        ),
        (ProjectOpening::Finished, ProjectAction::ReturnWindow { window: HOST })
    );
}

#[test]
fn connections_end_with_registration() {
    let finished = ProjectOpening::Finished;
    assert_eq!(
        step(ProjectOpening::OpeningDialog, ProjectEvent::DialogOpened { opened: false }),
        (finished, ProjectAction::Register { window: HOST })
    );
    assert_eq!(
        step(ProjectOpening::Connecting, ProjectEvent::Cancelled),
        (finished, ProjectAction::CloseDialogAndRegister { window: HOST })
    );
    assert_eq!(
        step(ProjectOpening::Attaching, ProjectEvent::Attached { attached: true }),
        (finished, ProjectAction::CloseDialogAndRegister { window: HOST })
    );
    assert_eq!(
        step(ProjectOpening::Attaching, ProjectEvent::Cancelled),
        (finished, ProjectAction::Fail)
    );
}

#[test]
fn the_active_workspace_takes_the_paths() {
    let client = HostSessionClient::local(HostSessionSnapshot::default());
    let target = connected_target(&client).unwrap();
    assert_eq!(target.workspace_id, client.snapshot().active_workspace_id);
    assert_eq!(target.project_id, client.snapshot().workspaces[0].project_id);
    let mut session = HostSessionSnapshot::default();
    session.active_workspace_id = WorkspaceId::from_uuid(9);
    let client = HostSessionClient::local(session);
    let error = connected_target(&client).unwrap_err();
    assert_eq!(error, RemoteOpenError::NoActiveWorkspace);
    assert_eq!(error.message(), "connected host has no active workspace");
}

#[test]
fn failures_are_told_from_opened_items() {
    let report = report_opened_paths(&vec![
        ItemOutcome::Failed { message: "first".to_string() },
        ItemOutcome::Opened { item: 5 },
        ItemOutcome::Absent,
        ItemOutcome::Failed { message: "second".to_string() },
    ]);
    assert_eq!(report.errors, vec!["first".to_string(), "second".to_string()]);
    assert_eq!(report.items, vec![None, Some(5), None, None]);
}
