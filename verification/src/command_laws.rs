//! What the functions that serve the command line and the shell answer.

use crate::connection::{HostModel, RemoteConnectionOptions};
use crate::host_session::{
    ActionModel, HostSessionClient, HostWorkspaceIdentity, IntentModel, MutationIntent,
    ProjectHandle, ProjectionModel,
};
use crate::open_flow as flow;
use crate::open_flow::{
    CliOpen, CliPlan, CliResponse, CommandPath, DiffPlan, ItemOutcome, OpenOptions, OpenPlan,
    OutcomeModel, PairPlan, ResponseModel, WaitEvent, WorkspaceMatching, WorkspaceReport,
};
use crate::open_request::{OpenBehavior, OpenError, OpenRequest};
use crate::path::HostPath;
use crate::recent_actions as actions;
use crate::recent_actions::{OpenLocal, OpenLocalError};
use crate::reconcile::Reconciliation;
use crate::remote_connections::{
    Connection, GivenPath, PathWithPosition, RemoteSettings, SshConnection, WindowHandle,
    WslConnection,
};
use crate::roots::ResolvedPath;
use crate::session::{HostSessionSnapshot, MutationModel, MutationRequest, ProjectSpec};
use vstd::prelude::*;

verus! {

/// A request of the command line with URLs is about them, and carries everything that was asked for
/// besides. One without is about its paths, in an existing window where nothing else is said.
pub proof fn law_urls_go_before_paths(open: CliOpen, plan: CliPlan)
    requires
        call_ensures(flow::plan_cli_request, (open,), plan),
    ensures
        open.urls@.len() > 0 ==> (plan matches CliPlan::ParseUrls { request } && request.urls
            == open.urls && request.diff_paths == open.diff_paths && request.diff_all == open.diff_all
            && request.dev_container == open.dev_container && request.wsl == open.wsl
            && request.open_behavior == Some(open.open_behavior)),
        open.urls@.len() == 0 ==> (plan matches CliPlan::OpenPaths {
            paths,
            diff_paths,
            diff_all,
            wait,
            open_behavior,
            env,
            dev_container,
            cwd,
        } && paths == open.paths && diff_paths == open.diff_paths && diff_all == open.diff_all && wait
            == open.wait && env == open.env && dev_container == open.dev_container && cwd == open.cwd
            && open_behavior == (if open.open_behavior == OpenBehavior::Default {
            OpenBehavior::ExistingWindow
        } else {
            open.open_behavior
        })),
{
}

/// A workspace is opened for paths or comparisons, as it was asked for; without either a window
/// comes to the front.
pub proof fn law_workspaces_open_as_asked(
    paths: Vec<String>,
    diff_paths: Vec<(String, String)>,
    behavior: OpenBehavior,
    wait: bool,
    dev_container: bool,
    env: Option<Vec<(String, String)>>,
    windows: Vec<WindowHandle>,
    plan: OpenPlan,
)
    requires
        call_ensures(
            flow::open_workspaces,
            (&paths, &diff_paths, behavior, wait, dev_container, env, &windows),
            plan,
        ),
    ensures
        plan is ActivateWindow <==> paths@.len() == 0 && diff_paths@.len() == 0,
        plan matches OpenPlan::OpenWorkspace { options } ==> {
            &&& options.wait == wait
            &&& options.env == env
            &&& options.open_in_dev_container == dev_container
            &&& behavior == OpenBehavior::Reuse && windows@.len() > 0 ==> options.requesting_window
                == Some(windows@[0])
            &&& behavior != OpenBehavior::Reuse ==> options.requesting_window is None
            &&& options.workspace_matching == WorkspaceMatching::Never <==> behavior
                == OpenBehavior::Reuse
            &&& options.workspace_matching == WorkspaceMatching::MatchSubdirectory <==> behavior
                == OpenBehavior::Add
            &&& options.add_dirs_to_sidebar <==> behavior == OpenBehavior::Default || behavior
                == OpenBehavior::ExistingWindow
        },
{
}

/// A request that says nothing of the window is opened as one for an existing window.
pub proof fn law_requests_open_in_an_existing_window(
    behavior: Option<OpenBehavior>,
    windows: Vec<WindowHandle>,
    options: OpenOptions,
)
    requires
        call_ensures(flow::open_options_for_request, (behavior, &windows), options),
    ensures
        !options.wait,
        options.env is None,
        !options.open_in_dev_container,
        options.add_dirs_to_sidebar <==> behavior is None || behavior == Some(OpenBehavior::Default)
            || behavior == Some(OpenBehavior::ExistingWindow),
        options.workspace_matching == WorkspaceMatching::Never <==> behavior == Some(
            OpenBehavior::Reuse,
        ),
        options.requesting_window == if behavior == Some(OpenBehavior::Reuse) && windows@.len() > 0 {
            Some(windows@[0])
        } else {
            None
        },
{
}

/// The command line is left with success exactly where its URLs were understood; otherwise it is
/// told why before it is left.
pub proof fn law_urls_are_answered(error: Option<OpenError>, responses: Vec<CliResponse>)
    requires
        call_ensures(flow::responses_to_urls, (error,), responses),
    ensures
        error is None ==> responses@.len() == 1 && responses@[0]@ == (ResponseModel::Exit {
            status: 0,
        }),
        error matches Some(error) ==> responses@.len() == 2 && responses@[0]@ == (
        ResponseModel::Stderr { message: crate::open_request::open_message(error@) })
            && responses@[1]@ == (ResponseModel::Exit { status: 1 }),
{
    let shown = flow::response_models(responses@);
    assert(shown.len() == responses@.len());
    assert(shown[0] == responses@[0]@);
    if error is Some {
        assert(shown[1] == responses@[1]@);
    }
}

/// The command line is left with success exactly where nothing failed.
pub proof fn law_paths_are_answered(failed: bool, response: CliResponse)
    requires
        call_ensures(flow::response_to_paths, (failed,), response),
    ensures
        response@ matches ResponseModel::Exit { status } && (status == 0 <==> !failed) && (failed
            ==> status == 1),
{
}

/// A pair is compared where both its paths are there, the old one against the new one. Otherwise
/// every path that is not is told.
pub proof fn law_pairs_need_both_paths(
    old_path: Result<HostPath, String>,
    new_path: Result<HostPath, String>,
    plan: PairPlan,
)
    requires
        call_ensures(flow::plan_pair, (old_path, new_path), plan),
    ensures
        plan is Compare <==> old_path is Ok && new_path is Ok,
        plan matches PairPlan::Compare { old_path: left, new_path: right } ==> left == old_path->Ok_0
            && right == new_path->Ok_0,
        plan matches PairPlan::Report { failures } ==> {
            let shown = flow::outcome_models(failures@);
            &&& old_path matches Err(message) ==> shown.contains(
                OutcomeModel::Failed { message: message@ },
            )
            &&& new_path matches Err(message) ==> shown.contains(
                OutcomeModel::Failed { message: message@ },
            )
            &&& failures@.len() == (if old_path is Err {
                1int
            } else {
                0
            }) + (if new_path is Err {
                1int
            } else {
                0
            })
        },
{
    match plan {
        PairPlan::Report { failures } => {
            let shown = flow::outcome_models(failures@);
            assert(shown.len() == failures@.len());
            assert(shown[0] == shown[0]);
            if old_path is Err && new_path is Err {
                assert(shown[1] == (OutcomeModel::Failed { message: new_path->Err_0@ }));
            }
        },
        _ => {},
    }
}

/// Comparisons are shown in one view where all are asked for together.
pub proof fn law_comparisons_in_one_view(
    diff_all: bool,
    diff_paths: Vec<(String, String)>,
    plan: DiffPlan,
)
    requires
        call_ensures(flow::plan_diff, (diff_all, &diff_paths), plan),
    ensures
        plan is All <==> diff_all && diff_paths@.len() > 0,
{
}

/// Waiting goes on only while something is open and the command line is there.
pub proof fn law_waiting_ends(event: WaitEvent, result: bool)
    requires
        call_ensures(flow::keep_waiting, (event,), result),
    ensures
        event == WaitEvent::Released ==> !result,
        event matches WaitEvent::Tick { reachable } ==> result == reachable,
{
}

/// A workspace that did not open is an error and is not waited for. One that did is waited for where
/// that is asked for, and is an error where one of its items failed.
pub proof fn law_opened_workspaces_are_reported(
    opened: Result<Vec<ItemOutcome>, String>,
    positions: Vec<PathWithPosition>,
    diff_paths: Vec<(String, String)>,
    wait: bool,
    paths_given: bool,
    directories: Vec<bool>,
    report: WorkspaceReport,
)
    requires
        call_ensures(
            flow::open_superzed_workspace,
            (opened, &positions, &diff_paths, wait, paths_given, &directories),
            report,
        ),
    ensures
        opened is Err ==> report.errored && !report.waits && !report.watches_window
            && report.watched@.len() == 0 && report.responses@.len() == 1,
        opened matches Ok(items) ==> {
            &&& report.waits == wait
            &&& report.errored <==> exists|i: int|
                0 <= i < items@.len() && (#[trigger] items@[i]) is Failed
            &&& !wait ==> report.watched@.len() == 0 && !report.watches_window
            &&& wait ==> report.watched@ == flow::opened_items(flow::outcome_models(items@))
            &&& report.errored <==> report.responses@.len() > 0
        },
{
    let shown = flow::response_models(report.responses@);
    assert(shown.len() == report.responses@.len());
    match opened {
        Ok(items) => {
            let models = flow::outcome_models(items@);
            flow::law_failures_are_answered(models);
            assert(forall|i: int|
                0 <= i < items@.len() ==> ((#[trigger] items@[i]) is Failed <==> models[i] is Failed));
            assert(forall|i: int|
                0 <= i < items@.len() ==> (items@[i] is Failed <==> (#[trigger] models[i]) is Failed));
        },
        Err(_) => {},
    }
}

/// A path of the command line that does not exist as given keeps the row and the column that it
/// reads with; its resolved form, where it has one, takes the place of its path alone.
pub proof fn law_command_paths_keep_their_places(
    given: Vec<CommandPath>,
    windows: bool,
    result: Vec<PathWithPosition>,
    i: int,
)
    requires
        call_ensures(flow::derive_paths_with_position, (given, windows), result),
        0 <= i < given@.len(),
        !given@[i].exists_as_given,
    ensures
        result@.len() == given@.len(),
        result@[i].row == given@[i].parsed.row,
        result@[i].column == given@[i].parsed.column,
        match given@[i].canonical {
            Some(canonical) => result@[i].path@ == canonical@,
            None => result@[i].path@ == given@[i].parsed.path@,
        },
{
    assert(result@[i]@ == flow::resolved(given@[i], windows));
}

/// The same of a single path.
pub proof fn law_derived_paths_keep_their_places(
    path: HostPath,
    parsed: PathWithPosition,
    windows: bool,
    result: PathWithPosition,
)
    requires
        call_ensures(flow::derive_path_with_position, (path, parsed, false, windows), result),
    ensures
        result.path@ == parsed.path@,
        result.row == parsed.row,
        result.column == parsed.column,
{
}

/// Paths that were given are told from their places one by one, and what is opened is the path of
/// each.
pub proof fn law_given_paths_go_with_their_places(
    given: Vec<GivenPath>,
    result: (Vec<HostPath>, Vec<PathWithPosition>),
    i: int,
)
    requires
        call_ensures(
            crate::remote_connections::determine_paths_with_positions,
            (&given,),
            result,
        ),
        0 <= i < given@.len(),
    ensures
        result.0@.len() == given@.len(),
        result.1@.len() == given@.len(),
        result.0@[i]@ == result.1@[i].path@,
        given@[i].exists ==> result.0@[i]@ == given@[i].path@ && result.1@[i].row is None,
        !given@[i].exists ==> (given@[i].parsed matches Some(parsed) ==> (parsed.row is Some ==>
            result.0@[i]@ == parsed.path@ && result.1@[i].row == parsed.row && result.1@[i].column
            == parsed.column)),
{
    assert(result.1@[i]@ == crate::remote_connections::positioned(given@[i]));
}

/// The roots of resolved paths: each path is in one of them, and each is the directory of one of the
/// paths, under the name that was asked for.
pub proof fn law_project_roots_cover_the_paths(
    paths: Vec<ResolvedPath>,
    result: Option<ProjectSpec>,
    k: int,
)
    requires
        call_ensures(crate::roots::canonicalize_project_spec, (paths,), result),
        0 <= k < paths@.len(),
    ensures
        result is None <==> exists|i: int|
            0 <= i < paths@.len() && (#[trigger] paths@[i]).is_file && crate::path::parent_of(
                paths@[i].canonical_path@,
            ) is None,
        result matches Some(spec) ==> exists|i: int|
            0 <= i < spec@.len() && crate::path::same_path(
                (#[trigger] spec@[i]).canonical,
                if paths@[k].is_file {
                    crate::path::parent_of(paths@[k].canonical_path@)->0
                } else {
                    paths@[k].canonical_path@
                },
            ),
{
    let models = crate::roots::resolved_models(paths@);
    crate::roots::law_every_path_is_in_a_root(models);
    assert(forall|i: int|
        0 <= i < paths@.len() ==> (#[trigger] models[i]).is_file == paths@[i].is_file
            && models[i].canonical == paths@[i].canonical_path@);
    assert(forall|i: int|
        0 <= i < paths@.len() ==> models[i].is_file == (#[trigger] paths@[i]).is_file
            && models[i].canonical == paths@[i].canonical_path@);
    assert(models[k].canonical == paths@[k].canonical_path@);
}

/// The host resolves the roots of the requests that have any, and puts them in their place. What
/// else a request asks for stays.
pub proof fn law_requests_are_resolved(
    request: MutationRequest,
    resolved: ProjectSpec,
    result: MutationRequest,
)
    requires
        call_ensures(
            crate::superzed_host::with_resolved_roots,
            (request, resolved),
            result,
        ),
    ensures
        result@.expected_revision == request@.expected_revision,
        match request@.mutation {
            MutationModel::Create { after, .. } => result@.mutation == (MutationModel::Create {
                after,
                roots: resolved@,
            }),
            MutationModel::SetRoots { workspace, .. } => result@.mutation == (
            MutationModel::SetRoots { workspace, roots: resolved@ }),
            other => result@.mutation == other,
        },
{
}

/// An answer to the client's own layout is not restored over it, where it was applied; a stale one
/// is. The host comes to the front for a workspace that is made or activated.
pub proof fn law_own_layouts_are_kept(
    client: HostSessionClient,
    intent: MutationIntent,
    snapshot: HostSessionSnapshot,
    applied: bool,
    result: Result<Reconciliation, crate::host_session::ClientError>,
    k: int,
)
    requires
        call_ensures(
            HostSessionClient::accept_answer,
            (&client, &intent, snapshot, applied),
            result,
        ),
        crate::client_laws::shows_each_once(client@),
        0 <= k < snapshot@.workspaces.len(),
    ensures
        result is Ok <==> crate::session::session_violation(snapshot@) is None,
        result matches Ok(reconciliation) ==> {
            let plan = crate::host_session::action_models(reconciliation.actions@);
            let workspace = snapshot@.workspaces[k];
            let restores = ActionModel::RestoreLayout {
                workspace: workspace.id,
                layout: workspace.layout,
            };
            let own = intent@ matches IntentModel::ReplaceLayout { workspace: named, .. } && named
                == workspace.id;
            &&& reconciliation.snapshot == snapshot
            &&& reconciliation.activate_host <==> intent@ is Create || intent@ is Activate
            &&& applied && own ==> !plan.contains(restores)
            &&& !(applied && own) ==> forall|i: int| #[trigger]
                crate::client_laws::shown_at(client@, workspace, i) ==> (plan.contains(restores)
                    <==> client@.projections[i].layout_revision != workspace.layout_revision)
        },
{
    if result is Ok {
        let named = if applied {
            crate::host_session::own_layout(intent@)
        } else {
            None
        };
        assert(crate::client_laws::are_distinct(snapshot@.workspaces));
        crate::client_laws::law_changed_layouts_are_restored(client@, snapshot@, named, k);
    }
}

/// A snapshot that came unasked restores every layout that differs and leaves the host where it is.
pub proof fn law_unasked_snapshots_are_followed(
    client: HostSessionClient,
    snapshot: HostSessionSnapshot,
    result: Result<Reconciliation, crate::host_session::ClientError>,
    k: int,
    i: int,
)
    requires
        call_ensures(HostSessionClient::reconcile, (&client, snapshot), result),
        crate::client_laws::shows_each_once(client@),
        0 <= k < snapshot@.workspaces.len(),
        crate::client_laws::shown_at(client@, snapshot@.workspaces[k], i),
    ensures
        result is Ok <==> crate::session::session_violation(snapshot@) is None,
        result matches Ok(reconciliation) ==> {
            let plan = crate::host_session::action_models(reconciliation.actions@);
            let workspace = snapshot@.workspaces[k];
            &&& reconciliation.snapshot == snapshot
            &&& !reconciliation.activate_host
            &&& plan.contains(ActionModel::RefreshProject { project: workspace.project })
                <==> crate::client_laws::roots_differ(client@.projections[i].roots, workspace.roots)
            &&& plan.contains(
                ActionModel::RestoreLayout { workspace: workspace.id, layout: workspace.layout },
            ) <==> client@.projections[i].layout_revision != workspace.layout_revision
        },
{
    if result is Ok {
        assert(crate::client_laws::are_distinct(snapshot@.workspaces));
        crate::client_laws::law_changed_roots_are_shown(client@, snapshot@, None, k, i);
        crate::client_laws::law_changed_layouts_are_restored(client@, snapshot@, None, k);
    }
}

/// What the shell shows are the workspaces of what the client shows, in order; what it drops are the
/// numbers of the projects that are gone.
pub proof fn law_shell_shows_what_the_client_shows(
    projections: Seq<ProjectionModel>,
    projects: Seq<(u64, ProjectHandle)>,
    i: int,
)
    ensures
        crate::reconcile::shown_workspaces(projections).len() == projections.len(),
        0 <= i < projections.len() ==> crate::reconcile::shown_workspaces(projections)[i]
            == projections[i].workspace,
        crate::reconcile::numbers_of(projects).len() == projects.len(),
        0 <= i < projects.len() ==> crate::reconcile::numbers_of(projects)[i] == projects[i].0,
{
}

/// A client of another machine is one of a host that can be reached, under its name, and shows
/// nothing yet.
pub proof fn law_remote_clients_are_of_other_machines(
    snapshot: HostSessionSnapshot,
    options: RemoteConnectionOptions,
    display_name: &str,
    result: Result<HostSessionClient, crate::host_session::ClientError>,
)
    requires
        call_ensures(HostSessionClient::remote, (snapshot, &options, display_name), result),
    ensures
        result is Ok <==> options is Ssh || options is Mock,
        result matches Ok(client) ==> client@.host is Ssh && Some(client@.host)
            == crate::connection::host_for(options) && client@.display_name == display_name@
            && client@.snapshot == snapshot@ && client@.projects.len() == 0
            && client@.projections.len() == 0,
{
}

/// Chosen folders are opened in the workspace that asks, in a host session, and as a project of the
/// window otherwise. Choosing nothing does nothing.
pub proof fn law_chosen_folders_open_where_asked(
    chosen: Option<Vec<HostPath>>,
    target: Option<HostWorkspaceIdentity>,
    window: Option<WindowHandle>,
    is_host_session: bool,
    result: Result<OpenLocal, OpenLocalError>,
)
    requires
        call_ensures(
            actions::open_local_project,
            (chosen, target, window, is_host_session),
            result,
        ),
    ensures
        chosen is None ==> (result matches Ok(action) && action is Nothing),
        chosen matches Some(paths) ==> {
            &&& is_host_session ==> match target {
                Some(identity) => result == Ok::<OpenLocal, OpenLocalError>(
                    OpenLocal::OpenPaths { target: identity, paths, window },
                ),
                None => result == Err::<OpenLocal, OpenLocalError>(OpenLocalError::NoHostIdentity),
            }
            &&& !is_host_session ==> match window {
                Some(window) => result == Ok::<OpenLocal, OpenLocalError>(
                    OpenLocal::OpenProject { paths, window },
                ),
                None => result == Err::<OpenLocal, OpenLocalError>(OpenLocalError::NoHostShell),
            }
        },
{
}

/// A request only brings the application to the front where it asks for that and for nothing else.
pub proof fn law_focus_is_all_that_is_asked_for(request: OpenRequest, result: bool)
    requires
        call_ensures(OpenRequest::is_focus_app_only, (&request,), result),
    ensures
        result ==> request@.kind is Some && request@.kind->0 is FocusApp && request@.open_paths.len()
            == 0 && request@.diff_paths.len() == 0 && request@.remote_connection is None
            && request@.join_channel is None && request@.open_channel_notes.len() == 0,
        !result ==> !(request@.kind is Some && request@.kind->0 is FocusApp) || request@.open_paths.len()
            > 0 || request@.diff_paths.len() > 0 || request@.remote_connection is Some
            || request@.join_channel is Some || request@.open_channel_notes.len() > 0,
{
}

/// A connection that a user has set up leads where its settings say.
pub proof fn law_connections_lead_where_they_say(
    connection: Connection,
    options: RemoteConnectionOptions,
)
    requires
        call_ensures(Connection::into_options, (connection,), options),
    ensures
        match connection {
            Connection::Ssh(ssh) => options == RemoteConnectionOptions::Ssh(ssh),
            Connection::Wsl(wsl) => options == RemoteConnectionOptions::Wsl(wsl),
            Connection::DevContainer(container) => options matches RemoteConnectionOptions::Docker(
                docker,
            ) && docker.name == container.name && docker.container_id == container.container_id
                && docker.remote_user == container.remote_user && docker.use_podman
                == container.use_podman && docker.remote_env == container.remote_env,
        },
{
}

/// The settings hold the connections that were found, and none where none were.
pub proof fn law_settings_hold_what_was_found(
    ssh: Option<Vec<SshConnection>>,
    wsl: Option<Vec<WslConnection>>,
    read_ssh_config: Option<bool>,
    settings: RemoteSettings,
)
    requires
        read_ssh_config is Some,
        call_ensures(RemoteSettings::from_settings, (ssh, wsl, read_ssh_config), settings),
    ensures
        Some(settings.read_ssh_config) == read_ssh_config,
        ssh matches Some(found) ==> settings.ssh_connections@ == found@,
        ssh is None ==> settings.ssh_connections@.len() == 0,
        wsl matches Some(found) ==> settings.wsl_connections@ == found@,
        wsl is None ==> settings.wsl_connections@.len() == 0,
{
}

/// Only hosts reached over SSH are connected as such, each looked up under its own identity.
pub proof fn law_only_ssh_hosts_are_connected(
    options: RemoteConnectionOptions,
    result: Result<
        (crate::remote_connections::ConnectState, crate::connection::HostId),
        crate::remote_connections::RemoteOpenError,
    >,
)
    requires
        call_ensures(crate::remote_connections::connect_ssh_host, (&options,), result),
    ensures
        result is Ok <==> options is Ssh || options is Mock,
        result matches Ok((state, host)) ==> state
            == crate::remote_connections::ConnectState::LookingUp && crate::connection::host_for(options)
            == Some(host@) && host@ != HostModel::Local,
{
}

} // verus!
