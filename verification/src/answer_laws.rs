//! What is asked of a host, and what the questions about a session are answered.

use crate::client_laws;
use crate::connection::{SshConnectionHost, SshConnectionOptions};
use crate::host_session::{
    ActionModel, ClientError, HostSessionClient, HostWorkspaceIdentity, MutationIntent,
    WorkspaceProjection,
};
use crate::ids::WorkspaceId;
use crate::layout::LayoutNode;
use crate::local_transport::{
    BuildTarget, LocalRemoteConnection, RemoteArch, RemoteOs, RemotePlatform,
};
use crate::open_flow as flow;
use crate::open_flow::{
    ItemOutcome, ItemsReport, OpenOptions, OutcomeModel, PairOutcome, WorkspaceMatching,
};
use crate::open_request::{
    OpenBehavior, OpenError, OpenRequest, OutsideAnswer, RawOpenRequest,
};
use crate::path::{HostPath, PathStyle};
use crate::persistence as storage;
use crate::persistence::{HostSessionDb, PersistenceError, SessionTables};
use crate::recent_actions::{OpenRecent, OpenRecentModel};
use crate::recent_entries::EntryModel;
use crate::recent_projects::{CurrentWorkspace, RecentProjectsDelegate};
use crate::reconcile::Reconciliation;
use crate::remote_connections::{
    PathWithPosition, RemoteOpenError, RemoteSettings, WindowHandle,
};
use crate::remote_project as project;
use crate::remote_project::OpenedPaths;
use crate::roots::{DirectoryEntry, DirectoryListing};
use crate::session::{
    FreshIds, HostSessionSnapshot, MutationModel, MutationRequest, ProjectSpec, RequestModel,
    WorkspaceSnapshot,
};
use crate::superzed_host as host;
use crate::superzed_host::SuperzedHost;
use vstd::prelude::*;

verus! {

/// A request is made for the revision that the client shows.
pub proof fn law_requests_are_for_the_shown_revision(
    client: &HostSessionClient,
    intent: &MutationIntent,
    request: MutationRequest,
)
    requires
        call_ensures(
            HostSessionClient::request_for,
            (client, intent),
            Ok::<MutationRequest, ClientError>(request),
        ),
    ensures
        request.expected_revision == client@.snapshot.revision,
{
}

/// Setting roots asks for just those roots, in just that workspace.
pub proof fn law_set_roots_are_asked_for(
    client: &HostSessionClient,
    workspace_id: WorkspaceId,
    spec: ProjectSpec,
    intent: MutationIntent,
    result: Result<MutationRequest, ClientError>,
)
    requires
        call_ensures(HostSessionClient::set_project_roots, (workspace_id, spec), intent),
        call_ensures(HostSessionClient::request_for, (client, &intent), result),
    ensures
        result matches Ok(request) && request@ == (RequestModel {
            expected_revision: client@.snapshot.revision,
            mutation: MutationModel::SetRoots { workspace: workspace_id, roots: spec@ },
        }),
{
}

/// Replacing the roots of a target asks for just those roots, in the target's workspace.
pub proof fn law_replaced_roots_are_asked_for(
    client: &HostSessionClient,
    target: &HostWorkspaceIdentity,
    spec: ProjectSpec,
    intent: MutationIntent,
    result: Result<MutationRequest, ClientError>,
)
    requires
        call_ensures(HostSessionClient::replace_workspace_project_roots, (target, spec), intent),
        call_ensures(HostSessionClient::request_for, (client, &intent), result),
    ensures
        result matches Ok(request) && request@ == (RequestModel {
            expected_revision: client@.snapshot.revision,
            mutation: MutationModel::SetRoots { workspace: target@.workspace, roots: spec@ },
        }),
{
}

/// A new workspace is asked for behind the active one.
pub proof fn law_new_workspaces_go_behind_the_active(
    client: &HostSessionClient,
    spec: ProjectSpec,
    intent: MutationIntent,
    result: Result<MutationRequest, ClientError>,
)
    requires
        call_ensures(HostSessionClient::create_workspace, (spec,), intent),
        call_ensures(HostSessionClient::request_for, (client, &intent), result),
    ensures
        result matches Ok(request) && request@ == (RequestModel {
            expected_revision: client@.snapshot.revision,
            mutation: MutationModel::Create { after: Some(client@.snapshot.active), roots: spec@ },
        }),
{
}

/// Activating asks for the workspace that was named.
pub proof fn law_activation_is_asked_for(
    client: &HostSessionClient,
    workspace_id: WorkspaceId,
    intent: MutationIntent,
    result: Result<MutationRequest, ClientError>,
)
    requires
        call_ensures(HostSessionClient::activate_workspace, (workspace_id,), intent),
        call_ensures(HostSessionClient::request_for, (client, &intent), result),
    ensures
        result matches Ok(request) && request@.mutation == (MutationModel::Activate {
            workspace: workspace_id,
        }),
{
}

/// Closing asks for the workspace that was named.
pub proof fn law_closing_is_asked_for(
    client: &HostSessionClient,
    workspace_id: WorkspaceId,
    intent: MutationIntent,
    result: Result<MutationRequest, ClientError>,
)
    requires
        call_ensures(HostSessionClient::close_workspace, (workspace_id,), intent),
        call_ensures(HostSessionClient::request_for, (client, &intent), result),
    ensures
        result matches Ok(request) && request@.mutation == (MutationModel::Close {
            workspace: workspace_id,
        }),
{
}

/// Adding roots asks for the roots that the workspace has, and then the added paths in their order.
/// A workspace that the client does not know has none.
pub proof fn law_added_roots_are_asked_for(
    client: &HostSessionClient,
    workspace_id: WorkspaceId,
    paths: Vec<HostPath>,
    intent: MutationIntent,
    result: Result<MutationRequest, ClientError>,
    k: int,
)
    requires
        call_ensures(HostSessionClient::add_project_roots, (workspace_id, paths), intent),
        call_ensures(HostSessionClient::request_for, (client, &intent), result),
        client_laws::are_distinct(client@.snapshot.workspaces),
        0 <= k < client@.snapshot.workspaces.len(),
        client@.snapshot.workspaces[k].id == workspace_id,
    ensures
        result matches Ok(request) && (request@.mutation matches MutationModel::SetRoots {
            workspace,
            roots,
        } && workspace == workspace_id && ({
            let known = client@.snapshot.workspaces[k].roots;
            &&& roots.len() == known.len() + paths@.len()
            &&& forall|i: int| 0 <= i < known.len() ==> #[trigger] roots[i] == known[i]
            &&& forall|i: int|
                0 <= i < paths@.len() ==> roots[known.len() + i].requested == (
                #[trigger] paths@[i])@ && roots[known.len() + i].canonical == paths@[i]@
        })),
{
    let workspaces = client@.snapshot.workspaces;
    crate::session::lemma_position(workspaces, workspace_id);
    let at = crate::session::position(workspaces, workspace_id)->0;
    client_laws::lemma_same_place(workspaces, k, at);
    assert(crate::path::path_models(paths@).len() == paths@.len());
    assert forall|i: int| 0 <= i < paths@.len() implies crate::path::path_models(paths@)[i] == (
    #[trigger] paths@[i])@ by {}
}

/// Adding one root asks for the roots that the workspace has, and then that path.
pub proof fn law_added_root_is_asked_for(
    client: &HostSessionClient,
    workspace_id: WorkspaceId,
    path: HostPath,
    intent: MutationIntent,
    result: Result<MutationRequest, ClientError>,
    k: int,
)
    requires
        call_ensures(HostSessionClient::add_project_root, (workspace_id, path), intent),
        call_ensures(HostSessionClient::request_for, (client, &intent), result),
        client_laws::are_distinct(client@.snapshot.workspaces),
        0 <= k < client@.snapshot.workspaces.len(),
        client@.snapshot.workspaces[k].id == workspace_id,
    ensures
        result matches Ok(request) && (request@.mutation matches MutationModel::SetRoots {
            workspace,
            roots,
        } && workspace == workspace_id && roots.len() == client@.snapshot.workspaces[k].roots.len() + 1
            && roots.drop_last() == client@.snapshot.workspaces[k].roots && roots.last().requested
            == path@ && roots.last().canonical == path@),
{
    let workspaces = client@.snapshot.workspaces;
    crate::session::lemma_position(workspaces, workspace_id);
    let at = crate::session::position(workspaces, workspace_id)->0;
    client_laws::lemma_same_place(workspaces, k, at);
    if let Ok(request) = result {
        if let MutationModel::SetRoots { workspace, roots } = request@.mutation {
            assert(roots.drop_last() =~= workspaces[k].roots);
        }
    }
}

/// Replacing a layout asks for that layout, over the layout revision that the client shows.
pub proof fn law_replaced_layout_is_asked_for(
    client: &HostSessionClient,
    workspace_id: WorkspaceId,
    layout: LayoutNode,
    intent: MutationIntent,
    result: Result<MutationRequest, ClientError>,
    k: int,
)
    requires
        call_ensures(HostSessionClient::replace_layout, (workspace_id, layout), intent),
        call_ensures(HostSessionClient::request_for, (client, &intent), result),
        client_laws::are_distinct(client@.snapshot.workspaces),
        0 <= k < client@.snapshot.workspaces.len(),
        client@.snapshot.workspaces[k].id == workspace_id,
    ensures
        result matches Ok(request) && request@.mutation == (MutationModel::ReplaceLayout {
            workspace: workspace_id,
            expected_layout_revision: client@.snapshot.workspaces[k].layout_revision,
            layout: layout@,
        }),
{
    let workspaces = client@.snapshot.workspaces;
    crate::session::lemma_position(workspaces, workspace_id);
    let at = crate::session::position(workspaces, workspace_id)->0;
    client_laws::lemma_same_place(workspaces, k, at);
}

/// Removing a root asks for roots of which none is known by that path, and keeps all others.
pub proof fn law_removed_root_is_not_asked_for(
    client: &HostSessionClient,
    workspace_id: WorkspaceId,
    path: HostPath,
    intent: MutationIntent,
    result: Result<MutationRequest, ClientError>,
    k: int,
    i: int,
)
    requires
        call_ensures(HostSessionClient::remove_project_root, (workspace_id, path), intent),
        call_ensures(HostSessionClient::request_for, (client, &intent), result),
        client_laws::are_distinct(client@.snapshot.workspaces),
        0 <= k < client@.snapshot.workspaces.len(),
        client@.snapshot.workspaces[k].id == workspace_id,
        0 <= i < client@.snapshot.workspaces[k].roots.len(),
    ensures
        result matches Ok(request) && (request@.mutation matches MutationModel::SetRoots {
            workspace,
            roots,
        } && workspace == workspace_id && ({
            let root = client@.snapshot.workspaces[k].roots[i];
            roots.contains(root) <==> !crate::path::same_path(root.canonical, path@)
                && !crate::path::same_path(root.requested, path@)
        })),
{
    let workspaces = client@.snapshot.workspaces;
    crate::session::lemma_position(workspaces, workspace_id);
    let at = crate::session::position(workspaces, workspace_id)->0;
    client_laws::lemma_same_place(workspaces, k, at);
    lemma_without_path(workspaces[k].roots, path@, i);
}

proof fn lemma_without_path(
    roots: Seq<crate::session::RootModel>,
    path: crate::path::PathModel,
    i: int,
)
    requires
        0 <= i < roots.len(),
    ensures
        crate::host_session::without_path(roots, path).contains(roots[i])
            <==> !crate::host_session::known_by(roots[i], path),
    decreases roots.len(),
{
    let rest = roots.drop_last();
    let kept = crate::host_session::without_path(rest, path);
    let all = crate::host_session::without_path(roots, path);
    lemma_kept_are_unknown(roots, path);
    if i < rest.len() {
        lemma_without_path(rest, path, i);
        assert(rest[i] == roots[i]);
        if kept.contains(roots[i]) {
            let j = choose|j: int| 0 <= j < kept.len() && kept[j] == roots[i];
            assert(all[j] == roots[i]);
        }
    } else if !crate::host_session::known_by(roots[i], path) {
        assert(all.last() == roots[i]);
    }
}

proof fn lemma_kept_are_unknown(
    roots: Seq<crate::session::RootModel>,
    path: crate::path::PathModel,
)
    ensures
        forall|j: int|
            0 <= j < crate::host_session::without_path(roots, path).len()
                ==> !crate::host_session::known_by(
                #[trigger] crate::host_session::without_path(roots, path)[j],
                path,
            ),
    decreases roots.len(),
{
    if roots.len() > 0 {
        lemma_kept_are_unknown(roots.drop_last(), path);
        let kept = crate::host_session::without_path(roots.drop_last(), path);
        let all = crate::host_session::without_path(roots, path);
        assert forall|j: int| 0 <= j < all.len() implies !crate::host_session::known_by(
            #[trigger] all[j],
            path,
        ) by {
            if j < kept.len() {
                assert(all[j] == kept[j]);
            }
        }
    }
}

/// The projection of a workspace is the one that the client shows it by.
pub proof fn law_projections_are_found(
    client: &HostSessionClient,
    workspace_id: WorkspaceId,
    result: Option<&WorkspaceProjection>,
    i: int,
)
    requires
        call_ensures(HostSessionClient::projection, (client, workspace_id), result),
        client_laws::shows_each_once(client@),
        0 <= i < client@.projections.len(),
        client@.projections[i].identity.workspace == workspace_id,
    ensures
        result matches Some(projection) && projection@ == client@.projections[i],
{
    crate::reconcile::lemma_projection_found(client@.projections, i);
}

/// A snapshot that is not a session is not followed. One that is keeps what it was asked with, and
/// a shown workspace is refreshed just where its roots changed.
pub proof fn law_snapshots_are_checked_before_they_are_followed(
    client: &HostSessionClient,
    snapshot: HostSessionSnapshot,
    own: Option<WorkspaceId>,
    activate_host: bool,
    result: Result<Reconciliation, ClientError>,
    k: int,
    i: int,
)
    requires
        call_ensures(
            HostSessionClient::begin_reconciliation,
            (client, snapshot, own, activate_host),
            result,
        ),
        client_laws::shows_each_once(client@),
        0 <= k < snapshot@.workspaces.len(),
        client_laws::shown_at(client@, snapshot@.workspaces[k], i),
    ensures
        result is Ok <==> crate::session::session_valid(snapshot@),
        result matches Ok(begun) ==> begun.snapshot == snapshot && begun.activate_host
            == activate_host && (crate::host_session::action_models(begun.actions@).contains(
            ActionModel::RefreshProject { project: snapshot@.workspaces[k].project },
        ) <==> client_laws::roots_differ(
            client@.projections[i].roots,
            snapshot@.workspaces[k].roots,
        )),
{
    crate::session::law_session_violation_iff_not_valid(snapshot@);
    if result is Ok {
        client_laws::law_changed_roots_are_shown(client@, snapshot@, own, k, i);
    }
}

/// The first workspace to show is the active one.
pub proof fn law_active_workspace_is_shown_first(
    snapshot: HostSessionSnapshot,
    result: Result<&WorkspaceSnapshot, ClientError>,
)
    requires
        call_ensures(HostSessionClient::initial_workspace_snapshot, (&snapshot,), result),
        crate::session::session_valid(snapshot@),
    ensures
        result matches Ok(workspace) && workspace@.id == snapshot@.active
            && snapshot@.workspaces.contains(workspace@),
{
    crate::session::lemma_position(snapshot@.workspaces, snapshot@.active);
}

/// Paths for a connected host go to its active workspace.
pub proof fn law_connected_targets_are_active(
    client: &HostSessionClient,
    result: Result<HostWorkspaceIdentity, RemoteOpenError>,
)
    requires
        call_ensures(project::connected_target, (client,), result),
    ensures
        result matches Ok(target) ==> target@.host == client@.host && target@.workspace
            == client@.snapshot.active && exists|k: int|
            0 <= k < client@.snapshot.workspaces.len() && (
            #[trigger] client@.snapshot.workspaces[k]).id == target@.workspace
                && client@.snapshot.workspaces[k].project == target@.project,
        result is Err ==> forall|k: int|
            0 <= k < client@.snapshot.workspaces.len() ==> (
            #[trigger] client@.snapshot.workspaces[k]).id != client@.snapshot.active,
{
    crate::session::lemma_position(client@.snapshot.workspaces, client@.snapshot.active);
}

/// Rows that were made of a session read back as that session.
pub proof fn law_rows_read_back(
    snapshot: HostSessionSnapshot,
    tables: SessionTables,
    result: Result<Option<HostSessionSnapshot>, PersistenceError>,
)
    requires
        call_ensures(
            storage::save_tables,
            (&snapshot,),
            Ok::<SessionTables, PersistenceError>(tables),
        ),
        call_ensures(storage::load_tables, (&tables,), result),
    ensures
        result matches Ok(Some(read)) && read@ == snapshot@,
{
}

/// A host starts with the session that is stored, or with a single blank workspace where none is;
/// either way it is stored from then on.
pub proof fn law_hosts_start_with_what_is_stored(
    database: HostSessionDb,
    fresh: FreshIds,
    written: Result<(), String>,
    result: Result<(HostSessionDb, HostSessionSnapshot), PersistenceError>,
)
    requires
        call_ensures(SuperzedHost::load_with, (database, fresh, written), result),
    ensures
        result matches Ok((kept, snapshot)) ==> {
            &&& storage::loaded(kept.tables@) == Ok::<
                Option<crate::session::SessionModel>,
                crate::persistence::PersistenceFault,
            >(Some(snapshot@))
            &&& kept.columns == database.columns
            &&& storage::loaded(database.tables@) matches Ok(Some(found)) ==> snapshot@ == found
            &&& storage::loaded(database.tables@) matches Ok(None) ==> snapshot@.workspaces.len() == 1
                && snapshot@.workspaces[0].roots.len() == 0 && snapshot@.active
                == snapshot@.workspaces[0].id
        },
        storage::loaded(database.tables@) is Err || written is Err ==> result is Err,
{
    crate::session_laws::law_new_sessions_have_one_blank_workspace(fresh);
}

/// The host resolves the roots of new workspaces and of roots that are set, and of nothing else.
pub proof fn law_set_roots_are_resolved(request: MutationRequest, result: Option<&ProjectSpec>)
    requires
        call_ensures(host::roots_to_resolve, (&request,), result),
    ensures
        request@.mutation matches MutationModel::Create { after, roots } ==> (result matches Some(
            spec,
        ) && spec@ == roots),
        request@.mutation matches MutationModel::SetRoots { workspace, roots } ==> (
        result matches Some(spec) && spec@ == roots),
        !(request@.mutation is Create) && !(request@.mutation is SetRoots) ==> result is None,
{
}

/// What is told of the entries of a directory goes with their names.
pub proof fn law_directory_entries_go_with_their_kind(
    entries: Vec<DirectoryEntry>,
    check_info: bool,
    listing: DirectoryListing,
    i: int,
)
    requires
        call_ensures(crate::roots::list_remote_directory, (&entries, check_info), listing),
        0 <= i < crate::roots::named_entries(entries@).len(),
    ensures
        listing.entries@.len() == crate::roots::named_entries(entries@).len(),
        listing.entries@[i]@ == crate::roots::named_entries(entries@)[i].0,
        check_info ==> listing.entry_info@.len() == listing.entries@.len() && listing.entry_info@[i]
            == crate::roots::named_entries(entries@)[i].1,
        !check_info ==> listing.entry_info@.len() == 0,
{
    let names = crate::text::texts(listing.entries@);
    assert(names.len() == listing.entries@.len());
    assert(names[i] == listing.entries@[i]@);
}

/// A request of URLs of files opens their paths in order, with everything else as it was given.
pub proof fn law_requests_open_the_paths_of_their_urls(
    request: RawOpenRequest,
    answers: Vec<OutsideAnswer>,
    settings: RemoteSettings,
    skill_prefix: &str,
    result: Result<OpenRequest, OpenError>,
    paths: Seq<Seq<char>>,
)
    requires
        call_ensures(OpenRequest::parse, (request, answers, &settings, skill_prefix), result),
        request.wsl is None,
        paths.len() == request.urls@.len(),
        forall|i: int|
            0 <= i < paths.len() ==> (#[trigger] request.urls@[i])@ == "file://"@
                + crate::encoding::percent_encoded(paths[i]),
    ensures
        result matches Ok(open) && open@.open_paths == paths && open@.kind is None
            && open@.diff_paths == crate::encoding::pair_texts(request.diff_paths@) && open@.diff_all
            == request.diff_all && open@.dev_container == request.dev_container
            && open@.open_behavior == request.open_behavior && open@.remote_connection is None
            && open@.join_channel is None && open@.open_channel_notes.len() == 0,
{
    let urls = crate::text::texts(request.urls@);
    let diff_paths = crate::encoding::pair_texts(request.diff_paths@);
    crate::url_laws::law_requests_begin_with_what_is_given(
        diff_paths,
        request.diff_all,
        request.dev_container,
        Seq::empty(),
        Seq::empty(),
        request.open_behavior,
    );
    assert(urls.len() == request.urls@.len());
    assert forall|i: int| 0 <= i < urls.len() implies #[trigger] urls[i] == "file://"@
        + crate::encoding::percent_encoded(paths[i]) by {
        assert(urls[i] == request.urls@[i]@);
    }
    let start = crate::open_request::begun(
        diff_paths,
        request.diff_all,
        request.dev_container,
        None,
        request.open_behavior,
    )->Ok_0;
    crate::url_laws::law_file_urls_open_in_order(
        start,
        paths,
        urls,
        crate::open_request::answer_models(answers@),
        crate::remote_connections::setting_models(settings.ssh_connections@),
        skill_prefix@,
    );
    assert(start.open_paths + paths =~= paths);
}

/// Only reusing asks for a window, the first that there is, and looks for no workspace; only an
/// existing window shows directories in its sidebar.
pub proof fn law_windows_are_reused_where_asked(
    behavior: OpenBehavior,
    windows: Vec<WindowHandle>,
    options: OpenOptions,
)
    requires
        call_ensures(flow::open_options_for_behavior, (behavior, &windows), options),
    ensures
        options.requesting_window is Some <==> behavior == OpenBehavior::Reuse && windows@.len() > 0,
        options.requesting_window matches Some(window) ==> window == windows@[0],
        options.workspace_matching == WorkspaceMatching::Never <==> behavior == OpenBehavior::Reuse,
        options.workspace_matching == WorkspaceMatching::MatchSubdirectory <==> behavior
            == OpenBehavior::Add,
        options.add_dirs_to_sidebar <==> behavior == OpenBehavior::Default || behavior
            == OpenBehavior::ExistingWindow,
        !options.wait && options.env is None && !options.open_in_dev_container,
{
}

/// Items that opened stay what they are, and the failure of a path says which path it is about.
pub proof fn law_failures_name_their_paths(
    items: Vec<ItemOutcome>,
    paths: Vec<PathWithPosition>,
    result: Vec<ItemOutcome>,
    i: int,
)
    requires
        call_ensures(flow::label_failures, (items, &paths), result),
        0 <= i < items@.len(),
    ensures
        result@.len() == items@.len(),
        !(items@[i] is Failed) || i >= paths@.len() ==> result@[i]@ == items@[i]@,
        items@[i]@ matches OutcomeModel::Failed { message } ==> (i < paths@.len() ==> result@[i]@ == (
        OutcomeModel::Failed {
            message: "error opening "@ + flow::quoted_path(paths@[i].path@.text) + ": "@ + message,
        })),
{
}

/// Paths come before comparisons, each where it was, and those that opened stay what they are.
pub proof fn law_opened_paths_come_first(
    positions: Vec<PathWithPosition>,
    diff_all: bool,
    diff_paths: Vec<(String, String)>,
    items: Vec<ItemOutcome>,
    view: Option<u64>,
    pairs: Vec<PairOutcome>,
    result: Vec<ItemOutcome>,
    i: int,
)
    requires
        call_ensures(
            flow::open_superzed_paths_with_positions,
            (&positions, diff_all, &diff_paths, items, view, pairs),
            result,
        ),
        0 <= i < items@.len(),
    ensures
        result@.len() >= items@.len(),
        items@[i]@ matches OutcomeModel::Opened { item } ==> result@[i]@ == (OutcomeModel::Opened {
            item,
        }),
        items@[i]@ is Absent ==> result@[i]@ is Absent,
        items@[i]@ is Failed ==> result@[i]@ is Failed,
        diff_all && diff_paths@.len() > 0 ==> result@.len() == items@.len() + (if view is Some {
            1int
        } else {
            0
        }),
{
    let models = flow::outcome_models(items@);
    let all = flow::with_comparisons(models, diff_all && diff_paths@.len() > 0, view, pairs@);
    assert(models.len() == items@.len());
    assert(all[i] == items@[i]@);
}

/// What opened is watched only where somebody waits, and an error is told just where one failed.
pub proof fn law_items_are_watched_for_those_who_wait(
    items: Vec<ItemOutcome>,
    wait: bool,
    report: ItemsReport,
)
    requires
        call_ensures(flow::report_items, (&items, wait), report),
    ensures
        !wait ==> report.watched@.len() == 0,
        wait ==> report.watched@ == flow::opened_items(flow::outcome_models(items@)),
        report.errored <==> exists|i: int|
            0 <= i < items@.len() && (#[trigger] items@[i]) is Failed,
        flow::response_models(report.responses@) == flow::failure_responses(
            flow::outcome_models(items@),
        ),
{
}

/// Resolving a path keeps the place in it.
pub proof fn law_resolved_paths_keep_their_place(
    derived: PathWithPosition,
    canonical: Option<HostPath>,
    result: PathWithPosition,
)
    requires
        call_ensures(flow::with_canonical_path, (derived, canonical), result),
    ensures
        result@.row == derived@.row,
        result@.column == derived@.column,
        canonical matches Some(path) ==> result@.path == path@,
        canonical is None ==> result@.path == derived@.path,
{
}

/// A recent workspace opens its own paths: local ones in the current window, those of other
/// machines over their connection. The current one is not opened again.
pub proof fn law_recent_workspaces_open_their_paths(
    delegate: &RecentProjectsDelegate,
    candidate_id: usize,
    current: Option<CurrentWorkspace>,
    window: Option<WindowHandle>,
    settings: RemoteSettings,
    result: (OpenRecent, bool),
)
    requires
        call_ensures(
            RecentProjectsDelegate::open_recent_projects,
            (delegate, candidate_id, &current, window, &settings),
            result,
        ),
        candidate_id < delegate.workspaces@.len(),
    ensures
        ({
            let candidate = delegate.workspaces@[candidate_id as int];
            &&& result.1 <==> current is Some
            &&& current is None ==> result.0 is Nothing
            &&& current matches Some(workspace) ==> (workspace.database_id == Some(
                candidate.workspace_id,
            ) ==> result.0@ is Nothing)
            &&& current matches Some(workspace) ==> (workspace.database_id != Some(
                candidate.workspace_id,
            ) && candidate.location is Local && window is Some ==> ((result.0@ matches
                OpenRecentModel::OpenPaths { target, paths, window: place } && workspace.identity
                == Some(target) && paths == candidate.paths@ && place == window->0) || (
            result.0@ matches OpenRecentModel::OpenProject { paths, window: place }
                && workspace.identity is None && paths == candidate.paths@ && place == window->0)))
        }),
{
}

/// Each path that was opened has its item, and failures are told besides.
pub proof fn law_opened_paths_have_their_items(
    outcomes: Vec<ItemOutcome>,
    report: OpenedPaths,
    i: int,
)
    requires
        call_ensures(project::report_opened_paths, (&outcomes,), report),
        0 <= i < outcomes@.len(),
    ensures
        report.items@.len() == outcomes@.len(),
        outcomes@[i] matches ItemOutcome::Opened { item } ==> report.items@[i] == Some(item),
        !(outcomes@[i] is Opened) ==> report.items@[i] is None,
{
}

/// The local machine is the one that the program was built for.
pub proof fn law_local_platform_is_the_built_one(
    connection: &LocalRemoteConnection,
    target: BuildTarget,
    platform: RemotePlatform,
    style: PathStyle,
)
    requires
        call_ensures(LocalRemoteConnection::remote_platform, (connection, target), platform),
        call_ensures(LocalRemoteConnection::path_style, (connection, target), style),
    ensures
        platform.os == RemoteOs::Windows <==> target.windows,
        platform.os == RemoteOs::MacOs <==> !target.windows && target.macos,
        platform.arch == RemoteArch::Aarch64 <==> target.aarch64,
        style == PathStyle::Windows <==> platform.os == RemoteOs::Windows,
{
}

/// Deleting a line deletes the workspace that the line is about, and only lines of recent workspaces
/// can be deleted.
pub proof fn law_deleted_workspace_is_that_of_the_line(
    delegate: &RecentProjectsDelegate,
    index: usize,
    current: Option<CurrentWorkspace>,
    place: Option<usize>,
)
    requires
        call_ensures(
            RecentProjectsDelegate::delete_recent_project,
            (delegate, index, &current),
            place,
        ),
        index < delegate.filtered_entries@.len(),
    ensures
        place matches Some(at) ==> at < delegate.workspaces@.len() && (
        delegate.filtered_entries@[index as int]@ matches EntryModel::RecentProject(hit)
            && hit.candidate_id == at),
        !(delegate.filtered_entries@[index as int]@ is RecentProject) ==> place is None,
        delegate.filtered_entries@[index as int]@ matches EntryModel::RecentProject(hit) ==> (
        current is Some && hit.candidate_id < delegate.workspaces@.len() ==> place is Some),
{
}

/// A connection goes to the machine, port and user that were given, whatever the settings say.
pub proof fn law_connections_go_where_they_were_asked(
    settings: &RemoteSettings,
    host: SshConnectionHost,
    port: Option<u16>,
    username: Option<String>,
    options: SshConnectionOptions,
)
    requires
        call_ensures(
            RemoteSettings::connection_options_for,
            (settings, host, port, username),
            options,
        ),
    ensures
        options@.host == host@,
        options@.port == port,
        options@.username == crate::text::optional_text(username),
        options@.password is None,
        options@.connection_timeout is None,
{
    crate::remote_connections::law_settings_keep_the_place(
        crate::remote_connections::bare_options(host@, port, crate::text::optional_text(username)),
        crate::remote_connections::setting_models(settings.ssh_connections@),
    );
}

} // verus!
