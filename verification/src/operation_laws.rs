//! What the operations that change something leave behind.

use crate::command_palette::{
    CommandPaletteFilter, GlobalCommandPaletteInterceptor, InterceptorOwner,
};
use crate::context_server_registry::{ContextServerDescriptorRegistry, DescriptorHandle};
use crate::error::SessionError;
use crate::host_laws;
use crate::host_resources::{
    BufferKey, HostResourceRegistry, RepositoryId, ResourceHandle, ResourceKey,
};
use crate::host_session::{
    ClientError, CreatedWorkspace, HostSessionClient, HostWorkspaceIdentity, ProjectHandle,
    WorkspaceHandle,
};
use crate::ids::ProjectId;
use crate::open_request::{OpenError, OpenRequest, OutsideAnswer, UrlKind};
use crate::path::HostPath;
use crate::persistence::{HostSessionDb, PersistenceError};
use crate::recent_actions::RemoveAction;
use crate::recent_entries::{PickerSection, RecentWorkspace};
use crate::recent_projects::{CurrentWorkspace, PickerMatches, RecentProjectsDelegate};
use crate::reconcile::{AttemptOutcome, MutationRun, Reconciled, Reconciliation};
use crate::remote_connections::RemoteSettings;
use crate::remote_project::{ProjectAction, ProjectEvent, ProjectOpen};
use crate::repository_selector::{Repository, RepositorySelectorDelegate};
use crate::roots::{Canonicalization, ResolvedPath};
use crate::session::{
    FreshIds, HostSessionSnapshot, MutationModel, MutationRequest, ProjectSpec, RootModel,
    WorkspaceSnapshot,
};
use crate::superzed_host::{HostAction, MutationAnswer, SuperzedHost};
use vstd::prelude::*;

verus! {

/// A request for another revision changes nothing and is answered with the session as it is.
pub proof fn law_stale_mutations_are_answered_with_the_session(
    host: &mut SuperzedHost,
    request: MutationRequest,
    fresh: FreshIds,
    written: Result<(), String>,
    result: Result<MutationAnswer, PersistenceError>,
)
    requires
        call_ensures(
            SuperzedHost::mutate_session_with,
            (host, request, fresh, written),
            result,
        ),
        request.expected_revision != old(host).snapshot.revision,
    ensures
        result matches Ok(answer) && !answer.applied && answer.snapshot@ == old(host).snapshot@
            && answer.actions@.len() == 0,
        *final(host) == *old(host),
{
}

/// A mutation is applied only where storage took it. The session then is what the request made of
/// it, one revision on; it is answered, is in the rows, and every workspace's project is brought to
/// the resolved paths of its roots. Just the projects of the session are then open.
pub proof fn law_applied_mutations_reach_the_projects(
    host: &mut SuperzedHost,
    request: MutationRequest,
    fresh: FreshIds,
    written: Result<(), String>,
    result: Result<MutationAnswer, PersistenceError>,
    k: int,
    project: u64,
)
    requires
        call_ensures(
            SuperzedHost::mutate_session_with,
            (host, request, fresh, written),
            result,
        ),
        result matches Ok(answer) && answer.applied,
        0 <= k < final(host).snapshot@.workspaces.len(),
    ensures
        ({
            let answer = result->Ok_0;
            let steps = crate::superzed_host::host_action_models(answer.actions@);
            let workspace = final(host).snapshot@.workspaces[k];
            &&& written is Ok
            &&& answer.snapshot@ == final(host).snapshot@
            &&& final(host).snapshot@.revision == old(host).snapshot@.revision + 1
            &&& crate::session::applied(old(host).snapshot@, request@, fresh) == Ok::<
                crate::session::SessionModel,
                crate::error::SessionFault,
            >(final(host).snapshot@)
            &&& crate::persistence::saved(final(host).snapshot@) == Ok::<
                crate::persistence::TablesModel,
                crate::persistence::PersistenceFault,
            >(final(host).database.tables@)
            &&& exists|j: int|
                0 <= j < steps.len() && host_laws::brings_to_roots(#[trigger] steps[j], workspace)
            &&& crate::superzed_host::open_numbers(final(host).projects@).contains(project)
                <==> host_laws::is_used(final(host).snapshot@.workspaces, project)
        }),
{
    let before = crate::superzed_host::open_numbers(old(host).projects@);
    let registered = old(host).protocol_handlers_registered;
    let workspaces = final(host).snapshot@.workspaces;
    crate::session_laws::law_accepted_mutation_moves_revision_by_one(
        old(host).snapshot@,
        request@,
        fresh,
    );
    host_laws::law_every_project_is_brought_to_its_roots(before, registered, workspaces, k);
    host_laws::law_projects_of_workspaces_are_open(before, registered, workspaces, project);
    let steps = crate::superzed_host::projects_reconciled(before, registered, workspaces).actions;
    let j = choose|j: int|
        0 <= j < steps.len() && host_laws::brings_to_roots(#[trigger] steps[j], workspaces[k]) && (
        !before.contains(workspaces[k].project) ==> exists|c: int|
            0 <= c < j && host_laws::opens(#[trigger] steps[c], workspaces[k].project));
    assert(host_laws::brings_to_roots(steps[j], workspaces[k]));
}

/// A mutation that is refused, or that storage does not take, changes nothing.
pub proof fn law_refused_mutations_change_nothing(
    host: &mut SuperzedHost,
    request: MutationRequest,
    fresh: FreshIds,
    written: Result<(), String>,
    result: Result<MutationAnswer, PersistenceError>,
)
    requires
        call_ensures(
            SuperzedHost::mutate_session_with,
            (host, request, fresh, written),
            result,
        ),
        written is Err || crate::session::applied(old(host).snapshot@, request@, fresh) is Err,
    ensures
        *final(host) == *old(host),
        result matches Ok(answer) ==> !answer.applied && answer.snapshot@ == old(host).snapshot@
            && answer.actions@.len() == 0,
        crate::session::applied(old(host).snapshot@, request@, fresh) matches Err(fault) ==> (result is Ok
            <==> fault is StaleRevision || fault is StaleLayoutRevision),
{
}

/// Bringing projects in line brings every workspace's project to the resolved paths of its roots, and
/// leaves the session and what is stored alone.
pub proof fn law_projects_are_brought_in_line(
    host: &mut SuperzedHost,
    actions: Vec<HostAction>,
    k: int,
    project: u64,
)
    requires
        call_ensures(SuperzedHost::reconcile_projects, (host,), actions),
        0 <= k < old(host).snapshot@.workspaces.len(),
    ensures
        ({
            let steps = crate::superzed_host::host_action_models(actions@);
            let workspace = old(host).snapshot@.workspaces[k];
            &&& final(host).snapshot == old(host).snapshot
            &&& final(host).database == old(host).database
            &&& exists|j: int|
                0 <= j < steps.len() && host_laws::brings_to_roots(#[trigger] steps[j], workspace) && (
                !crate::superzed_host::open_numbers(old(host).projects@).contains(workspace.project)
                    ==> exists|c: int|
                    0 <= c < j && host_laws::opens(#[trigger] steps[c], workspace.project))
            &&& crate::superzed_host::open_numbers(final(host).projects@).contains(project)
                <==> host_laws::is_used(old(host).snapshot@.workspaces, project)
        }),
{
    let before = crate::superzed_host::open_numbers(old(host).projects@);
    let registered = old(host).protocol_handlers_registered;
    let workspaces = old(host).snapshot@.workspaces;
    host_laws::law_every_project_is_brought_to_its_roots(before, registered, workspaces, k);
    host_laws::law_projects_of_workspaces_are_open(before, registered, workspaces, project);
}

/// A new host opens the project of every workspace and brings it to its roots.
pub proof fn law_new_hosts_open_all_projects(
    database: HostSessionDb,
    snapshot: HostSessionSnapshot,
    result: (SuperzedHost, Vec<HostAction>),
    k: int,
)
    requires
        call_ensures(SuperzedHost::new, (database, snapshot), result),
        0 <= k < snapshot@.workspaces.len(),
    ensures
        ({
            let steps = crate::superzed_host::host_action_models(result.1@);
            let workspace = snapshot@.workspaces[k];
            &&& result.0.snapshot == snapshot
            &&& result.0.database == database
            &&& exists|j: int|
                0 <= j < steps.len() && host_laws::brings_to_roots(#[trigger] steps[j], workspace)
                    && exists|c: int|
                    0 <= c < j && host_laws::opens(#[trigger] steps[c], workspace.project)
        }),
{
    host_laws::law_every_project_is_brought_to_its_roots(
        Seq::<u64>::empty(),
        false,
        snapshot@.workspaces,
        k,
    );
    assert(!Seq::<u64>::empty().contains(snapshot@.workspaces[k].project));
}

/// A client that has followed a snapshot shows its workspaces in their order, and tells the shell
/// so; the active one is that of the session. A client that could not is left as it was.
pub proof fn law_followed_snapshots_are_shown(
    client: &mut HostSessionClient,
    reconciliation: Reconciliation,
    created: Vec<CreatedWorkspace>,
    result: Result<Reconciled, ClientError>,
    k: int,
)
    requires
        call_ensures(
            HostSessionClient::finish_reconciliation,
            (client, reconciliation, &created),
            result,
        ),
        crate::session::session_valid(reconciliation.snapshot@),
        crate::client_laws::shows_each_once(old(client)@),
        0 <= k < reconciliation.snapshot@.workspaces.len(),
    ensures
        result is Err ==> *final(client) == *old(client),
        result matches Ok(outcome) ==> {
            let workspace = reconciliation.snapshot@.workspaces[k];
            &&& final(client)@.snapshot == reconciliation.snapshot@
            &&& final(client)@.host == old(client)@.host
            &&& final(client)@.projections.len() == reconciliation.snapshot@.workspaces.len()
            &&& crate::client_laws::shown_at(final(client)@, workspace, k)
            &&& !crate::client_laws::roots_differ(
                final(client)@.projections[k].roots,
                workspace.roots,
            )
            &&& final(client)@.projections[k].layout_revision == workspace.layout_revision
            &&& outcome.host_id@ == old(client)@.host
            &&& outcome.activate_host == reconciliation.activate_host
            &&& outcome.ordered_workspaces@.len() == reconciliation.snapshot@.workspaces.len()
            &&& outcome.ordered_workspaces@[k] == final(client)@.projections[k].workspace
            &&& workspace.id == reconciliation.snapshot@.active ==> outcome.active_workspace
                == final(client)@.projections[k].workspace
        },
{
    let snapshot = reconciliation.snapshot@;
    crate::client_laws::law_following_shows_the_snapshot(old(client)@, snapshot, created@, k);
    if result is Ok && snapshot.workspaces[k].id == snapshot.active {
        crate::session::lemma_position(snapshot.workspaces, snapshot.active);
        let at = crate::session::position(snapshot.workspaces, snapshot.active)->0;
        if at < k {
            assert(snapshot.workspaces[at].id != snapshot.workspaces[k].id);
        } else if k < at {
            assert(snapshot.workspaces[k].id != snapshot.workspaces[at].id);
        }
    }
}

/// A project's object is recorded once: the first stays.
pub proof fn law_first_object_of_a_project_stays(
    client: &mut HostSessionClient,
    project_id: ProjectId,
    handle: ProjectHandle,
    result: (),
)
    requires
        call_ensures(HostSessionClient::attach_project, (client, project_id, handle), result),
    ensures
        final(client)@.snapshot == old(client)@.snapshot,
        final(client)@.projections == old(client)@.projections,
        final(client)@.host == old(client)@.host,
        crate::client_laws::has_object(old(client)@, project_id.number()) ==> final(client)@.projects
            == old(client)@.projects,
        !crate::client_laws::has_object(old(client)@, project_id.number()) ==> final(client)@.projects
            == old(client)@.projects.push((project_id.number(), handle)),
{
    crate::client_laws::lemma_object(old(client)@.projects, project_id.number());
}

/// The first workspace of a session is shown once, under the identity that it has.
pub proof fn law_first_workspace_is_shown(
    client: &mut HostSessionClient,
    snapshot: WorkspaceSnapshot,
    project: ProjectHandle,
    workspace: WorkspaceHandle,
    shown: Option<&HostWorkspaceIdentity>,
    result: Result<(), ClientError>,
)
    requires
        call_ensures(
            HostSessionClient::attach_initial_projection,
            (client, &snapshot, project, workspace, shown),
            result,
        ),
    ensures
        result is Err ==> *final(client) == *old(client),
        result is Ok ==> {
            &&& old(client)@.projections.len() == 0
            &&& final(client)@.projections.len() == 1
            &&& crate::client_laws::shown_at(final(client)@, snapshot@, 0)
            &&& final(client)@.projections[0].project == project
            &&& final(client)@.projections[0].workspace == workspace
            &&& final(client)@.projections[0].roots == snapshot@.roots
            &&& crate::client_laws::has_object(final(client)@, snapshot@.project)
        },
{
    let identity = match shown {
        Some(identity) => Some(identity@),
        None => None,
    };
    crate::client_laws::law_first_workspace_is_attached_once(
        old(client)@,
        snapshot@,
        project,
        workspace,
        identity,
    );
    if result is Ok {
        let last = final(client)@.projects.len() - 1;
        assert(final(client)@.projects[last].0 == snapshot@.project);
    }
}

/// Taking in a URL, by the kind that it is told to be, is what is stated of the URL itself.
pub proof fn law_urls_are_taken_in_by_their_kind(
    request: &mut OpenRequest,
    url: &str,
    skill_prefix: &str,
    kind: UrlKind,
    answer: OutsideAnswer,
    settings: RemoteSettings,
    result: Result<(), OpenError>,
)
    requires
        call_ensures(crate::open_request::classify_url, (url, skill_prefix), kind),
        call_ensures(OpenRequest::take_url, (request, kind, answer, &settings), result),
    ensures
        match crate::url_laws::taken(
            old(request)@,
            url@,
            skill_prefix@,
            answer@,
            crate::remote_connections::setting_models(settings.ssh_connections@),
        ) {
            Ok(next) => result is Ok && final(request)@ == next,
            Err(fault) => result matches Err(error) && error@ == fault,
        },
{
}

/// A settings URL with a path makes the request one for the settings at that path, and leaves the
/// rest of the request as it was.
pub proof fn law_settings_urls_ask_for_the_setting(
    request: &mut OpenRequest,
    url: &str,
    setting: Seq<char>,
    skill_prefix: &str,
    kind: UrlKind,
    answer: OutsideAnswer,
    settings: RemoteSettings,
    result: Result<(), OpenError>,
)
    requires
        call_ensures(crate::open_request::classify_url, (url, skill_prefix), kind),
        call_ensures(OpenRequest::take_url, (request, kind, answer, &settings), result),
        setting.len() > 0,
        url@ == "zed://settings/"@ + setting,
        !skill_prefix@.is_prefix_of(url@),
    ensures
        result is Ok,
        final(request)@.kind == Some(
            crate::open_request::KindModel::Setting { setting: Some(setting) },
        ),
        final(request)@.open_paths == old(request)@.open_paths,
        final(request)@.diff_paths == old(request)@.diff_paths,
        final(request)@.diff_all == old(request)@.diff_all,
        final(request)@.dev_container == old(request)@.dev_container,
        final(request)@.open_channel_notes == old(request)@.open_channel_notes,
        final(request)@.join_channel == old(request)@.join_channel,
        final(request)@.remote_connection == old(request)@.remote_connection,
        final(request)@.open_behavior == old(request)@.open_behavior,
{
    crate::url_laws::law_settings_open_at_the_setting(
        old(request)@,
        setting,
        skill_prefix@,
        answer@,
        crate::remote_connections::setting_models(settings.ssh_connections@),
    );
}

/// Adding a resolved path makes its directory a root, unless it is one: the path itself, or the
/// parent of a file. The roots that were there stay. A file without a parent changes nothing.
pub proof fn law_added_paths_are_in_a_root(spec: &mut ProjectSpec, path: ResolvedPath, result: bool)
    requires
        call_ensures(crate::roots::add_resolved, (spec, path), result),
    ensures
        !result <==> path.is_file && crate::path::parent_of(path.canonical_path@) is None,
        !result ==> *final(spec) == *old(spec),
        result ==> {
            let directory = if path.is_file {
                crate::path::parent_of(path.canonical_path@)->0
            } else {
                path.canonical_path@
            };
            &&& exists|i: int|
                0 <= i < final(spec)@.len() && crate::path::same_path(
                    (#[trigger] final(spec)@[i]).canonical,
                    directory,
                )
            &&& final(spec)@ == old(spec)@ || final(spec)@ == old(spec)@.push(
                RootModel { requested: path.requested_path@, canonical: directory },
            )
            &&& (exists|i: int|
                0 <= i < old(spec)@.len() && crate::path::same_path(
                    (#[trigger] old(spec)@[i]).canonical,
                    directory,
                )) ==> final(spec)@ == old(spec)@
        },
{
    if result {
        let directory = crate::roots::root_directory(path@)->0;
        crate::path::law_same_path_is_an_equivalence(directory, directory, directory);
        if !crate::session::has_canonical(old(spec)@, directory) {
            let last = old(spec)@.len() as int;
            assert(final(spec)@[last].canonical == directory);
        }
    }
}

/// A search that goes up leaves off the last name and keeps it among the missing ones.
pub proof fn law_searches_keep_the_names_left_off(search: &mut Canonicalization, result: bool)
    requires
        call_ensures(Canonicalization::step_up, (search,), result),
        old(search).well_formed(),
    ensures
        final(search).path == old(search).path,
        result <==> crate::path::file_name_of(old(search).ancestor@) is Some,
        !result ==> *final(search) == *old(search),
        result ==> crate::path::parent_of(old(search).ancestor@) == Some(final(search).ancestor@)
            && final(search).missing@.len() == old(search).missing@.len() + 1
            && final(search).missing@.last()@ == crate::path::file_name_of(old(search).ancestor@)->0,
{
    if result {
        let before = crate::text::texts(old(search).missing@);
        let after = crate::text::texts(final(search).missing@);
        assert(after.len() == final(search).missing@.len());
        assert(before.len() == old(search).missing@.len());
        assert(after.last() == final(search).missing@.last()@);
    }
}

/// What is stored reads back as the session that was stored. A session that is not stored leaves the
/// database as it was.
pub proof fn law_stored_sessions_read_back(
    database: &mut HostSessionDb,
    snapshot: HostSessionSnapshot,
    written: Result<(), String>,
    result: Result<(), PersistenceError>,
)
    requires
        call_ensures(HostSessionDb::save, (database, &snapshot, written), result),
    ensures
        result is Ok ==> written is Ok && crate::persistence::loaded(final(database).tables@) == Ok::<
            Option<crate::session::SessionModel>,
            crate::persistence::PersistenceFault,
        >(Some(snapshot@)) && final(database).columns == old(database).columns,
        result is Err ==> *final(database) == *old(database),
        written is Err ==> result is Err,
{
}

/// A commit that succeeds is both in force and stored; one that does not is neither.
pub proof fn law_commits_are_in_force_and_stored(
    database: &mut HostSessionDb,
    snapshot: &mut HostSessionSnapshot,
    request: MutationRequest,
    fresh: FreshIds,
    written: Result<(), String>,
    result: Result<(), PersistenceError>,
)
    requires
        call_ensures(
            HostSessionDb::commit_with,
            (database, snapshot, request, fresh, written),
            result,
        ),
    ensures
        result is Ok ==> crate::session::applied(old(snapshot)@, request@, fresh) == Ok::<
            crate::session::SessionModel,
            crate::error::SessionFault,
        >(final(snapshot)@) && crate::persistence::loaded(final(database).tables@) == Ok::<
            Option<crate::session::SessionModel>,
            crate::persistence::PersistenceFault,
        >(Some(final(snapshot)@)) && written is Ok,
        result is Err ==> *final(snapshot) == *old(snapshot) && *final(database) == *old(database),
        request.expected_revision != old(snapshot).revision ==> result is Err,
{
}

/// A request that is refused leaves the session as it was. One that is accepted moves it one
/// revision on, and was made for the revision that it had.
pub proof fn law_requests_change_the_session_or_nothing(
    session: &mut HostSessionSnapshot,
    request: MutationRequest,
    fresh: FreshIds,
    result: Result<(), SessionError>,
)
    requires
        call_ensures(HostSessionSnapshot::apply_with, (session, request, fresh), result),
    ensures
        result is Err ==> *final(session) == *old(session),
        result is Ok ==> final(session)@.revision == old(session)@.revision + 1
            && request.expected_revision == old(session).revision && crate::session::session_valid(
            final(session)@,
        ),
        result is Ok ==> (request@.mutation matches MutationModel::Activate { workspace } ==> final(session)@.active == workspace && final(session)@.workspaces == old(session)@.workspaces),
{
    crate::session_laws::law_accepted_mutation_moves_revision_by_one(
        old(session)@,
        request@,
        fresh,
    );
    crate::session_laws::law_accepted_session_is_valid(old(session)@, request@, fresh);
}

/// Updating the list shows its lines anew and keeps what they are about. The first line that is no
/// title is selected, unless the selection was to stay.
pub proof fn law_updated_lists_select_the_first_line(
    delegate: &mut RecentProjectsDelegate,
    query: &str,
    current: Option<CurrentWorkspace>,
    matches: PickerMatches,
    result: (),
)
    requires
        call_ensures(
            RecentProjectsDelegate::update_matches,
            (delegate, query, &current, &matches),
            result,
        ),
    ensures
        ({
            let lines = crate::recent_entries::entry_models(final(delegate).filtered_entries@);
            &&& lines == crate::recent_projects::listed_lines(
                *old(delegate),
                query@,
                current,
                matches,
            )
            &&& final(delegate).workspaces == old(delegate).workspaces
            &&& final(delegate).open_folders == old(delegate).open_folders
            &&& final(delegate).window_project_groups == old(delegate).window_project_groups
            &&& final(delegate).snap_selection_to_first_non_header_match
            &&& !old(delegate).snap_selection_to_first_non_header_match ==> final(delegate).selected_index == old(delegate).selected_index
            &&& old(delegate).snap_selection_to_first_non_header_match && lines.len() > 0 ==> final(delegate).selected_index < lines.len() && !(lines[final(delegate).selected_index as int] is Header)
                && forall|i: int|
                0 <= i < final(delegate).selected_index ==> (#[trigger] lines[i]) is Header
        }),
{
    let lines = crate::recent_projects::listed_lines(*old(delegate), query@, current, matches);
    if lines.len() > 0 {
        crate::recent_projects::law_first_line_is_selected(
            *old(delegate),
            query@,
            current,
            matches,
        );
    }
}

/// Removing the selected line takes a group away where it is one, and otherwise leaves the list to
/// what is done about it.
pub proof fn law_removing_takes_the_group_away(
    delegate: &mut RecentProjectsDelegate,
    current: Option<CurrentWorkspace>,
    action: RemoveAction,
    key: crate::recent_entries::ProjectGroupKey,
)
    requires
        call_ensures(
            RecentProjectsDelegate::handle_remove_selected,
            (delegate, &current),
            action,
        ),
    ensures
        action matches RemoveAction::RemoveGroup { id } ==> (final(delegate).window_project_groups@.contains(key) <==> old(delegate).window_project_groups@.contains(key)
            && key.id != id),
        !(action is RemoveGroup) ==> final(delegate).window_project_groups == old(delegate).window_project_groups,
        final(delegate).filtered_entries == old(delegate).filtered_entries,
        final(delegate).workspaces == old(delegate).workspaces,
        final(delegate).open_folders == old(delegate).open_folders,
        final(delegate).selected_index == old(delegate).selected_index,
{
    match action {
        RemoveAction::RemoveGroup { id } => {
            crate::recent_actions::law_removed_group_is_gone(
                old(delegate).window_project_groups@,
                id,
            );
        },
        _ => {},
    }
}

/// After a recent project is deleted the list is that of the workspaces that are left, and a line
/// near the deleted one is selected, in the same section where it has one.
pub proof fn law_deleting_selects_a_line_nearby(
    delegate: &mut RecentProjectsDelegate,
    deleted_index: usize,
    workspaces: Vec<RecentWorkspace>,
    scrolled_to_end: Option<bool>,
    query: &str,
    current: Option<CurrentWorkspace>,
    matches: PickerMatches,
    result: (),
)
    requires
        call_ensures(
            RecentProjectsDelegate::update_picker_after_recent_project_deletion,
            (delegate, deleted_index, workspaces, scrolled_to_end, query, &current, &matches),
            result,
        ),
    ensures
        ({
            let lines = crate::recent_entries::entry_models(final(delegate).filtered_entries@);
            &&& final(delegate).workspaces == workspaces
            &&& (exists|i: int| 0 <= i < lines.len() && (#[trigger] lines[i]) is RecentProject)
                ==> final(delegate).selected_index < lines.len() && lines[final(delegate).selected_index as int] is RecentProject
            &&& (exists|i: int| 0 <= i < lines.len() && !((#[trigger] lines[i]) is Header)) ==> final(delegate).selected_index < lines.len() && !(lines[final(delegate).selected_index as int] is Header)
        }),
{
    let lines = crate::recent_entries::entry_models(final(delegate).filtered_entries@);
    crate::recent_actions::law_replacement_can_be_selected(
        lines,
        deleted_index as int,
        scrolled_to_end == Some(true),
        PickerSection::RecentProjects,
    );
}

/// A mutation is sent again only after a stale first attempt, and with the same intent.
pub proof fn law_mutations_keep_their_intent(
    run: &mut MutationRun,
    applied: bool,
    outcome: AttemptOutcome,
)
    requires
        call_ensures(MutationRun::note_answer, (run, applied), outcome),
    ensures
        final(run).intent == old(run).intent,
        applied ==> outcome == AttemptOutcome::Done,
        !applied && old(run).attempt == 0 ==> outcome == AttemptOutcome::Retry && final(run).attempt
            == 1,
        !applied && old(run).attempt > 0 ==> outcome == AttemptOutcome::GiveUp,
{
}

/// Opening a project goes on from where it is, for the same host and window.
pub proof fn law_openings_stay_with_their_host(
    open: &mut ProjectOpen,
    event: ProjectEvent,
    action: ProjectAction,
)
    requires
        call_ensures(ProjectOpen::next_step, (open, event), action),
    ensures
        (final(open).state, action) == crate::remote_project::project_step(
            old(open).state,
            event,
            old(open).window,
        ),
        final(open).host_id == old(open).host_id,
        final(open).window == old(open).window,
{
}

/// A worktree is shared by all that take it: the one that is there is given out again, with one user
/// more, and other worktrees are left alone.
pub proof fn law_worktrees_are_shared<F: FnOnce() -> ResourceHandle>(
    registry: &mut HostResourceRegistry,
    path: HostPath,
    create: F,
    value: ResourceHandle,
    other: HostPath,
)
    requires
        call_ensures(
            HostResourceRegistry::acquire_worktree::<F>,
            (registry, path, create),
            value,
        ),
    ensures
        old(registry).worktrees.value_of(&path) matches Some(known) ==> value == known,
        final(registry).worktrees.value_of(&path) == Some(value),
        final(registry).worktrees.users_of(&path) == old(registry).worktrees.users_of(&path) + 1,
        !crate::path::same_path(other@, path@) ==> final(registry).worktrees.users_of(&other) == old(registry).worktrees.users_of(&other),
        final(registry).buffers == old(registry).buffers,
        final(registry).repositories == old(registry).repositories,
{
    HostPath::same_is_an_equivalence(&path, &path, &path);
}

/// Repositories are numbered one after another.
pub proof fn law_repositories_are_numbered(
    registry: &mut HostResourceRegistry,
    id: RepositoryId,
)
    requires
        call_ensures(HostResourceRegistry::next_repository_id, (registry,), id),
    ensures
        id.value == old(registry).next_repository,
        old(registry).next_repository < u64::MAX ==> final(registry).next_repository == id.value + 1,
        final(registry).worktrees == old(registry).worktrees,
        final(registry).buffers == old(registry).buffers,
        final(registry).repositories == old(registry).repositories,
{
}

/// Kinds of actions that are hidden are hidden from then on, whatever their names; other kinds stay
/// as they were.
pub proof fn law_hidden_kinds_are_hidden(
    filter: &mut CommandPaletteFilter,
    action_types: Vec<u64>,
    result: (),
    name: Seq<char>,
    action_type: u64,
)
    requires
        call_ensures(CommandPaletteFilter::hide_action_types, (filter, &action_types), result),
    ensures
        action_types@.contains(action_type) ==> final(filter).hides(name, action_type),
        !action_types@.contains(action_type) ==> final(filter).hides(name, action_type) == old(filter).hides(name, action_type),
{
}

/// Kinds of actions that are shown are shown from then on, even in a hidden namespace; other kinds
/// stay as they were.
pub proof fn law_shown_kinds_are_shown(
    filter: &mut CommandPaletteFilter,
    action_types: Vec<u64>,
    result: (),
    name: Seq<char>,
    action_type: u64,
)
    requires
        call_ensures(CommandPaletteFilter::show_action_types, (filter, &action_types), result),
    ensures
        action_types@.contains(action_type) ==> !final(filter).hides(name, action_type),
        !action_types@.contains(action_type) ==> final(filter).hides(name, action_type) == old(filter).hides(name, action_type),
{
}

/// Hiding a namespace hides its actions, but for kinds that are shown; showing it again undoes that.
pub proof fn law_namespaces_are_hidden_and_shown(
    filter: &mut CommandPaletteFilter,
    namespace: &str,
    result: (),
    name: Seq<char>,
    action_type: u64,
)
    requires
        call_ensures(CommandPaletteFilter::hide_namespace, (filter, namespace), result),
    ensures
        crate::command_palette::namespace_of(name) == namespace@ ==> (final(filter).hides(
            name,
            action_type,
        ) <==> !old(filter).shown_action_types@.contains(action_type)),
        crate::command_palette::namespace_of(name) != namespace@ ==> final(filter).hides(
            name,
            action_type,
        ) == old(filter).hides(name, action_type),
{
}

/// Setting an owner's interceptor replaces the one it had and puts it last.
pub proof fn law_owners_have_one_interceptor(
    global: &mut GlobalCommandPaletteInterceptor,
    owner: InterceptorOwner,
    handler: u64,
    result: (),
)
    requires
        call_ensures(
            GlobalCommandPaletteInterceptor::set_for_type,
            (global, owner, handler),
            result,
        ),
    ensures
        final(global).listed().len() > 0,
        final(global).listed().last().owner == owner,
        final(global).listed().last().handler == handler,
        forall|i: int|
            0 <= i < final(global).listed().len() - 1 ==> (
            #[trigger] final(global).listed()[i]).owner != owner,
        forall|i: int|
            0 <= i < old(global).listed().len() && (#[trigger] old(global).listed()[i]).owner != owner
                ==> final(global).listed().contains(old(global).listed()[i]),
{
    let before = old(global).listed();
    let rest = crate::command_palette::without_owner(before, owner);
    let after = final(global).listed();
    crate::command_palette::law_owner_is_gone(before, owner);
    assert forall|i: int| 0 <= i < before.len() && (#[trigger] before[i]).owner != owner implies
        after.contains(before[i]) by {
        assert(rest.contains(before[i]));
        let k = choose|k: int| 0 <= k < rest.len() && rest[k] == before[i];
        assert(after[k] == before[i]);
    }
}

/// Registering a descriptor makes it the one of its name and moves the name's revision on; other
/// names keep theirs.
pub proof fn law_descriptors_are_registered_by_name(
    registry: &mut ContextServerDescriptorRegistry,
    id: String,
    descriptor: DescriptorHandle,
    result: (),
    other: Seq<char>,
)
    requires
        call_ensures(
            ContextServerDescriptorRegistry::register_context_server_descriptor,
            (registry, id, descriptor),
            result,
        ),
    ensures
        final(registry).context_servers.spec_map().contains_key(id@),
        final(registry).context_servers.spec_map()[id@] == descriptor,
        crate::context_server_registry::revision_of(
            final(registry).descriptor_revisions.spec_map(),
            id@,
        ) != crate::context_server_registry::revision_of(
            old(registry).descriptor_revisions.spec_map(),
            id@,
        ),
        other != id@ ==> crate::context_server_registry::revision_of(
            final(registry).descriptor_revisions.spec_map(),
            other,
        ) == crate::context_server_registry::revision_of(
            old(registry).descriptor_revisions.spec_map(),
            other,
        ) && (final(registry).context_servers.spec_map().contains_key(other) <==> old(registry).context_servers.spec_map().contains_key(other)),
{
}

/// Unregistering a descriptor takes away the one of its name and moves the name's revision on; other
/// names keep theirs.
pub proof fn law_descriptors_are_unregistered_by_name(
    registry: &mut ContextServerDescriptorRegistry,
    id: &str,
    result: (),
    other: Seq<char>,
)
    requires
        call_ensures(
            ContextServerDescriptorRegistry::unregister_context_server_descriptor_by_id,
            (registry, id),
            result,
        ),
    ensures
        !final(registry).context_servers.spec_map().contains_key(id@),
        crate::context_server_registry::revision_of(
            final(registry).descriptor_revisions.spec_map(),
            id@,
        ) != crate::context_server_registry::revision_of(
            old(registry).descriptor_revisions.spec_map(),
            id@,
        ),
        other != id@ ==> (final(registry).context_servers.spec_map().contains_key(other) <==> old(registry).context_servers.spec_map().contains_key(other)),
{
}

/// A query lists the repositories that answer it, ordered by name, and selects the active one where
/// it is among them.
pub proof fn law_repositories_are_listed_for_a_query(
    delegate: &mut RepositorySelectorDelegate,
    query: &str,
    result: (),
)
    requires
        call_ensures(RepositorySelectorDelegate::update_matches, (delegate, query), result),
    ensures
        final(delegate).repository_entries == old(delegate).repository_entries,
        final(delegate).active_repository == old(delegate).active_repository,
        final(delegate).filtered_repositories@.to_multiset()
            == crate::repository_selector::matching(
            old(delegate).repository_entries@,
            query@,
        ).to_multiset(),
        ({
            let listed = final(delegate).filtered_repositories@;
            old(delegate).active_repository matches Some(id) ==> ((exists|i: int|
                0 <= i < listed.len() && (#[trigger] listed[i]).id == id) ==> final(delegate).selected_index < listed.len() && listed[final(delegate).selected_index as int].id == id)
        }),
{
    let found = crate::repository_selector::matching(old(delegate).repository_entries@, query@);
    crate::repository_selector::law_sorting_orders_repositories(found);
    crate::repository_laws::law_active_repository_is_selected(
        final(delegate).filtered_repositories@,
        old(delegate).active_repository,
    );
}

/// A buffer is shared by all that take it: the one that is there is given out again, with one user
/// more. Other buffers, of the same worktree too, are left alone.
pub proof fn law_buffers_are_shared<F: FnOnce() -> ResourceHandle>(
    registry: &mut HostResourceRegistry,
    worktree_id: u64,
    path: String,
    create: F,
    value: ResourceHandle,
    other: BufferKey,
)
    requires
        call_ensures(
            HostResourceRegistry::acquire_buffer::<F>,
            (registry, worktree_id, path, create),
            value,
        ),
    ensures
        ({
            let key = BufferKey { worktree_id, path };
            let before = old(registry).buffers;
            let after = final(registry).buffers;
            &&& before.value_of(&key) matches Some(known) ==> value == known
            &&& after.value_of(&key) == Some(value)
            &&& after.users_of(&key) == before.users_of(&key) + 1
            &&& other.worktree_id != worktree_id || other.path@ != path@ ==> after.users_of(&other)
                == before.users_of(&other)
            &&& final(registry).worktrees == old(registry).worktrees
            &&& final(registry).repositories == old(registry).repositories
        }),
{
    let key = BufferKey { worktree_id, path };
    BufferKey::same_is_an_equivalence(&key, &key, &key);
}

/// A repository is shared by all that take it: the one that is there is kept.
pub proof fn law_repositories_are_shared(
    registry: &mut HostResourceRegistry,
    common_directory: &HostPath,
    repository: ResourceHandle,
    value: ResourceHandle,
)
    requires
        call_ensures(
            HostResourceRegistry::insert_repository,
            (registry, common_directory, repository),
            value,
        ),
    ensures
        old(registry).repositories.value_of(common_directory) matches Some(known) ==> value == known,
        old(registry).repositories.value_of(common_directory) is None ==> value == repository,
        final(registry).repositories.value_of(common_directory) == Some(value),
        final(registry).repositories.users_of(common_directory) == old(registry).repositories.users_of(common_directory) + 1,
        final(registry).worktrees == old(registry).worktrees,
        final(registry).buffers == old(registry).buffers,
        final(registry).next_repository == old(registry).next_repository,
{
    HostPath::same_is_an_equivalence(common_directory, common_directory, common_directory);
}

/// A worktree that is let go has one user less, and goes with the last.
pub proof fn law_worktrees_go_with_the_last_user(
    registry: &mut HostResourceRegistry,
    path: &HostPath,
    result: (),
)
    requires
        old(registry).well_formed(),
        call_ensures(HostResourceRegistry::release_worktree, (registry, path), result),
    ensures
        ({
            let before = old(registry).worktrees;
            let after = final(registry).worktrees;
            &&& before.users_of(path) > 0 ==> after.users_of(path) == before.users_of(path) - 1
            &&& before.users_of(path) > 1 ==> after.value_of(path) == before.value_of(path)
            &&& before.users_of(path) == 1 ==> after.value_of(path) is None
            &&& final(registry).buffers == old(registry).buffers
            &&& final(registry).repositories == old(registry).repositories
        }),
{
    crate::shell_laws::law_left_resources_go_with_the_last_user(
        &old(registry).worktrees,
        &final(registry).worktrees,
        path,
        path,
    );
}

/// A buffer that is let go has one user less, and goes with the last.
pub proof fn law_buffers_go_with_the_last_user(
    registry: &mut HostResourceRegistry,
    worktree_id: u64,
    path: String,
    result: (),
)
    requires
        old(registry).well_formed(),
        call_ensures(HostResourceRegistry::release_buffer, (registry, worktree_id, path), result),
    ensures
        ({
            let key = BufferKey { worktree_id, path };
            let before = old(registry).buffers;
            let after = final(registry).buffers;
            &&& before.users_of(&key) > 0 ==> after.users_of(&key) == before.users_of(&key) - 1
            &&& before.users_of(&key) > 1 ==> after.value_of(&key) == before.value_of(&key)
            &&& before.users_of(&key) == 1 ==> after.value_of(&key) is None
            &&& final(registry).worktrees == old(registry).worktrees
            &&& final(registry).repositories == old(registry).repositories
        }),
{
    let key = BufferKey { worktree_id, path };
    crate::shell_laws::law_left_resources_go_with_the_last_user(
        &old(registry).buffers,
        &final(registry).buffers,
        &key,
        &key,
    );
}

/// A repository that is let go has one user less, and goes with the last.
pub proof fn law_repositories_go_with_the_last_user(
    registry: &mut HostResourceRegistry,
    path: &HostPath,
    result: (),
)
    requires
        old(registry).well_formed(),
        call_ensures(HostResourceRegistry::release_repository, (registry, path), result),
    ensures
        ({
            let before = old(registry).repositories;
            let after = final(registry).repositories;
            &&& before.users_of(path) > 0 ==> after.users_of(path) == before.users_of(path) - 1
            &&& before.users_of(path) > 1 ==> after.value_of(path) == before.value_of(path)
            &&& before.users_of(path) == 1 ==> after.value_of(path) is None
            &&& final(registry).worktrees == old(registry).worktrees
            &&& final(registry).buffers == old(registry).buffers
        }),
{
    crate::shell_laws::law_left_resources_go_with_the_last_user(
        &old(registry).repositories,
        &final(registry).repositories,
        path,
        path,
    );
}

/// A namespace that is shown hides none of its actions, but for kinds that are hidden; other
/// namespaces stay as they were.
pub proof fn law_shown_namespaces_hide_nothing(
    filter: &mut CommandPaletteFilter,
    namespace: &str,
    result: (),
    name: Seq<char>,
    action_type: u64,
)
    requires
        call_ensures(CommandPaletteFilter::show_namespace, (filter, namespace), result),
    ensures
        crate::command_palette::namespace_of(name) == namespace@ ==> (final(filter).hides(
            name,
            action_type,
        ) ==> old(filter).hidden_action_types@.contains(action_type)),
        crate::command_palette::namespace_of(name) != namespace@ ==> final(filter).hides(
            name,
            action_type,
        ) == old(filter).hides(name, action_type),
{
}

/// Clearing an owner's interceptor takes away just that one.
pub proof fn law_cleared_owners_have_no_interceptor(
    global: &mut GlobalCommandPaletteInterceptor,
    owner: InterceptorOwner,
    result: (),
)
    requires
        call_ensures(GlobalCommandPaletteInterceptor::clear_for_type, (global, owner), result),
    ensures
        forall|i: int|
            0 <= i < final(global).listed().len() ==> (
            #[trigger] final(global).listed()[i]).owner != owner,
        forall|i: int|
            0 <= i < old(global).listed().len() && (#[trigger] old(global).listed()[i]).owner != owner
                ==> final(global).listed().contains(old(global).listed()[i]),
{
    crate::command_palette::law_owner_is_gone(old(global).listed(), owner);
}

/// A session that is served answers a request for another revision with what it is, and changes
/// nothing.
pub proof fn law_served_sessions_refuse_stale_requests(
    host: &mut SuperzedHost,
    request: MutationRequest,
    written: Result<(), String>,
    result: Result<MutationAnswer, PersistenceError>,
)
    requires
        call_ensures(SuperzedHost::handle_mutate_session, (host, request, written), result),
        request.expected_revision != old(host).snapshot.revision,
    ensures
        result matches Ok(answer) && !answer.applied && answer.snapshot@ == old(host).snapshot@
            && answer.actions@.len() == 0,
        *final(host) == *old(host),
{
}

/// A request that is served is stored and in force, one revision on, and every workspace's project
/// is brought to the resolved paths of its roots; or nothing changes.
pub proof fn law_served_requests_reach_the_projects(
    host: &mut SuperzedHost,
    request: MutationRequest,
    written: Result<(), String>,
    result: Result<MutationAnswer, PersistenceError>,
    k: int,
)
    requires
        call_ensures(SuperzedHost::handle_mutate_session, (host, request, written), result),
        0 <= k < final(host).snapshot@.workspaces.len(),
    ensures
        !(result matches Ok(answer) && answer.applied) ==> *final(host) == *old(host),
        result matches Ok(answer) ==> (answer.applied ==> {
            let steps = crate::superzed_host::host_action_models(answer.actions@);
            let workspace = final(host).snapshot@.workspaces[k];
            &&& written is Ok
            &&& answer.snapshot@ == final(host).snapshot@
            &&& final(host).snapshot@.revision == old(host).snapshot@.revision + 1
            &&& exists|j: int|
                0 <= j < steps.len() && host_laws::brings_to_roots(#[trigger] steps[j], workspace)
        }),
{
    let before = crate::superzed_host::open_numbers(old(host).projects@);
    let registered = old(host).protocol_handlers_registered;
    let workspaces = final(host).snapshot@.workspaces;
    host_laws::law_every_project_is_brought_to_its_roots(before, registered, workspaces, k);
    let steps = crate::superzed_host::projects_reconciled(before, registered, workspaces).actions;
    let j = choose|j: int|
        0 <= j < steps.len() && host_laws::brings_to_roots(#[trigger] steps[j], workspaces[k]) && (
        !before.contains(workspaces[k].project) ==> exists|c: int|
            0 <= c < j && host_laws::opens(#[trigger] steps[c], workspaces[k].project));
    assert(host_laws::brings_to_roots(steps[j], workspaces[k]));
    assert forall|fresh: FreshIds|
        (#[trigger] crate::session::applied(old(host).snapshot@, request@, fresh)) is Ok implies
        crate::session::applied(old(host).snapshot@, request@, fresh)->Ok_0.revision == old(host).snapshot@.revision + 1 by {
        crate::session_laws::law_accepted_mutation_moves_revision_by_one(
            old(host).snapshot@,
            request@,
            fresh,
        );
    }
}

/// A request that draws its own identities changes the session, one revision on, or nothing.
pub proof fn law_drawn_requests_change_the_session_or_nothing(
    session: &mut HostSessionSnapshot,
    request: MutationRequest,
    result: Result<(), SessionError>,
)
    requires
        call_ensures(HostSessionSnapshot::apply, (session, request), result),
    ensures
        result is Err ==> *final(session) == *old(session),
        result is Ok ==> final(session)@.revision == old(session)@.revision + 1
            && request.expected_revision == old(session).revision,
{
    assert forall|fresh: FreshIds|
        (#[trigger] crate::session::applied(old(session)@, request@, fresh)) is Ok implies
        crate::session::applied(old(session)@, request@, fresh)->Ok_0.revision == old(session)@.revision
        + 1 by {
        crate::session_laws::law_accepted_mutation_moves_revision_by_one(
            old(session)@,
            request@,
            fresh,
        );
    }
}

/// A list of repositories that changes is shown whole, with the active one selected where it is
/// among them.
pub proof fn law_changed_repositories_are_shown(
    delegate: &mut RepositorySelectorDelegate,
    all_repositories: Vec<Repository>,
    result: (),
    i: int,
)
    requires
        call_ensures(
            RepositorySelectorDelegate::update_repository_entries,
            (delegate, all_repositories),
            result,
        ),
        0 <= i < all_repositories@.len(),
        old(delegate).active_repository == Some(all_repositories@[i].id),
    ensures
        final(delegate).repository_entries@ == all_repositories@,
        final(delegate).filtered_repositories@ == all_repositories@,
        final(delegate).selected_index < all_repositories@.len(),
        all_repositories@[final(delegate).selected_index as int].id == all_repositories@[i].id,
{
    crate::repository_laws::law_active_repository_is_selected(
        all_repositories@,
        old(delegate).active_repository,
    );
}

/// The selection of a repository stays inside the list, and is the one that was asked for where
/// that is inside.
pub proof fn law_selection_stays_in_the_list(
    delegate: &mut RepositorySelectorDelegate,
    index: usize,
    result: (),
)
    requires
        call_ensures(RepositorySelectorDelegate::set_selected_index, (delegate, index), result),
    ensures
        final(delegate).filtered_repositories == old(delegate).filtered_repositories,
        index < old(delegate).filtered_repositories@.len() ==> final(delegate).selected_index == index,
        old(delegate).filtered_repositories@.len() > 0 ==> final(delegate).selected_index < old(delegate).filtered_repositories@.len(),
{
}

/// Selecting a line of the project list changes nothing but the selection.
pub proof fn law_selecting_keeps_the_list(
    delegate: &mut RecentProjectsDelegate,
    index: usize,
    result: (),
)
    requires
        call_ensures(RecentProjectsDelegate::set_selected_index, (delegate, index), result),
    ensures
        final(delegate).selected_index == index,
        final(delegate).filtered_entries == old(delegate).filtered_entries,
        final(delegate).workspaces == old(delegate).workspaces,
        final(delegate).open_folders == old(delegate).open_folders,
        final(delegate).window_project_groups == old(delegate).window_project_groups,
{
}

} // verus!
