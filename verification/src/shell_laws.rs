//! What holds of connecting hosts, of the local host, and of what the shell keeps.

use crate::command_palette as palette;
use crate::command_palette::{
    CommandInterceptResult, CommandPaletteFilter, Interceptor, InterceptorOwner,
};
use crate::connection::{HostModel, RemoteConnectionOptions, SshConnectionHost};
use crate::host_resources::{ResourceKey, SharedResources};
use crate::host_session::ClientModel;
use crate::local_transport as local;
use crate::local_transport::{
    CommandError, CommandTemplate, LocalRemoteConnection, ProxyCommand, QuotedCommand,
};
use crate::open_flow::OutcomeModel;
use crate::remote_connections as remote;
use crate::remote_connections::{
    ConnectAction, ConnectEvent, ConnectState, OpenWindow, RemoteOpenError, SessionHandle,
    WindowHandle,
};
use crate::remote_project as project;
use crate::remote_project::{ProjectAction, ProjectEvent, ProjectOpening};
use vstd::prelude::*;

verus! {

/// A host is known by its address: the user where one is named, the machine, in brackets where it is
/// a number of the longer kind, and the port where one is named. Distributions and containers are no
/// hosts.
pub proof fn law_hosts_are_known_by_their_address(options: RemoteConnectionOptions)
    ensures
        match options {
            RemoteConnectionOptions::Local(_) => crate::connection::host_for(options) == Some(
                HostModel::Local,
            ),
            RemoteConnectionOptions::Wsl(_) => crate::connection::host_for(options) is None,
            RemoteConnectionOptions::Docker(_) => crate::connection::host_for(options) is None,
            RemoteConnectionOptions::Mock(mock) => crate::connection::host_for(options) == Some(
                HostModel::Ssh("mock://"@ + crate::text::decimal(mock.id as nat)),
            ),
            RemoteConnectionOptions::Ssh(ssh) => {
                let machine = match ssh.host {
                    SshConnectionHost::Plain(text) => text@,
                    SshConnectionHost::Bracketed(text) => "["@ + text@ + "]"@,
                };
                crate::connection::host_for(options) matches Some(HostModel::Ssh(address)) && match (
                    ssh.username,
                    ssh.port,
                ) {
                    (None, None) => address == "ssh://"@ + machine,
                    (Some(user), None) => address == "ssh://"@ + (user@ + "@"@) + machine,
                    (None, Some(port)) => address == "ssh://"@ + machine + (":"@
                        + crate::text::decimal(port as nat)),
                    (Some(user), Some(port)) => address == "ssh://"@ + (user@ + "@"@) + machine + (
                    ":"@ + crate::text::decimal(port as nat)),
                }
            },
        },
{
    match options {
        RemoteConnectionOptions::Ssh(ssh) => {
            let none = Seq::<char>::empty();
            let machine = crate::connection::bracketed(ssh.host);
            assert("ssh://"@ + none + machine =~= "ssh://"@ + machine);
            assert("ssh://"@ + none + machine + none =~= "ssh://"@ + machine);
            match ssh.username {
                Some(user) => {
                    assert("ssh://"@ + (user@ + "@"@) + machine + none =~= "ssh://"@ + (user@
                        + "@"@) + machine);
                },
                None => {},
            }
        },
        _ => {},
    }
}

/// Connecting a host over SSH: one that is connected already is done with; otherwise the dialog is
/// opened, the connection made, the session attached and then registered. Giving up returns the
/// window, and every failure is told.
pub proof fn law_connecting_goes_step_by_step(session: SessionHandle)
    ensures
        remote::connect_step(
            ConnectState::LookingUp,
            ConnectEvent::LookedUp { connected: true },
        ) == (ConnectState::Finished, ConnectAction::ReturnWindow),
        remote::connect_step(
            ConnectState::LookingUp,
            ConnectEvent::LookedUp { connected: false },
        ) == (ConnectState::OpeningDialog, ConnectAction::OpenDialog),
        remote::connect_step(
            ConnectState::OpeningDialog,
            ConnectEvent::DialogOpened { opened: true },
        ) == (ConnectState::Connecting, ConnectAction::Connect),
        remote::connect_step(
            ConnectState::OpeningDialog,
            ConnectEvent::DialogOpened { opened: false },
        ) == (ConnectState::Finished, ConnectAction::Fail),
        remote::connect_step(ConnectState::Connecting, ConnectEvent::ConnectFailed) == (
            ConnectState::Finished,
            ConnectAction::Fail,
        ),
        remote::connect_step(
            ConnectState::Connecting,
            ConnectEvent::Connected { session: None },
        ) == (ConnectState::Finished, ConnectAction::CloseDialogAndReturn),
        remote::connect_step(
            ConnectState::Connecting,
            ConnectEvent::Connected { session: Some(session) },
        ) == (ConnectState::Attaching { session }, ConnectAction::CloseDialogAndAttach { session }),
        remote::connect_step(
            ConnectState::Attaching { session },
            ConnectEvent::Attached { attached: true },
        ) == (ConnectState::Finished, ConnectAction::RegisterAndReturn { session }),
        remote::connect_step(
            ConnectState::Attaching { session },
            ConnectEvent::Attached { attached: false },
        ) == (ConnectState::Finished, ConnectAction::Fail),
{
}

/// Opening a project on another machine: on its host where that is connected, in a workspace that
/// shows it where one does, and otherwise over a new connection, which is asked about again where it
/// or the attaching fails.
pub proof fn law_opening_projects_goes_step_by_step(host: WindowHandle, window: WindowHandle)
    ensures
        project::project_step(
            ProjectOpening::LookingUpHost,
            ProjectEvent::HostLookedUp { connected: false },
            host,
        ) == (ProjectOpening::FindingWorkspace, ProjectAction::FindWorkspace),
        project::project_step(
            ProjectOpening::OpeningOnHost,
            ProjectEvent::OpenedOnHost { opened: true, has_connection: true },
            host,
        ).1 == (ProjectAction::Navigate { window: host }),
        project::project_step(
            ProjectOpening::OpeningOnHost,
            ProjectEvent::OpenedOnHost { opened: true, has_connection: false },
            host,
        ).1 == (ProjectAction::ReturnWindow { window: host }),
        project::project_step(
            ProjectOpening::FindingWorkspace,
            ProjectEvent::WorkspaceFound { window: Some(window), has_connection: true },
            host,
        ) == (
            ProjectOpening::OpeningInWorkspace { window },
            ProjectAction::OpenInWorkspace { window },
        ),
        project::project_step(
            ProjectOpening::OpeningInWorkspace { window },
            ProjectEvent::OpenedInWorkspace,
            host,
        ) == (ProjectOpening::Finished, ProjectAction::ReportAndNavigate { window }),
        project::project_step(
            ProjectOpening::OpeningDialog,
            ProjectEvent::DialogOpened { opened: true },
            host,
        ) == (ProjectOpening::Connecting, ProjectAction::Connect),
        project::project_step(
            ProjectOpening::Connecting,
            ProjectEvent::Connected { connected: true },
            host,
        ) == (ProjectOpening::Attaching, ProjectAction::Attach),
        project::project_step(
            ProjectOpening::Connecting,
            ProjectEvent::Connected { connected: false },
            host,
        ) == (ProjectOpening::Asking { connected: false }, ProjectAction::CloseDialogAndAsk),
        project::project_step(ProjectOpening::Connecting, ProjectEvent::Cancelled, host).1 == (
        ProjectAction::CloseDialogAndRegister { window: host }),
        project::project_step(
            ProjectOpening::Attaching,
            ProjectEvent::Attached { attached: true },
            host,
        ).1 == (ProjectAction::CloseDialogAndRegister { window: host }),
        project::project_step(
            ProjectOpening::Attaching,
            ProjectEvent::Attached { attached: false },
            host,
        ) == (ProjectOpening::Asking { connected: true }, ProjectAction::CloseDialogAndAsk),
        project::project_step(
            ProjectOpening::Asking { connected: true },
            ProjectEvent::Answered { choice: None },
            host,
        ).1 == (ProjectAction::TrackTrustAndRegister { window: host }),
        project::project_step(
            ProjectOpening::Asking { connected: false },
            ProjectEvent::Answered { choice: None },
            host,
        ).1 == (ProjectAction::ReturnWindow { window: host }),
{
}

/// Work is done in the window that asks, or in the first that shows a host session.
pub proof fn law_first_host_window_is_used(
    requesting: Option<WindowHandle>,
    windows: Vec<OpenWindow>,
    result: Option<WindowHandle>,
)
    requires
        call_ensures(remote::host_window_for, (requesting, &windows), result),
    ensures
        requesting is Some ==> result == requesting,
        requesting is None ==> match result {
            Some(window) => exists|i: int|
                0 <= i < windows@.len() && (#[trigger] windows@[i]).window == window
                    && windows@[i].has_host_session && forall|j: int|
                    0 <= j < i ==> !(#[trigger] windows@[j]).has_host_session,
            None => forall|i: int|
                0 <= i < windows@.len() ==> !(#[trigger] windows@[i]).has_host_session,
        },
{
    lemma_first_host_window(windows@);
}

proof fn lemma_first_host_window(windows: Seq<OpenWindow>)
    ensures
        match remote::first_host_window(windows) {
            Some(window) => exists|i: int|
                0 <= i < windows.len() && (#[trigger] windows[i]).window == window
                    && windows[i].has_host_session && forall|j: int|
                    0 <= j < i ==> !(#[trigger] windows[j]).has_host_session,
            None => forall|i: int|
                0 <= i < windows.len() ==> !(#[trigger] windows[i]).has_host_session,
        },
    decreases windows.len(),
{
    if windows.len() > 0 {
        let rest = windows.skip(1);
        if windows[0].has_host_session {
            assert(windows[0].window == windows[0].window);
        } else {
            lemma_first_host_window(rest);
            match remote::first_host_window(rest) {
                Some(window) => {
                    let i = choose|i: int|
                        0 <= i < rest.len() && (#[trigger] rest[i]).window == window
                            && rest[i].has_host_session && forall|j: int|
                            0 <= j < i ==> !(#[trigger] rest[j]).has_host_session;
                    assert(windows[i + 1].window == window);
                    assert forall|j: int| 0 <= j < i + 1 implies !(
                    #[trigger] windows[j]).has_host_session by {
                        if j > 0 {
                            assert(rest[j - 1] == windows[j]);
                        }
                    }
                },
                None => {
                    assert forall|i: int| 0 <= i < windows.len() implies !(
                    #[trigger] windows[i]).has_host_session by {
                        if i > 0 {
                            assert(rest[i - 1] == windows[i]);
                        }
                    }
                },
            }
        }
    }
}

/// Distributions and containers are refused: for want of a window, or because no host session can
/// live there. Other places are refused as not meant.
pub proof fn law_other_places_are_refused(
    options: RemoteConnectionOptions,
    requesting: Option<WindowHandle>,
    windows: Seq<OpenWindow>,
)
    ensures
        !(options is Wsl) && !(options is Docker) ==> project::non_ssh_refusal(
            options,
            requesting,
            windows,
        ) == RemoteOpenError::OnlyWslAndContainers,
        (options is Wsl || options is Docker) && requesting is Some ==> project::non_ssh_refusal(
            options,
            requesting,
            windows,
        ) == RemoteOpenError::NoHostSession,
        (options is Wsl || options is Docker) && requesting is None && (forall|i: int|
            0 <= i < windows.len() ==> !(#[trigger] windows[i]).has_host_session) ==>
            project::non_ssh_refusal(options, requesting, windows) == RemoteOpenError::NoHostWindow,
{
    lemma_first_host_window(windows);
}

/// A connected host takes paths in its active workspace, under the project that has.
pub proof fn law_paths_go_to_the_active_workspace(client: ClientModel, k: int)
    requires
        crate::client_laws::are_distinct(client.snapshot.workspaces),
        0 <= k < client.snapshot.workspaces.len(),
        client.snapshot.workspaces[k].id == client.snapshot.active,
    ensures
        project::target_of(client) matches Some(target) && target.host == client.host
            && target.workspace == client.snapshot.active && target.project
            == client.snapshot.workspaces[k].project,
{
    let workspaces = client.snapshot.workspaces;
    crate::session::lemma_position(workspaces, client.snapshot.active);
    let at = crate::session::position(workspaces, client.snapshot.active)->0;
    if at < k {
        assert(workspaces[at].id != workspaces[k].id);
    } else if k < at {
        assert(workspaces[k].id != workspaces[at].id);
    }
}

/// The failures of opened paths are told in their order and in their words.
pub proof fn law_failed_paths_are_told(items: Seq<OutcomeModel>, next: OutcomeModel)
    ensures
        project::failure_messages(Seq::<OutcomeModel>::empty()).len() == 0,
        project::failure_messages(items.push(next)) == match next {
            OutcomeModel::Failed { message } => project::failure_messages(items).push(message),
            _ => project::failure_messages(items),
        },
{
    assert(items.push(next).drop_last() =~= items);
}

/// Quoted parts are put behind one another, each behind a space. A part that could not be quoted
/// leaves nothing.
pub proof fn law_quoted_parts_are_spaced(parts: Seq<Option<String>>, next: Option<String>)
    ensures
        local::spaced(Seq::<Option<String>>::empty()) == Some(Seq::<char>::empty()),
        local::spaced(parts.push(next)) == match (local::spaced(parts), next) {
            (Some(text), Some(part)) => Some(text + " "@ + part@),
            _ => None,
        },
{
    assert(parts.push(next).drop_last() =~= parts);
}

/// A command on the local host runs in the system's shell: in the working directory, where one is
/// given, with the variables, and then the program with its arguments, or the login shell. What could
/// not be quoted is told.
pub proof fn law_local_commands_run_in_the_shell(
    connection: LocalRemoteConnection,
    quoted: QuotedCommand,
    windows: bool,
    result: Result<CommandTemplate, CommandError>,
    variables: Seq<char>,
    args: Seq<char>,
)
    requires
        call_ensures(
            LocalRemoteConnection::build_command,
            (&connection, &quoted, false, windows),
            result,
        ),
        local::spaced(quoted.assignments@) == Some(variables),
        local::spaced(quoted.args@) == Some(args),
    ensures
        quoted.working_dir matches Some(None) ==> result == Err::<CommandTemplate, CommandError>(
            CommandError::WorkingDirectory,
        ),
        !(quoted.working_dir matches Some(None)) ==> {
            let front = match quoted.working_dir {
                Some(Some(directory)) => "cd "@ + directory@ + " && "@,
                _ => Seq::<char>::empty(),
            };
            match (quoted.program, quoted.shell) {
                (Some(None), _) => result == Err::<CommandTemplate, CommandError>(
                    CommandError::Program,
                ),
                (None, None) => result == Err::<CommandTemplate, CommandError>(CommandError::Shell),
                (Some(Some(program)), _) => result matches Ok(template) && template.program@
                    == connection.default_system_shell@ && template.args@.len() == 2
                    && template.args@[0]@ == (if windows {
                    "/C"@
                } else {
                    "-c"@
                }) && template.args@[1]@ == front + "exec env"@ + variables + " "@ + program@ + args,
                (None, Some(shell)) => result matches Ok(template) && template.program@
                    == connection.default_system_shell@ && template.args@.len() == 2
                    && template.args@[1]@ == front + "exec env"@ + variables + " "@ + shell@ + " -l"@,
            }
        },
{
    match result {
        Ok(template) => {
            let shown = crate::text::texts(template.args@);
            assert(shown.len() == template.args@.len());
            assert(shown.len() == 2);
            assert(shown[0] == template.args@[0]@);
            assert(shown[1] == template.args@[1]@);
        },
        Err(_) => {},
    }
}

/// The server is started as a proxy under its identifier, marked as embedded, and with the data
/// directory where one is given.
pub proof fn law_proxy_is_started_under_its_identifier(
    identifier: &str,
    reconnect: bool,
    data_dir: Option<String>,
    command: ProxyCommand,
)
    requires
        call_ensures(local::proxy_command, (identifier, reconnect, data_dir), command),
    ensures
        command.args@.len() == if reconnect {
            4int
        } else {
            3
        },
        command.args@[0]@ == "proxy"@,
        command.args@[1]@ == "--identifier"@,
        command.args@[2]@ == identifier@,
        reconnect ==> command.args@[3]@ == "--reconnect"@,
        command.env@.len() == if data_dir is Some {
            2int
        } else {
            1
        },
        data_dir matches Some(directory) ==> command.env@[1].1@ == directory@,
{
    let args = crate::text::texts(command.args@);
    let env = crate::encoding::pair_texts(command.env@);
    assert(args.len() == command.args@.len());
    assert(env.len() == command.env@.len());
    assert(args[0] == command.args@[0]@ && args[1] == command.args@[1]@ && args[2]
        == command.args@[2]@);
    if reconnect {
        assert(args[3] == command.args@[3]@);
    }
    if data_dir is Some {
        assert(env[1] == (command.env@[1].0@, command.env@[1].1@));
    }
}

/// The namespace of an action is its name up to the first double colon, or all of it.
pub proof fn law_namespaces_end_at_the_double_colon(name: Seq<char>)
    ensures
        ({
            let namespace = palette::namespace_of(name);
            &&& namespace.is_prefix_of(name)
            &&& namespace.len() < name.len() ==> namespace.len() + 1 < name.len()
                && name[namespace.len() as int] == ':' && name[namespace.len() as int + 1] == ':'
            &&& forall|i: int|
                0 <= i < namespace.len() && i + 1 < name.len() ==> !(#[trigger] name[i] == ':' && name[i
                    + 1] == ':')
        }),
    decreases name.len(),
{
    if !(name.len() == 0 || (name.len() >= 2 && name[0] == ':' && name[1] == ':')) {
        let rest = name.skip(1);
        law_namespaces_end_at_the_double_colon(rest);
        let inner = palette::namespace_of(rest);
        let namespace = palette::namespace_of(name);
        assert(namespace =~= name.subrange(0, namespace.len() as int)) by {
            assert(inner =~= rest.subrange(0, inner.len() as int));
            assert forall|i: int| 0 <= i < namespace.len() implies namespace[i] == name[i] by {
                if i > 0 {
                    assert(inner[i - 1] == rest.subrange(0, inner.len() as int)[i - 1]);
                    assert(rest[i - 1] == name[i]);
                }
            }
        }
        assert forall|i: int| 0 <= i < namespace.len() && i + 1 < name.len() implies !(
        #[trigger] name[i] == ':' && name[i + 1] == ':') by {
            if i > 0 {
                assert(rest[i - 1] == name[i]);
                assert(rest[i] == name[i + 1]);
            }
        }
    }
}

/// An action is hidden where its kind or its namespace is, unless its kind is shown.
pub proof fn law_hidden_actions(filter: CommandPaletteFilter, name: Seq<char>, action_type: u64)
    ensures
        filter.shown_action_types@.contains(action_type) ==> !filter.hides(name, action_type),
        !filter.shown_action_types@.contains(action_type)
            && filter.hidden_action_types@.contains(action_type) ==> filter.hides(name, action_type),
        !filter.shown_action_types@.contains(action_type)
            && filter.hidden_namespaces.spec_map().contains_key(palette::namespace_of(name)) ==>
            filter.hides(name, action_type),
        !filter.hidden_action_types@.contains(action_type)
            && !filter.hidden_namespaces.spec_map().contains_key(palette::namespace_of(name)) ==>
            !filter.hides(name, action_type),
{
}

/// Taking an owner's interceptors away leaves the others in their order.
pub proof fn law_other_interceptors_stay_in_order(
    list: Seq<Interceptor>,
    next: Interceptor,
    owner: InterceptorOwner,
)
    ensures
        palette::without_owner(Seq::<Interceptor>::empty(), owner).len() == 0,
        palette::without_owner(list.push(next), owner) == if next.owner == owner {
            palette::without_owner(list, owner)
        } else {
            palette::without_owner(list, owner).push(next)
        },
{
    assert(list.push(next).drop_last() =~= list);
}

/// What interceptors answer is put together in their order, and is exclusive where one of them is.
pub proof fn law_intercepted_results_are_put_together(
    parts: Vec<CommandInterceptResult>,
    merged: CommandInterceptResult,
    earlier: Seq<CommandInterceptResult>,
    next: CommandInterceptResult,
)
    requires
        call_ensures(palette::merge_intercepted, (parts,), merged),
    ensures
        merged.results@ == palette::all_results(parts@),
        merged.append_results@ == palette::all_append_results(parts@),
        merged.exclusive <==> exists|i: int|
            0 <= i < parts@.len() && (#[trigger] parts@[i]).exclusive,
        palette::all_results(earlier.push(next)) == palette::all_results(earlier) + next.results@,
        palette::all_append_results(earlier.push(next)) == palette::all_append_results(earlier)
            + next.append_results@,
        palette::all_results(Seq::<CommandInterceptResult>::empty()).len() == 0,
        palette::all_append_results(Seq::<CommandInterceptResult>::empty()).len() == 0,
{
    assert(earlier.push(next).drop_last() =~= earlier);
}

/// A resource that is taken has one more user. It is the one that was there, where there was one,
/// and no other resource is touched.
pub proof fn law_taken_resources_are_shared<Key: ResourceKey>(
    before: &SharedResources<Key>,
    after: &SharedResources<Key>,
    key: &Key,
    other: &Key,
)
    requires
        SharedResources::acquired(before, after, key),
    ensures
        after.users_of(key) == before.users_of(key) + 1,
        before.holds(key) ==> after.value_of(key) == before.value_of(key),
        !other.same(key) ==> after.users_of(other) == before.users_of(other) && after.value_of(other)
            == before.value_of(other),
{
    Key::same_is_an_equivalence(key, key, key);
}

/// A resource that is left has one user less, and is gone with the last; until then it stays the
/// same. No other resource is touched.
pub proof fn law_left_resources_go_with_the_last_user<Key: ResourceKey>(
    before: &SharedResources<Key>,
    after: &SharedResources<Key>,
    key: &Key,
    other: &Key,
)
    requires
        before.well_formed(),
        after.well_formed(),
        SharedResources::released(before, after, key),
    ensures
        before.users_of(key) > 0 ==> after.users_of(key) == before.users_of(key) - 1,
        before.users_of(key) > 1 ==> after.value_of(key) == before.value_of(key),
        before.users_of(key) == 1 ==> after.value_of(key) is None,
        !other.same(key) ==> after.users_of(other) == before.users_of(other),
        !other.same(key) && before.users_of(other) > 0 ==> after.value_of(other) == before.value_of(
            other,
        ),
{
    Key::same_is_an_equivalence(key, key, key);
    let left = after.users_of(key);
    let kept = after.users_of(other);
    assert(before.users_of(key) > 1 ==> left > 0);
    assert(!other.same(key) ==> kept == before.users_of(other));
    if after.holds(key) {
        let i = after.index_of(key);
        assert(after.entries@[i].users > 0);
    }
}

/// The revision of a descriptor moves on by one, and starts again behind the last.
pub proof fn law_descriptor_revisions_move_on(revision: u64)
    ensures
        revision < u64::MAX ==> crate::context_server_registry::next_revision(revision) == revision
            + 1,
        crate::context_server_registry::next_revision(u64::MAX) == 0,
{
}

/// The literal front of a pattern ends at the first part with a sign that stands for something else.
pub proof fn law_literal_front_ends_at_the_first_sign(parts: Seq<Seq<char>>)
    ensures
        ({
            let count = crate::glob::literal_count(parts) as int;
            &&& count <= parts.len()
            &&& forall|i: int, j: int|
                0 <= i < count && 0 <= j < parts[i].len() ==> !(#[trigger] parts[i][j] == '*'
                    || parts[i][j] == '?' || parts[i][j] == '{' || parts[i][j] == '}')
            &&& count < parts.len() ==> exists|j: int|
                0 <= j < parts[count].len() && (#[trigger] parts[count][j] == '*' || parts[count][j]
                    == '?' || parts[count][j] == '{' || parts[count][j] == '}')
        }),
    decreases parts.len(),
{
    if parts.len() > 0 && crate::glob::is_literal(parts[0]) {
        let rest = parts.skip(1);
        law_literal_front_ends_at_the_first_sign(rest);
        let count = crate::glob::literal_count(parts) as int;
        assert forall|i: int, j: int| 0 <= i < count && 0 <= j < parts[i].len() implies !(
        #[trigger] parts[i][j] == '*' || parts[i][j] == '?' || parts[i][j] == '{' || parts[i][j]
            == '}') by {
            if i > 0 {
                assert(rest[i - 1] == parts[i]);
                assert(rest[i - 1][j] == parts[i][j]);
            } else {
                assert(!crate::glob::is_glob_char(parts[0][j]));
            }
        }
        if count < parts.len() {
            assert(rest[count - 1] == parts[count]);
        }
    } else if parts.len() > 0 {
        let j = choose|j: int|
            0 <= j < parts[0].len() && crate::glob::is_glob_char(#[trigger] parts[0][j]);
        assert(crate::glob::is_glob_char(parts[0][j]));
    }
}

} // verus!
