//! Remote connections: what the settings say of them, how a host is connected over SSH, and where
//! opened files are scrolled to.

use crate::connection::{
    clone_forwards, DockerConnectionOptions, ForwardModel, HostId, PortForward,
    RemoteConnectionOptions, SshConnectionHost, SshConnectionOptions, SshModel,
    WslConnectionOptions,
};
use crate::host_session::HostSessionClient;
use crate::path::{HostPath, PathModel};
use crate::text::{clone_optional, clone_texts, same_optional_text};
use vstd::prelude::*;

verus! {

/// A connection in the settings.
#[derive(Debug, PartialEq, Eq)]
pub struct SshConnection {
    pub host: String,
    pub username: Option<String>,
    pub port: Option<u16>,
    pub nickname: Option<String>,
    pub upload_binary_over_ssh: Option<bool>,
    pub args: Vec<String>,
    pub port_forwards: Option<Vec<PortForward>>,
}

/// A project on another machine in the settings, by its paths.
#[derive(Debug, PartialEq, Eq)]
pub struct RemoteProject {
    pub paths: Vec<String>,
}

/// A distribution in the settings, with the projects that were opened in it.
#[derive(Debug, PartialEq, Eq)]
pub struct WslConnection {
    pub distro_name: String,
    pub user: Option<String>,
    pub projects: Vec<RemoteProject>,
}

/// A development container in the settings.
#[derive(Debug, PartialEq, Eq)]
pub struct DevContainerConnection {
    pub name: String,
    pub remote_user: String,
    pub container_id: String,
    pub use_podman: bool,
    pub remote_env: Vec<(String, String)>,
}

/// What the settings say of remote connections.
#[derive(Debug, PartialEq, Eq)]
pub struct RemoteSettings {
    pub ssh_connections: Vec<SshConnection>,
    pub wsl_connections: Vec<WslConnection>,
    /// Whether `~/.ssh/config` is read for connections.
    pub read_ssh_config: bool,
}

#[verifier::ext_equal]
pub struct SettingModel {
    pub host: Seq<char>,
    pub username: Option<Seq<char>>,
    pub port: Option<u16>,
    pub nickname: Option<Seq<char>>,
    pub upload_binary_over_ssh: Option<bool>,
    pub args: Seq<Seq<char>>,
    pub port_forwards: Option<Seq<ForwardModel>>,
}

impl View for SshConnection {
    type V = SettingModel;

    open spec fn view(&self) -> SettingModel {
        SettingModel {
            host: self.host@,
            username: crate::text::optional_text(self.username),
            port: self.port,
            nickname: crate::text::optional_text(self.nickname),
            upload_binary_over_ssh: self.upload_binary_over_ssh,
            args: crate::text::texts(self.args@),
            port_forwards: crate::connection::optional_forwards(self.port_forwards),
        }
    }
}

/// The connections that a sequence of settings stands for.
pub open spec fn setting_models(settings: Seq<SshConnection>) -> Seq<SettingModel> {
    Seq::new(settings.len(), |i: int| settings[i]@)
}

/// Whether a connection in the settings is for the place that options lead to.
pub open spec fn setting_matches(setting: SettingModel, options: SshModel) -> bool {
    setting.host == options.host.0 && setting.username == options.username && setting.port
        == options.port
}

/// Options with what a connection in the settings says.
pub open spec fn with_setting(options: SshModel, setting: SettingModel) -> SshModel {
    SshModel {
        nickname: setting.nickname,
        upload_binary_over_ssh: setting.upload_binary_over_ssh == Some(true),
        args: Some(setting.args),
        port_forwards: setting.port_forwards,
        ..options
    }
}

/// Options with what the first connection for their place says, if there is one.
pub open spec fn filled(options: SshModel, settings: Seq<SettingModel>) -> SshModel
    decreases settings.len(),
{
    if settings.len() == 0 {
        options
    } else if setting_matches(settings[0], options) {
        with_setting(options, settings[0])
    } else {
        filled(options, settings.skip(1))
    }
}

/// Options for a place of which nothing else is known.
pub open spec fn bare_options(
    host: (Seq<char>, bool),
    port: Option<u16>,
    username: Option<Seq<char>>,
) -> SshModel {
    SshModel {
        host,
        username,
        port,
        password: None,
        args: None,
        port_forwards: None,
        connection_timeout: None,
        nickname: None,
        upload_binary_over_ssh: false,
    }
}

impl RemoteSettings {
    /// The settings, from what was found of them. Connections that are not there are none; whether
    /// `~/.ssh/config` is read has to be there.
    pub fn from_settings(
        ssh_connections: Option<Vec<SshConnection>>,
        wsl_connections: Option<Vec<WslConnection>>,
        read_ssh_config: Option<bool>,
    ) -> (settings: Self)
        requires
            read_ssh_config is Some,
        ensures
            Some(settings.read_ssh_config) == read_ssh_config,
            settings.ssh_connections@ == match ssh_connections {
                Some(connections) => connections@,
                None => Seq::<SshConnection>::empty(),
            },
            settings.wsl_connections@ == match wsl_connections {
                Some(connections) => connections@,
                None => Seq::<WslConnection>::empty(),
            },
    {
        RemoteSettings {
            ssh_connections: match ssh_connections {
                Some(connections) => connections,
                None => Vec::new(),
            },
            wsl_connections: match wsl_connections {
                Some(connections) => connections,
                None => Vec::new(),
            },
            read_ssh_config: read_ssh_config.unwrap(),
        }
    }

    /// The connections over SSH.
    pub fn ssh_connections(&self) -> (connections: &Vec<SshConnection>)
        ensures
            *connections == self.ssh_connections,
    {
        &self.ssh_connections
    }

    /// The distributions.
    pub fn wsl_connections(&self) -> (connections: &Vec<WslConnection>)
        ensures
            *connections == self.wsl_connections,
    {
        &self.wsl_connections
    }

    /// Fills options with what the settings say of their place.
    pub fn fill_connection_options_from_settings(&self, options: &mut SshConnectionOptions)
        ensures
            final(options)@ == filled(old(options)@, setting_models(self.ssh_connections@)),
    {
        let ghost all = setting_models(self.ssh_connections@);
        let ghost start = options@;
        let mut i: usize = 0;
        assert(all.skip(0) =~= all);
        while i < self.ssh_connections.len()
            invariant
                i <= self.ssh_connections@.len(),
                all == setting_models(self.ssh_connections@),
                options@ == start,
                start == old(options)@,
                filled(start, all) == filled(start, all.skip(i as int)),
            decreases self.ssh_connections@.len() - i,
        {
            let setting = &self.ssh_connections[i];
            proof {
                assert(all.skip(i as int)[0] == setting@);
                assert(all.skip(i as int).skip(1) =~= all.skip(i + 1));
            }
            let same_port = match (setting.port, options.port) {
                (None, None) => true,
                (Some(left), Some(right)) => left == right,
                _ => false,
            };
            if setting.host == *options.host.text() && same_optional_text(
                &setting.username,
                &options.username,
            ) && same_port {
                options.nickname = clone_optional(&setting.nickname);
                options.upload_binary_over_ssh = match setting.upload_binary_over_ssh {
                    Some(upload) => upload,
                    None => false,
                };
                options.args = Some(clone_texts(&setting.args));
                options.port_forwards = match &setting.port_forwards {
                    Some(forwards) => Some(clone_forwards(forwards)),
                    None => None,
                };
                assert(options@ =~= with_setting(start, setting@));
                return;
            }
            i += 1;
        }
    }

    /// Options for a place, with what the settings say of it.
    pub fn connection_options_for(
        &self,
        host: SshConnectionHost,
        port: Option<u16>,
        username: Option<String>,
    ) -> (options: SshConnectionOptions)
        ensures
            options@ == filled(
                bare_options(host@, port, crate::text::optional_text(username)),
                setting_models(self.ssh_connections@),
            ),
    {
        let mut options = SshConnectionOptions {
            host,
            username,
            port,
            password: None,
            args: None,
            port_forwards: None,
            connection_timeout: None,
            nickname: None,
            upload_binary_over_ssh: false,
        };
        self.fill_connection_options_from_settings(&mut options);
        options
    }
}

/// Filling options changes neither the place they lead to nor the password and the timeout.
pub proof fn law_settings_keep_the_place(options: SshModel, settings: Seq<SettingModel>)
    ensures
        filled(options, settings).host == options.host,
        filled(options, settings).username == options.username,
        filled(options, settings).port == options.port,
        filled(options, settings).password == options.password,
        filled(options, settings).connection_timeout == options.connection_timeout,
    decreases settings.len(),
{
    if settings.len() > 0 && !setting_matches(settings[0], options) {
        law_settings_keep_the_place(options, settings.skip(1));
    }
}

/// A connection that a user has set up, with the options that its settings amount to.
#[derive(Debug, PartialEq, Eq)]
pub enum Connection {
    Ssh(SshConnectionOptions),
    Wsl(WslConnectionOptions),
    DevContainer(DevContainerConnection),
}

impl Connection {
    /// The options for a connection.
    pub fn into_options(self) -> (options: RemoteConnectionOptions)
        ensures
            match self {
                Connection::Ssh(ssh) => options == RemoteConnectionOptions::Ssh(ssh),
                Connection::Wsl(wsl) => options == RemoteConnectionOptions::Wsl(wsl),
                Connection::DevContainer(container) => options == RemoteConnectionOptions::Docker(
                    DockerConnectionOptions {
                        name: container.name,
                        container_id: container.container_id,
                        remote_user: container.remote_user,
                        upload_binary_over_docker_exec: false,
                        use_podman: container.use_podman,
                        remote_env: container.remote_env,
                    },
                ),
            },
    {
        match self {
            Connection::Ssh(ssh) => RemoteConnectionOptions::Ssh(ssh),
            Connection::Wsl(wsl) => RemoteConnectionOptions::Wsl(wsl),
            Connection::DevContainer(container) => RemoteConnectionOptions::Docker(
                DockerConnectionOptions {
                    name: container.name,
                    container_id: container.container_id,
                    remote_user: container.remote_user,
                    upload_binary_over_docker_exec: false,
                    use_podman: container.use_podman,
                    remote_env: container.remote_env,
                },
            ),
        }
    }
}

/// A window of the application, by its number.
#[derive(Clone, Copy, Debug, PartialEq, Eq, Structural)]
pub struct WindowHandle {
    pub value: u64,
}

/// A window, and whether it shows a host session.
#[derive(Clone, Copy, Debug)]
pub struct OpenWindow {
    pub window: WindowHandle,
    pub has_host_session: bool,
}

/// The first window that shows a host session.
pub open spec fn first_host_window(windows: Seq<OpenWindow>) -> Option<WindowHandle>
    decreases windows.len(),
{
    if windows.len() == 0 {
        None
    } else if windows[0].has_host_session {
        Some(windows[0].window)
    } else {
        first_host_window(windows.skip(1))
    }
}

/// The window to work in: the one that asks, or else the first that shows a host session.
pub fn host_window_for(requesting: Option<WindowHandle>, windows: &Vec<OpenWindow>) -> (result:
    Option<WindowHandle>)
    ensures
        result == match requesting {
            Some(window) => Some(window),
            None => first_host_window(windows@),
        },
{
    match requesting {
        Some(window) => Some(window),
        None => {
            let mut i: usize = 0;
            assert(windows@.skip(0) =~= windows@);
            while i < windows.len()
                invariant
                    i <= windows@.len(),
                    requesting is None,
                    first_host_window(windows@) == first_host_window(windows@.skip(i as int)),
                decreases windows@.len() - i,
            {
                assert(windows@.skip(i as int)[0] == windows@[i as int]);
                assert(windows@.skip(i as int).skip(1) =~= windows@.skip(i + 1));
                if windows[i].has_host_session {
                    return Some(windows[i].window);
                }
                i += 1;
            }
            None
        },
    }
}

/// Why a project on another machine is not opened.
#[derive(Clone, Copy, Debug, PartialEq, Eq, Structural)]
pub enum RemoteOpenError {
    /// Windows for such projects are not offered.
    Unsupported,
    /// The options are not those of a distribution or a container.
    OnlyWslAndContainers,
    /// No window shows a host session.
    NoHostWindow,
    /// No host session can live there.
    NoHostSession,
    /// The options are not those of a machine reached over SSH.
    OnlySsh,
    /// The session of a connected host has no active workspace.
    NoActiveWorkspace,
}

/// The words in which such an error is reported.
pub open spec fn remote_open_message(error: RemoteOpenError) -> Seq<char> {
    match error {
        RemoteOpenError::Unsupported => "WSL and Dev Container project windows are not supported by Super Zed"@,
        RemoteOpenError::OnlyWslAndContainers => "remote project orchestration is retained only for WSL and Dev Containers"@,
        RemoteOpenError::NoHostWindow => "Super Zed must connect its local host before adding an SSH host"@,
        RemoteOpenError::NoHostSession => "Milestone 1 supports only local and SSH host sessions"@,
        RemoteOpenError::OnlySsh => "Connect SSH Host only accepts SSH connection options"@,
        RemoteOpenError::NoActiveWorkspace => "connected host has no active workspace"@,
    }
}

impl RemoteOpenError {
    /// The words in which the error is reported.
    pub fn message(&self) -> (text: String)
        ensures
            text@ == remote_open_message(*self),
    {
        match self {
            RemoteOpenError::Unsupported => {
                "WSL and Dev Container project windows are not supported by Super Zed".to_string()
            },
            RemoteOpenError::OnlyWslAndContainers => {
                "remote project orchestration is retained only for WSL and Dev Containers".to_string()
            },
            RemoteOpenError::NoHostWindow => {
                "Super Zed must connect its local host before adding an SSH host".to_string()
            },
            RemoteOpenError::NoHostSession => {
                "Milestone 1 supports only local and SSH host sessions".to_string()
            },
            RemoteOpenError::OnlySsh => {
                "Connect SSH Host only accepts SSH connection options".to_string()
            },
            RemoteOpenError::NoActiveWorkspace => {
                "connected host has no active workspace".to_string()
            },
        }
    }
}

/// Refuses to open a project in a distribution or a container: windows for them are not offered.
pub fn open_non_ssh_remote_project(_options: &RemoteConnectionOptions) -> (error: RemoteOpenError)
    ensures
        error == RemoteOpenError::Unsupported,
{
    RemoteOpenError::Unsupported
}

/// The title of the prompt after a failed connection.
pub open spec fn failure_title(options: RemoteConnectionOptions) -> Seq<char> {
    match options {
        RemoteConnectionOptions::Local(_) => "Failed to connect to local Super Zed host"@,
        RemoteConnectionOptions::Ssh(_) => "Failed to connect over SSH"@,
        RemoteConnectionOptions::Wsl(_) => "Failed to connect to WSL"@,
        RemoteConnectionOptions::Docker(_) => "Failed to connect to Dev Container"@,
        RemoteConnectionOptions::Mock(_) => "Failed to connect to mock server"@,
    }
}

/// The title of the prompt after a failed connection.
pub fn connection_failure_title(options: &RemoteConnectionOptions) -> (title: String)
    ensures
        title@ == failure_title(*options),
{
    match options {
        RemoteConnectionOptions::Local(_) => "Failed to connect to local Super Zed host".to_string(),
        RemoteConnectionOptions::Ssh(_) => "Failed to connect over SSH".to_string(),
        RemoteConnectionOptions::Wsl(_) => "Failed to connect to WSL".to_string(),
        RemoteConnectionOptions::Docker(_) => "Failed to connect to Dev Container".to_string(),
        RemoteConnectionOptions::Mock(_) => "Failed to connect to mock server".to_string(),
    }
}

/// A session with a host, by its number among the application's own objects.
#[derive(Clone, Copy, Debug, PartialEq, Eq, Structural)]
pub struct SessionHandle {
    pub value: u64,
}

/// How far the connection of a host has come.
#[derive(Clone, Copy, Debug, PartialEq, Eq, Structural)]
pub enum ConnectState {
    /// It is being looked up whether the host is connected already.
    LookingUp,
    /// The dialog is being opened.
    OpeningDialog,
    /// The connection is being made.
    Connecting,
    /// The session is being attached to the window.
    Attaching { session: SessionHandle },
    /// There is nothing more to do.
    Finished,
}

/// What happened on the way to a connection.
#[derive(Clone, Copy, Debug, PartialEq, Eq, Structural)]
pub enum ConnectEvent {
    /// Whether the host is connected already.
    LookedUp { connected: bool },
    /// Whether the dialog is there.
    DialogOpened { opened: bool },
    /// The connection failed.
    ConnectFailed,
    /// The connection was made, or given up by the user.
    Connected { session: Option<SessionHandle> },
    /// Whether the session is attached to the window.
    Attached { attached: bool },
}

/// What to do next on the way to a connection.
#[derive(Clone, Copy, Debug, PartialEq, Eq, Structural)]
pub enum ConnectAction {
    /// Return the window.
    ReturnWindow,
    /// Open the dialog.
    OpenDialog,
    /// Make the connection.
    Connect,
    /// Close the dialog and return the window.
    CloseDialogAndReturn,
    /// Close the dialog and attach the session to the window.
    CloseDialogAndAttach { session: SessionHandle },
    /// Register the session with the extensions and return the window.
    RegisterAndReturn { session: SessionHandle },
    /// Report the failure.
    Fail,
}

/// The way to a connection: a host that is connected already needs nothing, one that the user
/// gives up is left, and a session is registered once it is attached.
pub open spec fn connect_step(state: ConnectState, event: ConnectEvent) -> (
    ConnectState,
    ConnectAction,
) {
    match (state, event) {
        (ConnectState::LookingUp, ConnectEvent::LookedUp { connected }) => if connected {
            (ConnectState::Finished, ConnectAction::ReturnWindow)
        } else {
            (ConnectState::OpeningDialog, ConnectAction::OpenDialog)
        },
        (ConnectState::OpeningDialog, ConnectEvent::DialogOpened { opened }) => if opened {
            (ConnectState::Connecting, ConnectAction::Connect)
        } else {
            (ConnectState::Finished, ConnectAction::Fail)
        },
        (ConnectState::Connecting, ConnectEvent::Connected { session }) => match session {
            None => (ConnectState::Finished, ConnectAction::CloseDialogAndReturn),
            Some(session) => (
                ConnectState::Attaching { session },
                ConnectAction::CloseDialogAndAttach { session },
            ),
        },
        (ConnectState::Attaching { session }, ConnectEvent::Attached { attached }) => if attached {
            (ConnectState::Finished, ConnectAction::RegisterAndReturn { session })
        } else {
            (ConnectState::Finished, ConnectAction::Fail)
        },
        _ => (ConnectState::Finished, ConnectAction::Fail),
    }
}

/// Takes the next step on the way to a connection.
pub fn next_connect_step(state: ConnectState, event: ConnectEvent) -> (result: (
    ConnectState,
    ConnectAction,
))
    ensures
        result == connect_step(state, event),
{
    match (state, event) {
        (ConnectState::LookingUp, ConnectEvent::LookedUp { connected }) => if connected {
            (ConnectState::Finished, ConnectAction::ReturnWindow)
        } else {
            (ConnectState::OpeningDialog, ConnectAction::OpenDialog)
        },
        (ConnectState::OpeningDialog, ConnectEvent::DialogOpened { opened }) => if opened {
            (ConnectState::Connecting, ConnectAction::Connect)
        } else {
            (ConnectState::Finished, ConnectAction::Fail)
        },
        (ConnectState::Connecting, ConnectEvent::Connected { session }) => match session {
            None => (ConnectState::Finished, ConnectAction::CloseDialogAndReturn),
            Some(session) => (
                ConnectState::Attaching { session },
                ConnectAction::CloseDialogAndAttach { session },
            ),
        },
        (ConnectState::Attaching { session }, ConnectEvent::Attached { attached }) => if attached {
            (ConnectState::Finished, ConnectAction::RegisterAndReturn { session })
        } else {
            (ConnectState::Finished, ConnectAction::Fail)
        },
        _ => (ConnectState::Finished, ConnectAction::Fail),
    }
}

/// Starts connecting a host over SSH: gives the identity under which to look it up.
pub fn connect_ssh_host(options: &RemoteConnectionOptions) -> (result: Result<
    (ConnectState, HostId),
    RemoteOpenError,
>)
    ensures
        match *options {
            RemoteConnectionOptions::Ssh(_) | RemoteConnectionOptions::Mock(_) => result matches Ok(
                (state, host_id),
            ) && state == ConnectState::LookingUp && crate::connection::host_for(*options) == Some(
                host_id@,
            ),
            _ => result == Err::<(ConnectState, HostId), RemoteOpenError>(RemoteOpenError::OnlySsh),
        },
{
    let is_ssh_host = match options {
        RemoteConnectionOptions::Ssh(_) => true,
        RemoteConnectionOptions::Mock(_) => true,
        _ => false,
    };
    if !is_ssh_host {
        return Err(RemoteOpenError::OnlySsh);
    }
    match HostSessionClient::host_id_for_connection(options) {
        Ok(host_id) => Ok((ConnectState::LookingUp, host_id)),
        Err(_) => Err(RemoteOpenError::NoHostSession),
    }
}

/// A session is registered only when it was both connected and attached.
pub proof fn law_only_attached_sessions_are_registered(
    state: ConnectState,
    event: ConnectEvent,
    session: SessionHandle,
)
    requires
        connect_step(state, event).1 == (ConnectAction::RegisterAndReturn { session }),
    ensures
        state == (ConnectState::Attaching { session }),
        event == (ConnectEvent::Attached { attached: true }),
{
}

/// A path, with a place in the file where one was given.
#[derive(Debug)]
pub struct PathWithPosition {
    pub path: HostPath,
    pub row: Option<u32>,
    pub column: Option<u32>,
}

#[verifier::ext_equal]
pub struct PositionModel {
    pub path: PathModel,
    pub row: Option<u32>,
    pub column: Option<u32>,
}

impl View for PathWithPosition {
    type V = PositionModel;

    open spec fn view(&self) -> PositionModel {
        PositionModel { path: self.path@, row: self.row, column: self.column }
    }
}

/// A path without a place.
pub open spec fn from_path(path: PathModel) -> PositionModel {
    PositionModel { path, row: None, column: None }
}

impl PathWithPosition {
    /// A path without a place.
    pub fn from_path(path: HostPath) -> (result: Self)
        ensures
            result@ == from_path(path@),
    {
        PathWithPosition { path, row: None, column: None }
    }
}

impl Clone for PathWithPosition {
    fn clone(&self) -> (copy: Self)
        ensures
            copy@ == self@,
    {
        PathWithPosition { path: self.path.clone(), row: self.row, column: self.column }
    }
}

/// A path as it was given, how it reads with a place at its end, where it is text, and whether it
/// exists as given.
#[derive(Debug)]
pub struct GivenPath {
    pub path: HostPath,
    pub parsed: Option<PathWithPosition>,
    pub exists: bool,
}

/// What a given path stands for: the path with a place where it reads so and does not exist as
/// given, and otherwise the path itself.
pub open spec fn positioned(given: GivenPath) -> PositionModel {
    match given.parsed {
        Some(parsed) if parsed.row is Some && !given.exists => parsed@,
        _ => from_path(given.path@),
    }
}

/// Tells paths from places at their ends.
pub fn determine_paths_with_positions(given: &Vec<GivenPath>) -> (result: (
    Vec<HostPath>,
    Vec<PathWithPosition>,
))
    ensures
        result.0@.len() == given@.len(),
        result.1@.len() == given@.len(),
        forall|i: int|
            0 <= i < given@.len() ==> (#[trigger] result.1@[i])@ == positioned(given@[i])
                && result.0@[i]@ == positioned(given@[i]).path,
{
    let mut paths: Vec<HostPath> = Vec::new();
    let mut positions: Vec<PathWithPosition> = Vec::new();
    let mut i: usize = 0;
    while i < given.len()
        invariant
            i <= given@.len(),
            paths@.len() == i,
            positions@.len() == i,
            forall|k: int|
                0 <= k < i ==> (#[trigger] positions@[k])@ == positioned(given@[k]) && paths@[k]@
                    == positioned(given@[k]).path,
        decreases given@.len() - i,
    {
        let entry = &given[i];
        let position = match &entry.parsed {
            Some(parsed) => if parsed.row.is_some() && !entry.exists {
                parsed.clone()
            } else {
                PathWithPosition::from_path(entry.path.clone())
            },
            None => PathWithPosition::from_path(entry.path.clone()),
        };
        assert(position@ == positioned(given@[i as int]));
        assert(position.path@ == positioned(given@[i as int]).path);
        paths.push(position.path.clone());
        positions.push(position);
        i += 1;
    }
    (paths, positions)
}

/// An opened item: whether it opened at all, and whether it is an editor.
#[derive(Clone, Copy, Debug)]
pub struct OpenedItem {
    pub opened: bool,
    pub is_editor: bool,
}

/// A place, counted from zero, to scroll an item to.
#[derive(Clone, Copy, Debug, PartialEq, Eq, Structural)]
pub struct Navigation {
    pub item: usize,
    pub row: u32,
    pub column: u32,
}

/// One less, but not below zero.
pub open spec fn from_zero(value: u32) -> u32 {
    if value == 0 {
        0
    } else {
        (value - 1) as u32
    }
}

/// The place to scroll an item to, if it is an editor and a row was given.
pub open spec fn navigation(items: Seq<OpenedItem>, positions: Seq<PathWithPosition>, index: int) -> Option<
    Navigation,
> {
    match positions[index].row {
        Some(row) if items[index].opened && items[index].is_editor => Some(
            Navigation {
                item: index as usize,
                row: from_zero(row),
                column: match positions[index].column {
                    Some(column) => from_zero(column),
                    None => 0,
                },
            },
        ),
        _ => None,
    }
}

/// The places to scroll the first items to.
pub open spec fn navigations(
    items: Seq<OpenedItem>,
    positions: Seq<PathWithPosition>,
    count: int,
) -> Seq<Navigation>
    decreases count,
{
    if count <= 0 {
        Seq::<Navigation>::empty()
    } else {
        match navigation(items, positions, count - 1) {
            Some(place) => navigations(items, positions, count - 1).push(place),
            None => navigations(items, positions, count - 1),
        }
    }
}

/// The places to scroll opened items to: rows and columns are given from one and counted from
/// zero. Items and positions go together as far as both go.
pub fn navigate_to_positions(items: &Vec<OpenedItem>, positions: &Vec<PathWithPosition>) -> (places:
    Vec<Navigation>)
    ensures
        places@ == navigations(
            items@,
            positions@,
            if items@.len() <= positions@.len() {
                items@.len() as int
            } else {
                positions@.len() as int
            },
        ),
{
    let count: usize = if items.len() <= positions.len() {
        items.len()
    } else {
        positions.len()
    };
    let mut places: Vec<Navigation> = Vec::new();
    let mut i: usize = 0;
    while i < count
        invariant
            i <= count,
            count <= items@.len(),
            count <= positions@.len(),
            places@ == navigations(items@, positions@, i as int),
        decreases count - i,
    {
        if items[i].opened && items[i].is_editor {
            match positions[i].row {
                Some(row) => {
                    let column: u32 = match positions[i].column {
                        Some(column) => column,
                        None => 0,
                    };
                    places.push(
                        Navigation {
                            item: i,
                            row: row.saturating_sub(1),
                            column: column.saturating_sub(1),
                        },
                    );
                },
                None => {},
            }
        }
        i += 1;
    }
    places
}

} // verus!
