use superzed_session::chrome::{ProjectEmptyState, SidebarChromeSettings, SidebarContent};
use superzed_session::connection::{
    DockerConnectionOptions, LocalConnectionOptions, RemoteConnectionOptions, SshConnectionHost,
    SshConnectionOptions, WslConnectionOptions,
};
use superzed_session::local_transport::{
    assignment, proxy_command, BuildTarget, CommandError, LocalRemoteClientDelegate,
    LocalRemoteConnection, QuotedCommand, RemoteArch, RemoteOs,
    EMBEDDED_REMOTE_SERVER_DATA_DIR_ENV, EMBEDDED_REMOTE_SERVER_ENV,
};
use superzed_session::open_flow::{
    compare_failure, keep_waiting, label_failures, open_failure_report, open_options_for_behavior,
    open_options_for_request, open_superzed_paths_with_positions, open_superzed_workspace,
    open_workspaces, plan_cli_request, plan_diff, plan_pair, project_paths_for, report_items,
    response_to_paths, responses_to_urls, wait_for_window_close, workspace_paths_for, CliOpen,
    CliPlan, CliResponse, DiffPlan, ItemOutcome, OpenPlan, PairOutcome, PairPlan, WaitEvent,
    WorkspaceMatching,
};
use superzed_session::open_request::{OpenBehavior, OpenError};
use superzed_session::path::{HostPath, PathStyle};
use superzed_session::remote_connections::{
    connect_ssh_host, connection_failure_title, determine_paths_with_positions, host_window_for,
    navigate_to_positions, next_connect_step, open_non_ssh_remote_project, ConnectAction,
    ConnectEvent, ConnectState, Connection, DevContainerConnection, GivenPath, Navigation,
    OpenWindow, OpenedItem, PathWithPosition, RemoteSettings, SessionHandle, SshConnection,
    WindowHandle,
};
use superzed_session::remote_project::open_non_ssh_host_project;
use superzed_session::repository_selector::{
    menu_choices, open, register, repository_for_worktree, repository_selector_button,
    repository_selector_menu, repository_selector_menu_default, sort_repositories,
    worktree_repository_entries, worktree_repository_menu_row, LabelSize, Repository,
    RepositorySelectorDelegate, RepositoryStatus, SelectorMenu, StatusSummary, WorkspaceAction,
    WorkspaceActions, Worktree,
};

fn ssh() -> SshConnectionOptions {
    SshConnectionOptions {
        host: SshConnectionHost::Plain("host".to_string()),
        username: Some("me".to_string()),
        port: None,
        password: Some("secret".to_string()),
        args: None,
        port_forwards: None,
        connection_timeout: None,
        nickname: None,
        upload_binary_over_ssh: false,
    }
}

fn wsl() -> RemoteConnectionOptions {
    RemoteConnectionOptions::Wsl(WslConnectionOptions {
        distro_name: "Ubuntu".to_string(),
        user: None,
    })
}

#[test]
fn the_server_is_this_executable() {
    let command = proxy_command("main", false, None);
    assert_eq!(command.args, vec!["proxy", "--identifier", "main"]);
    assert_eq!(
        command.env,
        vec![(EMBEDDED_REMOTE_SERVER_ENV.to_string(), "1".to_string())]
    );
    let command = proxy_command("main", true, Some("/data".to_string()));
    assert_eq!(command.args.last().map(String::as_str), Some("--reconnect"));
    assert_eq!(
        command.env[1],
        (EMBEDDED_REMOTE_SERVER_DATA_DIR_ENV.to_string(), "/data".to_string())
    );
    let message = "the local Super Zed host uses the current executable";
    assert_eq!(LocalRemoteClientDelegate.get_download_url(), Err(message.to_string()));
    assert_eq!(
        LocalRemoteClientDelegate.download_server_binary_locally(),
        Err(message.to_string())
    );
}

fn quoted() -> QuotedCommand {
    QuotedCommand {
        working_dir: Some(Some("/code".to_string())),
        assignments: vec![Some("A=1".to_string()), Some("'B=x y'".to_string())],
        program: Some(Some("ls".to_string())),
        args: vec![Some("-l".to_string())],
        shell: Some("/bin/zsh".to_string()),
    }
}

#[test]
fn commands_run_in_the_local_shell() {
    let mut connection =
        LocalRemoteConnection::new("/bin/zsh".to_string(), "/bin/sh".to_string());
    let template = connection.build_command(&quoted(), false, false).unwrap();
    assert_eq!(template.program, "/bin/sh");
    assert_eq!(
        template.args,
        vec!["-c", "cd /code && exec env A=1 'B=x y' ls -l"]
    );
    let login = QuotedCommand {
        working_dir: None,
        assignments: Vec::new(),
        program: None,
        args: Vec::new(),
        shell: Some("/bin/zsh".to_string()),
    };
    assert_eq!(
        connection.build_command(&login, false, true).unwrap().args,
        vec!["/C", "exec env /bin/zsh -l"]
    );

    let refusal = |command: QuotedCommand| {
        connection.build_command(&command, false, false).unwrap_err()
    };
    assert_eq!(
        connection.build_command(&quoted(), true, false).unwrap_err(),
        CommandError::SharesNetwork
    );
    let mut command = quoted();
    command.working_dir = Some(None);
    assert_eq!(refusal(command), CommandError::WorkingDirectory);
    let mut command = quoted();
    command.assignments[0] = None;
    assert_eq!(refusal(command), CommandError::Environment);
    let mut command = quoted();
    command.program = Some(None);
    assert_eq!(refusal(command), CommandError::Program);
    let mut command = quoted();
    command.args[0] = None;
    assert_eq!(refusal(command), CommandError::Argument);
    let mut command = login;
    command.shell = None;
    assert_eq!(refusal(command), CommandError::Shell);
    assert_eq!(CommandError::Shell.message(), "cannot quote local shell");
    assert_eq!(
        connection.build_forward_ports_command().message(),
        "the local host already shares Super Zed's network interface"
    );
    assert_eq!(assignment("A", "b c"), "A=b c");

    assert!(!connection.has_been_killed());
    connection.kill();
    assert!(connection.has_been_killed());
    assert!(connection.shares_network_interface());
    assert!(!connection.has_wsl_interop());
    assert_eq!(connection.remote_os_version(), None);
    assert_eq!(connection.shell(), "/bin/zsh");
    assert_eq!(connection.default_system_shell(), "/bin/sh");
    assert_eq!(
        connection.connection_options(),
        RemoteConnectionOptions::Local(LocalConnectionOptions)
    );
    let target = BuildTarget { windows: false, macos: true, aarch64: true };
    assert_eq!(connection.path_style(target), PathStyle::Posix);
    assert_eq!(connection.remote_platform(target).os, RemoteOs::MacOs);
    assert_eq!(connection.remote_platform(target).arch, RemoteArch::Aarch64);
    let target = BuildTarget { windows: true, macos: false, aarch64: false };
    assert_eq!(connection.path_style(target), PathStyle::Windows);
    assert_eq!(connection.remote_platform(target).os, RemoteOs::Windows);
    assert_eq!(connection.remote_platform(target).arch, RemoteArch::X86_64);
}

#[test]
fn the_sidebar_is_set_up() {
    let content = SidebarContent {
        show_onboarding_banner: Some(true),
        show_user_picture: Some(false),
        show_sign_in: Some(true),
        show_user_menu: Some(false),
        show_menus: Some(true),
        button_layout: Some(3),
    };
    let settings = SidebarChromeSettings::from_settings(Some(content));
    assert_eq!(
        settings,
        SidebarChromeSettings {
            show_onboarding_banner: true,
            show_user_picture: false,
            show_sign_in: true,
            show_user_menu: false,
            show_menus: true,
            button_layout: Some(3),
        }
    );
    let empty = ProjectEmptyState::new("No projects".to_string());
    assert_eq!(empty.element_id(), "empty-state-No projects");
}

#[test]
fn settings_fill_connections() {
    let settings = RemoteSettings::from_settings(
        Some(vec![SshConnection {
            host: "host".to_string(),
            username: Some("me".to_string()),
            port: None,
            nickname: Some("mine".to_string()),
            upload_binary_over_ssh: None,
            args: vec!["-v".to_string()],
            port_forwards: None,
        }]),
        None,
        Some(true),
    );
    assert_eq!(settings.ssh_connections().len(), 1);
    assert!(settings.wsl_connections().is_empty());
    let mut options = ssh();
    settings.fill_connection_options_from_settings(&mut options);
    assert_eq!(options.nickname.as_deref(), Some("mine"));
    assert_eq!(options.args, Some(vec!["-v".to_string()]));
    assert_eq!(options.password.as_deref(), Some("secret"));
    let mut elsewhere = ssh();
    elsewhere.port = Some(22);
    settings.fill_connection_options_from_settings(&mut elsewhere);
    assert_eq!(elsewhere.nickname, None);
}

#[test]
fn settings_become_options() {
    let options = Connection::Wsl(WslConnectionOptions {
        distro_name: "Ubuntu".to_string(),
        user: Some("me".to_string()),
    })
    .into_options();
    assert_eq!(
        options,
        RemoteConnectionOptions::Wsl(WslConnectionOptions {
            distro_name: "Ubuntu".to_string(),
            user: Some("me".to_string()),
        })
    );
    let options = Connection::DevContainer(DevContainerConnection {
        name: "dev".to_string(),
        remote_user: "root".to_string(),
        container_id: "abc".to_string(),
        use_podman: true,
        remote_env: vec![("A".to_string(), "1".to_string())],
    })
    .into_options();
    assert_eq!(
        options,
        RemoteConnectionOptions::Docker(DockerConnectionOptions {
            name: "dev".to_string(),
            container_id: "abc".to_string(),
            remote_user: "root".to_string(),
            upload_binary_over_docker_exec: false,
            use_podman: true,
            remote_env: vec![("A".to_string(), "1".to_string())],
        })
    );
}

#[test]
fn only_ssh_hosts_are_connected() {
    let window = WindowHandle { value: 1 };
    let windows = vec![
        OpenWindow { window: WindowHandle { value: 7 }, has_host_session: false },
        OpenWindow { window: WindowHandle { value: 8 }, has_host_session: true },
    ];
    assert_eq!(host_window_for(None, &windows), Some(WindowHandle { value: 8 }));
    assert_eq!(host_window_for(Some(window), &windows), Some(window));
    assert_eq!(
        open_non_ssh_remote_project(&wsl()).message(),
        "WSL and Dev Container project windows are not supported by Super Zed"
    );
    let ssh_options = RemoteConnectionOptions::Ssh(ssh());
    assert_eq!(
        open_non_ssh_host_project(&ssh_options, Some(window), &windows).unwrap_err().message(),
        "remote project orchestration is retained only for WSL and Dev Containers"
    );
    assert_eq!(
        open_non_ssh_host_project(&wsl(), None, &Vec::new()).unwrap_err().message(),
        "Super Zed must connect its local host before adding an SSH host"
    );
    assert_eq!(
        open_non_ssh_host_project(&wsl(), Some(window), &windows).unwrap_err().message(),
        "Milestone 1 supports only local and SSH host sessions"
    );
    assert_eq!(connection_failure_title(&wsl()), "Failed to connect to WSL");
    assert_eq!(
        connect_ssh_host(&wsl()).unwrap_err().message(),
        "Connect SSH Host only accepts SSH connection options"
    );
    let (state, _) = connect_ssh_host(&ssh_options).unwrap();
    assert_eq!(state, ConnectState::LookingUp);
}

#[test]
fn a_host_is_connected_step_by_step() {
    let session = SessionHandle { value: 4 };
    let (state, action) = next_connect_step(
        ConnectState::LookingUp,
        ConnectEvent::LookedUp { connected: false },
    );
    assert_eq!(action, ConnectAction::OpenDialog);
    let (state, action) = next_connect_step(state, ConnectEvent::DialogOpened { opened: true });
    assert_eq!(action, ConnectAction::Connect);
    let (state, action) =
        next_connect_step(state, ConnectEvent::Connected { session: Some(session) });
    assert_eq!(action, ConnectAction::CloseDialogAndAttach { session });
    let (state, action) = next_connect_step(state, ConnectEvent::Attached { attached: true });
    assert_eq!(action, ConnectAction::RegisterAndReturn { session });
    assert_eq!(state, ConnectState::Finished);
    let (_, action) = next_connect_step(
        ConnectState::LookingUp,
        ConnectEvent::LookedUp { connected: true },
    );
    assert_eq!(action, ConnectAction::ReturnWindow);
}

fn positioned(path: &str, row: Option<u32>, column: Option<u32>) -> PathWithPosition {
    PathWithPosition { path: HostPath::new(path), row, column }
}

#[test]
fn places_at_the_ends_of_paths_are_found() {
    let (paths, positions) = determine_paths_with_positions(&vec![
        GivenPath {
            path: HostPath::new("/a:3"),
            parsed: Some(positioned("/a", Some(3), None)),
            exists: false,
        },
        GivenPath {
            path: HostPath::new("/b:3"),
            parsed: Some(positioned("/b", Some(3), None)),
            exists: true,
        },
    ]);
    assert_eq!(paths, vec![HostPath::new("/a"), HostPath::new("/b:3")]);
    assert_eq!(positions[0].row, Some(3));
    assert_eq!(positions[1].row, None);
    let places = navigate_to_positions(
        &vec![
            OpenedItem { opened: true, is_editor: true },
            OpenedItem { opened: true, is_editor: false },
            OpenedItem { opened: true, is_editor: true },
        ],
        &vec![
            positioned("/a", Some(3), Some(2)),
            positioned("/b", Some(3), None),
            positioned("/c", Some(0), None),
        ],
    );
    assert_eq!(
        places,
        vec![
            Navigation { item: 0, row: 2, column: 1 },
            Navigation { item: 2, row: 0, column: 0 },
        ]
    );
}

#[test]
fn the_command_line_is_served() {
    let windows = vec![WindowHandle { value: 3 }];
    let options = open_options_for_behavior(OpenBehavior::Reuse, &windows);
    assert_eq!(options.requesting_window, Some(WindowHandle { value: 3 }));
    assert_eq!(options.workspace_matching, WorkspaceMatching::Never);
    let options = open_options_for_request(None, &windows);
    assert!(options.add_dirs_to_sidebar);
    assert_eq!(options.requesting_window, None);

    let request = |urls: Vec<String>| CliOpen {
        urls,
        paths: vec!["/a".to_string()],
        diff_paths: Vec::new(),
        diff_all: false,
        wait: false,
        wsl: None,
        open_behavior: OpenBehavior::Default,
        env: None,
        dev_container: false,
        cwd: None,
    };
    assert!(matches!(
        plan_cli_request(request(vec!["zed://open".to_string()])),
        CliPlan::ParseUrls { .. }
    ));
    assert!(matches!(
        plan_cli_request(request(Vec::new())),
        CliPlan::OpenPaths { open_behavior: OpenBehavior::ExistingWindow, .. }
    ));
    assert_eq!(responses_to_urls(None), vec![CliResponse::Exit { status: 0 }]);
    assert_eq!(
        responses_to_urls(Some(OpenError::LocalAndSshPaths)),
        vec![
            CliResponse::Stderr { message: "cannot open both local and ssh paths".to_string() },
            CliResponse::Exit { status: 1 },
        ]
    );
    assert_eq!(response_to_paths(true), CliResponse::Exit { status: 1 });
    let none = Vec::new();
    assert!(matches!(
        open_workspaces(&Vec::new(), &none, OpenBehavior::Add, true, false, None, &windows),
        OpenPlan::ActivateWindow
    ));
    assert!(matches!(
        open_workspaces(
            &vec!["/a".to_string()],
            &none,
            OpenBehavior::Add,
            true,
            false,
            None,
            &windows
        ),
        OpenPlan::OpenWorkspace { options } if options.wait
            && options.workspace_matching == WorkspaceMatching::MatchSubdirectory
    ));
}

#[test]
fn compared_files_are_opened() {
    let pairs = vec![("/a".to_string(), "/b".to_string())];
    assert_eq!(
        workspace_paths_for(Vec::new(), &pairs, Some("/cwd".to_string())),
        vec!["/cwd"]
    );
    assert!(workspace_paths_for(Vec::new(), &Vec::new(), Some("/cwd".to_string())).is_empty());
    let paths = vec![positioned("/a", None, None)];
    assert_eq!(
        project_paths_for(&paths, &vec![HostPath::new("/a/"), HostPath::new("/b")]),
        vec![HostPath::new("/a"), HostPath::new("/b")]
    );
    assert!(matches!(plan_diff(true, &pairs), DiffPlan::All));
    assert!(matches!(plan_diff(true, &Vec::new()), DiffPlan::Each));
    assert!(matches!(
        plan_pair(Ok(HostPath::new("/a")), Ok(HostPath::new("/b"))),
        PairPlan::Compare { .. }
    ));
    match plan_pair(Ok(HostPath::new("/a")), Err("gone".to_string())) {
        PairPlan::Report { failures } => {
            assert_eq!(failures, vec![ItemOutcome::Failed { message: "gone".to_string() }]);
        }
        other => panic!("expected a report, got {other:?}"),
    }
}

#[test]
fn failures_are_reported() {
    let paths = vec![positioned("/a \"b\"", None, None), positioned("/c", None, None)];
    let items = label_failures(
        vec![
            ItemOutcome::Failed { message: "gone".to_string() },
            ItemOutcome::Opened { item: 1 },
            ItemOutcome::Failed { message: "unlabelled".to_string() },
        ],
        &paths,
    );
    assert_eq!(
        items[0],
        ItemOutcome::Failed { message: "error opening \"/a \\\"b\\\"\": gone".to_string() }
    );
    assert_eq!(items[2], ItemOutcome::Failed { message: "unlabelled".to_string() });
    let report = report_items(&items, true);
    assert_eq!(report.watched, vec![1]);
    assert_eq!(report.responses.len(), 2);
    assert!(report.errored);
    assert!(report_items(&items, false).watched.is_empty());
    assert_eq!(
        open_failure_report(&paths, "no"),
        CliResponse::Stderr { message: "error opening [/a \"b\", /c]: no".to_string() }
    );
    assert!(wait_for_window_close(true, 0, 0, false, &Vec::new()));
    assert!(wait_for_window_close(true, 1, 0, true, &vec![false, true]));
    assert!(!wait_for_window_close(true, 1, 0, true, &vec![false]));
    assert!(!wait_for_window_close(false, 0, 0, true, &vec![true]));
    assert!(keep_waiting(WaitEvent::Tick { reachable: true }));
    assert!(!keep_waiting(WaitEvent::Tick { reachable: false }));
    assert!(!keep_waiting(WaitEvent::Released));
}

#[test]
fn opened_paths_and_comparisons_are_put_together() {
    let positions = vec![positioned("/a", None, None), positioned("/b", None, None)];
    let pairs = vec![("/old".to_string(), "/new".to_string())];
    let items = || {
        vec![
            ItemOutcome::Opened { item: 1 },
            ItemOutcome::Failed { message: "gone".to_string() },
        ]
    };
    let failure = compare_failure("/o\"ld", "missing");
    assert_eq!(failure, "opening --diff path \"/o\\\"ld\": missing");
    let each = open_superzed_paths_with_positions(
        &positions,
        false,
        &pairs,
        items(),
        Some(9),
        vec![
            PairOutcome::Unresolved { failures: vec![ItemOutcome::Failed { message: failure }] },
            PairOutcome::Shown { item: Some(3) },
            PairOutcome::Shown { item: None },
        ],
    );
    assert_eq!(
        each,
        vec![
            ItemOutcome::Opened { item: 1 },
            ItemOutcome::Failed { message: "error opening \"/b\": gone".to_string() },
            ItemOutcome::Failed {
                message: "opening --diff path \"/o\\\"ld\": missing".to_string()
            },
            ItemOutcome::Opened { item: 3 },
        ]
    );
    let together = open_superzed_paths_with_positions(
        &positions,
        true,
        &pairs,
        items(),
        Some(9),
        Vec::new(),
    );
    assert_eq!(together.len(), 3);
    assert_eq!(together[2], ItemOutcome::Opened { item: 9 });
    let nothing_to_compare = open_superzed_paths_with_positions(
        &positions,
        true,
        &Vec::new(),
        items(),
        Some(9),
        Vec::new(),
    );
    assert_eq!(nothing_to_compare.len(), 2);
}

#[test]
fn opening_a_workspace_is_answered() {
    let positions = vec![positioned("/a", None, None)];
    let failed = open_superzed_workspace(
        Err("no host".to_string()),
        &positions,
        &Vec::new(),
        true,
        true,
        &vec![true],
    );
    assert_eq!(
        failed.responses,
        vec![CliResponse::Stderr { message: "error opening [/a]: no host".to_string() }]
    );
    assert!(failed.errored && !failed.waits && !failed.watches_window);
    let opened = open_superzed_workspace(
        Ok(vec![
            ItemOutcome::Opened { item: 4 },
            ItemOutcome::Absent,
            ItemOutcome::Failed { message: "bad".to_string() },
        ]),
        &positions,
        &Vec::new(),
        true,
        true,
        &vec![true],
    );
    assert_eq!(opened.responses, vec![CliResponse::Stderr { message: "bad".to_string() }]);
    assert_eq!(opened.watched, vec![4]);
    assert!(opened.errored && opened.waits && opened.watches_window);
}

fn repository(id: u64, name: &str, directory: &str) -> Repository {
    Repository {
        id,
        display_name: name.to_string(),
        work_directory: HostPath::new(directory),
        summary: StatusSummary {
            count: 0,
            conflict: 0,
            worktree_deleted: 0,
            index_deleted: 0,
            worktree_modified: 0,
            index_modified: 0,
        },
    }
}

fn worktree(name: &str, path: &str) -> Worktree {
    Worktree { root_name: name.to_string(), path: HostPath::new(path) }
}

#[test]
fn repositories_are_chosen_from_a_menu() {
    let repositories = vec![repository(1, "outer", "/code"), repository(2, "inner", "/code/in")];
    assert_eq!(
        repository_for_worktree(&HostPath::new("/code/in/x"), &repositories),
        Some(1)
    );
    assert_eq!(repository_for_worktree(&HostPath::new("/x"), &repositories), None);
    let entries = worktree_repository_entries(
        &vec![worktree("x", "/code/in/x"), worktree("y", "/y")],
        &repositories,
    );
    let choices = menu_choices(&entries, Some(2));
    assert!(choices[0].row.selected);
    assert!(choices[1].row.disabled);
    assert_eq!(choices[1].row.tooltip.as_deref(), Some("Not a Git repository"));
    match repository_selector_menu(&entries, Some((2, "inner/"))) {
        Some(SelectorMenu::Menu { trigger, choices }) => {
            assert_eq!(trigger.label, "inner");
            assert_eq!(trigger.label_size, LabelSize::Small);
            assert_eq!(choices.len(), 2);
        }
        other => panic!("expected a menu, got {other:?}"),
    }
    let single = worktree_repository_entries(&vec![worktree("x", "/x")], &repositories);
    match repository_selector_menu_default(&single, None) {
        Some(SelectorMenu::Label { view }) => {
            assert_eq!(view.label, "x");
            assert_eq!(view.label_size, LabelSize::Default);
        }
        other => panic!("expected a label, got {other:?}"),
    }
    assert!(repository_selector_menu(&Vec::new(), None).is_none());
    assert!(repository_selector_button(1, Some("a")).is_none());
    assert_eq!(repository_selector_button(2, Some("a/")).unwrap().label, "a");
    assert_eq!(
        worktree_repository_menu_row("a".to_string(), false, false).id,
        "worktree-repository-menu-row-a"
    );
    let mut workspace = WorkspaceActions { registered: Vec::new() };
    register(&mut workspace);
    assert_eq!(workspace.registered, vec![WorkspaceAction::SelectRepository]);
}

#[test]
fn repositories_are_selected() {
    let repositories = vec![
        repository(1, "beta", "/b"),
        repository(2, "Alpha", "/a"),
        repository(3, "BETA", "/c"),
    ];
    let ids = |list: &Vec<Repository>| list.iter().map(|item| item.id).collect::<Vec<_>>();
    assert_eq!(ids(&sort_repositories(&repositories)), vec![2, 1, 3]);
    let selector = open(&repositories, Some(3));
    assert_eq!(selector.width, 34);
    assert_eq!(selector.picker.selected_index(), 2);
    let mut delegate = RepositorySelectorDelegate::new(&repositories, None);
    assert_eq!(delegate.match_count(), 3);
    delegate.update_matches("BET");
    assert_eq!(ids(&delegate.filtered_repositories), vec![1, 3]);
    delegate.set_selected_index(1);
    assert_eq!(delegate.confirm(), Some(3));
    assert!(delegate.render_match(5, false).is_none());
    let mut changed = repository(4, "gamma", "/g");
    changed.summary.count = 2;
    changed.summary.worktree_modified = 2;
    delegate.update_repository_entries(vec![changed]);
    let row = delegate.render_match(0, true).unwrap();
    assert!(matches!(row.status, Some(RepositoryStatus::Modified)));
}
