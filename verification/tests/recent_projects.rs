use superzed_session::connection::{
    MockConnectionOptions, RemoteConnectionOptions, SshConnectionHost, SshConnectionOptions,
    WslConnectionOptions,
};
use superzed_session::host_session::HostWorkspaceIdentity;
use superzed_session::connection::HostId;
use superzed_session::ids::{ProjectId, WorkspaceId};
use superzed_session::path::HostPath;
use superzed_session::recent_actions::{
    activate_project_group, no_host_window_message, open_local_project, open_local_prompt,
    ConfirmAction, GroupAction, OpenLocal, OpenLocalError, OpenRecent, PathPromptOptions,
    RemoveAction,
};
use superzed_session::recent_entries::{
    icon_for_project_group, icon_for_remote_connection, IconName, ListedPath, OpenFolderEntry,
    PickerSection, ProjectGroupKey, ProjectPickerEntry, ProjectPickerStyle, RecentWorkspace,
    RecentWorkspaceId, SerializedWorkspaceLocation, StringMatch, Timestamp,
};
use superzed_session::recent_folders::{
    get_branch_for_worktree, get_open_folders, get_recent_projects, open_folders_to_name,
    recent_folders_to_name, BranchRepository, ProjectFolders, VisibleWorktree,
};
use superzed_session::recent_panel::{
    add_wsl_distro, invalid_path_message, open_folder_in_wsl, open_recent, ChosenPath, OpenInWsl,
    RecentListAction, RecentProjects, WslPath,
};
use superzed_session::recent_projects::{CurrentWorkspace, PickerMatches, RecentProjectsDelegate};
use superzed_session::recent_view::{
    highlights_for_path, ConfirmButton, PickerFooter, PickerRow, RemoveButton,
};
use superzed_session::remote_connections::{
    RemoteProject, RemoteSettings, SshConnection, WindowHandle, WslConnection,
};

const RECENT_PROJECT_COUNT: usize = 20;
const FIRST_RECENT_PROJECT: usize = 7;
const LAST_RECENT_PROJECT: usize = FIRST_RECENT_PROJECT + RECENT_PROJECT_COUNT - 1;

fn listed(path: &str) -> ListedPath {
    let path = HostPath::new(path);
    ListedPath {
        suffix: path.file_name().unwrap_or_default(),
        compact: path.clone(),
        path,
    }
}

fn open_folder(index: usize) -> OpenFolderEntry {
    let path = HostPath::new(&format!("/current/project-folder-{index}"));
    OpenFolderEntry {
        worktree_id: index as u64,
        name: format!("project-folder-{index}"),
        compact: path.clone(),
        path,
        branch: None,
        is_active: false,
        connection_options: None,
    }
}

fn project_group(index: usize) -> ProjectGroupKey {
    ProjectGroupKey {
        id: index as u64,
        host: None,
        paths: vec![listed(&format!("/this-window/project-{index}"))],
    }
}

fn remote_project_group(index: usize) -> ProjectGroupKey {
    ProjectGroupKey {
        id: index as u64,
        host: Some(RemoteConnectionOptions::Mock(MockConnectionOptions { id: index as u64 })),
        paths: vec![listed(&format!("/this-window/remote-project-{index}"))],
    }
}

fn recent_workspace(index: usize) -> RecentWorkspace {
    let path = format!("/recent/project-{index:02}");
    RecentWorkspace {
        workspace_id: RecentWorkspaceId { value: index as i64 },
        location: SerializedWorkspaceLocation::Local,
        paths: vec![HostPath::new(&path)],
        identity_paths: vec![listed(&path)],
        matching_groups: Vec::new(),
        timestamp: Timestamp { seconds: 0, nanoseconds: 0 },
    }
}

fn ssh_options() -> SshConnectionOptions {
    SshConnectionOptions {
        host: SshConnectionHost::Plain("host".to_string()),
        username: None,
        port: None,
        password: None,
        args: None,
        port_forwards: None,
        connection_timeout: None,
        nickname: None,
        upload_binary_over_ssh: false,
    }
}

fn remote_workspace(index: usize) -> RecentWorkspace {
    RecentWorkspace {
        location: SerializedWorkspaceLocation::Remote {
            options: RemoteConnectionOptions::Ssh(ssh_options()),
            display_name: "host".to_string(),
        },
        ..recent_workspace(index)
    }
}

fn recent_workspaces() -> Vec<RecentWorkspace> {
    (0..RECENT_PROJECT_COUNT).map(recent_workspace).collect()
}

fn no_matches() -> PickerMatches {
    PickerMatches { folders: Vec::new(), groups: Vec::new(), recents: Vec::new() }
}

fn hit(candidate_id: usize, positions: &[usize]) -> StringMatch {
    StringMatch {
        candidate_id,
        positions: positions.to_vec(),
        string: String::new(),
    }
}

fn build_picker() -> RecentProjectsDelegate {
    let mut delegate = RecentProjectsDelegate::new(
        vec![open_folder(0), open_folder(1)],
        vec![project_group(0), project_group(1)],
        ProjectPickerStyle::Modal,
    );
    delegate.set_workspaces(recent_workspaces());
    delegate.update_matches("", &None, &no_matches());
    delegate
}

fn workspace() -> Option<CurrentWorkspace> {
    Some(CurrentWorkspace {
        database_id: Some(RecentWorkspaceId { value: 1000 }),
        group_id: 0,
        identity: Some(HostWorkspaceIdentity {
            host_id: HostId::Local,
            workspace_id: WorkspaceId::from_uuid(1),
            project_id: ProjectId::first(),
        }),
    })
}

fn settings() -> RemoteSettings {
    RemoteSettings {
        ssh_connections: vec![SshConnection {
            host: "host".to_string(),
            username: None,
            port: None,
            nickname: Some("mine".to_string()),
            upload_binary_over_ssh: None,
            args: Vec::new(),
            port_forwards: None,
        }],
        wsl_connections: Vec::new(),
        read_ssh_config: false,
    }
}

const WINDOW: WindowHandle = WindowHandle { value: 5 };

fn delete_recent_project_in_picker(
    delegate: &mut RecentProjectsDelegate,
    index: usize,
    scrolled_to_end: bool,
) {
    let candidate = match &delegate.filtered_entries[index] {
        ProjectPickerEntry::RecentProject(hit) => hit.candidate_id,
        other => panic!("expected entry at {index} to be a recent project, got {other:?}"),
    };
    let mut workspaces = recent_workspaces();
    workspaces.remove(candidate);
    delegate.update_picker_after_recent_project_deletion(
        index,
        workspaces,
        Some(scrolled_to_end),
        "",
        &None,
        &no_matches(),
    );
}

#[test]
fn this_window_project_icons_use_each_project_group_host() {
    let mut delegate = RecentProjectsDelegate::new(
        Vec::new(),
        vec![project_group(0), remote_project_group(1)],
        ProjectPickerStyle::Modal,
    );
    delegate.filtered_entries = vec![
        ProjectPickerEntry::ProjectGroup(StringMatch::bare(0)),
        ProjectPickerEntry::ProjectGroup(StringMatch::bare(1)),
    ];

    assert!(!delegate.entry_is_remote_project(&delegate.filtered_entries[0]));
    assert!(delegate.entry_is_remote_project(&delegate.filtered_entries[1]));
    assert!(delegate.filtered_entries_include_remote_project());
    assert_eq!(
        icon_for_project_group(&delegate.window_project_groups[0]),
        IconName::Screen
    );
    assert_eq!(
        icon_for_project_group(&delegate.window_project_groups[1]),
        IconName::Server
    );
}

#[test]
fn an_empty_query_lists_every_section() {
    let delegate = build_picker();
    assert_eq!(delegate.match_count(), LAST_RECENT_PROJECT + 1);
    for (index, title) in [(0, "Current Folders"), (3, "This Window"), (6, "Recent Projects")] {
        match &delegate.filtered_entries[index] {
            ProjectPickerEntry::Header(found) => assert_eq!(found, title),
            other => panic!("expected a title, got {other:?}"),
        }
        assert!(!delegate.can_select(index));
        assert!(delegate.can_select(index + 1));
    }
    assert!(!delegate.can_select(LAST_RECENT_PROJECT + 1));
    assert_eq!(delegate.selected_index(), 1);
}

#[test]
fn a_query_lists_what_it_was_found_in() {
    let mut delegate = build_picker();
    let matches = PickerMatches {
        folders: Vec::new(),
        groups: vec![hit(1, &[0, 2])],
        recents: vec![hit(7, &[]), hit(3, &[])],
    };
    delegate.update_matches("  proj", &None, &matches);
    assert_eq!(delegate.match_count(), 5);
    assert!(matches!(&delegate.filtered_entries[0], ProjectPickerEntry::Header(title) if title == "This Window"));
    assert!(matches!(&delegate.filtered_entries[1], ProjectPickerEntry::ProjectGroup(hit) if hit.candidate_id == 1));
    assert!(matches!(&delegate.filtered_entries[3], ProjectPickerEntry::RecentProject(hit) if hit.candidate_id == 7));
    delegate.update_matches("nothing", &None, &no_matches());
    assert_eq!(delegate.match_count(), 0);
    assert_eq!(delegate.selected_index(), 0);
    assert_eq!(delegate.no_matches_text(), "No matches");
}

#[test]
fn candidates_are_looked_through_by_their_folders() {
    let mut delegate = build_picker();
    let folders: Vec<String> = delegate
        .folder_candidates()
        .into_iter()
        .map(|candidate| candidate.text)
        .collect();
    assert_eq!(folders, vec!["project-folder-0", "project-folder-1"]);
    delegate.window_project_groups[0].paths.push(listed("/second"));
    assert_eq!(
        delegate.project_group_candidates()[0].text,
        "/this-window/project-0/second"
    );
    let recents = delegate.recent_candidates(&None);
    assert_eq!(recents.len(), RECENT_PROJECT_COUNT);
    assert_eq!(recents[3].id, 3);
    assert_eq!(recents[3].text, "/recent/project-03");
}

#[test]
fn only_other_projects_are_offered() {
    let mut delegate = build_picker();
    let mut shown = recent_workspace(1);
    shown.matching_groups = vec![9, 1];
    let mut open = recent_workspace(2);
    open.paths.push(HostPath::new("/current/project-folder-1/"));
    delegate.set_workspaces(vec![recent_workspace(0), shown, open, recent_workspace(3)]);
    let current = Some(CurrentWorkspace {
        database_id: Some(RecentWorkspaceId { value: 3 }),
        group_id: 0,
        identity: None,
    });
    let ids: Vec<usize> = delegate
        .recent_candidates(&current)
        .into_iter()
        .map(|candidate| candidate.id)
        .collect();
    assert_eq!(ids, vec![0]);
    delegate.update_matches("", &current, &no_matches());
    assert_eq!(delegate.match_count(), 8);
}

#[test]
fn deleting_a_recent_project_selects_its_neighbour() {
    for target in [FIRST_RECENT_PROJECT, FIRST_RECENT_PROJECT + RECENT_PROJECT_COUNT / 2] {
        let mut delegate = build_picker();
        delegate.set_selected_index(target);
        delete_recent_project_in_picker(&mut delegate, target, false);
        assert_eq!(delegate.selected_index(), target);
        assert!(matches!(
            delegate.filtered_entries[target],
            ProjectPickerEntry::RecentProject(_)
        ));
    }
    let mut delegate = build_picker();
    delegate.set_selected_index(LAST_RECENT_PROJECT);
    delete_recent_project_in_picker(&mut delegate, LAST_RECENT_PROJECT, true);
    assert_eq!(delegate.selected_index(), LAST_RECENT_PROJECT - 1);
    assert!(matches!(
        delegate.filtered_entries[LAST_RECENT_PROJECT - 1],
        ProjectPickerEntry::RecentProject(_)
    ));
}

#[test]
fn replacements_are_never_titles() {
    let mut delegate = build_picker();
    delegate.set_workspaces(Vec::new());
    delegate.update_matches("", &None, &no_matches());
    let at = |delegate: &RecentProjectsDelegate, index: usize, previous: bool| {
        delegate.replacement_index_after_deletion(index, previous, PickerSection::RecentProjects)
    };
    assert_eq!(at(&delegate, 7, false), Some(5));
    assert_eq!(at(&delegate, 3, false), Some(4));
    assert_eq!(at(&delegate, 3, true), Some(2));
    assert_eq!(at(&delegate, 0, true), Some(1));
    delegate.filtered_entries = vec![ProjectPickerEntry::Header("x".to_string())];
    assert_eq!(at(&delegate, 0, true), None);
}

#[test]
fn lines_are_removed() {
    let mut delegate = build_picker();
    delegate.set_selected_index(2);
    match delegate.handle_remove_selected(&workspace()) {
        RemoveAction::RemoveRoot { path, worktree_id } => {
            assert_eq!(path.as_str(), "/current/project-folder-1");
            assert_eq!(worktree_id, 1);
        }
        other => panic!("expected a root, got {other:?}"),
    }
    assert!(matches!(delegate.handle_remove_selected(&None), RemoveAction::Nothing));
    delegate.set_selected_index(0);
    assert!(matches!(delegate.handle_remove_selected(&workspace()), RemoveAction::Nothing));
    delegate.set_selected_index(4);
    assert!(matches!(delegate.handle_remove_selected(&workspace()), RemoveAction::Nothing));
    delegate.set_selected_index(5);
    assert!(matches!(
        delegate.handle_remove_selected(&workspace()),
        RemoveAction::RemoveGroup { id: 1 }
    ));
    assert_eq!(delegate.window_project_groups.len(), 1);
    assert_eq!(delegate.window_project_groups[0].id, 0);
    delegate.set_selected_index(FIRST_RECENT_PROJECT + 4);
    assert!(matches!(
        delegate.handle_remove_selected(&workspace()),
        RemoveAction::DeleteRecent { place: 4 }
    ));
    assert_eq!(delegate.delete_recent_project(0, &workspace()), None);
    assert_eq!(delegate.delete_recent_project(FIRST_RECENT_PROJECT, &None), None);
}

#[test]
fn folders_of_recent_projects_are_added() {
    let mut delegate = build_picker();
    delegate.set_selected_index(FIRST_RECENT_PROJECT);
    let paths = delegate.handle_add_to_workspace(&workspace()).unwrap();
    assert_eq!(paths, vec![HostPath::new("/recent/project-00")]);
    assert!(delegate.handle_add_to_workspace(&None).is_none());
    delegate.set_selected_index(1);
    assert!(delegate.handle_add_to_workspace(&workspace()).is_none());
    delegate.set_workspaces(vec![remote_workspace(0)]);
    delegate.set_selected_index(FIRST_RECENT_PROJECT);
    assert!(delegate.handle_add_to_workspace(&workspace()).is_none());
}

#[test]
fn confirming_opens_in_the_current_workspace() {
    let mut delegate = build_picker();
    delegate.set_selected_index(FIRST_RECENT_PROJECT + 2);
    let (action, dismissed) = delegate.confirm(&workspace(), Some(WINDOW), &settings());
    assert!(dismissed);
    match action {
        ConfirmAction::Open(OpenRecent::OpenPaths { target, paths, window }) => {
            assert_eq!(target.workspace_id, WorkspaceId::from_uuid(1));
            assert_eq!(paths, vec![HostPath::new("/recent/project-02")]);
            assert_eq!(window, WINDOW);
        }
        other => panic!("expected paths, got {other:?}"),
    }

    let mut outside = workspace();
    outside.as_mut().unwrap().identity = None;
    let (action, _) = delegate.confirm(&outside, Some(WINDOW), &settings());
    assert!(matches!(action, ConfirmAction::Open(OpenRecent::OpenProject { .. })));
    let (action, dismissed) = delegate.confirm(&outside, None, &settings());
    assert!(matches!(action, ConfirmAction::Open(OpenRecent::Nothing)));
    assert!(dismissed);

    let mut same = workspace();
    same.as_mut().unwrap().database_id = Some(RecentWorkspaceId { value: 2 });
    let (action, dismissed) = delegate.confirm(&same, Some(WINDOW), &settings());
    assert!(matches!(action, ConfirmAction::Open(OpenRecent::Nothing)));
    assert!(dismissed);

    let (action, dismissed) = delegate.confirm(&None, Some(WINDOW), &settings());
    assert!(matches!(action, ConfirmAction::Open(OpenRecent::Nothing)));
    assert!(!dismissed);
}

#[test]
fn confirming_other_lines() {
    let mut delegate = build_picker();
    delegate.set_selected_index(1);
    let (action, dismissed) = delegate.confirm(&workspace(), Some(WINDOW), &settings());
    assert!(matches!(action, ConfirmAction::ActivateRepository { worktree_id: 0 }));
    assert!(dismissed);
    let (action, dismissed) = delegate.confirm(&None, Some(WINDOW), &settings());
    assert!(matches!(action, ConfirmAction::Nothing));
    assert!(dismissed);
    delegate.set_selected_index(5);
    let (action, dismissed) = delegate.confirm(&workspace(), Some(WINDOW), &settings());
    assert!(matches!(action, ConfirmAction::ActivateGroup { id: 1, window: WINDOW }));
    assert!(dismissed);
    delegate.set_selected_index(3);
    let (action, dismissed) = delegate.confirm(&workspace(), Some(WINDOW), &settings());
    assert!(matches!(action, ConfirmAction::Nothing));
    assert!(!dismissed);
    assert_eq!(activate_project_group(Some(4)), GroupAction::Activate { workspace: 4 });
    assert_eq!(activate_project_group(None), GroupAction::FindOrCreate);
}

#[test]
fn remote_workspaces_are_connected() {
    let mut delegate = build_picker();
    let mut wsl = remote_workspace(1);
    wsl.location = SerializedWorkspaceLocation::Remote {
        options: RemoteConnectionOptions::Wsl(WslConnectionOptions {
            distro_name: "Ubuntu".to_string(),
            user: None,
        }),
        display_name: "Ubuntu".to_string(),
    };
    delegate.set_workspaces(vec![remote_workspace(0), wsl]);
    let (action, dismissed) =
        delegate.open_recent_projects(0, &workspace(), Some(WINDOW), &settings());
    assert!(dismissed);
    match action {
        OpenRecent::ConnectHost { options: RemoteConnectionOptions::Ssh(options), window } => {
            assert_eq!(options.nickname.as_deref(), Some("mine"));
            assert_eq!(window, WINDOW);
        }
        other => panic!("expected a host, got {other:?}"),
    }
    let (action, _) = delegate.open_recent_projects(0, &workspace(), None, &settings());
    assert!(matches!(action, OpenRecent::NoHostWindow));
    assert_eq!(no_host_window_message(), "Super Zed requires its existing host window");
    let (action, _) = delegate.open_recent_projects(1, &workspace(), None, &settings());
    assert!(matches!(action, OpenRecent::OpenRemote { window: None, .. }));
    let (action, dismissed) = delegate.open_recent_projects(2, &workspace(), None, &settings());
    assert!(matches!(action, OpenRecent::Nothing));
    assert!(!dismissed);
}

#[test]
fn chosen_folders_are_opened() {
    let paths = || Some(vec![HostPath::new("/one")]);
    let target = || workspace().unwrap().identity;
    assert_eq!(
        open_local_prompt(&workspace()),
        Some(PathPromptOptions { files: true, directories: true, multiple: true })
    );
    assert_eq!(open_local_prompt(&None), None);
    assert!(matches!(
        open_local_project(None, target(), Some(WINDOW), true),
        Ok(OpenLocal::Nothing)
    ));
    assert!(matches!(
        open_local_project(paths(), target(), Some(WINDOW), true),
        Ok(OpenLocal::OpenPaths { window: Some(WINDOW), .. })
    ));
    assert!(matches!(
        open_local_project(paths(), target(), Some(WINDOW), false),
        Ok(OpenLocal::OpenProject { .. })
    ));
    let error = open_local_project(paths(), None, Some(WINDOW), true).unwrap_err();
    assert_eq!(error, OpenLocalError::NoHostIdentity);
    assert_eq!(error.message(), "requesting workspace has no host identity");
    let error = open_local_project(paths(), target(), None, false).unwrap_err();
    assert_eq!(
        error.message(),
        "opening a project requires the authoritative Super Zed host shell"
    );
}

#[test]
fn highlights_are_moved_to_the_path_and_its_name() {
    let (name, path) =
        highlights_for_path(&HostPath::new("/code/app"), &vec![1, 3, 5, 8, 12], 3);
    assert_eq!(path.text, "/code/app");
    assert_eq!(path.highlight_positions, vec![0, 2, 5]);
    let name = name.unwrap();
    assert_eq!(name.text, "app");
    assert_eq!(name.highlight_positions, Vec::<usize>::new());
    let (name, path) = highlights_for_path(&HostPath::new("/é/app"), &vec![4, 5, 6], 0);
    assert_eq!(path.highlight_positions, vec![4, 5, 6]);
    assert_eq!(name.unwrap().highlight_positions, vec![0, 1, 2]);
    let (name, _) = highlights_for_path(&HostPath::new("/"), &vec![0], 0);
    assert!(name.is_none());
}

#[test]
fn rows_show_projects() {
    let mut delegate = build_picker();
    delegate.open_folders[0].branch = Some("main".to_string());
    match delegate.render_match(0, &workspace()).unwrap() {
        PickerRow::Header { title, divider } => {
            assert_eq!(title, "Current Folders");
            assert!(!divider);
        }
        other => panic!("expected a title, got {other:?}"),
    }
    match delegate.render_match(1, &workspace()).unwrap() {
        PickerRow::Folder(row) => {
            assert_eq!(row.name, "project-folder-0");
            assert_eq!(row.branch.as_deref(), Some("main"));
            assert_eq!(row.path.as_deref(), Some("/current/project-folder-0"));
            assert!(row.tooltip.is_none());
            assert_eq!(row.icon, None);
        }
        other => panic!("expected a folder, got {other:?}"),
    }
    delegate.style = ProjectPickerStyle::Popover;
    match delegate.render_match(1, &workspace()).unwrap() {
        PickerRow::Folder(row) => {
            let tooltip = row.tooltip.unwrap();
            assert_eq!(tooltip.title.as_deref(), Some("project-folder-0/main"));
            assert_eq!(tooltip.path, "/current/project-folder-0");
            assert!(row.path.is_none());
        }
        other => panic!("expected a folder, got {other:?}"),
    }
    match delegate.render_match(4, &workspace()).unwrap() {
        PickerRow::Group(row) => {
            assert!(!row.removable);
            assert!(row.highlighted.active);
            assert_eq!(row.tooltip, "/this-window/project-0");
            assert_eq!(row.highlighted.match_labels[0].text, "project-0");
            assert_eq!(row.highlighted.paths.len(), 1);
        }
        other => panic!("expected a group, got {other:?}"),
    }
    let mut remote = remote_workspace(1);
    remote.identity_paths.push(listed("/second"));
    delegate.set_workspaces(vec![recent_workspace(0), remote]);
    delegate.render_paths = false;
    match delegate.render_match(FIRST_RECENT_PROJECT, &workspace()).unwrap() {
        PickerRow::Recent(row) => {
            assert_eq!(row.icon, Some(IconName::Screen));
            assert_eq!(row.add_title, Some("Add Folder to this Project"));
            assert_eq!(row.tooltip_title, "Open Project in This Workspace");
            assert_eq!(row.tooltip, "/recent/project-00");
            assert!(row.highlighted.prefix.is_none());
            assert!(row.highlighted.paths.is_empty());
        }
        other => panic!("expected a recent project, got {other:?}"),
    }
    match delegate.render_match(FIRST_RECENT_PROJECT + 1, &workspace()).unwrap() {
        PickerRow::Recent(row) => {
            assert_eq!(row.icon, Some(IconName::Server));
            assert_eq!(row.add_title, None);
            assert_eq!(row.tooltip, "/recent/project-01\n/second\n(host)");
            assert_eq!(row.highlighted.prefix.as_deref(), Some("host"));
            assert_eq!(row.highlighted.match_labels.len(), 2);
        }
        other => panic!("expected a recent project, got {other:?}"),
    }
    assert!(delegate.render_match(FIRST_RECENT_PROJECT + 2, &workspace()).is_none());
    assert!(delegate.render_match(1000, &workspace()).is_none());
}

#[test]
fn rows_are_shown_whatever_is_highlighted_elsewhere() {
    let mut delegate = build_picker();
    delegate.filtered_entries[1] =
        ProjectPickerEntry::OpenFolder { index: 0, positions: vec![2, 1] };
    assert!(matches!(
        delegate.render_match(0, &workspace()),
        Some(PickerRow::Header { divider: false, .. })
    ));
    match delegate.render_match(1, &workspace()).unwrap() {
        PickerRow::Folder(row) => assert_eq!(row.name, "project-folder-0"),
        other => panic!("expected a folder, got {other:?}"),
    }
    delegate.filtered_entries[1] =
        ProjectPickerEntry::OpenFolder { index: 1000, positions: Vec::new() };
    assert!(delegate.render_match(1, &workspace()).is_none());
}

#[test]
fn a_single_remote_folder_is_shown_with_its_host() {
    let mut delegate = build_picker();
    delegate.set_workspaces(vec![remote_workspace(0)]);
    match delegate.render_match(FIRST_RECENT_PROJECT, &None).unwrap() {
        PickerRow::Recent(row) => assert_eq!(row.tooltip, "/recent/project-00 (host)"),
        other => panic!("expected a recent project, got {other:?}"),
    }
}

#[test]
fn footers_follow_the_selection() {
    let mut delegate = build_picker();
    let modal = |remove: Option<RemoveButton>, confirm: ConfirmButton, offers_adding: bool| {
        PickerFooter::Modal { remove, confirm, offers_adding }
    };
    assert_eq!(
        delegate.render_footer(&workspace()),
        modal(Some(RemoveButton::Folder), ConfirmButton::Activate, false)
    );
    delegate.set_selected_index(4);
    assert_eq!(
        delegate.render_footer(&workspace()),
        modal(None, ConfirmButton::Activate, false)
    );
    delegate.set_selected_index(5);
    assert_eq!(
        delegate.render_footer(&workspace()),
        modal(Some(RemoveButton::FromWindow), ConfirmButton::Activate, false)
    );
    delegate.set_selected_index(FIRST_RECENT_PROJECT);
    assert_eq!(
        delegate.render_footer(&workspace()),
        modal(Some(RemoveButton::Recent), ConfirmButton::Open, true)
    );
    delegate.set_selected_index(0);
    assert_eq!(
        delegate.render_footer(&workspace()),
        modal(None, ConfirmButton::Open, false)
    );
    delegate.style = ProjectPickerStyle::Popover;
    assert_eq!(delegate.render_footer(&workspace()), PickerFooter::Popover);
    assert_eq!(RemoveButton::Folder.label(), "Remove Folder");
    assert_eq!(RemoveButton::FromWindow.label(), "Remove from Window");
    assert_eq!(RemoveButton::Recent.label(), "Remove");
    assert_eq!(ConfirmButton::Activate.label(), "Activate");
    assert_eq!(ConfirmButton::Open.label(), "Open");
}

fn worktree(id: u64, path: &str) -> VisibleWorktree {
    VisibleWorktree { id, path: listed(path) }
}

fn project(worktrees: Vec<VisibleWorktree>) -> ProjectFolders {
    ProjectFolders {
        connection_options: None,
        visible_worktrees: worktrees,
        active_repository: Some(HostPath::new("/code")),
        repositories: vec![
            BranchRepository {
                work_directory: HostPath::new("/code"),
                branch: Some("main".to_string()),
            },
            BranchRepository {
                work_directory: HostPath::new("/code/inner"),
                branch: Some("topic".to_string()),
            },
        ],
    }
}

#[test]
fn open_folders_are_listed_by_name() {
    assert!(get_open_folders(&project(vec![worktree(1, "/code")])).is_empty());
    let folders = get_open_folders(&project(vec![
        worktree(1, "/other/Zeta"),
        worktree(2, "/code/inner/alpha"),
        worktree(3, "/code/Beta"),
    ]));
    let names: Vec<&str> = folders.iter().map(|folder| folder.name.as_str()).collect();
    assert_eq!(names, vec!["alpha", "Beta", "Zeta"]);
    assert_eq!(folders[0].branch.as_deref(), Some("topic"));
    assert_eq!(folders[1].branch.as_deref(), Some("main"));
    assert_eq!(folders[2].branch, None);
    let active: Vec<bool> = folders.iter().map(|folder| folder.is_active).collect();
    assert_eq!(active, vec![true, false, false]);
    assert_eq!(
        get_branch_for_worktree(&HostPath::new("/elsewhere"), &Vec::new()),
        None
    );
    let mut inactive = project(vec![worktree(7, "/b"), worktree(8, "/a")]);
    inactive.active_repository = None;
    assert!(get_open_folders(&inactive)[1].is_active);
    assert_eq!(
        open_folders_to_name(&inactive),
        vec![HostPath::new("/a"), HostPath::new("/b")]
    );
}

#[test]
fn recent_projects_are_named_by_their_folders() {
    let mut several = recent_workspace(2);
    several.identity_paths.push(listed("/"));
    several.identity_paths.push(listed("/recent/other"));
    let workspaces = vec![recent_workspace(0), recent_workspace(1), several, remote_workspace(3)];
    let current = Some(RecentWorkspaceId { value: 1 });
    let entries = get_recent_projects(current, None, &workspaces);
    let names: Vec<&str> = entries.iter().map(|entry| entry.name.as_str()).collect();
    assert_eq!(names, vec!["project-00", "project-02, other"]);
    assert_eq!(entries[1].full_path, "/recent/project-02\n/\n/recent/other");
    assert_eq!(entries[1].workspace_id, RecentWorkspaceId { value: 2 });
    assert_eq!(get_recent_projects(current, Some(1), &workspaces).len(), 1);
    assert_eq!(get_recent_projects(current, Some(9), &workspaces).len(), 2);
    assert_eq!(
        recent_folders_to_name(current, &workspaces),
        vec![
            HostPath::new("/"),
            HostPath::new("/recent/other"),
            HostPath::new("/recent/project-00"),
            HostPath::new("/recent/project-02"),
        ]
    );
}

#[test]
fn the_list_is_opened_in_two_ways() {
    let folders = project(vec![worktree(1, "/code/a"), worktree(2, "/code/b")]);
    let list = RecentProjects::open(&folders, Vec::new());
    assert_eq!(list.width, 42);
    assert!(list.picker.render_paths);
    assert_eq!(list.picker.open_folders.len(), 2);
    assert!(!list.on_focus_out(false));
    assert!(list.on_before_dismiss(false));
    assert!(!list.on_before_dismiss(true));
    assert!(list.handle_toggle_open_menu(false));
    let list = RecentProjects::popover(None, vec![project_group(0)]);
    assert_eq!(list.width, 20);
    assert!(!list.reads_workspaces);
    assert!(list.picker.open_folders.is_empty());
    assert!(list.on_focus_out(false));
    assert!(!list.on_focus_out(true));
    assert_eq!(
        list.picker.no_matches_text(),
        "Recently opened projects will show up here"
    );
    assert_eq!(open_recent(false), RecentListAction::Open);
    assert_eq!(open_recent(true), RecentListAction::CycleSelection);
    assert_eq!(RecentProjectsDelegate::name(), "recent projects");
    assert_eq!(list.picker.placeholder_text(), "Search projects…");
}

#[test]
fn folders_are_opened_in_distributions() {
    let outside = |seen: Option<&str>| ChosenPath {
        inside: None,
        from_wsl: seen.map(str::to_string),
    };
    assert!(matches!(open_folder_in_wsl(None), OpenInWsl::Nothing));
    assert!(matches!(
        open_folder_in_wsl(Some(vec![outside(None)])),
        OpenInWsl::InvalidPath
    ));
    match open_folder_in_wsl(Some(vec![outside(None), outside(Some("/mnt/c"))])) {
        OpenInWsl::ChooseDistro { paths } => assert_eq!(paths, vec!["/mnt/c"]),
        other => panic!("expected a choice, got {other:?}"),
    }
    let inside = ChosenPath {
        inside: Some(WslPath { distro: "Ubuntu".to_string(), path: HostPath::new("/home") }),
        from_wsl: None,
    };
    match open_folder_in_wsl(Some(vec![outside(Some("/mnt/c")), inside])) {
        OpenInWsl::OpenProject { options, path } => {
            assert_eq!(options.distro_name, "Ubuntu");
            assert_eq!(options.user, None);
            assert_eq!(path.as_str(), "/home");
        }
        other => panic!("expected a project, got {other:?}"),
    }
    assert!(invalid_path_message().ends_with("inside wsl.\n"));
}

#[test]
fn distributions_are_added_once() {
    let options = WslConnectionOptions {
        distro_name: "Ubuntu".to_string(),
        user: Some("me".to_string()),
    };
    let connections = add_wsl_distro(None, &options);
    assert_eq!(connections.len(), 1);
    assert!(connections[0].projects.is_empty());
    let connections = add_wsl_distro(Some(connections), &options);
    assert_eq!(connections.len(), 1);
    let other = WslConnectionOptions { distro_name: "Ubuntu".to_string(), user: None };
    assert_eq!(add_wsl_distro(Some(connections), &other).len(), 2);
}

#[test]
fn distributions_keep_their_projects() {
    let kept = || WslConnection {
        distro_name: "Debian".to_string(),
        user: None,
        projects: vec![RemoteProject { paths: vec!["/home/me/app".to_string()] }],
    };
    let same = WslConnectionOptions { distro_name: "Debian".to_string(), user: None };
    assert_eq!(add_wsl_distro(Some(vec![kept()]), &same), vec![kept()]);
    let other = WslConnectionOptions { distro_name: "Ubuntu".to_string(), user: None };
    let added = WslConnection {
        distro_name: "Ubuntu".to_string(),
        user: None,
        projects: Vec::new(),
    };
    assert_eq!(add_wsl_distro(Some(vec![kept()]), &other), vec![kept(), added]);
}

#[test]
fn hosts_have_icons() {
    assert_eq!(icon_for_remote_connection(&None), IconName::Screen);
    assert_eq!(
        icon_for_remote_connection(&Some(RemoteConnectionOptions::Ssh(ssh_options()))),
        IconName::Server
    );
    assert_eq!(
        icon_for_remote_connection(&Some(RemoteConnectionOptions::Wsl(WslConnectionOptions {
            distro_name: "Ubuntu".to_string(),
            user: None,
        }))),
        IconName::Linux
    );
}
