use superzed_session::connection::{
    HostId, LocalConnectionOptions, MockConnectionOptions, RemoteConnectionOptions,
    SshConnectionHost, SshConnectionOptions, WslConnectionOptions,
};
use superzed_session::host_session::{
    CreatedWorkspace, HostSessionClient, HostWorkspaceIdentity, MutationIntent, ProjectHandle,
    ReconcileAction, WorkspaceHandle,
};
use superzed_session::ids::{PaneId, ProjectId, WorkspaceId};
use superzed_session::layout::LayoutNode;
use superzed_session::path::{HostPath, PathStyle};
use superzed_session::reconcile::{AttemptOutcome, MutationRun};
use superzed_session::roots::{
    canonicalize_project_spec, directory_to_list, list_remote_directory, Canonicalization,
    DirectoryEntry, ResolvedPath,
};
use superzed_session::session::{
    FreshIds, HostSessionSnapshot, MutationRequest, ProjectRoot, ProjectSpec, SessionMutation,
};
use superzed_session::superzed_host::{roots_to_resolve, with_resolved_roots};

fn fresh(workspace: u128, pane: u128) -> FreshIds {
    FreshIds {
        workspace: WorkspaceId::from_uuid(workspace),
        pane: PaneId::from_uuid(pane),
    }
}

fn initial() -> HostSessionSnapshot {
    HostSessionSnapshot::initial_with(fresh(1, 2))
}

fn spec(paths: &[&str]) -> ProjectSpec {
    ProjectSpec {
        roots: paths
            .iter()
            .map(|path| ProjectRoot {
                requested_path: HostPath::new(path),
                canonical_path: HostPath::new(path),
            })
            .collect(),
    }
}

fn identity(workspace: u128, project: u64) -> HostWorkspaceIdentity {
    HostWorkspaceIdentity {
        host_id: HostId::Local,
        workspace_id: WorkspaceId::from_uuid(workspace),
        project_id: ProjectId::new(project).unwrap(),
    }
}

fn ssh(username: Option<&str>, port: Option<u16>) -> RemoteConnectionOptions {
    RemoteConnectionOptions::Ssh(SshConnectionOptions {
        host: SshConnectionHost::Plain("host".to_string()),
        username: username.map(str::to_string),
        port,
        password: None,
        args: None,
        port_forwards: None,
        connection_timeout: None,
        nickname: None,
        upload_binary_over_ssh: false,
    })
}

#[test]
fn hosts_are_known_by_their_addresses() {
    let host = |options: &RemoteConnectionOptions| {
        HostSessionClient::host_id_for_connection(options)
    };
    assert_eq!(
        host(&RemoteConnectionOptions::Local(LocalConnectionOptions)).unwrap(),
        HostId::Local
    );
    assert_eq!(
        host(&ssh(Some("me"), Some(2222))).unwrap(),
        HostId::Ssh("ssh://me@host:2222".to_string())
    );
    assert_eq!(
        host(&ssh(None, None)).unwrap(),
        HostId::Ssh("ssh://host".to_string())
    );
    assert_eq!(
        host(&RemoteConnectionOptions::Mock(MockConnectionOptions { id: 7 })).unwrap(),
        HostId::Ssh("mock://7".to_string())
    );
    let wsl = RemoteConnectionOptions::Wsl(WslConnectionOptions {
        distro_name: "Ubuntu".to_string(),
        user: None,
    });
    assert_eq!(
        host(&wsl).unwrap_err().message(),
        "Milestone 1 supports only local and SSH host sessions"
    );
}

#[test]
fn clients_follow_one_host() {
    let client = HostSessionClient::local(initial());
    assert_eq!(client.host_id(), &HostId::Local);
    assert_eq!(client.display_name(), "Local");
    assert_eq!(client.snapshot(), &initial());
    let remote = HostSessionClient::remote(initial(), &ssh(None, None), "box").unwrap();
    assert_eq!(remote.display_name(), "box");
    let local = RemoteConnectionOptions::Local(LocalConnectionOptions);
    assert_eq!(
        HostSessionClient::remote(initial(), &local, "box").unwrap_err().message(),
        "remote host cannot use the local host ID"
    );
}

#[test]
fn targets_are_checked() {
    let client = HostSessionClient::local(initial());
    assert!(client.check_target(&identity(1, 1)).is_ok());
    let refusal = |target: &HostWorkspaceIdentity| {
        client.check_target(target).unwrap_err().message()
    };
    let mut other = identity(1, 1);
    other.host_id = HostId::Ssh("ssh://host".to_string());
    assert_eq!(refusal(&other), "target workspace belongs to another host");
    assert_eq!(
        refusal(&identity(9, 1)),
        "target workspace is absent from its host session"
    );
    assert_eq!(refusal(&identity(1, 9)), "target workspace project identity changed");
}

fn attached() -> HostSessionClient {
    let mut client = HostSessionClient::local(initial());
    let snapshot = initial();
    client
        .attach_initial_projection(
            &snapshot.workspaces[0],
            ProjectHandle { value: 10 },
            WorkspaceHandle { value: 20 },
            Some(&identity(1, 1)),
        )
        .unwrap();
    client
}

#[test]
fn the_first_workspace_is_attached_once() {
    let mut client = HostSessionClient::local(initial());
    let snapshot = initial();
    let attach = |client: &mut HostSessionClient, shown: Option<&HostWorkspaceIdentity>| {
        client.attach_initial_projection(
            &snapshot.workspaces[0],
            ProjectHandle { value: 10 },
            WorkspaceHandle { value: 20 },
            shown,
        )
    };
    assert_eq!(
        attach(&mut client, None).unwrap_err().message(),
        "initial workspace identity does not match its server snapshot"
    );
    attach(&mut client, Some(&identity(1, 1))).unwrap();
    assert_eq!(
        attach(&mut client, Some(&identity(1, 1))).unwrap_err().message(),
        "initial host projection may only be attached once"
    );
    let mut known = HostSessionClient::local(initial());
    known.attach_project(ProjectId::first(), ProjectHandle { value: 10 });
    assert_eq!(
        attach(&mut known, Some(&identity(1, 1))).unwrap_err().message(),
        "initial host project may only be attached once"
    );
    let workspace = HostSessionClient::initial_workspace_snapshot(&snapshot).unwrap();
    assert_eq!(workspace.id, WorkspaceId::from_uuid(1));
    let mut lost = initial();
    lost.active_workspace_id = WorkspaceId::from_uuid(9);
    assert_eq!(
        HostSessionClient::initial_workspace_snapshot(&lost).unwrap_err().message(),
        "Super Zed host session has no active workspace"
    );
}

#[test]
fn intents_become_requests() {
    let mut session = initial();
    session.workspaces[0].project_spec = spec(&["/a", "/b"]);
    session.workspaces[0].layout_revision = 4;
    session.revision = 7;
    let client = HostSessionClient::local(session);
    let id = WorkspaceId::from_uuid(1);
    let request = |intent: &MutationIntent| client.request_for(intent).unwrap();

    let create = request(&HostSessionClient::create_workspace(spec(&["/c"])));
    assert_eq!(create.expected_revision, 7);
    assert_eq!(
        create.mutation,
        SessionMutation::CreateWorkspace { after: Some(id), project_spec: spec(&["/c"]) }
    );
    assert_eq!(
        request(&HostSessionClient::add_project_root(id, HostPath::new("/c"))).mutation,
        SessionMutation::SetWorkspaceProjectRoots {
            workspace_id: id,
            project_spec: spec(&["/a", "/b", "/c"]),
        }
    );
    assert_eq!(
        request(&HostSessionClient::remove_project_root(id, HostPath::new("/a"))).mutation,
        SessionMutation::SetWorkspaceProjectRoots {
            workspace_id: id,
            project_spec: spec(&["/b"]),
        }
    );
    assert_eq!(
        request(&HostSessionClient::replace_layout(
            id,
            LayoutNode::empty_with(PaneId::from_uuid(3))
        ))
        .mutation,
        SessionMutation::ReplaceWorkspaceLayout {
            workspace_id: id,
            expected_layout_revision: 4,
            layout: LayoutNode::empty_with(PaneId::from_uuid(3)),
        }
    );
    assert_eq!(
        request(&HostSessionClient::close_workspace(id)).mutation,
        SessionMutation::CloseWorkspace { workspace_id: id }
    );
    assert_eq!(
        request(&HostSessionClient::activate_workspace(id)).mutation,
        SessionMutation::ActivateWorkspace { workspace_id: id }
    );

    let absent = WorkspaceId::from_uuid(9);
    let refusal = |intent: MutationIntent| client.request_for(&intent).unwrap_err().message();
    assert_eq!(
        refusal(HostSessionClient::add_project_roots(absent, Vec::new())),
        "workspace for added project root is absent"
    );
    assert_eq!(
        refusal(HostSessionClient::remove_project_root(absent, HostPath::new("/a"))),
        "workspace for removed project root is absent"
    );
    assert_eq!(
        refusal(HostSessionClient::replace_layout(absent, LayoutNode::empty())),
        "serialized workspace is absent from host session"
    );
}

#[test]
fn clients_come_to_follow_a_session() {
    let mut client = attached();
    let mut session = initial();
    session
        .apply_with(
            MutationRequest {
                expected_revision: 0,
                mutation: SessionMutation::CreateWorkspace {
                    after: Some(WorkspaceId::from_uuid(1)),
                    project_spec: spec(&["/code"]),
                },
            },
            fresh(3, 4),
        )
        .unwrap();
    let plan = client.reconcile(session.clone()).unwrap();
    assert!(!plan.activate_host);
    assert!(matches!(plan.actions[0], ReconcileAction::CreateProject { .. }));
    assert!(matches!(plan.actions[1], ReconcileAction::InitializeProject { .. }));
    assert!(matches!(plan.actions[2], ReconcileAction::CreateWorkspace { .. }));
    let second = ProjectId::new(2).unwrap();
    client.attach_project(second, ProjectHandle { value: 11 });
    let created = vec![CreatedWorkspace {
        workspace_id: WorkspaceId::from_uuid(3),
        handle: WorkspaceHandle { value: 21 },
    }];
    let outcome = client.finish_reconciliation(plan, &created).unwrap();
    assert_eq!(
        outcome.ordered_workspaces,
        vec![WorkspaceHandle { value: 20 }, WorkspaceHandle { value: 21 }]
    );
    assert_eq!(outcome.active_workspace, WorkspaceHandle { value: 21 });
    assert!(outcome.removed_projects.is_empty());
    assert_eq!(client.snapshot(), &session);

    let again = client.reconcile(session.clone()).unwrap();
    assert!(again.actions.is_empty());

    session
        .apply_with(
            MutationRequest {
                expected_revision: 1,
                mutation: SessionMutation::CloseWorkspace {
                    workspace_id: WorkspaceId::from_uuid(1),
                },
            },
            fresh(5, 6),
        )
        .unwrap();
    let intent = HostSessionClient::close_workspace(WorkspaceId::from_uuid(1));
    let plan = client.accept_answer(&intent, session.clone(), true).unwrap();
    let outcome = client.finish_reconciliation(plan, &Vec::new()).unwrap();
    assert_eq!(outcome.removed_projects, vec![ProjectId::first()]);
    assert_eq!(client.project(ProjectId::first()), None);
}

#[test]
fn invalid_snapshots_are_refused() {
    let mut client = attached();
    let mut broken = initial();
    broken.workspaces.clear();
    assert!(client.reconcile(broken.clone()).is_err());
    let intent = HostSessionClient::activate_workspace(WorkspaceId::from_uuid(1));
    assert_eq!(
        client.accept_answer(&intent, broken, false).unwrap_err().message(),
        "validating mutated Super Zed host session"
    );
    let mut session = initial();
    session
        .apply_with(
            MutationRequest {
                expected_revision: 0,
                mutation: SessionMutation::CreateWorkspace {
                    after: None,
                    project_spec: ProjectSpec::default(),
                },
            },
            fresh(3, 4),
        )
        .unwrap();
    let plan = client.reconcile(session).unwrap();
    assert_eq!(
        client.finish_reconciliation(plan, &Vec::new()).unwrap_err().message(),
        "reconciled workspace projection is missing"
    );
    assert_eq!(client.snapshot(), &initial());
}

#[test]
fn stale_mutations_are_sent_once_more() {
    let intent = || HostSessionClient::activate_workspace(WorkspaceId::from_uuid(1));
    let mut run = MutationRun::new(intent());
    assert_eq!(run.note_answer(false), AttemptOutcome::Retry);
    assert_eq!(run.note_answer(false), AttemptOutcome::GiveUp);
    let mut run = MutationRun::new(intent());
    assert_eq!(run.note_answer(false), AttemptOutcome::Retry);
    assert_eq!(run.note_answer(true), AttemptOutcome::Done);
    let mut run = MutationRun::new(intent());
    assert_eq!(run.note_answer(true), AttemptOutcome::Done);
}

#[test]
fn missing_names_are_kept() {
    let mut search = Canonicalization::new(HostPath::new("/link/new/file.rs"));
    assert!(search.step_up());
    assert_eq!(search.ancestor.as_str(), "/link/new");
    assert!(search.step_up());
    assert_eq!(search.ancestor.as_str(), "/link");
    assert_eq!(
        search.finish(HostPath::new("/real")).as_str(),
        "/real/new/file.rs"
    );
    assert!(search.step_up());
    assert!(!search.step_up());
}

#[test]
fn resolved_roots_are_directories_and_differ() {
    let resolved = |requested: &str, canonical: &str, is_file: bool| ResolvedPath {
        requested_path: HostPath::new(requested),
        canonical_path: HostPath::new(canonical),
        is_file,
    };
    let spec = canonicalize_project_spec(vec![
        resolved("/link", "/code", false),
        resolved("/code/main.rs", "/code/main.rs", true),
        resolved("/other", "/other", false),
    ])
    .unwrap();
    let roots: Vec<(&str, &str)> = spec
        .roots
        .iter()
        .map(|root| (root.requested_path.as_str(), root.canonical_path.as_str()))
        .collect();
    assert_eq!(roots, vec![("/link", "/code"), ("/other", "/other")]);
    assert!(canonicalize_project_spec(vec![resolved("/", "/", true)]).is_none());
}

#[test]
fn directories_are_listed() {
    let entries = vec![
        DirectoryEntry { path: HostPath::new("/code/src"), is_dir: true },
        DirectoryEntry { path: HostPath::new("/code/.."), is_dir: true },
        DirectoryEntry { path: HostPath::new("/code/main.rs"), is_dir: false },
    ];
    let listing = list_remote_directory(&entries, true);
    assert_eq!(listing.entries, vec!["src", "main.rs"]);
    assert_eq!(listing.entry_info, vec![true, false]);
    assert!(list_remote_directory(&entries, false).entry_info.is_empty());
    assert_eq!(directory_to_list(PathStyle::Posix, "/code").as_str(), "/code");
    assert_eq!(directory_to_list(PathStyle::Posix, "~other/code").as_str(), "~other/code");
    assert!(directory_to_list(PathStyle::Posix, "~/code").as_str().ends_with("/code"));
}

#[test]
fn resolved_roots_go_to_the_target() {
    let client = HostSessionClient::local(initial());
    let target = identity(1, 1);
    assert!(client.check_target(&target).is_ok());
    let intent = HostSessionClient::replace_workspace_project_roots(&target, spec(&["/real"]));
    let request = client.request_for(&intent).unwrap();
    assert_eq!(
        request.mutation,
        SessionMutation::SetWorkspaceProjectRoots {
            workspace_id: target.workspace_id,
            project_spec: spec(&["/real"]),
        }
    );
}

#[test]
fn roots_are_resolved_in_requests() {
    let request = |mutation| MutationRequest { expected_revision: 7, mutation };
    let create = request(SessionMutation::CreateWorkspace {
        after: None,
        project_spec: spec(&["/link"]),
    });
    assert_eq!(roots_to_resolve(&create), Some(&spec(&["/link"])));
    assert_eq!(
        with_resolved_roots(create, spec(&["/real"])),
        request(SessionMutation::CreateWorkspace {
            after: None,
            project_spec: spec(&["/real"]),
        })
    );
    let set = request(SessionMutation::SetWorkspaceProjectRoots {
        workspace_id: WorkspaceId::from_uuid(1),
        project_spec: spec(&["/link"]),
    });
    assert_eq!(
        with_resolved_roots(set, spec(&["/real"])),
        request(SessionMutation::SetWorkspaceProjectRoots {
            workspace_id: WorkspaceId::from_uuid(1),
            project_spec: spec(&["/real"]),
        })
    );
    let close = request(SessionMutation::CloseWorkspace {
        workspace_id: WorkspaceId::from_uuid(1),
    });
    assert_eq!(roots_to_resolve(&close), None);
    assert_eq!(
        with_resolved_roots(close, spec(&["/real"])),
        request(SessionMutation::CloseWorkspace { workspace_id: WorkspaceId::from_uuid(1) })
    );
}
