use superzed_session::error::SessionError;
use superzed_session::ids::{PaneId, ProjectId, SessionItemId, WorkspaceId};
use superzed_session::layout::{
    validate_layout, FileEditorItem, LayoutAxis, LayoutNode, PaneSnapshot,
};
use superzed_session::path::HostPath;
use superzed_session::session::{
    validate_project_spec, FreshIds, HostSessionSnapshot, MutationRequest, ProjectRoot,
    ProjectSpec, SessionMutation,
};

fn absolute_project_spec(paths: &[&str]) -> ProjectSpec {
    ProjectSpec {
        roots: paths
            .iter()
            .map(|path| ProjectRoot {
                requested_path: HostPath::new(path),
                canonical_path: HostPath::new(path),
            })
            .collect(),
    }
}

fn apply(session: &mut HostSessionSnapshot, mutation: SessionMutation) {
    let expected_revision = session.revision;
    session
        .apply(MutationRequest { expected_revision, mutation })
        .expect("session mutation should succeed");
}

fn flexes(values: &[f32]) -> Vec<u32> {
    values.iter().map(|value| value.to_bits()).collect()
}

fn workspace_ids(session: &HostSessionSnapshot) -> Vec<WorkspaceId> {
    session.workspaces.iter().map(|workspace| workspace.id).collect()
}

#[test]
fn closing_last_workspace_creates_blank_replacement() {
    let mut session = HostSessionSnapshot::default();
    let original_id = session.active_workspace_id;
    session
        .apply(MutationRequest {
            expected_revision: 0,
            mutation: SessionMutation::CloseWorkspace { workspace_id: original_id },
        })
        .expect("closing the last workspace should create a replacement");

    assert_eq!(session.workspaces.len(), 1);
    assert_ne!(session.active_workspace_id, original_id);
    assert_eq!(session.workspaces[0].project_id.get(), 2);
    assert_eq!(session.next_project_id, 3);
    assert!(session.workspaces[0].project_spec.roots.is_empty());
}

#[test]
fn create_activate_and_close_preserve_server_order() {
    let mut session = HostSessionSnapshot::default();
    let first_workspace_id = session.active_workspace_id;
    apply(
        &mut session,
        SessionMutation::CreateWorkspace {
            after: Some(first_workspace_id),
            project_spec: absolute_project_spec(&["/code/second"]),
        },
    );
    let second_workspace_id = session.active_workspace_id;
    apply(
        &mut session,
        SessionMutation::CreateWorkspace {
            after: Some(first_workspace_id),
            project_spec: absolute_project_spec(&["/code/third"]),
        },
    );
    let third_workspace_id = session.active_workspace_id;

    assert_eq!(
        workspace_ids(&session),
        vec![first_workspace_id, third_workspace_id, second_workspace_id]
    );
    assert_eq!(
        session
            .workspaces
            .iter()
            .map(|workspace| workspace.project_id.get())
            .collect::<Vec<_>>(),
        vec![1, 3, 2]
    );

    apply(
        &mut session,
        SessionMutation::ActivateWorkspace { workspace_id: second_workspace_id },
    );
    apply(
        &mut session,
        SessionMutation::CloseWorkspace { workspace_id: third_workspace_id },
    );
    assert_eq!(session.active_workspace_id, second_workspace_id);
    assert_eq!(
        workspace_ids(&session),
        vec![first_workspace_id, second_workspace_id]
    );

    apply(
        &mut session,
        SessionMutation::CloseWorkspace { workspace_id: second_workspace_id },
    );
    assert_eq!(session.active_workspace_id, first_workspace_id);
}

#[test]
fn project_roots_and_layout_replace_only_the_target_workspace() {
    let mut session = HostSessionSnapshot::default();
    let first_workspace_id = session.active_workspace_id;
    apply(
        &mut session,
        SessionMutation::CreateWorkspace {
            after: Some(first_workspace_id),
            project_spec: absolute_project_spec(&["/code/second"]),
        },
    );
    let second_workspace_id = session.active_workspace_id;
    let first_project_spec = absolute_project_spec(&["/code/first", "/code/shared"]);
    apply(
        &mut session,
        SessionMutation::SetWorkspaceProjectRoots {
            workspace_id: first_workspace_id,
            project_spec: first_project_spec.clone(),
        },
    );

    let item = FileEditorItem {
        id: SessionItemId::new(),
        absolute_path: HostPath::new("/code/first/src/main.rs"),
        pinned: true,
        preview: false,
    };
    let layout = LayoutNode::Pane(PaneSnapshot {
        id: PaneId::new(),
        items: vec![item.clone()],
        active_item_id: Some(item.id),
        focused: true,
    });
    apply(
        &mut session,
        SessionMutation::ReplaceWorkspaceLayout {
            workspace_id: first_workspace_id,
            expected_layout_revision: 0,
            layout: layout.clone(),
        },
    );

    let first = session
        .workspaces
        .iter()
        .find(|workspace| workspace.id == first_workspace_id)
        .expect("first workspace should remain present");
    let second = session
        .workspaces
        .iter()
        .find(|workspace| workspace.id == second_workspace_id)
        .expect("second workspace should remain present");
    assert_eq!(first.project_spec, first_project_spec);
    assert_eq!(first.layout, layout);
    assert_eq!(first.layout_revision, 1);
    assert_eq!(
        second.project_spec,
        absolute_project_spec(&["/code/second"])
    );
    assert_eq!(second.layout_revision, 0);
}

#[test]
fn rejects_stale_session_and_layout_revisions() {
    let mut session = HostSessionSnapshot::default();
    let workspace = session.workspaces[0].clone();
    let stale_session = session.apply(MutationRequest {
        expected_revision: 1,
        mutation: SessionMutation::ActivateWorkspace { workspace_id: workspace.id },
    });
    assert!(matches!(
        stale_session,
        Err(SessionError::StaleRevision { .. })
    ));

    let stale_layout = session.apply(MutationRequest {
        expected_revision: 0,
        mutation: SessionMutation::ReplaceWorkspaceLayout {
            workspace_id: workspace.id,
            expected_layout_revision: 1,
            layout: LayoutNode::empty(),
        },
    });
    assert!(matches!(
        stale_layout,
        Err(SessionError::StaleLayoutRevision { .. })
    ));
}

#[test]
fn rejects_duplicate_panes_and_invalid_flexes() {
    let pane = PaneSnapshot::empty();
    let layout = LayoutNode::Axis {
        axis: LayoutAxis::Horizontal,
        flexes: flexes(&[1.0, 0.0]),
        children: vec![LayoutNode::Pane(pane.clone()), LayoutNode::Pane(pane)],
    };
    assert!(validate_layout(&layout).is_err());
}

#[test]
fn validates_snapshot_identity_roots_and_layout_references() {
    let session = HostSessionSnapshot::default();

    let mut duplicate_workspace = session.clone();
    let copy = duplicate_workspace.workspaces[0].clone();
    duplicate_workspace.workspaces.push(copy);
    assert!(duplicate_workspace.validate().is_err());

    let mut missing_active = session.clone();
    missing_active.active_workspace_id = WorkspaceId::new();
    assert!(missing_active.validate().is_err());

    let mut relative_root = session.clone();
    relative_root.workspaces[0].project_spec = ProjectSpec {
        roots: vec![ProjectRoot {
            requested_path: HostPath::new("relative"),
            canonical_path: HostPath::new("/code/relative"),
        }],
    };
    assert!(relative_root.validate().is_err());

    let mut duplicate_root = session.clone();
    duplicate_root.workspaces[0].project_spec = ProjectSpec {
        roots: vec![
            ProjectRoot {
                requested_path: HostPath::new("/code/one"),
                canonical_path: HostPath::new("/code/shared"),
            },
            ProjectRoot {
                requested_path: HostPath::new("/code/two"),
                canonical_path: HostPath::new("/code/shared"),
            },
        ],
    };
    assert!(duplicate_root.validate().is_err());

    let pane = PaneSnapshot::empty();
    let mut invalid_axis = session.clone();
    invalid_axis.workspaces[0].layout = LayoutNode::Axis {
        axis: LayoutAxis::Horizontal,
        flexes: flexes(&[1.0]),
        children: vec![LayoutNode::Pane(pane.clone())],
    };
    assert!(invalid_axis.validate().is_err());

    let mut duplicate_pane = session.clone();
    duplicate_pane.workspaces[0].layout = LayoutNode::Axis {
        axis: LayoutAxis::Horizontal,
        flexes: flexes(&[1.0, 1.0]),
        children: vec![LayoutNode::Pane(pane.clone()), LayoutNode::Pane(pane)],
    };
    assert!(duplicate_pane.validate().is_err());

    let mut absent_active_item = session.clone();
    absent_active_item.workspaces[0].layout = LayoutNode::Pane(PaneSnapshot {
        id: PaneId::new(),
        items: Vec::new(),
        active_item_id: Some(SessionItemId::new()),
        focused: true,
    });
    assert!(absent_active_item.validate().is_err());

    let mut multiple_focused = session;
    multiple_focused.workspaces[0].layout = LayoutNode::Axis {
        axis: LayoutAxis::Horizontal,
        flexes: flexes(&[1.0, 1.0]),
        children: vec![
            LayoutNode::Pane(PaneSnapshot::empty()),
            LayoutNode::Pane(PaneSnapshot::empty()),
        ],
    };
    assert!(multiple_focused.validate().is_err());
}

#[test]
fn failed_mutations_leave_the_snapshot_unchanged() {
    let mut session = HostSessionSnapshot::default();
    let before_missing_workspace = session.clone();
    let missing_workspace = WorkspaceId::new();
    let expected_revision = session.revision;
    let error = session.apply(MutationRequest {
        expected_revision,
        mutation: SessionMutation::CreateWorkspace {
            after: Some(missing_workspace),
            project_spec: ProjectSpec::default(),
        },
    });
    assert!(matches!(error, Err(SessionError::WorkspaceNotFound(id)) if id == missing_workspace));
    assert_eq!(session, before_missing_workspace);

    session.revision = u64::MAX;
    let before_revision_overflow = session.clone();
    let workspace_id = session.active_workspace_id;
    let error = session.apply(MutationRequest {
        expected_revision: u64::MAX,
        mutation: SessionMutation::ActivateWorkspace { workspace_id },
    });
    assert!(matches!(error, Err(SessionError::SessionRevisionExhausted)));
    assert_eq!(session, before_revision_overflow);
}

#[test]
fn project_ids_are_not_reused_after_workspace_close() {
    let mut session = HostSessionSnapshot::default();
    let first_workspace_id = session.active_workspace_id;
    session
        .apply(MutationRequest {
            expected_revision: 0,
            mutation: SessionMutation::CloseWorkspace { workspace_id: first_workspace_id },
        })
        .expect("replacement workspace should be created");
    let replacement_project_id = session.workspaces[0].project_id;
    let after = session.active_workspace_id;
    session
        .apply(MutationRequest {
            expected_revision: 1,
            mutation: SessionMutation::CreateWorkspace {
                after: Some(after),
                project_spec: ProjectSpec::default(),
            },
        })
        .expect("second workspace should be created");

    assert_eq!(replacement_project_id.get(), 2);
    assert_eq!(session.workspaces[1].project_id.get(), 3);
    assert_eq!(session.next_project_id, 4);
}

fn fresh(workspace: u128, pane: u128) -> FreshIds {
    FreshIds {
        workspace: WorkspaceId::from_uuid(workspace),
        pane: PaneId::from_uuid(pane),
    }
}

#[test]
fn identities_are_written_like_uuids() {
    let id = WorkspaceId::from_uuid(0x00112233445566778899aabbccddeeff);
    assert_eq!(id.to_text(), "00112233-4455-6677-8899-aabbccddeeff");
    assert_eq!(id.as_uuid(), 0x00112233445566778899aabbccddeeff);
    let random = PaneId::new();
    assert_eq!((random.as_uuid() >> 76) & 0xf, 4);
    assert_eq!((random.as_uuid() >> 62) & 0x3, 2);
    assert_ne!(SessionItemId::new(), SessionItemId::new());
}

#[test]
fn project_numbers_are_never_zero() {
    assert_eq!(ProjectId::new(0), None);
    assert_eq!(ProjectId::new(7).map(|id| id.get()), Some(7));
    assert_eq!(ProjectId::first().get(), 1);
}

#[test]
fn sessions_start_with_one_blank_workspace() {
    let session = HostSessionSnapshot::initial_with(fresh(5, 6));
    assert_eq!(session.revision, 0);
    assert_eq!(session.next_project_id, 2);
    assert_eq!(session.active_workspace_id, WorkspaceId::from_uuid(5));
    assert_eq!(session.workspaces.len(), 1);
    assert_eq!(session.workspaces[0].project_id.get(), 1);
    assert_eq!(session.workspaces[0].layout_revision, 0);
    assert_eq!(
        session.workspaces[0].layout,
        LayoutNode::Pane(PaneSnapshot {
            id: PaneId::from_uuid(6),
            items: Vec::new(),
            active_item_id: None,
            focused: true,
        })
    );
    assert!(session.validate().is_ok());
    assert_eq!(session.workspace_index(WorkspaceId::from_uuid(5)), Some(0));
    assert_eq!(session.workspace_index(WorkspaceId::from_uuid(6)), None);
    assert!(session.has_project(1));
    assert!(!session.has_project(2));
}

#[test]
fn requests_for_the_same_revision_exclude_each_other() {
    let mut session = HostSessionSnapshot::initial_with(fresh(1, 2));
    let request = || MutationRequest {
        expected_revision: 0,
        mutation: SessionMutation::ActivateWorkspace { workspace_id: WorkspaceId::from_uuid(1) },
    };
    assert!(session.apply_with(request(), fresh(3, 4)).is_ok());
    assert_eq!(session.revision, 1);
    let error = session.apply_with(request(), fresh(5, 6)).unwrap_err();
    assert!(matches!(error, SessionError::StaleRevision { expected: 0, current: 1 }));
    assert_eq!(error.message(), "session revision is stale: expected 0, current 1");
}

#[test]
fn project_numbers_run_out() {
    let mut session = HostSessionSnapshot::initial_with(fresh(1, 2));
    session.next_project_id = u64::MAX;
    let before = session.clone();
    let error = session
        .apply_with(
            MutationRequest {
                expected_revision: 0,
                mutation: SessionMutation::CreateWorkspace {
                    after: None,
                    project_spec: ProjectSpec::default(),
                },
            },
            fresh(3, 4),
        )
        .unwrap_err();
    assert!(matches!(error, SessionError::ProjectIdExhausted));
    assert_eq!(error.message(), "project id space is exhausted");
    assert_eq!(session, before);
}

#[test]
fn session_errors_have_messages() {
    let id = WorkspaceId::from_uuid(1);
    assert_eq!(
        SessionError::WorkspaceNotFound(id).message(),
        "workspace 00000000-0000-0000-0000-000000000001 does not exist"
    );
    assert_eq!(
        SessionError::StaleLayoutRevision { expected: 3, current: 12 }.message(),
        "layout revision is stale: expected 3, current 12"
    );
    assert_eq!(
        SessionError::SessionRevisionExhausted.message(),
        "session revision space is exhausted"
    );
    let roots = ProjectSpec {
        roots: vec![ProjectRoot {
            requested_path: HostPath::new("relative"),
            canonical_path: HostPath::new("/code"),
        }],
    };
    let error = validate_project_spec(&roots).unwrap_err();
    assert!(matches!(error, SessionError::Invalid(_)));
    assert!(error.message().starts_with("invalid session snapshot: "));
}

#[test]
fn layouts_are_valid_or_refused() {
    assert!(validate_layout(&LayoutNode::empty_with(PaneId::from_uuid(1))).is_ok());
    let unfocused = |id: u128| {
        LayoutNode::Pane(PaneSnapshot {
            id: PaneId::from_uuid(id),
            items: Vec::new(),
            active_item_id: None,
            focused: false,
        })
    };
    let focused = |id: u128| LayoutNode::empty_with(PaneId::from_uuid(id));
    let axis = |shares: &[f32], children: Vec<LayoutNode>| LayoutNode::Axis {
        axis: LayoutAxis::Vertical,
        flexes: flexes(shares),
        children,
    };
    assert!(validate_layout(&axis(&[1.0, 2.5], vec![focused(1), unfocused(2)])).is_ok());
    assert!(validate_layout(&axis(&[1.0, 2.5], vec![unfocused(1), unfocused(2)])).is_ok());
    for share in [0.0, -1.0, f32::NAN, f32::INFINITY] {
        assert!(validate_layout(&axis(&[1.0, share], vec![focused(1), unfocused(2)])).is_err());
    }
    assert!(validate_layout(&axis(&[1.0], vec![focused(1), unfocused(2)])).is_err());
    let nested = axis(
        &[0.5, 0.5],
        vec![
            axis(&[1.0, 1.0], vec![unfocused(1), focused(2)]),
            unfocused(3),
        ],
    );
    assert!(validate_layout(&nested).is_ok());
}

#[test]
fn closing_the_active_workspace_activates_a_neighbour() {
    let mut session = HostSessionSnapshot::initial_with(fresh(1, 2));
    let create = |revision: u64, after: u128| MutationRequest {
        expected_revision: revision,
        mutation: SessionMutation::CreateWorkspace {
            after: Some(WorkspaceId::from_uuid(after)),
            project_spec: ProjectSpec::default(),
        },
    };
    session.apply_with(create(0, 1), fresh(3, 4)).unwrap();
    session.apply_with(create(1, 3), fresh(5, 6)).unwrap();
    assert_eq!(session.active_workspace_id, WorkspaceId::from_uuid(5));
    let close = |revision: u64, id: u128| MutationRequest {
        expected_revision: revision,
        mutation: SessionMutation::CloseWorkspace { workspace_id: WorkspaceId::from_uuid(id) },
    };
    session.apply_with(close(2, 5), fresh(7, 8)).unwrap();
    assert_eq!(session.active_workspace_id, WorkspaceId::from_uuid(3));
    session.apply_with(close(3, 1), fresh(9, 10)).unwrap();
    assert_eq!(session.active_workspace_id, WorkspaceId::from_uuid(3));
    assert_eq!(session.revision, 4);
}

fn refusal(result: Result<(), SessionError>) -> String {
    match result {
        Err(SessionError::Invalid(message)) => message,
        other => panic!("expected a violation, got {other:?}"),
    }
}

#[test]
fn every_violation_is_named() {
    let session = || HostSessionSnapshot::initial_with(fresh(1, 2));
    let one = "00000000-0000-0000-0000-000000000001";

    let mut empty = session();
    empty.workspaces.clear();
    assert_eq!(
        refusal(empty.validate()),
        "a host session must contain at least one workspace"
    );

    let mut exhausted = session();
    exhausted.next_project_id = 1;
    assert_eq!(
        refusal(exhausted.validate()),
        "next project id must be greater than every active project id"
    );

    let mut twice = session();
    let copy = twice.workspaces[0].clone();
    twice.workspaces.push(copy);
    assert_eq!(refusal(twice.validate()), format!("duplicate workspace id {one}"));

    let mut shared = session();
    let mut copy = shared.workspaces[0].clone();
    copy.id = WorkspaceId::from_uuid(9);
    shared.workspaces.push(copy);
    assert_eq!(
        refusal(shared.validate()),
        "project id 1 is assigned to multiple workspace scopes"
    );

    let mut absent = session();
    absent.active_workspace_id = WorkspaceId::from_uuid(9);
    assert_eq!(
        refusal(absent.validate()),
        "active workspace is absent from the session"
    );

    assert_eq!(
        refusal(validate_project_spec(&absolute_project_spec(&["code"]))),
        "project roots must use absolute requested and canonical paths"
    );
    assert_eq!(
        refusal(validate_project_spec(&absolute_project_spec(&["/code", "/code/"]))),
        "duplicate canonical project root /code/"
    );

    let pane = |id: u128, focused: bool, items: Vec<FileEditorItem>, active: Option<u128>| {
        LayoutNode::Pane(PaneSnapshot {
            id: PaneId::from_uuid(id),
            items,
            active_item_id: active.map(SessionItemId::from_uuid),
            focused,
        })
    };
    let item = |id: u128, path: &str| FileEditorItem {
        id: SessionItemId::from_uuid(id),
        absolute_path: HostPath::new(path),
        pinned: false,
        preview: true,
    };
    let axis = |shares: &[f32], children: Vec<LayoutNode>| LayoutNode::Axis {
        axis: LayoutAxis::Horizontal,
        flexes: flexes(shares),
        children,
    };
    assert_eq!(
        refusal(validate_layout(&axis(&[1.0], vec![pane(1, true, vec![], None)]))),
        "a layout axis must contain at least two children"
    );
    let two = |first: LayoutNode, second: LayoutNode| axis(&[1.0, 1.0], vec![first, second]);
    assert_eq!(
        refusal(validate_layout(&axis(
            &[1.0],
            vec![pane(1, true, vec![], None), pane(2, false, vec![], None)]
        ))),
        "layout flex count must match child count"
    );
    assert_eq!(
        refusal(validate_layout(&axis(
            &[1.0, f32::NAN],
            vec![pane(1, true, vec![], None), pane(2, false, vec![], None)]
        ))),
        "layout flex values must be finite and positive"
    );
    assert_eq!(
        refusal(validate_layout(&two(
            pane(1, true, vec![], None),
            pane(1, false, vec![], None)
        ))),
        format!("duplicate pane id {one}")
    );
    assert_eq!(
        refusal(validate_layout(&pane(1, true, vec![item(1, "main.rs")], None))),
        "file editor paths must be absolute"
    );
    assert_eq!(
        refusal(validate_layout(&two(
            pane(1, true, vec![item(1, "/a")], None),
            pane(2, false, vec![item(1, "/b")], None)
        ))),
        format!("duplicate session item id {one}")
    );
    assert_eq!(
        refusal(validate_layout(&pane(1, true, vec![item(2, "/a")], Some(3)))),
        format!("pane {one} has an absent active item")
    );
    assert_eq!(
        refusal(validate_layout(&two(
            pane(1, true, vec![], None),
            pane(2, true, vec![], None)
        ))),
        "a workspace layout cannot contain multiple focused panes"
    );
}

#[test]
fn workspaces_may_have_identical_roots() {
    let mut session = HostSessionSnapshot::default();
    let first = session.active_workspace_id;
    for _ in 0..2 {
        apply(
            &mut session,
            SessionMutation::CreateWorkspace {
                after: Some(first),
                project_spec: absolute_project_spec(&["/code"]),
            },
        );
    }
    apply(
        &mut session,
        SessionMutation::SetWorkspaceProjectRoots {
            workspace_id: first,
            project_spec: absolute_project_spec(&["/code"]),
        },
    );
    assert_eq!(session.workspaces.len(), 3);
    assert_eq!(session.workspaces[0].project_spec, session.workspaces[1].project_spec);
    assert_ne!(session.workspaces[0].id, session.workspaces[1].id);
    assert_ne!(session.workspaces[0].project_id, session.workspaces[1].project_id);
}
