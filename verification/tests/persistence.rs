use superzed_session::ids::{PaneId, ProjectId, WorkspaceId};
use superzed_session::path::HostPath;
use superzed_session::persistence::{
    load_tables, save_tables, HostSessionDb, PersistenceError, SessionTables, TableColumns,
};
use superzed_session::session::{
    FreshIds, HostSessionSnapshot, MutationRequest, ProjectRoot, ProjectSpec, SessionMutation,
};
use superzed_session::superzed_host::SuperzedHost;

fn texts(words: &[&str]) -> Vec<String> {
    words.iter().map(|word| word.to_string()).collect()
}

fn no_tables() -> SessionTables {
    SessionTables { session: None, projects: Vec::new(), workspaces: Vec::new() }
}

#[test]
fn database_round_trips_ordered_workspaces() {
    let mut database = HostSessionDb::in_memory();
    let mut snapshot = HostSessionSnapshot::default();
    let after = snapshot.active_workspace_id;
    snapshot
        .apply(MutationRequest {
            expected_revision: 0,
            mutation: SessionMutation::CreateWorkspace {
                after: Some(after),
                project_spec: ProjectSpec {
                    roots: vec![ProjectRoot {
                        requested_path: HostPath::new("/code/server"),
                        canonical_path: HostPath::new("/code/server"),
                    }],
                },
            },
        })
        .expect("workspace should be created");

    database.save(&snapshot, Ok(())).expect("snapshot should save");
    let restored = database
        .load()
        .expect("snapshot should load")
        .expect("snapshot should exist");
    assert_eq!(restored, snapshot);
}

#[test]
fn migrates_database_without_project_id_allocator() {
    let columns = TableColumns {
        session: texts(&["singleton", "revision", "active_workspace_id"]),
        workspaces: Vec::new(),
    };
    let mut database = HostSessionDb::from_connection(columns, no_tables())
        .expect("legacy database should migrate");
    database
        .save(&HostSessionSnapshot::default(), Ok(()))
        .expect("migrated database should save");
    assert!(database.load().expect("snapshot should load").is_some());
}

#[test]
fn migrates_database_with_deferred_workspace_name_column() {
    let columns = TableColumns {
        session: texts(&["singleton", "revision", "next_project_id", "active_workspace_id"]),
        workspaces: texts(&[
            "id",
            "name",
            "position",
            "project_id",
            "layout_revision",
            "layout_json",
        ]),
    };
    let database = HostSessionDb::from_connection(columns, no_tables())
        .expect("workspace name column should migrate");
    assert!(!database.columns.workspaces.iter().any(|column| column == "name"));
}

#[test]
fn failed_commit_rolls_back_database_and_authoritative_snapshot() {
    let mut database = HostSessionDb::in_memory();
    let mut authoritative_snapshot = HostSessionSnapshot::default();
    database
        .save(&authoritative_snapshot, Ok(()))
        .expect("initial snapshot should save");
    let initial_snapshot = authoritative_snapshot.clone();

    let expected_revision = authoritative_snapshot.revision;
    let active_workspace_id = authoritative_snapshot.active_workspace_id;
    let result = database.commit_mutation(
        &mut authoritative_snapshot,
        MutationRequest {
            expected_revision,
            mutation: SessionMutation::CreateWorkspace {
                after: Some(active_workspace_id),
                project_spec: ProjectSpec::default(),
            },
        },
        Err("injected workspace insert failure".to_string()),
    );
    assert!(result.is_err());
    assert_eq!(authoritative_snapshot, initial_snapshot);

    assert_eq!(
        database
            .load()
            .expect("snapshot should load after rollback")
            .expect("snapshot should remain present"),
        initial_snapshot
    );
}

fn fresh(workspace: u128, pane: u128) -> FreshIds {
    FreshIds {
        workspace: WorkspaceId::from_uuid(workspace),
        pane: PaneId::from_uuid(pane),
    }
}

fn initial() -> HostSessionSnapshot {
    HostSessionSnapshot::initial_with(fresh(1, 2))
}

fn load_message(tables: &SessionTables) -> String {
    load_tables(tables).unwrap_err().message()
}

#[test]
fn an_empty_database_holds_no_session() {
    let database = HostSessionDb::in_memory();
    assert!(database.load().unwrap().is_none());
}

#[test]
fn rows_are_written_as_they_are_read() {
    let tables = save_tables(&initial()).unwrap();
    let row = tables.session.as_ref().unwrap();
    assert_eq!(row.revision, 0);
    assert_eq!(row.next_project_id, 2);
    assert_eq!(row.active_workspace_id, "00000000-0000-0000-0000-000000000001");
    assert_eq!(tables.projects.len(), 1);
    assert_eq!(tables.projects[0].id, 1);
    assert_eq!(tables.workspaces[0].position, 0);
    assert_eq!(load_tables(&tables).unwrap(), Some(initial()));
}

#[test]
fn rows_that_cannot_be_read_are_named() {
    let tables = || save_tables(&initial()).unwrap();
    let mut rows = tables();
    rows.projects[0].id = -1;
    assert_eq!(load_message(&rows), "project id is negative");
    rows.projects[0].id = 0;
    assert_eq!(load_message(&rows), "project id is zero");
    let mut rows = tables();
    rows.projects[0].spec = None;
    assert_eq!(load_message(&rows), "deserializing project specification");
    let mut rows = tables();
    rows.workspaces[0].id = "not an id".to_string();
    assert_eq!(load_message(&rows), "parsing persisted workspace id");
    let mut rows = tables();
    rows.workspaces[0].project_id = -1;
    assert_eq!(load_message(&rows), "persisted project id is negative");
    rows.workspaces[0].project_id = 0;
    assert_eq!(load_message(&rows), "persisted project id is zero");
    rows.workspaces[0].project_id = 9;
    assert_eq!(load_message(&rows), "workspace references an absent project");
    let mut rows = tables();
    rows.workspaces[0].layout = None;
    assert_eq!(load_message(&rows), "deserializing persisted workspace layout");
    let mut rows = tables();
    rows.workspaces[0].layout_revision = -1;
    assert_eq!(load_message(&rows), "layout revision is negative");
    let mut rows = tables();
    rows.session.as_mut().unwrap().revision = -1;
    assert_eq!(load_message(&rows), "session revision is negative");
    let mut rows = tables();
    rows.session.as_mut().unwrap().next_project_id = -1;
    assert_eq!(load_message(&rows), "next project id is negative");
    let mut rows = tables();
    rows.session.as_mut().unwrap().active_workspace_id = "?".to_string();
    assert_eq!(load_message(&rows), "parsing active workspace id");
    let mut rows = tables();
    rows.session.as_mut().unwrap().next_project_id = 1;
    assert_eq!(load_message(&rows), "validating persisted host session");
}

#[test]
fn identities_are_read_in_any_uuid_form() {
    let mut rows = save_tables(&initial()).unwrap();
    rows.workspaces[0].id = "{00000000-0000-0000-0000-000000000001}".to_string();
    rows.session.as_mut().unwrap().active_workspace_id =
        "00000000000000000000000000000001".to_string();
    assert_eq!(load_tables(&rows).unwrap(), Some(initial()));
}

#[test]
fn numbers_that_do_not_fit_are_not_saved() {
    let mut session = initial();
    session.revision = u64::MAX;
    assert_eq!(
        save_tables(&session).unwrap_err().message(),
        "session revision is too large"
    );
    let mut session = initial();
    session.next_project_id = u64::MAX;
    assert_eq!(
        save_tables(&session).unwrap_err().message(),
        "next project id is too large"
    );
    let mut session = initial();
    session.workspaces[0].layout_revision = u64::MAX;
    assert_eq!(
        save_tables(&session).unwrap_err().message(),
        "layout revision is too large"
    );
    let mut session = initial();
    session.next_project_id = 0;
    assert_eq!(
        save_tables(&session).unwrap_err().message(),
        "validating host session before save"
    );
}

#[test]
fn a_host_reads_its_session_or_makes_one() {
    let (database, snapshot) =
        SuperzedHost::load_with(HostSessionDb::in_memory(), fresh(1, 2), Ok(())).unwrap();
    assert_eq!(snapshot, initial());
    assert_eq!(database.load().unwrap(), Some(initial()));
    let (_, again) = SuperzedHost::load_with(database, fresh(3, 4), Ok(())).unwrap();
    assert_eq!(again, initial());
    let refused = SuperzedHost::load(HostSessionDb::in_memory(), Err("disk full".to_string()));
    assert!(matches!(refused, Err(PersistenceError::Storage(message)) if message == "disk full"));
}

#[test]
fn a_host_answers_mutations() {
    let (database, snapshot) =
        SuperzedHost::load_with(HostSessionDb::in_memory(), fresh(1, 2), Ok(())).unwrap();
    let (mut host, actions) = SuperzedHost::new(database, snapshot);
    assert_eq!(actions.len(), 2);
    assert_eq!(host.project_count_for_test(), 1);
    assert_eq!(host.first_project().map(|id| id.get()), Some(1));

    let create = |revision: u64| MutationRequest {
        expected_revision: revision,
        mutation: SessionMutation::CreateWorkspace {
            after: None,
            project_spec: ProjectSpec::default(),
        },
    };
    let answer = host.mutate_session_with(create(0), fresh(3, 4), Ok(())).unwrap();
    assert!(answer.applied);
    assert_eq!(answer.snapshot.revision, 1);
    assert_eq!(host.project_count_for_test(), 2);
    assert!(host.project_for_test(ProjectId::new(2).unwrap()));

    let stale = host.mutate_session_with(create(0), fresh(5, 6), Ok(())).unwrap();
    assert!(!stale.applied);
    assert_eq!(stale.snapshot, host.snapshot);

    let failed = host.handle_mutate_session(create(1), Err("disk full".to_string()));
    assert!(failed.is_err());
    assert_eq!(host.snapshot.revision, 1);
    assert_eq!(host.database.load().unwrap().as_ref(), Some(&host.snapshot));

    let unknown = host.handle_mutate_session(
        MutationRequest {
            expected_revision: 1,
            mutation: SessionMutation::ActivateWorkspace {
                workspace_id: WorkspaceId::from_uuid(99),
            },
        },
        Ok(()),
    );
    assert_eq!(unknown.unwrap_err().message(), "applying host session mutation");

    let closed = host
        .mutate_session_with(
            MutationRequest {
                expected_revision: 1,
                mutation: SessionMutation::CloseWorkspace {
                    workspace_id: WorkspaceId::from_uuid(1),
                },
            },
            fresh(7, 8),
            Ok(()),
        )
        .unwrap();
    assert!(closed.applied);
    assert!(!host.project_for_test(ProjectId::new(1).unwrap()));
}
