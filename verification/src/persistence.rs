//! The stored form of a session: rows of a host-local database, written and read as a whole.

use crate::error::{SessionError, SessionFault};
use crate::ids::{parse_uuid, ProjectId, WorkspaceId};
use crate::layout::{LayoutModel, LayoutNode};
use crate::session::{
    FreshIds, HostSessionSnapshot, MutationRequest, ProjectSpec, RootModel, SessionModel,
    WorkspaceModel, WorkspaceSnapshot,
};
use vstd::prelude::*;

verus! {

/// The single row of the session table.
#[derive(Debug, PartialEq)]
pub struct SessionRow {
    pub revision: i64,
    pub next_project_id: i64,
    pub active_workspace_id: String,
}

/// A row of the project table. The specification is the decoded column, or nothing where the
/// column does not decode.
#[derive(Debug, PartialEq)]
pub struct ProjectRow {
    pub id: i64,
    pub spec: Option<ProjectSpec>,
}

/// A row of the workspace table. The layout is the decoded column, or nothing where the column
/// does not decode.
#[derive(Debug, PartialEq)]
pub struct WorkspaceRow {
    pub id: String,
    pub position: i64,
    pub project_id: i64,
    pub layout_revision: i64,
    pub layout: Option<LayoutNode>,
}

/// What the database holds: the session row, the project rows, and the workspace rows by
/// ascending position.
#[derive(Debug, PartialEq)]
pub struct SessionTables {
    pub session: Option<SessionRow>,
    pub projects: Vec<ProjectRow>,
    pub workspaces: Vec<WorkspaceRow>,
}

#[verifier::ext_equal]
pub struct SessionRowModel {
    pub revision: i64,
    pub next_project_id: i64,
    pub active: Seq<char>,
}

#[verifier::ext_equal]
pub struct ProjectRowModel {
    pub id: i64,
    pub roots: Option<Seq<RootModel>>,
}

#[verifier::ext_equal]
pub struct WorkspaceRowModel {
    pub id: Seq<char>,
    pub position: i64,
    pub project_id: i64,
    pub layout_revision: i64,
    pub layout: Option<LayoutModel>,
}

#[verifier::ext_equal]
pub struct TablesModel {
    pub session: Option<SessionRowModel>,
    pub projects: Seq<ProjectRowModel>,
    pub workspaces: Seq<WorkspaceRowModel>,
}

impl View for SessionRow {
    type V = SessionRowModel;

    open spec fn view(&self) -> SessionRowModel {
        SessionRowModel {
            revision: self.revision,
            next_project_id: self.next_project_id,
            active: self.active_workspace_id@,
        }
    }
}

impl View for ProjectRow {
    type V = ProjectRowModel;

    open spec fn view(&self) -> ProjectRowModel {
        ProjectRowModel {
            id: self.id,
            roots: match self.spec {
                Some(spec) => Some(spec@),
                None => None,
            },
        }
    }
}

impl View for WorkspaceRow {
    type V = WorkspaceRowModel;

    open spec fn view(&self) -> WorkspaceRowModel {
        WorkspaceRowModel {
            id: self.id@,
            position: self.position,
            project_id: self.project_id,
            layout_revision: self.layout_revision,
            layout: match self.layout {
                Some(layout) => Some(layout@),
                None => None,
            },
        }
    }
}

/// The rows that a sequence of project rows stands for.
pub open spec fn project_row_models(rows: Seq<ProjectRow>) -> Seq<ProjectRowModel> {
    Seq::new(rows.len(), |i: int| rows[i]@)
}

/// The rows that a sequence of workspace rows stands for.
pub open spec fn workspace_row_models(rows: Seq<WorkspaceRow>) -> Seq<WorkspaceRowModel> {
    Seq::new(rows.len(), |i: int| rows[i]@)
}

impl View for SessionTables {
    type V = TablesModel;

    open spec fn view(&self) -> TablesModel {
        TablesModel {
            session: match self.session {
                Some(row) => Some(row@),
                None => None,
            },
            projects: project_row_models(self.projects@),
            workspaces: workspace_row_models(self.workspaces@),
        }
    }
}

/// A column that a session cannot be read from.
#[derive(Clone, Copy, Debug, PartialEq, Eq, Structural)]
pub enum LoadProblem {
    NegativeProjectId,
    ZeroProjectId,
    UndecodableProject,
    WorkspaceIdText,
    NegativeWorkspaceProject,
    ZeroWorkspaceProject,
    AbsentProject,
    UndecodableLayout,
    NegativeLayoutRevision,
    NegativeRevision,
    NegativeNextProjectId,
    ActiveWorkspaceIdText,
}

/// A number that a column cannot hold.
#[derive(Clone, Copy, Debug, PartialEq, Eq, Structural)]
pub enum SaveProblem {
    RevisionTooLarge,
    NextProjectIdTooLarge,
    ProjectIdTooLarge,
    PositionTooLarge,
    LayoutRevisionTooLarge,
}

/// Why the database cannot be read or written.
#[derive(Debug)]
pub enum PersistenceError {
    Load(LoadProblem),
    Save(SaveProblem),
    InvalidStored(SessionError),
    InvalidSnapshot(SessionError),
    Rejected(SessionError),
    Migration,
    Storage(String),
}

/// A persistence error, with its texts as sequences of characters.
pub enum PersistenceFault {
    Load(LoadProblem),
    Save(SaveProblem),
    InvalidStored(SessionFault),
    InvalidSnapshot(SessionFault),
    Rejected(SessionFault),
    Migration,
    Storage(Seq<char>),
}

impl View for PersistenceError {
    type V = PersistenceFault;

    open spec fn view(&self) -> PersistenceFault {
        match *self {
            PersistenceError::Load(problem) => PersistenceFault::Load(problem),
            PersistenceError::Save(problem) => PersistenceFault::Save(problem),
            PersistenceError::InvalidStored(error) => PersistenceFault::InvalidStored(error@),
            PersistenceError::InvalidSnapshot(error) => PersistenceFault::InvalidSnapshot(error@),
            PersistenceError::Rejected(error) => PersistenceFault::Rejected(error@),
            PersistenceError::Migration => PersistenceFault::Migration,
            PersistenceError::Storage(message) => PersistenceFault::Storage(message@),
        }
    }
}

/// The words in which a persistence error is reported.
pub open spec fn persistence_message(fault: PersistenceFault) -> Seq<char> {
    match fault {
        PersistenceFault::Load(problem) => match problem {
            LoadProblem::NegativeProjectId => "project id is negative"@,
            LoadProblem::ZeroProjectId => "project id is zero"@,
            LoadProblem::UndecodableProject => "deserializing project specification"@,
            LoadProblem::WorkspaceIdText => "parsing persisted workspace id"@,
            LoadProblem::NegativeWorkspaceProject => "persisted project id is negative"@,
            LoadProblem::ZeroWorkspaceProject => "persisted project id is zero"@,
            LoadProblem::AbsentProject => "workspace references an absent project"@,
            LoadProblem::UndecodableLayout => "deserializing persisted workspace layout"@,
            LoadProblem::NegativeLayoutRevision => "layout revision is negative"@,
            LoadProblem::NegativeRevision => "session revision is negative"@,
            LoadProblem::NegativeNextProjectId => "next project id is negative"@,
            LoadProblem::ActiveWorkspaceIdText => "parsing active workspace id"@,
        },
        PersistenceFault::Save(problem) => match problem {
            SaveProblem::RevisionTooLarge => "session revision is too large"@,
            SaveProblem::NextProjectIdTooLarge => "next project id is too large"@,
            SaveProblem::ProjectIdTooLarge => "project id is too large"@,
            SaveProblem::PositionTooLarge => "workspace position is too large"@,
            SaveProblem::LayoutRevisionTooLarge => "layout revision is too large"@,
        },
        PersistenceFault::InvalidStored(_) => "validating persisted host session"@,
        PersistenceFault::InvalidSnapshot(_) => "validating host session before save"@,
        PersistenceFault::Rejected(_) => "applying host session mutation"@,
        PersistenceFault::Migration => "initializing host session project id allocator"@,
        PersistenceFault::Storage(message) => message,
    }
}

impl PersistenceError {
    /// The words in which the error is reported.
    pub fn message(&self) -> (text: String)
        ensures
            text@ == persistence_message(self@),
    {
        match self {
            PersistenceError::Load(problem) => match problem {
                LoadProblem::NegativeProjectId => "project id is negative".to_string(),
                LoadProblem::ZeroProjectId => "project id is zero".to_string(),
                LoadProblem::UndecodableProject => {
                    "deserializing project specification".to_string()
                },
                LoadProblem::WorkspaceIdText => "parsing persisted workspace id".to_string(),
                LoadProblem::NegativeWorkspaceProject => {
                    "persisted project id is negative".to_string()
                },
                LoadProblem::ZeroWorkspaceProject => "persisted project id is zero".to_string(),
                LoadProblem::AbsentProject => "workspace references an absent project".to_string(),
                LoadProblem::UndecodableLayout => {
                    "deserializing persisted workspace layout".to_string()
                },
                LoadProblem::NegativeLayoutRevision => "layout revision is negative".to_string(),
                LoadProblem::NegativeRevision => "session revision is negative".to_string(),
                LoadProblem::NegativeNextProjectId => "next project id is negative".to_string(),
                LoadProblem::ActiveWorkspaceIdText => "parsing active workspace id".to_string(),
            },
            PersistenceError::Save(problem) => match problem {
                SaveProblem::RevisionTooLarge => "session revision is too large".to_string(),
                SaveProblem::NextProjectIdTooLarge => "next project id is too large".to_string(),
                SaveProblem::ProjectIdTooLarge => "project id is too large".to_string(),
                SaveProblem::PositionTooLarge => "workspace position is too large".to_string(),
                SaveProblem::LayoutRevisionTooLarge => "layout revision is too large".to_string(),
            },
            PersistenceError::InvalidStored(_) => "validating persisted host session".to_string(),
            PersistenceError::InvalidSnapshot(_) => {
                "validating host session before save".to_string()
            },
            PersistenceError::Rejected(_) => "applying host session mutation".to_string(),
            PersistenceError::Migration => {
                "initializing host session project id allocator".to_string()
            },
            PersistenceError::Storage(message) => message.clone(),
        }
    }
}

/// What keeps a project row from being read.
pub open spec fn project_row_problem(row: ProjectRowModel) -> Option<LoadProblem> {
    if row.id < 0 {
        Some(LoadProblem::NegativeProjectId)
    } else if row.id == 0 {
        Some(LoadProblem::ZeroProjectId)
    } else if row.roots is None {
        Some(LoadProblem::UndecodableProject)
    } else {
        None
    }
}

/// What keeps the first bad project row from being read.
pub open spec fn projects_problem(rows: Seq<ProjectRowModel>) -> Option<LoadProblem>
    decreases rows.len(),
{
    if rows.len() == 0 {
        None
    } else {
        match projects_problem(rows.drop_last()) {
            Some(problem) => Some(problem),
            None => project_row_problem(rows.last()),
        }
    }
}

/// The roots of a project, from the last row with its identity.
pub open spec fn stored_roots(rows: Seq<ProjectRowModel>, id: i64) -> Option<Seq<RootModel>>
    decreases rows.len(),
{
    if rows.len() == 0 {
        None
    } else if rows.last().id == id {
        rows.last().roots
    } else {
        stored_roots(rows.drop_last(), id)
    }
}

/// The workspace in a row.
pub open spec fn loaded_workspace(
    projects: Seq<ProjectRowModel>,
    row: WorkspaceRowModel,
) -> Result<WorkspaceModel, LoadProblem> {
    match crate::ids::parsed_uuid(row.id) {
        None => Err(LoadProblem::WorkspaceIdText),
        Some(value) => if row.project_id < 0 {
            Err(LoadProblem::NegativeWorkspaceProject)
        } else if row.project_id == 0 {
            Err(LoadProblem::ZeroWorkspaceProject)
        } else {
            match stored_roots(projects, row.project_id) {
                None => Err(LoadProblem::AbsentProject),
                Some(roots) => match row.layout {
                    None => Err(LoadProblem::UndecodableLayout),
                    Some(layout) => if row.layout_revision < 0 {
                        Err(LoadProblem::NegativeLayoutRevision)
                    } else {
                        Ok(
                            WorkspaceModel {
                                id: WorkspaceId { value },
                                project: row.project_id as u64,
                                roots,
                                layout_revision: row.layout_revision as u64,
                                layout,
                            },
                        )
                    },
                },
            }
        },
    }
}

/// The workspaces in the rows.
pub open spec fn loaded_workspaces(
    projects: Seq<ProjectRowModel>,
    rows: Seq<WorkspaceRowModel>,
) -> Result<Seq<WorkspaceModel>, LoadProblem>
    decreases rows.len(),
{
    if rows.len() == 0 {
        Ok(Seq::<WorkspaceModel>::empty())
    } else {
        match loaded_workspaces(projects, rows.drop_last()) {
            Err(problem) => Err(problem),
            Ok(earlier) => match loaded_workspace(projects, rows.last()) {
                Err(problem) => Err(problem),
                Ok(workspace) => Ok(earlier.push(workspace)),
            },
        }
    }
}

/// The session in the tables, or nothing where no session was stored.
pub open spec fn loaded(tables: TablesModel) -> Result<Option<SessionModel>, PersistenceFault> {
    match tables.session {
        None => Ok(None),
        Some(row) => match projects_problem(tables.projects) {
            Some(problem) => Err(PersistenceFault::Load(problem)),
            None => match loaded_workspaces(tables.projects, tables.workspaces) {
                Err(problem) => Err(PersistenceFault::Load(problem)),
                Ok(workspaces) => if row.revision < 0 {
                    Err(PersistenceFault::Load(LoadProblem::NegativeRevision))
                } else if row.next_project_id < 0 {
                    Err(PersistenceFault::Load(LoadProblem::NegativeNextProjectId))
                } else {
                    match crate::ids::parsed_uuid(row.active) {
                        None => Err(PersistenceFault::Load(LoadProblem::ActiveWorkspaceIdText)),
                        Some(value) => {
                            let session = SessionModel {
                                revision: row.revision as u64,
                                next_project_id: row.next_project_id as u64,
                                active: WorkspaceId { value },
                                workspaces,
                            };
                            match crate::session::session_violation(session) {
                                Some(violation) => Err(
                                    PersistenceFault::InvalidStored(
                                        crate::error::invalid(violation),
                                    ),
                                ),
                                None => Ok(Some(session)),
                            }
                        },
                    }
                },
            },
        },
    }
}

/// What keeps a workspace from being stored at a position.
pub open spec fn workspace_save_problem(workspace: WorkspaceModel, index: int) -> Option<
    SaveProblem,
> {
    if workspace.project > i64::MAX {
        Some(SaveProblem::ProjectIdTooLarge)
    } else if index > i64::MAX {
        Some(SaveProblem::PositionTooLarge)
    } else if workspace.layout_revision > i64::MAX {
        Some(SaveProblem::LayoutRevisionTooLarge)
    } else {
        None
    }
}

/// What keeps the first bad workspace from being stored.
pub open spec fn workspaces_save_problem(workspaces: Seq<WorkspaceModel>) -> Option<SaveProblem>
    decreases workspaces.len(),
{
    if workspaces.len() == 0 {
        None
    } else {
        match workspaces_save_problem(workspaces.drop_last()) {
            Some(problem) => Some(problem),
            None => workspace_save_problem(workspaces.last(), workspaces.len() - 1),
        }
    }
}

/// The project row of a workspace.
pub open spec fn saved_project(workspace: WorkspaceModel) -> ProjectRowModel {
    ProjectRowModel { id: workspace.project as i64, roots: Some(workspace.roots) }
}

/// The workspace row of a workspace at a position.
pub open spec fn saved_workspace(workspace: WorkspaceModel, index: int) -> WorkspaceRowModel {
    WorkspaceRowModel {
        id: crate::ids::uuid_text(workspace.id.value),
        position: index as i64,
        project_id: workspace.project as i64,
        layout_revision: workspace.layout_revision as i64,
        layout: Some(workspace.layout),
    }
}

/// The rows of a session.
pub open spec fn saved(session: SessionModel) -> Result<TablesModel, PersistenceFault> {
    match crate::session::session_violation(session) {
        Some(violation) => Err(PersistenceFault::InvalidSnapshot(crate::error::invalid(violation))),
        None => if session.revision > i64::MAX {
            Err(PersistenceFault::Save(SaveProblem::RevisionTooLarge))
        } else if session.next_project_id > i64::MAX {
            Err(PersistenceFault::Save(SaveProblem::NextProjectIdTooLarge))
        } else {
            match workspaces_save_problem(session.workspaces) {
                Some(problem) => Err(PersistenceFault::Save(problem)),
                None => Ok(
                    TablesModel {
                        session: Some(
                            SessionRowModel {
                                revision: session.revision as i64,
                                next_project_id: session.next_project_id as i64,
                                active: crate::ids::uuid_text(session.active.value),
                            },
                        ),
                        projects: Seq::new(
                            session.workspaces.len(),
                            |i: int| saved_project(session.workspaces[i]),
                        ),
                        workspaces: Seq::new(
                            session.workspaces.len(),
                            |i: int| saved_workspace(session.workspaces[i], i),
                        ),
                    },
                ),
            }
        },
    }
}

proof fn lemma_projects_problem_prefix(rows: Seq<ProjectRowModel>, count: int)
    requires
        0 <= count <= rows.len(),
        projects_problem(rows.take(count)) is Some,
    ensures
        projects_problem(rows) == projects_problem(rows.take(count)),
    decreases rows.len() - count,
{
    if count == rows.len() {
        assert(rows.take(count) =~= rows);
    } else {
        assert(rows.take(count + 1).drop_last() =~= rows.take(count));
        lemma_projects_problem_prefix(rows, count + 1);
    }
}

proof fn lemma_loaded_workspaces_prefix(
    projects: Seq<ProjectRowModel>,
    rows: Seq<WorkspaceRowModel>,
    count: int,
)
    requires
        0 <= count <= rows.len(),
        loaded_workspaces(projects, rows.take(count)) is Err,
    ensures
        loaded_workspaces(projects, rows) == loaded_workspaces(projects, rows.take(count)),
    decreases rows.len() - count,
{
    if count == rows.len() {
        assert(rows.take(count) =~= rows);
    } else {
        assert(rows.take(count + 1).drop_last() =~= rows.take(count));
        lemma_loaded_workspaces_prefix(projects, rows, count + 1);
    }
}

proof fn lemma_workspaces_save_problem_prefix(workspaces: Seq<WorkspaceModel>, count: int)
    requires
        0 <= count <= workspaces.len(),
        workspaces_save_problem(workspaces.take(count)) is Some,
    ensures
        workspaces_save_problem(workspaces) == workspaces_save_problem(workspaces.take(count)),
    decreases workspaces.len() - count,
{
    if count == workspaces.len() {
        assert(workspaces.take(count) =~= workspaces);
    } else {
        assert(workspaces.take(count + 1).drop_last() =~= workspaces.take(count));
        lemma_workspaces_save_problem_prefix(workspaces, count + 1);
    }
}

/// Checks that every project row can be read.
fn check_projects(rows: &Vec<ProjectRow>) -> (result: Result<(), LoadProblem>)
    ensures
        match result {
            Ok(()) => projects_problem(project_row_models(rows@)) is None,
            Err(problem) => projects_problem(project_row_models(rows@)) == Some(problem),
        },
{
    let ghost all = project_row_models(rows@);
    let mut i: usize = 0;
    assert(all.take(0) =~= Seq::<ProjectRowModel>::empty());
    while i < rows.len()
        invariant
            i <= rows@.len(),
            all == project_row_models(rows@),
            projects_problem(all.take(i as int)) is None,
        decreases rows@.len() - i,
    {
        let row = &rows[i];
        let ghost upto = all.take(i + 1);
        proof {
            assert(all[i as int] == row@);
            assert(upto.drop_last() =~= all.take(i as int));
            assert(upto.last() == row@);
            if projects_problem(upto) is Some {
                lemma_projects_problem_prefix(all, i + 1);
            }
        }
        if row.id < 0 {
            return Err(LoadProblem::NegativeProjectId);
        }
        if row.id == 0 {
            return Err(LoadProblem::ZeroProjectId);
        }
        if row.spec.is_none() {
            return Err(LoadProblem::UndecodableProject);
        }
        i += 1;
    }
    assert(all.take(i as int) =~= all);
    Ok(())
}

/// The specification of a project, from the last row with its identity.
fn find_spec(rows: &Vec<ProjectRow>, id: i64) -> (result: Option<ProjectSpec>)
    ensures
        match result {
            Some(spec) => stored_roots(project_row_models(rows@), id) == Some(spec@),
            None => stored_roots(project_row_models(rows@), id) is None,
        },
{
    let ghost all = project_row_models(rows@);
    let mut left: usize = rows.len();
    assert(all.take(left as int) =~= all);
    while left > 0
        invariant
            left <= rows@.len(),
            all == project_row_models(rows@),
            stored_roots(all, id) == stored_roots(all.take(left as int), id),
        decreases left,
    {
        let row = &rows[left - 1];
        assert(all[left - 1] == row@);
        assert(all.take(left as int).drop_last() =~= all.take(left - 1));
        assert(all.take(left as int).last() == row@);
        if row.id == id {
            return match &row.spec {
                Some(spec) => Some(spec.clone()),
                None => None,
            };
        }
        left -= 1;
    }
    None
}

/// Reads the workspace in a row.
fn load_workspace(projects: &Vec<ProjectRow>, row: &WorkspaceRow) -> (result: Result<
    WorkspaceSnapshot,
    LoadProblem,
>)
    ensures
        match result {
            Ok(workspace) => loaded_workspace(project_row_models(projects@), row@) == Ok::<
                WorkspaceModel,
                LoadProblem,
            >(workspace@),
            Err(problem) => loaded_workspace(project_row_models(projects@), row@) == Err::<
                WorkspaceModel,
                LoadProblem,
            >(problem),
        },
{
    let id = match parse_uuid(row.id.as_str()) {
        Some(value) => WorkspaceId::from_uuid(value),
        None => {
            return Err(LoadProblem::WorkspaceIdText);
        },
    };
    if row.project_id < 0 {
        return Err(LoadProblem::NegativeWorkspaceProject);
    }
    let project_id = match ProjectId::new(row.project_id as u64) {
        Some(project_id) => project_id,
        None => {
            return Err(LoadProblem::ZeroWorkspaceProject);
        },
    };
    let project_spec = match find_spec(projects, row.project_id) {
        Some(project_spec) => project_spec,
        None => {
            return Err(LoadProblem::AbsentProject);
        },
    };
    let layout = match &row.layout {
        Some(layout) => layout.clone(),
        None => {
            return Err(LoadProblem::UndecodableLayout);
        },
    };
    if row.layout_revision < 0 {
        return Err(LoadProblem::NegativeLayoutRevision);
    }
    Ok(
        WorkspaceSnapshot {
            id,
            project_id,
            project_spec,
            layout_revision: row.layout_revision as u64,
            layout,
        },
    )
}

/// Reads the session in the tables.
pub fn load_tables(tables: &SessionTables) -> (result: Result<
    Option<HostSessionSnapshot>,
    PersistenceError,
>)
    ensures
        match loaded(tables@) {
            Ok(Some(session)) => result matches Ok(Some(snapshot)) && snapshot@ == session,
            Ok(None) => result matches Ok(None),
            Err(fault) => result matches Err(error) && error@ == fault,
        },
{
    let row = match &tables.session {
        Some(row) => row,
        None => {
            return Ok(None);
        },
    };
    match check_projects(&tables.projects) {
        Ok(()) => {},
        Err(problem) => {
            return Err(PersistenceError::Load(problem));
        },
    }
    let ghost projects = project_row_models(tables.projects@);
    let ghost rows = workspace_row_models(tables.workspaces@);
    let mut workspaces: Vec<WorkspaceSnapshot> = Vec::new();
    let mut i: usize = 0;
    assert(rows.take(0) =~= Seq::<WorkspaceRowModel>::empty());
    assert(crate::session::workspace_models(workspaces@) =~= Seq::<WorkspaceModel>::empty());
    while i < tables.workspaces.len()
        invariant
            i <= tables.workspaces@.len(),
            projects == project_row_models(tables.projects@),
            rows == workspace_row_models(tables.workspaces@),
            tables.session is Some,
            projects_problem(tables@.projects) is None,
            loaded_workspaces(projects, rows.take(i as int)) == Ok::<
                Seq<WorkspaceModel>,
                LoadProblem,
            >(crate::session::workspace_models(workspaces@)),
        decreases tables.workspaces@.len() - i,
    {
        let ghost upto = rows.take(i + 1);
        let ghost before = crate::session::workspace_models(workspaces@);
        proof {
            assert(rows[i as int] == tables.workspaces@[i as int]@);
            assert(upto.drop_last() =~= rows.take(i as int));
            assert(upto.last() == tables.workspaces@[i as int]@);
        }
        match load_workspace(&tables.projects, &tables.workspaces[i]) {
            Ok(workspace) => {
                let ghost model = workspace@;
                workspaces.push(workspace);
                assert(crate::session::workspace_models(workspaces@) =~= before.push(model));
            },
            Err(problem) => {
                proof {
                    lemma_loaded_workspaces_prefix(projects, rows, i + 1);
                }
                return Err(PersistenceError::Load(problem));
            },
        }
        i += 1;
    }
    assert(rows.take(i as int) =~= rows);
    if row.revision < 0 {
        return Err(PersistenceError::Load(LoadProblem::NegativeRevision));
    }
    if row.next_project_id < 0 {
        return Err(PersistenceError::Load(LoadProblem::NegativeNextProjectId));
    }
    let active = match parse_uuid(row.active_workspace_id.as_str()) {
        Some(value) => WorkspaceId::from_uuid(value),
        None => {
            return Err(PersistenceError::Load(LoadProblem::ActiveWorkspaceIdText));
        },
    };
    let snapshot = HostSessionSnapshot {
        revision: row.revision as u64,
        next_project_id: row.next_project_id as u64,
        active_workspace_id: active,
        workspaces,
    };
    proof {
        crate::session::law_session_violation_iff_not_valid(snapshot@);
    }
    match snapshot.validate() {
        Ok(()) => Ok(Some(snapshot)),
        Err(error) => Err(PersistenceError::InvalidStored(error)),
    }
}

proof fn lemma_stored_roots(workspaces: Seq<WorkspaceModel>, index: int)
    requires
        0 <= index < workspaces.len(),
        forall|i: int| 0 <= i < workspaces.len() ==> (#[trigger] workspaces[i]).project <= i64::MAX,
        forall|i: int, j: int|
            0 <= i < j < workspaces.len() ==> (#[trigger] workspaces[i]).project != (
            #[trigger] workspaces[j]).project,
    ensures
        stored_roots(
            Seq::new(workspaces.len(), |i: int| saved_project(workspaces[i])),
            workspaces[index].project as i64,
        ) == Some(workspaces[index].roots),
    decreases workspaces.len(),
{
    let rows = Seq::new(workspaces.len(), |i: int| saved_project(workspaces[i]));
    let front = workspaces.drop_last();
    assert(rows.drop_last() =~= Seq::new(front.len(), |i: int| saved_project(front[i])));
    if index < front.len() {
        assert forall|i: int| 0 <= i < front.len() implies (#[trigger] front[i]).project
            <= i64::MAX by {
            assert(front[i] == workspaces[i]);
        }
        assert forall|i: int, j: int| 0 <= i < j < front.len() implies (#[trigger] front[
            i]).project != (#[trigger] front[j]).project by {
            assert(front[i] == workspaces[i] && front[j] == workspaces[j]);
        }
        lemma_stored_roots(front, index);
        assert(workspaces[index].project != workspaces[workspaces.len() - 1].project);
    }
}

pub proof fn lemma_save_problem_none(workspaces: Seq<WorkspaceModel>)
    requires
        workspaces_save_problem(workspaces) is None,
    ensures
        forall|i: int|
            0 <= i < workspaces.len() ==> workspace_save_problem(
                #[trigger] workspaces[i],
                i,
            ) is None,
    decreases workspaces.len(),
{
    if workspaces.len() > 0 {
        let front = workspaces.drop_last();
        lemma_save_problem_none(front);
        assert forall|i: int| 0 <= i < workspaces.len() implies workspace_save_problem(
            #[trigger] workspaces[i],
            i,
        ) is None by {
            if i < front.len() {
                assert(front[i] == workspaces[i]);
            }
        }
    }
}

/// Reading the rows of a session gives the session back, where its identities read back.
proof fn lemma_saved_rows_load(session: SessionModel, tables: TablesModel)
    requires
        saved(session) == Ok::<TablesModel, PersistenceFault>(tables),
        forall|i: int|
            0 <= i < session.workspaces.len() ==> (#[trigger] session.workspaces[i]).project > 0
                && crate::ids::parsed_uuid(crate::ids::uuid_text(session.workspaces[i].id.value))
                == Some(session.workspaces[i].id.value),
        crate::ids::parsed_uuid(crate::ids::uuid_text(session.active.value)) == Some(
            session.active.value,
        ),
    ensures
        loaded(tables) == Ok::<Option<SessionModel>, PersistenceFault>(Some(session)),
{
    let workspaces = session.workspaces;
    let projects = tables.projects;
    let rows = tables.workspaces;
    crate::session::law_session_violation_iff_not_valid(session);
    lemma_save_problem_none(workspaces);
    assert forall|count: int| 0 <= count <= projects.len() implies #[trigger] projects_problem(
        projects.take(count),
    ) is None by {
        lemma_saved_projects_load(workspaces, projects, count);
    }
    assert(projects.take(projects.len() as int) =~= projects);
    lemma_saved_workspaces_load(session, tables, rows.len() as int);
    assert(rows.take(rows.len() as int) =~= rows);
    assert(workspaces.take(rows.len() as int) =~= workspaces);
    assert(WorkspaceId { value: session.active.value } == session.active);
    assert(SessionModel {
        revision: (session.revision as i64) as u64,
        next_project_id: (session.next_project_id as i64) as u64,
        active: session.active,
        workspaces,
    } == session);
}

proof fn lemma_saved_projects_load(
    workspaces: Seq<WorkspaceModel>,
    projects: Seq<ProjectRowModel>,
    count: int,
)
    requires
        projects.len() == workspaces.len(),
        0 <= count <= projects.len(),
        forall|i: int|
            0 <= i < workspaces.len() ==> 0 < (#[trigger] workspaces[i]).project <= i64::MAX,
        forall|i: int|
            0 <= i < projects.len() ==> #[trigger] projects[i] == saved_project(workspaces[i]),
    ensures
        projects_problem(projects.take(count)) is None,
    decreases count,
{
    if count > 0 {
        lemma_saved_projects_load(workspaces, projects, count - 1);
        assert(projects.take(count).drop_last() =~= projects.take(count - 1));
        assert(projects.take(count).last() == projects[count - 1]);
        assert(workspaces[count - 1].project > 0);
    }
}

proof fn lemma_saved_workspaces_load(session: SessionModel, tables: TablesModel, count: int)
    requires
        saved(session) == Ok::<TablesModel, PersistenceFault>(tables),
        0 <= count <= session.workspaces.len(),
        forall|i: int|
            0 <= i < session.workspaces.len() ==> (#[trigger] session.workspaces[i]).project > 0
                && crate::ids::parsed_uuid(crate::ids::uuid_text(session.workspaces[i].id.value))
                == Some(session.workspaces[i].id.value),
    ensures
        loaded_workspaces(tables.projects, tables.workspaces.take(count)) == Ok::<
            Seq<WorkspaceModel>,
            LoadProblem,
        >(session.workspaces.take(count)),
    decreases count,
{
    let workspaces = session.workspaces;
    let rows = tables.workspaces;
    if count == 0 {
        assert(rows.take(0) =~= Seq::<WorkspaceRowModel>::empty());
        assert(workspaces.take(0) =~= Seq::<WorkspaceModel>::empty());
    } else {
        lemma_saved_workspaces_load(session, tables, count - 1);
        crate::session::law_session_violation_iff_not_valid(session);
        lemma_save_problem_none(workspaces);
        let workspace = workspaces[count - 1];
        assert(rows.take(count).drop_last() =~= rows.take(count - 1));
        assert(rows.take(count).last() == saved_workspace(workspace, count - 1));
        assert(workspaces.take(count) =~= workspaces.take(count - 1).push(workspace));
        lemma_stored_roots(workspaces, count - 1);
        assert(tables.projects =~= Seq::new(
            workspaces.len(),
            |i: int| saved_project(workspaces[i]),
        ));
        assert(workspace_save_problem(workspace, count - 1) is None);
        assert(WorkspaceId { value: workspace.id.value } == workspace.id);
        let read = loaded_workspace(tables.projects, saved_workspace(workspace, count - 1));
        assert(read->Ok_0 =~= workspace);
    }
}

/// Writes a session as rows. What was written reads back as the same session.
pub fn save_tables(snapshot: &HostSessionSnapshot) -> (result: Result<
    SessionTables,
    PersistenceError,
>)
    ensures
        match saved(snapshot@) {
            Ok(rows) => result matches Ok(tables) && tables@ == rows,
            Err(fault) => result matches Err(error) && error@ == fault,
        },
        result matches Ok(tables) ==> loaded(tables@) == Ok::<
            Option<SessionModel>,
            PersistenceFault,
        >(Some(snapshot@)),
{
    proof {
        crate::session::law_session_violation_iff_not_valid(snapshot@);
    }
    match snapshot.validate() {
        Ok(()) => {},
        Err(error) => {
            return Err(PersistenceError::InvalidSnapshot(error));
        },
    }
    if snapshot.revision > 0x7fff_ffff_ffff_ffff {
        return Err(PersistenceError::Save(SaveProblem::RevisionTooLarge));
    }
    if snapshot.next_project_id > 0x7fff_ffff_ffff_ffff {
        return Err(PersistenceError::Save(SaveProblem::NextProjectIdTooLarge));
    }
    let ghost all = snapshot@.workspaces;
    let mut projects: Vec<ProjectRow> = Vec::new();
    let mut workspaces: Vec<WorkspaceRow> = Vec::new();
    let mut i: usize = 0;
    assert(all.take(0) =~= Seq::<WorkspaceModel>::empty());
    while i < snapshot.workspaces.len()
        invariant
            i <= snapshot.workspaces@.len(),
            all == snapshot@.workspaces,
            all.len() == snapshot.workspaces@.len(),
            crate::session::session_violation(snapshot@) is None,
            snapshot.revision <= i64::MAX,
            snapshot.next_project_id <= i64::MAX,
            workspaces_save_problem(all.take(i as int)) is None,
            projects@.len() == i,
            workspaces@.len() == i,
            forall|k: int| 0 <= k < i ==> (#[trigger] projects@[k])@ == saved_project(all[k]),
            forall|k: int| 0 <= k < i ==> (#[trigger] workspaces@[k])@ == saved_workspace(all[k], k),
            forall|k: int|
                0 <= k < i ==> (#[trigger] all[k]).project > 0 && crate::ids::parsed_uuid(
                    crate::ids::uuid_text(all[k].id.value),
                ) == Some(all[k].id.value),
        decreases snapshot.workspaces@.len() - i,
    {
        let workspace = &snapshot.workspaces[i];
        let ghost upto = all.take(i + 1);
        proof {
            assert(all[i as int] == workspace@);
            assert(upto.drop_last() =~= all.take(i as int));
            assert(upto.last() == workspace@);
            if workspaces_save_problem(upto) is Some {
                lemma_workspaces_save_problem_prefix(all, i + 1);
            }
        }
        let number: u64 = workspace.project_id.get();
        if number > 0x7fff_ffff_ffff_ffff {
            return Err(PersistenceError::Save(SaveProblem::ProjectIdTooLarge));
        }
        if i as u64 > 0x7fff_ffff_ffff_ffff {
            return Err(PersistenceError::Save(SaveProblem::PositionTooLarge));
        }
        if workspace.layout_revision > 0x7fff_ffff_ffff_ffff {
            return Err(PersistenceError::Save(SaveProblem::LayoutRevisionTooLarge));
        }
        projects.push(
            ProjectRow { id: number as i64, spec: Some(workspace.project_spec.clone()) },
        );
        workspaces.push(
            WorkspaceRow {
                id: workspace.id.to_text(),
                position: i as i64,
                project_id: number as i64,
                layout_revision: workspace.layout_revision as i64,
                layout: Some(workspace.layout.clone()),
            },
        );
        i += 1;
    }
    assert(all.take(i as int) =~= all);
    let tables = SessionTables {
        session: Some(
            SessionRow {
                revision: snapshot.revision as i64,
                next_project_id: snapshot.next_project_id as i64,
                active_workspace_id: snapshot.active_workspace_id.to_text(),
            },
        ),
        projects,
        workspaces,
    };
    proof {
        let rows = saved(snapshot@)->Ok_0;
        assert(tables@.projects =~= rows.projects);
        assert(tables@.workspaces =~= rows.workspaces);
        assert(tables@ =~= rows);
        lemma_saved_rows_load(snapshot@, tables@);
    }
    Ok(tables)
}

/// The names of the columns that the session and workspace tables have.
#[derive(Debug, PartialEq)]
pub struct TableColumns {
    pub session: Vec<String>,
    pub workspaces: Vec<String>,
}

/// The database of a host session, brought to the current columns.
#[derive(Debug, PartialEq)]
pub struct HostSessionDb {
    pub columns: TableColumns,
    pub tables: SessionTables,
}

/// The largest of a list of project identities.
pub open spec fn largest_id(rows: Seq<ProjectRowModel>) -> Option<i64>
    decreases rows.len(),
{
    if rows.len() == 0 {
        None
    } else {
        match largest_id(rows.drop_last()) {
            Some(largest) if largest >= rows.last().id => Some(largest),
            _ => Some(rows.last().id),
        }
    }
}

/// The project identity that follows all stored ones, where a column can hold it.
pub open spec fn id_after(rows: Seq<ProjectRowModel>) -> Option<i64> {
    match largest_id(rows) {
        None => Some(1),
        Some(largest) => if largest < i64::MAX {
            Some((largest + 1) as i64)
        } else {
            None
        },
    }
}

/// The session row once it has a next project identity, computed from the stored projects.
pub open spec fn with_next_project(tables: TablesModel) -> Result<TablesModel, PersistenceFault> {
    match tables.session {
        None => Ok(tables),
        Some(row) => match id_after(tables.projects) {
            None => Err(PersistenceFault::Migration),
            Some(next) => Ok(
                TablesModel {
                    session: Some(SessionRowModel { next_project_id: next, ..row }),
                    ..tables
                },
            ),
        },
    }
}

/// A list of names without a given one.
pub open spec fn without(names: Seq<Seq<char>>, name: Seq<char>) -> Seq<Seq<char>>
    decreases names.len(),
{
    if names.len() == 0 {
        Seq::<Seq<char>>::empty()
    } else if names.last() == name {
        without(names.drop_last(), name)
    } else {
        without(names.drop_last(), name).push(names.last())
    }
}

/// Nothing without a name has that name, and everything else is kept.
pub proof fn lemma_without(names: Seq<Seq<char>>, name: Seq<char>)
    ensures
        !without(names, name).contains(name),
        forall|other: Seq<char>|
            other != name ==> (names.contains(other) <==> without(names, name).contains(other)),
    decreases names.len(),
{
    if names.len() > 0 {
        let front = names.drop_last();
        lemma_without(front, name);
        let rest = without(names, name);
        assert forall|other: Seq<char>| other != name implies (names.contains(other)
            <==> rest.contains(other)) by {
            if names.contains(other) {
                let i = choose|i: int| 0 <= i < names.len() && names[i] == other;
                if i < front.len() {
                    assert(front[i] == other);
                    assert(front.contains(other));
                    assert(without(front, name).contains(other));
                    let j = choose|j: int|
                        0 <= j < without(front, name).len() && without(front, name)[j] == other;
                    assert(rest[j] == other);
                } else {
                    assert(rest[rest.len() - 1] == other);
                }
            }
            if rest.contains(other) {
                let j = choose|j: int| 0 <= j < rest.len() && rest[j] == other;
                if j < without(front, name).len() {
                    assert(without(front, name)[j] == other);
                    assert(front.contains(other));
                    let i = choose|i: int| 0 <= i < front.len() && front[i] == other;
                    assert(names[i] == other);
                } else {
                    assert(names[names.len() - 1] == other);
                }
            }
        }
        assert(!rest.contains(name)) by {
            if rest.contains(name) {
                let j = choose|j: int| 0 <= j < rest.len() && rest[j] == name;
                assert(without(front, name)[j] == name);
                assert(without(front, name).contains(name));
            }
        }
    }
}

fn holds_name(names: &Vec<String>, name: &str) -> (result: bool)
    ensures
        result == crate::text::texts(names@).contains(name@),
{
    let wanted = name.to_string();
    let mut i: usize = 0;
    while i < names.len()
        invariant
            i <= names@.len(),
            wanted@ == name@,
            forall|k: int| 0 <= k < i ==> crate::text::texts(names@)[k] != name@,
        decreases names@.len() - i,
    {
        assert(crate::text::texts(names@)[i as int] == names@[i as int]@);
        if names[i] == wanted {
            return true;
        }
        i += 1;
    }
    false
}

fn drop_name(names: Vec<String>, name: &str) -> (rest: Vec<String>)
    ensures
        crate::text::texts(rest@) == without(crate::text::texts(names@), name@),
{
    let wanted = name.to_string();
    let ghost all = crate::text::texts(names@);
    let mut rest: Vec<String> = Vec::new();
    let mut i: usize = 0;
    assert(all.take(0) =~= Seq::<Seq<char>>::empty());
    assert(crate::text::texts(rest@) =~= Seq::<Seq<char>>::empty());
    while i < names.len()
        invariant
            i <= names@.len(),
            all == crate::text::texts(names@),
            wanted@ == name@,
            crate::text::texts(rest@) == without(all.take(i as int), name@),
        decreases names@.len() - i,
    {
        let ghost before = crate::text::texts(rest@);
        assert(all.take(i + 1).drop_last() =~= all.take(i as int));
        assert(all.take(i + 1).last() == names@[i as int]@);
        if names[i] != wanted {
            rest.push(names[i].clone());
            assert(crate::text::texts(rest@) =~= before.push(names@[i as int]@));
        }
        i += 1;
    }
    assert(all.take(i as int) =~= all);
    rest
}

/// The project identity that follows all stored ones, where a column can hold it.
fn next_stored_id(rows: &Vec<ProjectRow>) -> (next: Option<i64>)
    ensures
        next == id_after(project_row_models(rows@)),
{
    let ghost all = project_row_models(rows@);
    let mut largest: Option<i64> = None;
    let mut i: usize = 0;
    assert(all.take(0) =~= Seq::<ProjectRowModel>::empty());
    while i < rows.len()
        invariant
            i <= rows@.len(),
            all == project_row_models(rows@),
            largest == largest_id(all.take(i as int)),
        decreases rows@.len() - i,
    {
        assert(all.take(i + 1).drop_last() =~= all.take(i as int));
        assert(all.take(i + 1).last() == rows@[i as int]@);
        let id: i64 = rows[i].id;
        largest = match largest {
            Some(known) if known >= id => Some(known),
            _ => Some(id),
        };
        i += 1;
    }
    assert(all.take(i as int) =~= all);
    match largest {
        None => Some(1),
        Some(known) => known.checked_add(1),
    }
}

/// The tables after a commit and the session that is then authoritative.
pub open spec fn committed(
    session: SessionModel,
    request: crate::session::RequestModel,
    fresh: FreshIds,
    written: Result<(), Seq<char>>,
) -> Result<(SessionModel, TablesModel), PersistenceFault> {
    match crate::session::applied(session, request, fresh) {
        Err(fault) => Err(PersistenceFault::Rejected(fault)),
        Ok(next) => match stored(next, written) {
            Err(fault) => Err(fault),
            Ok(rows) => Ok((next, rows)),
        },
    }
}

/// The tables after a save that storage answered as `written`.
pub open spec fn stored(session: SessionModel, written: Result<(), Seq<char>>) -> Result<
    TablesModel,
    PersistenceFault,
> {
    match saved(session) {
        Err(fault) => Err(fault),
        Ok(rows) => match written {
            Ok(()) => Ok(rows),
            Err(message) => Err(PersistenceFault::Storage(message)),
        },
    }
}

/// What storage answered, with its message as a sequence of characters.
pub open spec fn answer(written: Result<(), String>) -> Result<(), Seq<char>> {
    match written {
        Ok(()) => Ok(()),
        Err(message) => Err(message@),
    }
}

impl HostSessionDb {
    /// An empty database with the current columns.
    pub fn in_memory() -> (database: Self)
        ensures
            database.tables@ == (TablesModel {
                session: None,
                projects: Seq::empty(),
                workspaces: Seq::empty(),
            }),
            crate::text::texts(database.columns.session@) == seq![
                "singleton"@,
                "revision"@,
                "next_project_id"@,
                "active_workspace_id"@,
            ],
            crate::text::texts(database.columns.workspaces@) == seq![
                "id"@,
                "position"@,
                "project_id"@,
                "layout_revision"@,
                "layout_json"@,
            ],
    {
        let mut session: Vec<String> = Vec::new();
        session.push("singleton".to_string());
        session.push("revision".to_string());
        session.push("next_project_id".to_string());
        session.push("active_workspace_id".to_string());
        let mut workspaces: Vec<String> = Vec::new();
        workspaces.push("id".to_string());
        workspaces.push("position".to_string());
        workspaces.push("project_id".to_string());
        workspaces.push("layout_revision".to_string());
        workspaces.push("layout_json".to_string());
        let database = HostSessionDb {
            columns: TableColumns { session, workspaces },
            tables: SessionTables {
                session: None,
                projects: Vec::new(),
                workspaces: Vec::new(),
            },
        };
        assert(database.tables@.projects =~= Seq::<ProjectRowModel>::empty());
        assert(database.tables@.workspaces =~= Seq::<WorkspaceRowModel>::empty());
        assert(crate::text::texts(session@) =~= seq![
            "singleton"@,
            "revision"@,
            "next_project_id"@,
            "active_workspace_id"@,
        ]);
        assert(crate::text::texts(workspaces@) =~= seq![
            "id"@,
            "position"@,
            "project_id"@,
            "layout_revision"@,
            "layout_json"@,
        ]);
        database
    }

    /// Opens stored tables, bringing older ones to the current columns: a missing project
    /// allocator is added and set past every stored project, and a workspace name column is
    /// dropped.
    pub fn from_connection(columns: TableColumns, tables: SessionTables) -> (result: Result<
        Self,
        PersistenceError,
    >)
        ensures
            ({
                let session_columns = crate::text::texts(columns.session@);
                let workspace_columns = crate::text::texts(columns.workspaces@);
                let allocator = session_columns.contains("next_project_id"@);
                let migrated = if allocator {
                    Ok(tables@)
                } else {
                    with_next_project(tables@)
                };
                match migrated {
                    Err(fault) => result matches Err(error) && error@ == fault,
                    Ok(rows) => result matches Ok(database) && {
                        &&& database.tables@ == rows
                        &&& crate::text::texts(database.columns.session@) == if allocator {
                            session_columns
                        } else {
                            session_columns.push("next_project_id"@)
                        }
                        &&& crate::text::texts(database.columns.workspaces@) == without(
                            workspace_columns,
                            "name"@,
                        )
                        &&& !crate::text::texts(database.columns.workspaces@).contains("name"@)
                    },
                }
            }),
    {
        proof {
            lemma_without(crate::text::texts(columns.workspaces@), "name"@);
        }
        let mut tables = tables;
        let TableColumns { session, workspaces } = columns;
        let mut session = session;
        if !holds_name(&session, "next_project_id") {
            let ghost before = crate::text::texts(session@);
            session.push("next_project_id".to_string());
            assert(crate::text::texts(session@) =~= before.push("next_project_id"@));
            match tables.session {
                None => {},
                Some(row) => match next_stored_id(&tables.projects) {
                    None => {
                        return Err(PersistenceError::Migration);
                    },
                    Some(next_project_id) => {
                        tables.session = Some(SessionRow { next_project_id, ..row });
                    },
                },
            }
        }
        let workspaces = drop_name(workspaces, "name");
        Ok(HostSessionDb { columns: TableColumns { session, workspaces }, tables })
    }

    /// Reads the stored session.
    pub fn load(&self) -> (result: Result<Option<HostSessionSnapshot>, PersistenceError>)
        ensures
            match loaded(self.tables@) {
                Ok(Some(session)) => result matches Ok(Some(snapshot)) && snapshot@ == session,
                Ok(None) => result matches Ok(None),
                Err(fault) => result matches Err(error) && error@ == fault,
            },
    {
        load_tables(&self.tables)
    }

    /// Stores a session in place of the stored one, given what storage answered to writing its
    /// rows. A refusal by either leaves the stored session as it was; what is stored reads back.
    pub fn save(&mut self, snapshot: &HostSessionSnapshot, written: Result<(), String>) -> (result:
        Result<(), PersistenceError>)
        ensures
            match stored(snapshot@, answer(written)) {
                Ok(rows) => result is Ok && final(self).tables@ == rows && final(self).columns
                    == old(self).columns && loaded(final(self).tables@) == Ok::<
                    Option<SessionModel>,
                    PersistenceFault,
                >(Some(snapshot@)),
                Err(fault) => (result matches Err(error) && error@ == fault) && *final(self)
                    == *old(self),
            },
    {
        let tables = match save_tables(snapshot) {
            Ok(tables) => tables,
            Err(error) => {
                return Err(error);
            },
        };
        match written {
            Ok(()) => {
                self.tables = tables;
                Ok(())
            },
            Err(message) => Err(PersistenceError::Storage(message)),
        }
    }

    /// Applies a request under the given identities and stores the result, given what storage
    /// answered to writing its rows. Only a stored result becomes authoritative; a refusal leaves
    /// both the snapshot and the database as they were.
    pub fn commit_with(
        &mut self,
        snapshot: &mut HostSessionSnapshot,
        request: MutationRequest,
        fresh: FreshIds,
        written: Result<(), String>,
    ) -> (result: Result<(), PersistenceError>)
        ensures
            match committed(old(snapshot)@, request@, fresh, answer(written)) {
                Ok((next, rows)) => result is Ok && final(snapshot)@ == next && final(self).tables@
                    == rows && final(self).columns == old(self).columns && loaded(final(self).tables@) == Ok::<
                    Option<SessionModel>,
                    PersistenceFault,
                >(Some(final(snapshot)@)),
                Err(fault) => (result matches Err(error) && error@ == fault) && *final(self)
                    == *old(self) && *final(snapshot) == *old(snapshot),
            },
    {
        let mut next = snapshot.clone();
        match next.apply_with(request, fresh) {
            Ok(()) => {},
            Err(error) => {
                return Err(PersistenceError::Rejected(error));
            },
        }
        match self.save(&next, written) {
            Ok(()) => {},
            Err(error) => {
                return Err(error);
            },
        }
        *snapshot = next;
        Ok(())
    }

    /// Applies a request, drawing fresh identities for a new workspace, and stores the result as
    /// `commit_with` does.
    pub fn commit_mutation(
        &mut self,
        snapshot: &mut HostSessionSnapshot,
        request: MutationRequest,
        written: Result<(), String>,
    ) -> (result: Result<(), PersistenceError>)
        ensures
            exists|fresh: FreshIds|
                crate::session::drawn(fresh) && match #[trigger] committed(
                    old(snapshot)@,
                    request@,
                    fresh,
                    answer(written),
                ) {
                    Ok((next, rows)) => result is Ok && final(snapshot)@ == next
                        && final(self).tables@ == rows && final(self).columns == old(self).columns
                        && loaded(final(self).tables@) == Ok::<
                        Option<SessionModel>,
                        PersistenceFault,
                    >(Some(final(snapshot)@)),
                    Err(fault) => (result matches Err(error) && error@ == fault) && *final(self)
                        == *old(self) && *final(snapshot) == *old(snapshot),
                },
    {
        let fresh = FreshIds {
            workspace: WorkspaceId::new(),
            pane: crate::ids::PaneId::new(),
        };
        self.commit_with(snapshot, request, fresh, written)
    }
}

/// A well-formed session whose numbers fit the columns can always be stored.
pub proof fn law_valid_sessions_can_be_saved(session: SessionModel)
    requires
        crate::session::session_valid(session),
        session.revision <= i64::MAX,
        session.next_project_id <= i64::MAX,
        session.workspaces.len() <= i64::MAX,
        forall|i: int|
            0 <= i < session.workspaces.len() ==> (#[trigger] session.workspaces[i]).layout_revision
                <= i64::MAX,
    ensures
        saved(session) is Ok,
{
    crate::session::law_session_violation_iff_not_valid(session);
    lemma_no_save_problem(session.workspaces, session.workspaces.len() as int);
    assert(session.workspaces.take(session.workspaces.len() as int) =~= session.workspaces);
}

proof fn lemma_no_save_problem(workspaces: Seq<WorkspaceModel>, count: int)
    requires
        0 <= count <= workspaces.len() <= i64::MAX,
        forall|i: int|
            0 <= i < workspaces.len() ==> (#[trigger] workspaces[i]).layout_revision <= i64::MAX
                && workspaces[i].project <= i64::MAX,
    ensures
        workspaces_save_problem(workspaces.take(count)) is None,
    decreases count,
{
    if count > 0 {
        lemma_no_save_problem(workspaces, count - 1);
        assert(workspaces.take(count).drop_last() =~= workspaces.take(count - 1));
        assert(workspaces.take(count).last() == workspaces[count - 1]);
    }
}

/// Whatever is read from the database is a well-formed session.
pub proof fn law_loaded_sessions_are_valid(tables: TablesModel)
    ensures
        loaded(tables) matches Ok(Some(session)) ==> crate::session::session_valid(session),
{
    if let Ok(Some(session)) = loaded(tables) {
        crate::session::law_session_violation_iff_not_valid(session);
    }
}

} // verus!
