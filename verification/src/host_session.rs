//! The client side of a host session: what it shows of the host's workspaces, the mutations it
//! asks for, and how it follows the host's snapshots.

use crate::connection::{HostId, HostModel, RemoteConnectionOptions};
use crate::error::{SessionError, SessionFault};
use crate::ids::{ProjectId, WorkspaceId};
use crate::layout::{LayoutModel, LayoutNode};
use crate::path::{HostPath, PathModel};
use crate::session::{
    HostSessionSnapshot, MutationModel, MutationRequest, ProjectRoot, ProjectSpec, RequestModel,
    RootModel, SessionModel, SessionMutation, WorkspaceModel, WorkspaceSnapshot,
};
use vstd::prelude::*;

verus! {

/// A workspace of a certain host, with the project that it has there.
#[derive(Debug, PartialEq, Eq)]
pub struct HostWorkspaceIdentity {
    pub host_id: HostId,
    pub workspace_id: WorkspaceId,
    pub project_id: ProjectId,
}

#[verifier::ext_equal]
pub struct IdentityModel {
    pub host: HostModel,
    pub workspace: WorkspaceId,
    pub project: u64,
}

impl View for HostWorkspaceIdentity {
    type V = IdentityModel;

    open spec fn view(&self) -> IdentityModel {
        IdentityModel {
            host: self.host_id@,
            workspace: self.workspace_id,
            project: self.project_id.number(),
        }
    }
}

impl Clone for HostWorkspaceIdentity {
    fn clone(&self) -> (copy: Self)
        ensures
            copy == *self,
    {
        HostWorkspaceIdentity {
            host_id: self.host_id.clone(),
            workspace_id: self.workspace_id,
            project_id: self.project_id,
        }
    }
}

impl HostWorkspaceIdentity {
    /// Whether two identities are the same.
    pub fn is_same(&self, other: &HostWorkspaceIdentity) -> (result: bool)
        ensures
            result == (self@ == other@),
    {
        self.host_id == other.host_id && self.workspace_id == other.workspace_id
            && self.project_id.get() == other.project_id.get()
    }
}

/// A project that the client has open, by its number among the client's own objects.
#[derive(Clone, Copy, Debug, PartialEq, Eq, Structural)]
pub struct ProjectHandle {
    pub value: u64,
}

/// A workspace that the client shows, by its number among the client's own objects.
#[derive(Clone, Copy, Debug, PartialEq, Eq, Structural)]
pub struct WorkspaceHandle {
    pub value: u64,
}

/// A project of the host, with the client's own object for it.
#[derive(Clone, Copy, Debug)]
pub struct HostProject {
    pub project_id: ProjectId,
    pub handle: ProjectHandle,
}

/// What the client shows of a workspace of the host.
#[derive(Debug)]
pub struct WorkspaceProjection {
    pub identity: HostWorkspaceIdentity,
    pub project: ProjectHandle,
    pub workspace: WorkspaceHandle,
    pub project_spec: ProjectSpec,
    pub layout_revision: u64,
}

#[verifier::ext_equal]
pub struct ProjectionModel {
    pub identity: IdentityModel,
    pub project: ProjectHandle,
    pub workspace: WorkspaceHandle,
    pub roots: Seq<RootModel>,
    pub layout_revision: u64,
}

impl View for WorkspaceProjection {
    type V = ProjectionModel;

    open spec fn view(&self) -> ProjectionModel {
        ProjectionModel {
            identity: self.identity@,
            project: self.project,
            workspace: self.workspace,
            roots: self.project_spec@,
            layout_revision: self.layout_revision,
        }
    }
}

/// The client of one host session.
#[derive(Debug)]
pub struct HostSessionClient {
    pub host_id: HostId,
    pub display_name: String,
    pub snapshot: HostSessionSnapshot,
    pub projects: Vec<HostProject>,
    pub projections: Vec<WorkspaceProjection>,
}

#[verifier::ext_equal]
pub struct ClientModel {
    pub host: HostModel,
    pub display_name: Seq<char>,
    pub snapshot: SessionModel,
    pub projects: Seq<(u64, ProjectHandle)>,
    pub projections: Seq<ProjectionModel>,
}

/// The projects that a sequence of host projects stands for.
pub open spec fn project_models(projects: Seq<HostProject>) -> Seq<(u64, ProjectHandle)> {
    Seq::new(projects.len(), |i: int| (projects[i].project_id.number(), projects[i].handle))
}

/// The projections that a sequence of workspace projections stands for.
pub open spec fn projection_models(projections: Seq<WorkspaceProjection>) -> Seq<ProjectionModel> {
    Seq::new(projections.len(), |i: int| projections[i]@)
}

impl View for HostSessionClient {
    type V = ClientModel;

    open spec fn view(&self) -> ClientModel {
        ClientModel {
            host: self.host_id@,
            display_name: self.display_name@,
            snapshot: self.snapshot@,
            projects: project_models(self.projects@),
            projections: projection_models(self.projections@),
        }
    }
}

/// Why the client refuses to do something.
#[derive(Debug)]
pub enum ClientError {
    UnsupportedConnection,
    LocalHostForRemote,
    OtherHost,
    AbsentTarget,
    TargetProjectChanged,
    ProjectionAttached,
    InitialIdentityMismatch,
    ProjectAttached,
    AbsentForAddedRoot,
    AbsentForRemovedRoot,
    AbsentForLayout,
    StillStale,
    MissingProjection,
    NoActiveWorkspace,
    InvalidResponse(SessionError),
    InvalidSnapshot(SessionError),
}

/// A client error, with its texts as sequences of characters.
pub enum ClientFault {
    UnsupportedConnection,
    LocalHostForRemote,
    OtherHost,
    AbsentTarget,
    TargetProjectChanged,
    ProjectionAttached,
    InitialIdentityMismatch,
    ProjectAttached,
    AbsentForAddedRoot,
    AbsentForRemovedRoot,
    AbsentForLayout,
    StillStale,
    MissingProjection,
    NoActiveWorkspace,
    InvalidResponse(SessionFault),
    InvalidSnapshot(SessionFault),
}

impl View for ClientError {
    type V = ClientFault;

    open spec fn view(&self) -> ClientFault {
        match *self {
            ClientError::UnsupportedConnection => ClientFault::UnsupportedConnection,
            ClientError::LocalHostForRemote => ClientFault::LocalHostForRemote,
            ClientError::OtherHost => ClientFault::OtherHost,
            ClientError::AbsentTarget => ClientFault::AbsentTarget,
            ClientError::TargetProjectChanged => ClientFault::TargetProjectChanged,
            ClientError::ProjectionAttached => ClientFault::ProjectionAttached,
            ClientError::InitialIdentityMismatch => ClientFault::InitialIdentityMismatch,
            ClientError::ProjectAttached => ClientFault::ProjectAttached,
            ClientError::AbsentForAddedRoot => ClientFault::AbsentForAddedRoot,
            ClientError::AbsentForRemovedRoot => ClientFault::AbsentForRemovedRoot,
            ClientError::AbsentForLayout => ClientFault::AbsentForLayout,
            ClientError::StillStale => ClientFault::StillStale,
            ClientError::MissingProjection => ClientFault::MissingProjection,
            ClientError::NoActiveWorkspace => ClientFault::NoActiveWorkspace,
            ClientError::InvalidResponse(error) => ClientFault::InvalidResponse(error@),
            ClientError::InvalidSnapshot(error) => ClientFault::InvalidSnapshot(error@),
        }
    }
}

/// The words in which a client error is reported.
pub open spec fn client_message(fault: ClientFault) -> Seq<char> {
    match fault {
        ClientFault::UnsupportedConnection => "Milestone 1 supports only local and SSH host sessions"@,
        ClientFault::LocalHostForRemote => "remote host cannot use the local host ID"@,
        ClientFault::OtherHost => "target workspace belongs to another host"@,
        ClientFault::AbsentTarget => "target workspace is absent from its host session"@,
        ClientFault::TargetProjectChanged => "target workspace project identity changed"@,
        ClientFault::ProjectionAttached => "initial host projection may only be attached once"@,
        ClientFault::InitialIdentityMismatch => "initial workspace identity does not match its server snapshot"@,
        ClientFault::ProjectAttached => "initial host project may only be attached once"@,
        ClientFault::AbsentForAddedRoot => "workspace for added project root is absent"@,
        ClientFault::AbsentForRemovedRoot => "workspace for removed project root is absent"@,
        ClientFault::AbsentForLayout => "serialized workspace is absent from host session"@,
        ClientFault::StillStale => "host session remained stale after retrying mutation"@,
        ClientFault::MissingProjection => "reconciled workspace projection is missing"@,
        ClientFault::NoActiveWorkspace => "Super Zed host session has no active workspace"@,
        ClientFault::InvalidResponse(_) => "validating mutated Super Zed host session"@,
        ClientFault::InvalidSnapshot(fault) => crate::error::fault_message(fault),
    }
}

impl ClientError {
    /// The words in which the error is reported.
    pub fn message(&self) -> (text: String)
        ensures
            text@ == client_message(self@),
    {
        match self {
            ClientError::UnsupportedConnection => {
                "Milestone 1 supports only local and SSH host sessions".to_string()
            },
            ClientError::LocalHostForRemote => {
                "remote host cannot use the local host ID".to_string()
            },
            ClientError::OtherHost => "target workspace belongs to another host".to_string(),
            ClientError::AbsentTarget => {
                "target workspace is absent from its host session".to_string()
            },
            ClientError::TargetProjectChanged => {
                "target workspace project identity changed".to_string()
            },
            ClientError::ProjectionAttached => {
                "initial host projection may only be attached once".to_string()
            },
            ClientError::InitialIdentityMismatch => {
                "initial workspace identity does not match its server snapshot".to_string()
            },
            ClientError::ProjectAttached => {
                "initial host project may only be attached once".to_string()
            },
            ClientError::AbsentForAddedRoot => {
                "workspace for added project root is absent".to_string()
            },
            ClientError::AbsentForRemovedRoot => {
                "workspace for removed project root is absent".to_string()
            },
            ClientError::AbsentForLayout => {
                "serialized workspace is absent from host session".to_string()
            },
            ClientError::StillStale => {
                "host session remained stale after retrying mutation".to_string()
            },
            ClientError::MissingProjection => {
                "reconciled workspace projection is missing".to_string()
            },
            ClientError::NoActiveWorkspace => {
                "Super Zed host session has no active workspace".to_string()
            },
            ClientError::InvalidResponse(_) => {
                "validating mutated Super Zed host session".to_string()
            },
            ClientError::InvalidSnapshot(error) => error.message(),
        }
    }
}

/// The client's object for a project of the host.
pub open spec fn project_handle(projects: Seq<(u64, ProjectHandle)>, project: u64) -> Option<
    ProjectHandle,
>
    decreases projects.len(),
{
    if projects.len() == 0 {
        None
    } else if projects.last().0 == project {
        Some(projects.last().1)
    } else {
        project_handle(projects.drop_last(), project)
    }
}

/// What the client shows of a workspace.
pub open spec fn projection_of(projections: Seq<ProjectionModel>, id: WorkspaceId) -> Option<
    ProjectionModel,
>
    decreases projections.len(),
{
    if projections.len() == 0 {
        None
    } else if projections.last().identity.workspace == id {
        Some(projections.last())
    } else {
        projection_of(projections.drop_last(), id)
    }
}

/// The identity of a workspace on a host.
pub open spec fn identity_on(host: HostModel, workspace: WorkspaceModel) -> IdentityModel {
    IdentityModel { host, workspace: workspace.id, project: workspace.project }
}

/// What the client already shows of a workspace, if it still has the same identity.
pub open spec fn kept_projection(client: ClientModel, workspace: WorkspaceModel) -> Option<
    ProjectionModel,
> {
    match projection_of(client.projections, workspace.id) {
        Some(projection) if projection.identity == identity_on(client.host, workspace) => Some(
            projection,
        ),
        _ => None,
    }
}

/// Whether two root lists name the same paths in the same order.
pub open spec fn same_roots(left: Seq<RootModel>, right: Seq<RootModel>) -> bool {
    left.len() == right.len() && forall|i: int|
        0 <= i < left.len() ==> crate::path::same_path(
            (#[trigger] left[i]).requested,
            right[i].requested,
        ) && crate::path::same_path(left[i].canonical, right[i].canonical)
}

/// What has to be done for the client to follow a snapshot, one step after another.
#[derive(Debug)]
pub enum ReconcileAction {
    /// Open the client's object for a project.
    CreateProject { project_id: ProjectId },
    /// Bring a project to its roots before its workspace is shown.
    InitializeProject { project_id: ProjectId },
    /// Show a workspace.
    CreateWorkspace { identity: HostWorkspaceIdentity },
    /// Bring a shown project to its changed roots.
    RefreshProject { project_id: ProjectId },
    /// Restore the pane layout of a workspace.
    RestoreLayout { workspace_id: WorkspaceId, layout: LayoutNode },
}

#[verifier::ext_equal]
pub enum ActionModel {
    CreateProject { project: u64 },
    InitializeProject { project: u64 },
    CreateWorkspace { identity: IdentityModel },
    RefreshProject { project: u64 },
    RestoreLayout { workspace: WorkspaceId, layout: LayoutModel },
}

impl View for ReconcileAction {
    type V = ActionModel;

    open spec fn view(&self) -> ActionModel {
        match *self {
            ReconcileAction::CreateProject { project_id } => ActionModel::CreateProject {
                project: project_id.number(),
            },
            ReconcileAction::InitializeProject { project_id } => ActionModel::InitializeProject {
                project: project_id.number(),
            },
            ReconcileAction::CreateWorkspace { identity } => ActionModel::CreateWorkspace {
                identity: identity@,
            },
            ReconcileAction::RefreshProject { project_id } => ActionModel::RefreshProject {
                project: project_id.number(),
            },
            ReconcileAction::RestoreLayout { workspace_id, layout } => ActionModel::RestoreLayout {
                workspace: workspace_id,
                layout: layout@,
            },
        }
    }
}

/// The steps that a sequence of actions stands for.
pub open spec fn action_models(actions: Seq<ReconcileAction>) -> Seq<ActionModel> {
    Seq::new(actions.len(), |i: int| actions[i]@)
}

/// The steps that show one workspace with its current roots.
pub open spec fn workspace_actions(client: ClientModel, workspace: WorkspaceModel) -> Seq<
    ActionModel,
> {
    match kept_projection(client, workspace) {
        Some(projection) => if same_roots(projection.roots, workspace.roots) {
            Seq::<ActionModel>::empty()
        } else {
            seq![ActionModel::RefreshProject { project: workspace.project }]
        },
        None => {
            let create = if project_handle(client.projects, workspace.project) is None {
                seq![ActionModel::CreateProject { project: workspace.project }]
            } else {
                Seq::<ActionModel>::empty()
            };
            create + seq![
                ActionModel::InitializeProject { project: workspace.project },
                ActionModel::CreateWorkspace { identity: identity_on(client.host, workspace) },
            ]
        },
    }
}

/// The layout revision that the client shows of a workspace.
pub open spec fn shown_revision(client: ClientModel, workspace: WorkspaceModel) -> u64 {
    match kept_projection(client, workspace) {
        Some(projection) => projection.layout_revision,
        None => 0,
    }
}

/// The step that brings a workspace to its current layout, unless the client made that layout
/// itself or shows it already.
pub open spec fn layout_actions(
    client: ClientModel,
    workspace: WorkspaceModel,
    own_layout: Option<WorkspaceId>,
) -> Seq<ActionModel> {
    if own_layout == Some(workspace.id) || shown_revision(client, workspace)
        == workspace.layout_revision {
        Seq::<ActionModel>::empty()
    } else {
        seq![
            ActionModel::RestoreLayout { workspace: workspace.id, layout: workspace.layout },
        ]
    }
}

/// The steps that show each of a list of workspaces.
pub open spec fn all_workspace_actions(
    client: ClientModel,
    workspaces: Seq<WorkspaceModel>,
) -> Seq<ActionModel>
    decreases workspaces.len(),
{
    if workspaces.len() == 0 {
        Seq::<ActionModel>::empty()
    } else {
        all_workspace_actions(client, workspaces.drop_last()) + workspace_actions(
            client,
            workspaces.last(),
        )
    }
}

/// The steps that bring each of a list of workspaces to its current layout.
pub open spec fn all_layout_actions(
    client: ClientModel,
    workspaces: Seq<WorkspaceModel>,
    own_layout: Option<WorkspaceId>,
) -> Seq<ActionModel>
    decreases workspaces.len(),
{
    if workspaces.len() == 0 {
        Seq::<ActionModel>::empty()
    } else {
        all_layout_actions(client, workspaces.drop_last(), own_layout) + layout_actions(
            client,
            workspaces.last(),
            own_layout,
        )
    }
}

/// All steps that make the client follow a snapshot: first every workspace with its roots, then
/// the layouts.
pub open spec fn reconcile_plan(
    client: ClientModel,
    snapshot: SessionModel,
    own_layout: Option<WorkspaceId>,
) -> Seq<ActionModel> {
    all_workspace_actions(client, snapshot.workspaces) + all_layout_actions(
        client,
        snapshot.workspaces,
        own_layout,
    )
}

/// A workspace that the client has come to show.
#[derive(Clone, Copy, Debug)]
pub struct CreatedWorkspace {
    pub workspace_id: WorkspaceId,
    pub handle: WorkspaceHandle,
}

/// The client's object for a workspace that it has come to show.
pub open spec fn created_handle(created: Seq<CreatedWorkspace>, id: WorkspaceId) -> Option<
    WorkspaceHandle,
>
    decreases created.len(),
{
    if created.len() == 0 {
        None
    } else if created.last().workspace_id == id {
        Some(created.last().handle)
    } else {
        created_handle(created.drop_last(), id)
    }
}

/// What the client is to show of a workspace, if all it takes is there.
pub open spec fn desired_projection(
    client: ClientModel,
    workspace: WorkspaceModel,
    created: Seq<CreatedWorkspace>,
) -> Option<ProjectionModel> {
    match kept_projection(client, workspace) {
        Some(projection) => Some(
            ProjectionModel {
                roots: if same_roots(projection.roots, workspace.roots) {
                    projection.roots
                } else {
                    workspace.roots
                },
                layout_revision: workspace.layout_revision,
                ..projection
            },
        ),
        None => match (
            project_handle(client.projects, workspace.project),
            created_handle(created, workspace.id),
        ) {
            (Some(project), Some(handle)) => Some(
                ProjectionModel {
                    identity: identity_on(client.host, workspace),
                    project,
                    workspace: handle,
                    roots: workspace.roots,
                    layout_revision: workspace.layout_revision,
                },
            ),
            _ => None,
        },
    }
}

/// What the client is to show of all workspaces, if all it takes is there.
pub open spec fn desired_projections(
    client: ClientModel,
    workspaces: Seq<WorkspaceModel>,
    created: Seq<CreatedWorkspace>,
) -> Option<Seq<ProjectionModel>>
    decreases workspaces.len(),
{
    if workspaces.len() == 0 {
        Some(Seq::<ProjectionModel>::empty())
    } else {
        match (
            desired_projections(client, workspaces.drop_last(), created),
            desired_projection(client, workspaces.last(), created),
        ) {
            (Some(earlier), Some(projection)) => Some(earlier.push(projection)),
            _ => None,
        }
    }
}

/// The projects that a list of workspaces still has, or no longer has.
pub open spec fn projects_where(
    projects: Seq<(u64, ProjectHandle)>,
    workspaces: Seq<WorkspaceModel>,
    present: bool,
) -> Seq<(u64, ProjectHandle)>
    decreases projects.len(),
{
    if projects.len() == 0 {
        Seq::<(u64, ProjectHandle)>::empty()
    } else {
        let earlier = projects_where(projects.drop_last(), workspaces, present);
        if crate::session::has_project(workspaces, projects.last().0) == present {
            earlier.push(projects.last())
        } else {
            earlier
        }
    }
}

/// The client once it follows a snapshot.
pub open spec fn reconciled(
    client: ClientModel,
    snapshot: SessionModel,
    created: Seq<CreatedWorkspace>,
) -> Option<ClientModel> {
    match desired_projections(client, snapshot.workspaces, created) {
        None => None,
        Some(projections) => Some(
            ClientModel {
                snapshot,
                projects: projects_where(client.projects, snapshot.workspaces, true),
                projections,
                ..client
            },
        ),
    }
}

/// A change that the client wants made to the session, whatever the session's state by then.
#[derive(Debug)]
pub enum MutationIntent {
    CreateWorkspace { project_spec: ProjectSpec },
    ActivateWorkspace { workspace_id: WorkspaceId },
    CloseWorkspace { workspace_id: WorkspaceId },
    SetProjectRoots { workspace_id: WorkspaceId, project_spec: ProjectSpec },
    AddProjectRoots { workspace_id: WorkspaceId, roots: Vec<HostPath> },
    RemoveProjectRoot { workspace_id: WorkspaceId, root: HostPath },
    ReplaceLayout { workspace_id: WorkspaceId, layout: LayoutNode },
}

#[verifier::ext_equal]
pub enum IntentModel {
    Create { roots: Seq<RootModel> },
    Activate { workspace: WorkspaceId },
    Close { workspace: WorkspaceId },
    SetRoots { workspace: WorkspaceId, roots: Seq<RootModel> },
    AddRoots { workspace: WorkspaceId, paths: Seq<PathModel> },
    RemoveRoot { workspace: WorkspaceId, path: PathModel },
    ReplaceLayout { workspace: WorkspaceId, layout: LayoutModel },
}

impl View for MutationIntent {
    type V = IntentModel;

    open spec fn view(&self) -> IntentModel {
        match *self {
            MutationIntent::CreateWorkspace { project_spec } => IntentModel::Create {
                roots: project_spec@,
            },
            MutationIntent::ActivateWorkspace { workspace_id } => IntentModel::Activate {
                workspace: workspace_id,
            },
            MutationIntent::CloseWorkspace { workspace_id } => IntentModel::Close {
                workspace: workspace_id,
            },
            MutationIntent::SetProjectRoots { workspace_id, project_spec } => {
                IntentModel::SetRoots { workspace: workspace_id, roots: project_spec@ }
            },
            MutationIntent::AddProjectRoots { workspace_id, roots } => IntentModel::AddRoots {
                workspace: workspace_id,
                paths: crate::path::path_models(roots@),
            },
            MutationIntent::RemoveProjectRoot { workspace_id, root } => IntentModel::RemoveRoot {
                workspace: workspace_id,
                path: root@,
            },
            MutationIntent::ReplaceLayout { workspace_id, layout } => IntentModel::ReplaceLayout {
                workspace: workspace_id,
                layout: layout@,
            },
        }
    }
}

/// A root whose resolved path is still to be found: it is the one asked for.
pub open spec fn unresolved_root(path: PathModel) -> RootModel {
    RootModel { requested: path, canonical: path }
}

/// Roots followed by unresolved ones.
pub open spec fn with_paths(roots: Seq<RootModel>, paths: Seq<PathModel>) -> Seq<RootModel> {
    roots + Seq::new(paths.len(), |i: int| unresolved_root(paths[i]))
}

/// Whether a root is known by a path, as asked for or as resolved.
pub open spec fn known_by(root: RootModel, path: PathModel) -> bool {
    crate::path::same_path(root.canonical, path) || crate::path::same_path(root.requested, path)
}

/// The roots that are not known by a path.
pub open spec fn without_path(roots: Seq<RootModel>, path: PathModel) -> Seq<RootModel>
    decreases roots.len(),
{
    if roots.len() == 0 {
        Seq::<RootModel>::empty()
    } else if known_by(roots.last(), path) {
        without_path(roots.drop_last(), path)
    } else {
        without_path(roots.drop_last(), path).push(roots.last())
    }
}

/// The mutation that an intent amounts to in a certain state of the session.
pub open spec fn intended(session: SessionModel, intent: IntentModel) -> Result<
    MutationModel,
    ClientFault,
> {
    match intent {
        IntentModel::Create { roots } => Ok(
            MutationModel::Create { after: Some(session.active), roots },
        ),
        IntentModel::Activate { workspace } => Ok(MutationModel::Activate { workspace }),
        IntentModel::Close { workspace } => Ok(MutationModel::Close { workspace }),
        IntentModel::SetRoots { workspace, roots } => Ok(
            MutationModel::SetRoots { workspace, roots },
        ),
        IntentModel::AddRoots { workspace, paths } => match crate::session::position(
            session.workspaces,
            workspace,
        ) {
            None => Err(ClientFault::AbsentForAddedRoot),
            Some(index) => Ok(
                MutationModel::SetRoots {
                    workspace,
                    roots: with_paths(session.workspaces[index].roots, paths),
                },
            ),
        },
        IntentModel::RemoveRoot { workspace, path } => match crate::session::position(
            session.workspaces,
            workspace,
        ) {
            None => Err(ClientFault::AbsentForRemovedRoot),
            Some(index) => Ok(
                MutationModel::SetRoots {
                    workspace,
                    roots: without_path(session.workspaces[index].roots, path),
                },
            ),
        },
        IntentModel::ReplaceLayout { workspace, layout } => match crate::session::position(
            session.workspaces,
            workspace,
        ) {
            None => Err(ClientFault::AbsentForLayout),
            Some(index) => Ok(
                MutationModel::ReplaceLayout {
                    workspace,
                    expected_layout_revision: session.workspaces[index].layout_revision,
                    layout,
                },
            ),
        },
    }
}

/// Whether the host is brought to the front once an intent is carried out.
pub open spec fn fronts_host(intent: IntentModel) -> bool {
    intent is Create || intent is Activate
}

/// The workspace whose layout an intent replaces by the one that the client shows.
pub open spec fn own_layout(intent: IntentModel) -> Option<WorkspaceId> {
    match intent {
        IntentModel::ReplaceLayout { workspace, layout: _ } => Some(workspace),
        _ => None,
    }
}

fn clone_roots_with(roots: &Vec<ProjectRoot>, paths: &Vec<HostPath>) -> (spec: ProjectSpec)
    ensures
        spec@ == with_paths(
            crate::session::root_models(roots@),
            crate::path::path_models(paths@),
        ),
{
    let ghost old_roots = crate::session::root_models(roots@);
    let ghost added = crate::path::path_models(paths@);
    let mut all: Vec<ProjectRoot> = Vec::new();
    let mut i: usize = 0;
    while i < roots.len()
        invariant
            i <= roots@.len(),
            all@.len() == i,
            forall|k: int| 0 <= k < i ==> (#[trigger] all@[k])@ == roots@[k]@,
        decreases roots@.len() - i,
    {
        all.push(roots[i].clone());
        i += 1;
    }
    let ghost count = i as int;
    let mut j: usize = 0;
    while j < paths.len()
        invariant
            j <= paths@.len(),
            count == roots@.len(),
            all@.len() == count + j,
            forall|k: int| 0 <= k < count ==> (#[trigger] all@[k])@ == roots@[k]@,
            forall|k: int|
                count <= k < count + j ==> (#[trigger] all@[k])@ == unresolved_root(
                    paths@[k - count]@,
                ),
        decreases paths@.len() - j,
    {
        all.push(
            ProjectRoot { requested_path: paths[j].clone(), canonical_path: paths[j].clone() },
        );
        j += 1;
    }
    let spec = ProjectSpec { roots: all };
    assert(spec@ =~= with_paths(old_roots, added));
    spec
}

fn clone_roots_without(roots: &Vec<ProjectRoot>, path: &HostPath) -> (spec: ProjectSpec)
    ensures
        spec@ == without_path(crate::session::root_models(roots@), path@),
{
    let ghost all = crate::session::root_models(roots@);
    let mut rest: Vec<ProjectRoot> = Vec::new();
    let mut i: usize = 0;
    assert(all.take(0) =~= Seq::<RootModel>::empty());
    assert(crate::session::root_models(rest@) =~= Seq::<RootModel>::empty());
    while i < roots.len()
        invariant
            i <= roots@.len(),
            all == crate::session::root_models(roots@),
            crate::session::root_models(rest@) == without_path(all.take(i as int), path@),
        decreases roots@.len() - i,
    {
        let ghost before = crate::session::root_models(rest@);
        assert(all.take(i + 1).drop_last() =~= all.take(i as int));
        assert(all.take(i + 1).last() == roots@[i as int]@);
        if !roots[i].canonical_path.is_same(path) && !roots[i].requested_path.is_same(path) {
            rest.push(roots[i].clone());
            assert(crate::session::root_models(rest@) =~= before.push(roots@[i as int]@));
        }
        i += 1;
    }
    assert(all.take(i as int) =~= all);
    ProjectSpec { roots: rest }
}

/// Whether two specifications name the same paths in the same order.
pub fn same_project_spec(left: &ProjectSpec, right: &ProjectSpec) -> (result: bool)
    ensures
        result == same_roots(left@, right@),
{
    if left.roots.len() != right.roots.len() {
        return false;
    }
    let mut i: usize = 0;
    while i < left.roots.len()
        invariant
            i <= left.roots@.len() == right.roots@.len(),
            forall|k: int|
                0 <= k < i ==> crate::path::same_path(
                    (#[trigger] left@[k]).requested,
                    right@[k].requested,
                ) && crate::path::same_path(left@[k].canonical, right@[k].canonical),
        decreases left.roots@.len() - i,
    {
        assert(left@[i as int] == left.roots@[i as int]@);
        assert(right@[i as int] == right.roots@[i as int]@);
        if !left.roots[i].requested_path.is_same(&right.roots[i].requested_path)
            || !left.roots[i].canonical_path.is_same(&right.roots[i].canonical_path) {
            return false;
        }
        i += 1;
    }
    true
}

impl HostSessionClient {
    /// A client of the session on this machine that shows nothing yet.
    pub fn local(snapshot: HostSessionSnapshot) -> (client: Self)
        ensures
            client@ == (ClientModel {
                host: HostModel::Local,
                display_name: "Local"@,
                snapshot: snapshot@,
                projects: Seq::empty(),
                projections: Seq::empty(),
            }),
    {
        let client = HostSessionClient {
            host_id: HostId::Local,
            display_name: "Local".to_string(),
            snapshot,
            projects: Vec::new(),
            projections: Vec::new(),
        };
        assert(client@.projects =~= Seq::<(u64, ProjectHandle)>::empty());
        assert(client@.projections =~= Seq::<ProjectionModel>::empty());
        client
    }

    /// A client of the session on another machine that shows nothing yet.
    pub fn remote(
        snapshot: HostSessionSnapshot,
        options: &RemoteConnectionOptions,
        display_name: &str,
    ) -> (result: Result<Self, ClientError>)
        ensures
            match crate::connection::host_for(*options) {
                None => result matches Err(error) && error@ == ClientFault::UnsupportedConnection,
                Some(HostModel::Local) => result matches Err(error) && error@
                    == ClientFault::LocalHostForRemote,
                Some(host) => result matches Ok(client) && client@ == (ClientModel {
                    host,
                    display_name: display_name@,
                    snapshot: snapshot@,
                    projects: Seq::empty(),
                    projections: Seq::empty(),
                }),
            },
    {
        let host_id = match Self::host_id_for_connection(options) {
            Ok(host_id) => host_id,
            Err(error) => {
                return Err(error);
            },
        };
        if host_id == HostId::Local {
            return Err(ClientError::LocalHostForRemote);
        }
        let client = HostSessionClient {
            host_id,
            display_name: display_name.to_string(),
            snapshot,
            projects: Vec::new(),
            projections: Vec::new(),
        };
        assert(client@.projects =~= Seq::<(u64, ProjectHandle)>::empty());
        assert(client@.projections =~= Seq::<ProjectionModel>::empty());
        Ok(client)
    }

    /// The identity of the host that options lead to.
    pub fn host_id_for_connection(options: &RemoteConnectionOptions) -> (result: Result<
        HostId,
        ClientError,
    >)
        ensures
            match crate::connection::host_for(*options) {
                Some(host) => result matches Ok(host_id) && host_id@ == host,
                None => result matches Err(error) && error@ == ClientFault::UnsupportedConnection,
            },
    {
        match crate::connection::host_id_for_connection(options) {
            Some(host_id) => Ok(host_id),
            None => Err(ClientError::UnsupportedConnection),
        }
    }

    /// The identity of the host.
    pub fn host_id(&self) -> (host_id: &HostId)
        ensures
            host_id@ == self@.host,
    {
        &self.host_id
    }

    /// The name under which the host is shown.
    pub fn display_name(&self) -> (name: &str)
        ensures
            name@ == self@.display_name,
    {
        self.display_name.as_str()
    }

    /// The snapshot that the client follows.
    pub fn snapshot(&self) -> (snapshot: &HostSessionSnapshot)
        ensures
            *snapshot == self.snapshot,
    {
        &self.snapshot
    }

    /// What the client shows of a workspace.
    pub fn projection(&self, workspace_id: WorkspaceId) -> (result: Option<&WorkspaceProjection>)
        ensures
            match result {
                Some(projection) => projection_of(self@.projections, workspace_id) == Some(
                    projection@,
                ),
                None => projection_of(self@.projections, workspace_id) is None,
            },
    {
        let ghost all = self@.projections;
        let mut left: usize = self.projections.len();
        assert(all.take(left as int) =~= all);
        while left > 0
            invariant
                left <= self.projections@.len(),
                all == self@.projections,
                projection_of(all, workspace_id) == projection_of(
                    all.take(left as int),
                    workspace_id,
                ),
            decreases left,
        {
            let projection = &self.projections[left - 1];
            assert(all[left - 1] == projection@);
            assert(all.take(left as int).drop_last() =~= all.take(left - 1));
            assert(all.take(left as int).last() == projection@);
            if projection.identity.workspace_id == workspace_id {
                return Some(projection);
            }
            left -= 1;
        }
        None
    }

    /// The client's object for a project of the host.
    pub fn project(&self, project_id: ProjectId) -> (result: Option<ProjectHandle>)
        ensures
            result == project_handle(self@.projects, project_id.number()),
    {
        let ghost all = self@.projects;
        let wanted: u64 = project_id.get();
        let mut left: usize = self.projects.len();
        assert(all.take(left as int) =~= all);
        while left > 0
            invariant
                left <= self.projects@.len(),
                all == self@.projects,
                wanted == project_id.number(),
                project_handle(all, wanted) == project_handle(all.take(left as int), wanted),
            decreases left,
        {
            let known = &self.projects[left - 1];
            assert(all[left - 1] == (known.project_id.number(), known.handle));
            assert(all.take(left as int).drop_last() =~= all.take(left - 1));
            assert(all.take(left as int).last() == all[left - 1]);
            if known.project_id.get() == wanted {
                return Some(known.handle);
            }
            left -= 1;
        }
        None
    }

    /// Records the client's object for a project, unless it has one.
    pub fn attach_project(&mut self, project_id: ProjectId, handle: ProjectHandle)
        ensures
            final(self)@ == (ClientModel {
                projects: if project_handle(old(self)@.projects, project_id.number()) is Some {
                    old(self)@.projects
                } else {
                    old(self)@.projects.push((project_id.number(), handle))
                },
                ..old(self)@
            }),
            project_handle(final(self)@.projects, project_id.number()) is Some,
    {
        match self.project(project_id) {
            Some(_) => {},
            None => {
                let ghost before = self@.projects;
                self.projects.push(HostProject { project_id, handle });
                assert(self@.projects =~= before.push((project_id.number(), handle)));
            },
        }
        assert(self@ =~= ClientModel { projects: self@.projects, ..old(self)@ });
    }

    /// Checks that a workspace still is what a caller takes it for.
    pub fn check_target(&self, target: &HostWorkspaceIdentity) -> (result: Result<(), ClientError>)
        ensures
            match checked_target(self@, target@) {
                None => result is Ok,
                Some(fault) => result matches Err(error) && error@ == fault,
            },
    {
        if self.host_id != target.host_id {
            return Err(ClientError::OtherHost);
        }
        match self.snapshot.workspace_index(target.workspace_id) {
            None => Err(ClientError::AbsentTarget),
            Some(index) => {
                assert(self@.snapshot.workspaces[index as int]
                    == self.snapshot.workspaces@[index as int]@);
                if self.snapshot.workspaces[index].project_id.get() != target.project_id.get() {
                    Err(ClientError::TargetProjectChanged)
                } else {
                    Ok(())
                }
            },
        }
    }

    /// The intent to give a workspace the roots that its host resolved for it.
    pub fn replace_workspace_project_roots(
        target: &HostWorkspaceIdentity,
        resolved: ProjectSpec,
    ) -> (intent: MutationIntent)
        ensures
            intent@ == (IntentModel::SetRoots {
                workspace: target@.workspace,
                roots: resolved@,
            }),
    {
        Self::set_project_roots(target.workspace_id, resolved)
    }

    /// Shows the first workspace of the session, given the identity under which it is shown.
    pub fn attach_initial_projection(
        &mut self,
        snapshot: &WorkspaceSnapshot,
        project: ProjectHandle,
        workspace: WorkspaceHandle,
        shown: Option<&HostWorkspaceIdentity>,
    ) -> (result: Result<(), ClientError>)
        ensures
            match attached(
                old(self)@,
                snapshot@,
                project,
                workspace,
                match shown {
                    Some(identity) => Some(identity@),
                    None => None,
                },
            ) {
                Ok(client) => result is Ok && final(self)@ == client,
                Err(fault) => (result matches Err(error) && error@ == fault) && *final(self)
                    == *old(self),
            },
    {
        if self.projections.len() > 0 {
            return Err(ClientError::ProjectionAttached);
        }
        let identity = HostWorkspaceIdentity {
            host_id: self.host_id.clone(),
            workspace_id: snapshot.id,
            project_id: snapshot.project_id,
        };
        let matching = match shown {
            Some(shown) => shown.is_same(&identity),
            None => false,
        };
        if !matching {
            return Err(ClientError::InitialIdentityMismatch);
        }
        if self.project(snapshot.project_id).is_some() {
            return Err(ClientError::ProjectAttached);
        }
        let ghost before_projects = self@.projects;
        let ghost before_projections = self@.projections;
        self.projects.push(HostProject { project_id: snapshot.project_id, handle: project });
        let projection = WorkspaceProjection {
            identity,
            project,
            workspace,
            project_spec: snapshot.project_spec.clone(),
            layout_revision: 0,
        };
        let ghost model = projection@;
        self.projections.push(projection);
        assert(self@.projects =~= before_projects.push((snapshot@.project, project)));
        assert(self@.projections =~= seq![model]);
        Ok(())
    }

    /// The intent to create a workspace after the active one.
    pub fn create_workspace(project_spec: ProjectSpec) -> (intent: MutationIntent)
        ensures
            intent@ == (IntentModel::Create { roots: project_spec@ }),
    {
        MutationIntent::CreateWorkspace { project_spec }
    }

    /// The intent to activate a workspace.
    pub fn activate_workspace(workspace_id: WorkspaceId) -> (intent: MutationIntent)
        ensures
            intent@ == (IntentModel::Activate { workspace: workspace_id }),
    {
        MutationIntent::ActivateWorkspace { workspace_id }
    }

    /// The intent to close a workspace.
    pub fn close_workspace(workspace_id: WorkspaceId) -> (intent: MutationIntent)
        ensures
            intent@ == (IntentModel::Close { workspace: workspace_id }),
    {
        MutationIntent::CloseWorkspace { workspace_id }
    }

    /// The intent to give a workspace other roots.
    pub fn set_project_roots(
        workspace_id: WorkspaceId,
        project_spec: ProjectSpec,
    ) -> (intent: MutationIntent)
        ensures
            intent@ == (IntentModel::SetRoots { workspace: workspace_id, roots: project_spec@ }),
    {
        MutationIntent::SetProjectRoots { workspace_id, project_spec }
    }

    /// The intent to add a root to a workspace.
    pub fn add_project_root(workspace_id: WorkspaceId, root: HostPath) -> (intent: MutationIntent)
        ensures
            intent@ == (IntentModel::AddRoots { workspace: workspace_id, paths: seq![root@] }),
    {
        let mut roots: Vec<HostPath> = Vec::new();
        let ghost text = root@;
        roots.push(root);
        assert(crate::path::path_models(roots@) =~= seq![text]);
        Self::add_project_roots(workspace_id, roots)
    }

    /// The intent to add roots to a workspace.
    pub fn add_project_roots(workspace_id: WorkspaceId, roots: Vec<HostPath>) -> (intent:
        MutationIntent)
        ensures
            intent@ == (IntentModel::AddRoots {
                workspace: workspace_id,
                paths: crate::path::path_models(roots@),
            }),
    {
        MutationIntent::AddProjectRoots { workspace_id, roots }
    }

    /// The intent to remove a root from a workspace.
    pub fn remove_project_root(workspace_id: WorkspaceId, root: HostPath) -> (intent:
        MutationIntent)
        ensures
            intent@ == (IntentModel::RemoveRoot { workspace: workspace_id, path: root@ }),
    {
        MutationIntent::RemoveProjectRoot { workspace_id, root }
    }

    /// The intent to store the layout that the client shows of a workspace.
    pub fn replace_layout(workspace_id: WorkspaceId, layout: LayoutNode) -> (intent:
        MutationIntent)
        ensures
            intent@ == (IntentModel::ReplaceLayout { workspace: workspace_id, layout: layout@ }),
    {
        MutationIntent::ReplaceLayout { workspace_id, layout }
    }

    /// The mutation that an intent amounts to in the snapshot that the client follows.
    pub fn mutation_for(&self, intent: &MutationIntent) -> (result: Result<
        SessionMutation,
        ClientError,
    >)
        ensures
            match intended(self@.snapshot, intent@) {
                Ok(mutation) => result matches Ok(made) && made@ == mutation,
                Err(fault) => result matches Err(error) && error@ == fault,
            },
    {
        match intent {
            MutationIntent::CreateWorkspace { project_spec } => Ok(
                SessionMutation::CreateWorkspace {
                    after: Some(self.snapshot.active_workspace_id),
                    project_spec: project_spec.clone(),
                },
            ),
            MutationIntent::ActivateWorkspace { workspace_id } => Ok(
                SessionMutation::ActivateWorkspace { workspace_id: *workspace_id },
            ),
            MutationIntent::CloseWorkspace { workspace_id } => Ok(
                SessionMutation::CloseWorkspace { workspace_id: *workspace_id },
            ),
            MutationIntent::SetProjectRoots { workspace_id, project_spec } => Ok(
                SessionMutation::SetWorkspaceProjectRoots {
                    workspace_id: *workspace_id,
                    project_spec: project_spec.clone(),
                },
            ),
            MutationIntent::AddProjectRoots { workspace_id, roots } => {
                match self.snapshot.workspace_index(*workspace_id) {
                    None => Err(ClientError::AbsentForAddedRoot),
                    Some(index) => {
                        let workspace = &self.snapshot.workspaces[index];
                        assert(self@.snapshot.workspaces[index as int] == workspace@);
                        Ok(
                            SessionMutation::SetWorkspaceProjectRoots {
                                workspace_id: *workspace_id,
                                project_spec: clone_roots_with(
                                    &workspace.project_spec.roots,
                                    roots,
                                ),
                            },
                        )
                    },
                }
            },
            MutationIntent::RemoveProjectRoot { workspace_id, root } => {
                match self.snapshot.workspace_index(*workspace_id) {
                    None => Err(ClientError::AbsentForRemovedRoot),
                    Some(index) => {
                        let workspace = &self.snapshot.workspaces[index];
                        assert(self@.snapshot.workspaces[index as int] == workspace@);
                        Ok(
                            SessionMutation::SetWorkspaceProjectRoots {
                                workspace_id: *workspace_id,
                                project_spec: clone_roots_without(
                                    &workspace.project_spec.roots,
                                    root,
                                ),
                            },
                        )
                    },
                }
            },
            MutationIntent::ReplaceLayout { workspace_id, layout } => {
                match self.snapshot.workspace_index(*workspace_id) {
                    None => Err(ClientError::AbsentForLayout),
                    Some(index) => {
                        let workspace = &self.snapshot.workspaces[index];
                        assert(self@.snapshot.workspaces[index as int] == workspace@);
                        Ok(
                            SessionMutation::ReplaceWorkspaceLayout {
                                workspace_id: *workspace_id,
                                expected_layout_revision: workspace.layout_revision,
                                layout: layout.clone(),
                            },
                        )
                    },
                }
            },
        }
    }

    /// The request that an intent amounts to in the snapshot that the client follows.
    pub fn request_for(&self, intent: &MutationIntent) -> (result: Result<
        MutationRequest,
        ClientError,
    >)
        ensures
            match intended(self@.snapshot, intent@) {
                Ok(mutation) => result matches Ok(request) && request@ == (RequestModel {
                    expected_revision: self@.snapshot.revision,
                    mutation,
                }),
                Err(fault) => result matches Err(error) && error@ == fault,
            },
    {
        match self.mutation_for(intent) {
            Ok(mutation) => Ok(
                MutationRequest { expected_revision: self.snapshot.revision, mutation },
            ),
            Err(error) => Err(error),
        }
    }
}

/// Why a workspace no longer is what a caller takes it for.
pub open spec fn checked_target(client: ClientModel, target: IdentityModel) -> Option<ClientFault> {
    if client.host != target.host {
        Some(ClientFault::OtherHost)
    } else {
        match crate::session::position(client.snapshot.workspaces, target.workspace) {
            None => Some(ClientFault::AbsentTarget),
            Some(index) => if client.snapshot.workspaces[index].project != target.project {
                Some(ClientFault::TargetProjectChanged)
            } else {
                None
            },
        }
    }
}

/// The client once it shows the first workspace of the session.
pub open spec fn attached(
    client: ClientModel,
    workspace: WorkspaceModel,
    project: ProjectHandle,
    handle: WorkspaceHandle,
    shown: Option<IdentityModel>,
) -> Result<ClientModel, ClientFault> {
    let identity = identity_on(client.host, workspace);
    if client.projections.len() > 0 {
        Err(ClientFault::ProjectionAttached)
    } else if shown != Some(identity) {
        Err(ClientFault::InitialIdentityMismatch)
    } else if project_handle(client.projects, workspace.project) is Some {
        Err(ClientFault::ProjectAttached)
    } else {
        Ok(
            ClientModel {
                projects: client.projects.push((workspace.project, project)),
                projections: seq![
                    ProjectionModel {
                        identity,
                        project,
                        workspace: handle,
                        roots: workspace.roots,
                        layout_revision: 0,
                    },
                ],
                ..client
            },
        )
    }
}

/// No root that is left after removing a path is known by it, and the others stay in order.
pub proof fn law_removed_root_is_gone(roots: Seq<RootModel>, path: PathModel)
    ensures
        forall|i: int|
            0 <= i < without_path(roots, path).len() ==> !known_by(
                #[trigger] without_path(roots, path)[i],
                path,
            ),
        forall|i: int|
            0 <= i < roots.len() && !known_by(#[trigger] roots[i], path) ==> without_path(
                roots,
                path,
            ).contains(roots[i]),
    decreases roots.len(),
{
    if roots.len() > 0 {
        let front = roots.drop_last();
        law_removed_root_is_gone(front, path);
        let rest = without_path(roots, path);
        assert forall|i: int| 0 <= i < rest.len() implies !known_by(#[trigger] rest[i], path) by {
            if i < without_path(front, path).len() {
                assert(rest[i] == without_path(front, path)[i]);
            }
        }
        assert forall|i: int| 0 <= i < roots.len() && !known_by(
            #[trigger] roots[i],
            path,
        ) implies rest.contains(roots[i]) by {
            if i < front.len() {
                assert(front[i] == roots[i]);
                let kept = without_path(front, path);
                let j = choose|j: int| 0 <= j < kept.len() && kept[j] == front[i];
                assert(rest[j] == roots[i]);
            } else {
                assert(rest[rest.len() - 1] == roots[i]);
            }
        }
    }
}

/// Removing a root that was just added gives the roots before, if none was known by its path.
pub proof fn law_removing_an_added_root_restores(roots: Seq<RootModel>, path: PathModel)
    requires
        forall|i: int| 0 <= i < roots.len() ==> !known_by(#[trigger] roots[i], path),
    ensures
        without_path(with_paths(roots, seq![path]), path) == roots,
{
    let longer = with_paths(roots, seq![path]);
    assert(longer =~= roots.push(unresolved_root(path)));
    assert(longer.drop_last() =~= roots);
    lemma_without_none(roots, path);
}

proof fn lemma_without_none(roots: Seq<RootModel>, path: PathModel)
    requires
        forall|i: int| 0 <= i < roots.len() ==> !known_by(#[trigger] roots[i], path),
    ensures
        without_path(roots, path) == roots,
    decreases roots.len(),
{
    if roots.len() > 0 {
        assert forall|i: int| 0 <= i < roots.drop_last().len() implies !known_by(
            #[trigger] roots.drop_last()[i],
            path,
        ) by {
            assert(roots.drop_last()[i] == roots[i]);
        }
        lemma_without_none(roots.drop_last(), path);
        assert(roots.drop_last().push(roots.last()) =~= roots);
    } else {
        assert(without_path(roots, path) =~= roots);
    }
}

} // verus!
