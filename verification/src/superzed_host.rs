//! The host side of a session: the authoritative snapshot, the projects that are open for it, and
//! the resolution of project roots.

use crate::error::SessionError;
use crate::ids::{PaneId, ProjectId, WorkspaceId};
use crate::path::{HostPath, PathModel};
use crate::persistence::{HostSessionDb, PersistenceError, PersistenceFault};
use crate::session::{
    FreshIds, HostSessionSnapshot, MutationModel, MutationRequest, ProjectSpec, RequestModel,
    RootModel, SessionModel, SessionMutation, WorkspaceModel, WorkspaceSnapshot,
};
use vstd::prelude::*;

verus! {

/// The host of a session.
#[derive(Debug)]
pub struct SuperzedHost {
    pub database: HostSessionDb,
    pub snapshot: HostSessionSnapshot,
    pub projects: Vec<ProjectId>,
    pub protocol_handlers_registered: bool,
}

/// A step that brings the open projects in line with the session.
#[derive(Debug)]
pub enum HostAction {
    CloseProject { project_id: ProjectId },
    CreateProject { project_id: ProjectId, register_protocol_handlers: bool },
    ReconcileRoots { project_id: ProjectId, desired_paths: Vec<HostPath> },
}

#[verifier::ext_equal]
pub enum HostActionModel {
    Close { project: u64 },
    Create { project: u64, register_protocol_handlers: bool },
    ReconcileRoots { project: u64, paths: Seq<PathModel> },
}

impl View for HostAction {
    type V = HostActionModel;

    open spec fn view(&self) -> HostActionModel {
        match *self {
            HostAction::CloseProject { project_id } => HostActionModel::Close {
                project: project_id.number(),
            },
            HostAction::CreateProject { project_id, register_protocol_handlers } => {
                HostActionModel::Create {
                    project: project_id.number(),
                    register_protocol_handlers,
                }
            },
            HostAction::ReconcileRoots { project_id, desired_paths } => {
                HostActionModel::ReconcileRoots {
                    project: project_id.number(),
                    paths: crate::path::path_models(desired_paths@),
                }
            },
        }
    }
}

/// The steps that a sequence of host actions stands for.
pub open spec fn host_action_models(actions: Seq<HostAction>) -> Seq<HostActionModel> {
    Seq::new(actions.len(), |i: int| actions[i]@)
}

/// The numbers of the open projects.
pub open spec fn open_numbers(projects: Seq<ProjectId>) -> Seq<u64> {
    Seq::new(projects.len(), |i: int| projects[i].number())
}

/// The open projects of which a session still has, or no longer has, a workspace.
pub open spec fn open_where(
    projects: Seq<u64>,
    workspaces: Seq<WorkspaceModel>,
    present: bool,
) -> Seq<u64>
    decreases projects.len(),
{
    if projects.len() == 0 {
        Seq::<u64>::empty()
    } else {
        let earlier = open_where(projects.drop_last(), workspaces, present);
        if crate::session::has_project(workspaces, projects.last()) == present {
            earlier.push(projects.last())
        } else {
            earlier
        }
    }
}

/// The steps that close projects.
pub open spec fn close_actions(projects: Seq<u64>) -> Seq<HostActionModel> {
    Seq::new(projects.len(), |i: int| HostActionModel::Close { project: projects[i] })
}

/// The resolved paths of roots.
pub open spec fn canonical_paths(roots: Seq<RootModel>) -> Seq<PathModel> {
    Seq::new(roots.len(), |i: int| roots[i].canonical)
}

/// What the host has open, and what it did to come there.
#[verifier::ext_equal]
pub struct OpenProjects {
    pub projects: Seq<u64>,
    pub registered: bool,
    pub actions: Seq<HostActionModel>,
}

/// One workspace's part: its project is opened if it is not, the first one ever with the protocol
/// handlers, and then brought to its roots.
pub open spec fn opened_for(state: OpenProjects, workspace: WorkspaceModel) -> OpenProjects {
    let roots = HostActionModel::ReconcileRoots {
        project: workspace.project,
        paths: canonical_paths(workspace.roots),
    };
    if state.projects.contains(workspace.project) {
        OpenProjects { actions: state.actions.push(roots), ..state }
    } else {
        OpenProjects {
            projects: state.projects.push(workspace.project),
            registered: true,
            actions: state.actions.push(
                HostActionModel::Create {
                    project: workspace.project,
                    register_protocol_handlers: !state.registered,
                },
            ).push(roots),
        }
    }
}

/// The parts of all workspaces, one after another.
pub open spec fn opened_for_all(state: OpenProjects, workspaces: Seq<WorkspaceModel>) -> OpenProjects
    decreases workspaces.len(),
{
    if workspaces.len() == 0 {
        state
    } else {
        opened_for(opened_for_all(state, workspaces.drop_last()), workspaces.last())
    }
}

/// How the host brings its open projects in line with a session: it closes those that are gone,
/// then sees to each workspace.
pub open spec fn projects_reconciled(
    projects: Seq<u64>,
    registered: bool,
    workspaces: Seq<WorkspaceModel>,
) -> OpenProjects {
    opened_for_all(
        OpenProjects {
            projects: open_where(projects, workspaces, true),
            registered,
            actions: close_actions(open_where(projects, workspaces, false)),
        },
        workspaces,
    )
}

fn is_open(projects: &Vec<ProjectId>, number: u64) -> (result: bool)
    ensures
        result == open_numbers(projects@).contains(number),
{
    let mut i: usize = 0;
    while i < projects.len()
        invariant
            i <= projects@.len(),
            forall|k: int| 0 <= k < i ==> open_numbers(projects@)[k] != number,
        decreases projects@.len() - i,
    {
        assert(open_numbers(projects@)[i as int] == projects@[i as int].number());
        if projects[i].get() == number {
            return true;
        }
        i += 1;
    }
    false
}

fn roots_of(workspace: &WorkspaceSnapshot) -> (paths: Vec<HostPath>)
    ensures
        crate::path::path_models(paths@) == canonical_paths(workspace@.roots),
{
    let roots = &workspace.project_spec.roots;
    let mut paths: Vec<HostPath> = Vec::new();
    let mut i: usize = 0;
    while i < roots.len()
        invariant
            i <= roots@.len(),
            *roots == workspace.project_spec.roots,
            paths@.len() == i,
            forall|k: int| 0 <= k < i ==> (#[trigger] paths@[k])@ == roots@[k].canonical_path@,
        decreases roots@.len() - i,
    {
        paths.push(roots[i].canonical_path.clone());
        i += 1;
    }
    assert(crate::path::path_models(paths@) =~= canonical_paths(workspace@.roots));
    paths
}

/// An answer to a mutation: the snapshot that is now authoritative, and whether the mutation is in
/// it.
#[derive(Debug)]
pub struct MutationAnswer {
    pub snapshot: HostSessionSnapshot,
    pub applied: bool,
    pub actions: Vec<HostAction>,
}

/// Whether a refusal only says that the request was made for an older state.
pub open spec fn is_stale(fault: PersistenceFault) -> bool {
    fault matches PersistenceFault::Rejected(refusal) && (refusal is StaleRevision
        || refusal is StaleLayoutRevision)
}

/// The roots in a request that the host has to resolve first, if there are any.
pub open spec fn unresolved_roots(request: RequestModel) -> Option<Seq<RootModel>> {
    match request.mutation {
        MutationModel::Create { roots, .. } => Some(roots),
        MutationModel::SetRoots { roots, .. } => Some(roots),
        _ => None,
    }
}

/// Gives the roots in a request that the host has to resolve first.
pub fn roots_to_resolve(request: &MutationRequest) -> (spec: Option<&ProjectSpec>)
    ensures
        match spec {
            Some(spec) => unresolved_roots(request@) == Some(spec@),
            None => unresolved_roots(request@) is None,
        },
{
    match &request.mutation {
        SessionMutation::CreateWorkspace { after: _, project_spec } => Some(project_spec),
        SessionMutation::SetWorkspaceProjectRoots { workspace_id: _, project_spec } => Some(
            project_spec,
        ),
        _ => None,
    }
}

/// A request with resolved roots in place of its own, where it has any.
pub open spec fn resolved_request(request: RequestModel, resolved: Seq<RootModel>) -> RequestModel {
    RequestModel {
        mutation: match request.mutation {
            MutationModel::Create { after, .. } => MutationModel::Create { after, roots: resolved },
            MutationModel::SetRoots { workspace, .. } => MutationModel::SetRoots {
                workspace,
                roots: resolved,
            },
            other => other,
        },
        ..request
    }
}

/// Puts resolved roots in place of a request's own, where it has any.
pub fn with_resolved_roots(request: MutationRequest, resolved: ProjectSpec) -> (result:
    MutationRequest)
    ensures
        result@ == resolved_request(request@, resolved@),
{
    let MutationRequest { expected_revision, mutation } = request;
    let mutation = match mutation {
        SessionMutation::CreateWorkspace { after, project_spec: _ } => {
            SessionMutation::CreateWorkspace { after, project_spec: resolved }
        },
        SessionMutation::SetWorkspaceProjectRoots { workspace_id, project_spec: _ } => {
            SessionMutation::SetWorkspaceProjectRoots { workspace_id, project_spec: resolved }
        },
        other => other,
    };
    MutationRequest { expected_revision, mutation }
}

/// Resolving the roots of a request takes nothing but those roots from it: what it changes, and
/// the state that it was made for, stay.
pub proof fn law_resolving_keeps_the_request(request: RequestModel, resolved: Seq<RootModel>)
    ensures
        resolved_request(request, resolved).expected_revision == request.expected_revision,
        unresolved_roots(request) is None ==> resolved_request(request, resolved) == request,
        unresolved_roots(request) matches Some(roots) ==> unresolved_roots(
            resolved_request(request, resolved),
        ) == Some(resolved) && resolved_request(resolved_request(request, resolved), roots)
            == request,
{
}

impl SuperzedHost {
    /// Reads the stored session, or makes one under the given identities, and stores it, given
    /// what storage answered to writing it.
    pub fn load_with(database: HostSessionDb, fresh: FreshIds, written: Result<(), String>) -> (result:
        Result<(HostSessionDb, HostSessionSnapshot), PersistenceError>)
        ensures
            result matches Ok((kept, snapshot)) ==> crate::persistence::loaded(kept.tables@) == Ok::<
                Option<SessionModel>,
                PersistenceFault,
            >(Some(snapshot@)),
            match crate::persistence::loaded(database.tables@) {
                Err(fault) => result matches Err(error) && error@ == fault,
                Ok(found) => {
                    let session = match found {
                        Some(session) => session,
                        None => crate::session::initial_session(fresh),
                    };
                    match crate::persistence::stored(
                        session,
                        crate::persistence::answer(written),
                    ) {
                        Err(fault) => result matches Err(error) && error@ == fault,
                        Ok(rows) => result matches Ok((kept, snapshot)) && snapshot@ == session
                            && kept.tables@ == rows && kept.columns == database.columns,
                    }
                },
            },
    {
        let mut database = database;
        let snapshot = match database.load() {
            Ok(Some(snapshot)) => snapshot,
            Ok(None) => HostSessionSnapshot::initial_with(fresh),
            Err(error) => {
                return Err(error);
            },
        };
        match database.save(&snapshot, written) {
            Ok(()) => Ok((database, snapshot)),
            Err(error) => Err(error),
        }
    }

    /// Reads the stored session, or makes one under fresh identities, and stores it.
    pub fn load(database: HostSessionDb, written: Result<(), String>) -> (result: Result<
        (HostSessionDb, HostSessionSnapshot),
        PersistenceError,
    >)
        ensures
            result matches Ok((kept, snapshot)) ==> crate::persistence::loaded(kept.tables@) == Ok::<
                Option<SessionModel>,
                PersistenceFault,
            >(Some(snapshot@)),
            exists|fresh: FreshIds|
                crate::session::drawn(fresh) && match crate::persistence::loaded(database.tables@) {
                    Err(fault) => result matches Err(error) && error@ == fault,
                    Ok(found) => {
                        let session = match found {
                            Some(session) => session,
                            None => #[trigger] crate::session::initial_session(fresh),
                        };
                        match crate::persistence::stored(
                            session,
                            crate::persistence::answer(written),
                        ) {
                            Err(fault) => result matches Err(error) && error@ == fault,
                            Ok(rows) => result matches Ok((kept, snapshot)) && snapshot@ == session
                                && kept.tables@ == rows && kept.columns == database.columns,
                        }
                    },
                },
    {
        let fresh = FreshIds { workspace: WorkspaceId::new(), pane: PaneId::new() };
        let ghost initial = crate::session::initial_session(fresh);
        Self::load_with(database, fresh, written)
    }

    /// A host of a session, and the steps that open its projects.
    pub fn new(database: HostSessionDb, snapshot: HostSessionSnapshot) -> (result: (
        Self,
        Vec<HostAction>,
    ))
        ensures
            ({
                let opened = projects_reconciled(Seq::empty(), false, snapshot@.workspaces);
                &&& result.0.database == database
                &&& result.0.snapshot == snapshot
                &&& open_numbers(result.0.projects@) == opened.projects
                &&& result.0.protocol_handlers_registered == opened.registered
                &&& host_action_models(result.1@) == opened.actions
            }),
    {
        let mut host = SuperzedHost {
            database,
            snapshot,
            projects: Vec::new(),
            protocol_handlers_registered: false,
        };
        assert(open_numbers(host.projects@) =~= Seq::<u64>::empty());
        let actions = host.reconcile_projects();
        (host, actions)
    }

    /// The open project of the first workspace that has one.
    pub fn first_project(&self) -> (result: Option<ProjectId>)
        ensures
            match result {
                Some(project_id) => exists|i: int|
                    0 <= i < self.snapshot@.workspaces.len() && (
                    #[trigger] self.snapshot@.workspaces[i]).project == project_id.number()
                        && open_numbers(self.projects@).contains(project_id.number()) && forall|
                        k: int,
                    |
                        0 <= k < i ==> !open_numbers(self.projects@).contains(
                            (#[trigger] self.snapshot@.workspaces[k]).project,
                        ),
                None => forall|k: int|
                    0 <= k < self.snapshot@.workspaces.len() ==> !open_numbers(
                        self.projects@,
                    ).contains((#[trigger] self.snapshot@.workspaces[k]).project),
            },
    {
        let mut i: usize = 0;
        while i < self.snapshot.workspaces.len()
            invariant
                i <= self.snapshot.workspaces@.len(),
                forall|k: int|
                    0 <= k < i ==> !open_numbers(self.projects@).contains(
                        (#[trigger] self.snapshot@.workspaces[k]).project,
                    ),
            decreases self.snapshot.workspaces@.len() - i,
        {
            let project_id = self.snapshot.workspaces[i].project_id;
            assert(self.snapshot@.workspaces[i as int]
                == self.snapshot.workspaces@[i as int]@);
            if is_open(&self.projects, project_id.get()) {
                return Some(project_id);
            }
            i += 1;
        }
        None
    }

    /// Whether a project is open.
    pub fn project_for_test(&self, project_id: ProjectId) -> (result: bool)
        ensures
            result == open_numbers(self.projects@).contains(project_id.number()),
    {
        is_open(&self.projects, project_id.get())
    }

    /// How many projects are open.
    pub fn project_count_for_test(&self) -> (count: usize)
        ensures
            count == self.projects@.len(),
    {
        self.projects.len()
    }

    /// Brings the open projects in line with the session and lists the steps that it takes.
    pub fn reconcile_projects(&mut self) -> (actions: Vec<HostAction>)
        ensures
            ({
                let opened = projects_reconciled(
                    open_numbers(old(self).projects@),
                    old(self).protocol_handlers_registered,
                    old(self).snapshot@.workspaces,
                );
                &&& final(self).database == old(self).database
                &&& final(self).snapshot == old(self).snapshot
                &&& open_numbers(final(self).projects@) == opened.projects
                &&& final(self).protocol_handlers_registered == opened.registered
                &&& host_action_models(actions@) == opened.actions
            }),
    {
        let ghost all = open_numbers(self.projects@);
        let ghost workspaces = self.snapshot@.workspaces;
        let mut actions: Vec<HostAction> = Vec::new();
        let mut present: Vec<ProjectId> = Vec::new();
        let mut p: usize = 0;
        assert(all.take(0) =~= Seq::<u64>::empty());
        assert(open_numbers(present@) =~= Seq::<u64>::empty());
        assert(host_action_models(actions@) =~= close_actions(Seq::<u64>::empty()));
        while p < self.projects.len()
            invariant
                p <= self.projects@.len(),
                *self == *old(self),
                all == open_numbers(self.projects@),
                workspaces == self.snapshot@.workspaces,
                open_numbers(present@) == open_where(all.take(p as int), workspaces, true),
                host_action_models(actions@) == close_actions(
                    open_where(all.take(p as int), workspaces, false),
                ),
            decreases self.projects@.len() - p,
        {
            let project_id = self.projects[p];
            let ghost present_before = open_numbers(present@);
            let ghost actions_before = host_action_models(actions@);
            let ghost gone = open_where(all.take(p as int), workspaces, false);
            proof {
                assert(all[p as int] == project_id.number());
                assert(all.take(p + 1).drop_last() =~= all.take(p as int));
                assert(all.take(p + 1).last() == all[p as int]);
            }
            if self.snapshot.has_project(project_id.get()) {
                present.push(project_id);
                assert(open_numbers(present@) =~= present_before.push(all[p as int]));
            } else {
                actions.push(HostAction::CloseProject { project_id });
                assert(host_action_models(actions@) =~= actions_before.push(
                    HostActionModel::Close { project: all[p as int] },
                ));
                assert(close_actions(gone.push(all[p as int])) =~= close_actions(gone).push(
                    HostActionModel::Close { project: all[p as int] },
                ));
            }
            p += 1;
        }
        assert(all.take(p as int) =~= all);
        let ghost start = OpenProjects {
            projects: open_where(all, workspaces, true),
            registered: old(self).protocol_handlers_registered,
            actions: close_actions(open_where(all, workspaces, false)),
        };
        let mut registered = self.protocol_handlers_registered;
        let mut i: usize = 0;
        assert(workspaces.take(0) =~= Seq::<WorkspaceModel>::empty());
        while i < self.snapshot.workspaces.len()
            invariant
                i <= self.snapshot.workspaces@.len(),
                *self == *old(self),
                workspaces == self.snapshot@.workspaces,
                ({
                    let state = opened_for_all(start, workspaces.take(i as int));
                    open_numbers(present@) == state.projects && registered == state.registered
                        && host_action_models(actions@) == state.actions
                }),
            decreases self.snapshot.workspaces@.len() - i,
        {
            let workspace = &self.snapshot.workspaces[i];
            let project_id = workspace.project_id;
            let ghost present_before = open_numbers(present@);
            let ghost actions_before = host_action_models(actions@);
            let ghost opens = HostActionModel::Create {
                project: project_id.number(),
                register_protocol_handlers: !registered,
            };
            let ghost roots = HostActionModel::ReconcileRoots {
                project: project_id.number(),
                paths: canonical_paths(workspace@.roots),
            };
            proof {
                assert(workspaces.take(i + 1).drop_last() =~= workspaces.take(i as int));
                assert(workspaces.take(i + 1).last() == workspace@);
            }
            let already = is_open(&present, project_id.get());
            if !already {
                actions.push(
                    HostAction::CreateProject {
                        project_id,
                        register_protocol_handlers: !registered,
                    },
                );
                registered = true;
                present.push(project_id);
                assert(open_numbers(present@) =~= present_before.push(project_id.number()));
            }
            actions.push(
                HostAction::ReconcileRoots { project_id, desired_paths: roots_of(workspace) },
            );
            proof {
                if already {
                    assert(host_action_models(actions@) =~= actions_before.push(roots));
                } else {
                    assert(host_action_models(actions@) =~= actions_before.push(opens).push(roots));
                }
            }
            i += 1;
        }
        assert(workspaces.take(i as int) =~= workspaces);
        self.projects = present;
        self.protocol_handlers_registered = registered;
        actions
    }

    /// Carries out a mutation under the given identities, given what storage answered to writing
    /// the result. A request for an older state is answered with the current snapshot; any other
    /// refusal is an error. Neither changes anything.
    pub fn mutate_session_with(
        &mut self,
        request: MutationRequest,
        fresh: FreshIds,
        written: Result<(), String>,
    ) -> (result: Result<MutationAnswer, PersistenceError>)
        ensures
            match crate::persistence::committed(
                old(self).snapshot@,
                request@,
                fresh,
                crate::persistence::answer(written),
            ) {
                Ok((next, rows)) => {
                    let opened = projects_reconciled(
                        open_numbers(old(self).projects@),
                        old(self).protocol_handlers_registered,
                        next.workspaces,
                    );
                    &&& result matches Ok(answer) && answer.applied && answer.snapshot@ == next
                        && host_action_models(answer.actions@) == opened.actions
                    &&& final(self).snapshot@ == next
                    &&& final(self).database.tables@ == rows
                    &&& final(self).database.columns == old(self).database.columns
                    &&& open_numbers(final(self).projects@) == opened.projects
                    &&& final(self).protocol_handlers_registered == opened.registered
                },
                Err(fault) => {
                    &&& *final(self) == *old(self)
                    &&& if is_stale(fault) {
                        result matches Ok(answer) && !answer.applied && answer.snapshot@ == old(
                            self,
                        ).snapshot@ && answer.actions@.len() == 0
                    } else {
                        result matches Err(error) && error@ == fault
                    }
                },
            },
    {
        match self.database.commit_with(&mut self.snapshot, request, fresh, written) {
            Ok(()) => {
                let actions = self.reconcile_projects();
                Ok(MutationAnswer { snapshot: self.snapshot.clone(), applied: true, actions })
            },
            Err(error) => {
                let stale = match &error {
                    PersistenceError::Rejected(SessionError::StaleRevision { .. }) => true,
                    PersistenceError::Rejected(SessionError::StaleLayoutRevision { .. }) => true,
                    _ => false,
                };
                if stale {
                    Ok(
                        MutationAnswer {
                            snapshot: self.snapshot.clone(),
                            applied: false,
                            actions: Vec::new(),
                        },
                    )
                } else {
                    Err(error)
                }
            },
        }
    }

    /// Carries out a mutation as `mutate_session_with` does, drawing fresh identities for a new
    /// workspace.
    pub fn handle_mutate_session(
        &mut self,
        request: MutationRequest,
        written: Result<(), String>,
    ) -> (result: Result<MutationAnswer, PersistenceError>)
        ensures
            exists|fresh: FreshIds|
                crate::session::drawn(fresh) && match #[trigger] crate::persistence::committed(
                    old(self).snapshot@,
                    request@,
                    fresh,
                    crate::persistence::answer(written),
                ) {
                    Ok((next, rows)) => {
                        let opened = projects_reconciled(
                            open_numbers(old(self).projects@),
                            old(self).protocol_handlers_registered,
                            next.workspaces,
                        );
                        &&& result matches Ok(answer) && answer.applied && answer.snapshot@ == next
                            && host_action_models(answer.actions@) == opened.actions
                        &&& final(self).snapshot@ == next
                        &&& final(self).database.tables@ == rows
                        &&& final(self).database.columns == old(self).database.columns
                        &&& open_numbers(final(self).projects@) == opened.projects
                        &&& final(self).protocol_handlers_registered == opened.registered
                    },
                    Err(fault) => {
                        &&& *final(self) == *old(self)
                        &&& if is_stale(fault) {
                            result matches Ok(answer) && !answer.applied && answer.snapshot@ == old(
                                self,
                            ).snapshot@ && answer.actions@.len() == 0
                        } else {
                            result matches Err(error) && error@ == fault
                        }
                    },
                },
    {
        let fresh = FreshIds { workspace: WorkspaceId::new(), pane: PaneId::new() };
        self.mutate_session_with(request, fresh, written)
    }
}

} // verus!
