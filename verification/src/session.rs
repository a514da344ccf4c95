//! The session of a host: an ordered list of workspaces, changed by validated, revisioned
//! mutations.

use crate::error::{message_with, SessionError, SessionFault, Violation};
use crate::ids::{PaneId, ProjectId, WorkspaceId};
use crate::layout::{validate_layout, LayoutModel, LayoutNode};
use crate::path::{HostPath, PathModel};
use crate::text::decimal_text;
use std::collections::HashSet;
use vstd::prelude::*;

verus! {

broadcast use vstd::std_specs::hash::group_hash_axioms;

/// A root directory of a project, as asked for and as resolved on the host.
#[derive(Debug, PartialEq, Eq)]
pub struct ProjectRoot {
    pub requested_path: HostPath,
    pub canonical_path: HostPath,
}

/// The root directories of a project.
#[derive(Debug, PartialEq, Eq)]
pub struct ProjectSpec {
    pub roots: Vec<ProjectRoot>,
}

/// A workspace: one project and one pane layout.
#[derive(Debug, PartialEq)]
pub struct WorkspaceSnapshot {
    pub id: WorkspaceId,
    pub project_id: ProjectId,
    pub project_spec: ProjectSpec,
    pub layout_revision: u64,
    pub layout: LayoutNode,
}

/// The whole session of a host.
#[derive(Debug, PartialEq)]
pub struct HostSessionSnapshot {
    pub revision: u64,
    pub next_project_id: u64,
    pub active_workspace_id: WorkspaceId,
    pub workspaces: Vec<WorkspaceSnapshot>,
}

/// A change to a session.
#[derive(Debug, PartialEq)]
pub enum SessionMutation {
    CreateWorkspace { after: Option<WorkspaceId>, project_spec: ProjectSpec },
    CloseWorkspace { workspace_id: WorkspaceId },
    ActivateWorkspace { workspace_id: WorkspaceId },
    SetWorkspaceProjectRoots { workspace_id: WorkspaceId, project_spec: ProjectSpec },
    ReplaceWorkspaceLayout {
        workspace_id: WorkspaceId,
        expected_layout_revision: u64,
        layout: LayoutNode,
    },
}

/// A change to a session, with the revision that it was made for.
#[derive(Debug, PartialEq)]
pub struct MutationRequest {
    pub expected_revision: u64,
    pub mutation: SessionMutation,
}

#[verifier::ext_equal]
pub struct RootModel {
    pub requested: PathModel,
    pub canonical: PathModel,
}

#[verifier::ext_equal]
pub struct WorkspaceModel {
    pub id: WorkspaceId,
    pub project: u64,
    pub roots: Seq<RootModel>,
    pub layout_revision: u64,
    pub layout: LayoutModel,
}

#[verifier::ext_equal]
pub struct SessionModel {
    pub revision: u64,
    pub next_project_id: u64,
    pub active: WorkspaceId,
    pub workspaces: Seq<WorkspaceModel>,
}

#[verifier::ext_equal]
pub enum MutationModel {
    Create { after: Option<WorkspaceId>, roots: Seq<RootModel> },
    Close { workspace: WorkspaceId },
    Activate { workspace: WorkspaceId },
    SetRoots { workspace: WorkspaceId, roots: Seq<RootModel> },
    ReplaceLayout { workspace: WorkspaceId, expected_layout_revision: u64, layout: LayoutModel },
}

#[verifier::ext_equal]
pub struct RequestModel {
    pub expected_revision: u64,
    pub mutation: MutationModel,
}

impl View for ProjectRoot {
    type V = RootModel;

    open spec fn view(&self) -> RootModel {
        RootModel { requested: self.requested_path@, canonical: self.canonical_path@ }
    }
}

/// The roots that a sequence of project roots stands for.
pub open spec fn root_models(roots: Seq<ProjectRoot>) -> Seq<RootModel> {
    Seq::new(roots.len(), |i: int| roots[i]@)
}

impl View for ProjectSpec {
    type V = Seq<RootModel>;

    open spec fn view(&self) -> Seq<RootModel> {
        root_models(self.roots@)
    }
}

impl View for WorkspaceSnapshot {
    type V = WorkspaceModel;

    open spec fn view(&self) -> WorkspaceModel {
        WorkspaceModel {
            id: self.id,
            project: self.project_id.number(),
            roots: self.project_spec@,
            layout_revision: self.layout_revision,
            layout: self.layout@,
        }
    }
}

/// The workspaces that a sequence of workspace snapshots stands for.
pub open spec fn workspace_models(workspaces: Seq<WorkspaceSnapshot>) -> Seq<WorkspaceModel> {
    Seq::new(workspaces.len(), |i: int| workspaces[i]@)
}

impl View for HostSessionSnapshot {
    type V = SessionModel;

    open spec fn view(&self) -> SessionModel {
        SessionModel {
            revision: self.revision,
            next_project_id: self.next_project_id,
            active: self.active_workspace_id,
            workspaces: workspace_models(self.workspaces@),
        }
    }
}

impl View for SessionMutation {
    type V = MutationModel;

    open spec fn view(&self) -> MutationModel {
        match *self {
            SessionMutation::CreateWorkspace { after, project_spec } => MutationModel::Create {
                after,
                roots: project_spec@,
            },
            SessionMutation::CloseWorkspace { workspace_id } => MutationModel::Close {
                workspace: workspace_id,
            },
            SessionMutation::ActivateWorkspace { workspace_id } => MutationModel::Activate {
                workspace: workspace_id,
            },
            SessionMutation::SetWorkspaceProjectRoots { workspace_id, project_spec } => {
                MutationModel::SetRoots { workspace: workspace_id, roots: project_spec@ }
            },
            SessionMutation::ReplaceWorkspaceLayout {
                workspace_id,
                expected_layout_revision,
                layout,
            } => MutationModel::ReplaceLayout {
                workspace: workspace_id,
                expected_layout_revision,
                layout: layout@,
            },
        }
    }
}

impl View for MutationRequest {
    type V = RequestModel;

    open spec fn view(&self) -> RequestModel {
        RequestModel { expected_revision: self.expected_revision, mutation: self.mutation@ }
    }
}

/// Whether some root has the same canonical path.
pub open spec fn has_canonical(roots: Seq<RootModel>, path: PathModel) -> bool {
    exists|i: int|
        0 <= i < roots.len() && crate::path::same_path((#[trigger] roots[i]).canonical, path)
}

/// What is wrong with the first bad root.
pub open spec fn roots_violation(roots: Seq<RootModel>) -> Option<Violation>
    decreases roots.len(),
{
    if roots.len() == 0 {
        None
    } else {
        let root = roots.last();
        match roots_violation(roots.drop_last()) {
            Some(violation) => Some(violation),
            None => if !crate::path::absolute(root.requested) || !crate::path::absolute(
                root.canonical,
            ) {
                Some(Violation::RelativeRoot)
            } else if has_canonical(roots.drop_last(), root.canonical) {
                Some(Violation::DuplicateRoot(root.canonical.text))
            } else {
                None
            },
        }
    }
}

/// Well-formed roots: absolute paths, and no canonical path twice.
pub open spec fn roots_valid(roots: Seq<RootModel>) -> bool {
    &&& forall|i: int|
        0 <= i < roots.len() ==> crate::path::absolute((#[trigger] roots[i]).requested)
            && crate::path::absolute(roots[i].canonical)
    &&& forall|i: int, j: int|
        0 <= i < j < roots.len() ==> !crate::path::same_path(
            (#[trigger] roots[i]).canonical,
            (#[trigger] roots[j]).canonical,
        )
}

/// Where in the list the workspace with the given identity first stands.
pub open spec fn position(workspaces: Seq<WorkspaceModel>, id: WorkspaceId) -> Option<int>
    decreases workspaces.len(),
{
    if workspaces.len() == 0 {
        None
    } else {
        match position(workspaces.drop_last(), id) {
            Some(index) => Some(index),
            None => if workspaces.last().id == id {
                Some(workspaces.len() - 1)
            } else {
                None
            },
        }
    }
}

/// Whether some workspace has the given project.
pub open spec fn has_project(workspaces: Seq<WorkspaceModel>, project: u64) -> bool {
    exists|i: int| 0 <= i < workspaces.len() && (#[trigger] workspaces[i]).project == project
}

/// What is wrong with a workspace, given the workspaces before it.
pub open spec fn workspace_violation(
    earlier: Seq<WorkspaceModel>,
    workspace: WorkspaceModel,
) -> Option<Violation> {
    if position(earlier, workspace.id) is Some {
        Some(Violation::DuplicateWorkspace(workspace.id))
    } else if has_project(earlier, workspace.project) {
        Some(Violation::SharedProject(workspace.project))
    } else {
        match roots_violation(workspace.roots) {
            Some(violation) => Some(violation),
            None => crate::layout::layout_violation(workspace.layout),
        }
    }
}

/// What is wrong with the first bad workspace.
pub open spec fn workspaces_violation(workspaces: Seq<WorkspaceModel>) -> Option<Violation>
    decreases workspaces.len(),
{
    if workspaces.len() == 0 {
        None
    } else {
        match workspaces_violation(workspaces.drop_last()) {
            Some(violation) => Some(violation),
            None => workspace_violation(workspaces.drop_last(), workspaces.last()),
        }
    }
}

/// What is wrong with a session.
pub open spec fn session_violation(session: SessionModel) -> Option<Violation> {
    if session.workspaces.len() == 0 {
        Some(Violation::NoWorkspace)
    } else if session.next_project_id == 0 || exists|i: int|
        0 <= i < session.workspaces.len() && (#[trigger] session.workspaces[i]).project
            >= session.next_project_id {
        Some(Violation::NextProjectIdTooSmall)
    } else {
        match workspaces_violation(session.workspaces) {
            Some(violation) => Some(violation),
            None => if position(session.workspaces, session.active) is None {
                Some(Violation::AbsentActiveWorkspace)
            } else {
                None
            },
        }
    }
}

/// A well-formed session: at least one workspace, the active one among them, distinct identities
/// and projects, every project below the next one, and well-formed roots and layouts.
pub open spec fn session_valid(session: SessionModel) -> bool {
    let workspaces = session.workspaces;
    &&& exists|i: int| 0 <= i < workspaces.len() && (#[trigger] workspaces[i]).id == session.active
    &&& forall|i: int|
        0 <= i < workspaces.len() ==> (#[trigger] workspaces[i]).project < session.next_project_id
            && roots_valid(workspaces[i].roots) && crate::layout::layout_valid(workspaces[i].layout)
    &&& forall|i: int, j: int|
        0 <= i < j < workspaces.len() ==> (#[trigger] workspaces[i]).id != (
        #[trigger] workspaces[j]).id && workspaces[i].project != workspaces[j].project
}

/// A workspace without roots and with one empty pane.
pub open spec fn blank_workspace(id: WorkspaceId, pane: PaneId, project: u64) -> WorkspaceModel {
    WorkspaceModel {
        id,
        project,
        roots: Seq::<RootModel>::empty(),
        layout_revision: 0,
        layout: LayoutModel::Pane(crate::layout::empty_pane(pane)),
    }
}

/// The identities that a mutation may give to a new workspace and its pane.
#[derive(Clone, Copy, Debug)]
pub struct FreshIds {
    pub workspace: WorkspaceId,
    pub pane: PaneId,
}

/// Whether identities carry the marks of random ones.
pub open spec fn drawn(fresh: FreshIds) -> bool {
    crate::ids::random_marks(fresh.workspace.value) && crate::ids::random_marks(fresh.pane.value)
}

/// The session after a new workspace takes the next project.
pub open spec fn with_created(
    session: SessionModel,
    index: int,
    roots: Seq<RootModel>,
    fresh: FreshIds,
) -> Result<SessionModel, SessionFault> {
    if session.next_project_id == 0 || session.next_project_id == u64::MAX {
        Err(SessionFault::ProjectIdExhausted)
    } else {
        let workspace = WorkspaceModel {
            roots,
            ..blank_workspace(fresh.workspace, fresh.pane, session.next_project_id)
        };
        Ok(
            SessionModel {
                next_project_id: (session.next_project_id + 1) as u64,
                active: fresh.workspace,
                workspaces: session.workspaces.insert(index, workspace),
                ..session
            },
        )
    }
}

/// The session after the workspace at an index is closed. Closing the last one leaves a blank
/// one; closing the active one activates its successor, or the last if it had none.
pub open spec fn with_closed(session: SessionModel, index: int, fresh: FreshIds) -> Result<
    SessionModel,
    SessionFault,
> {
    let remaining = SessionModel { workspaces: session.workspaces.remove(index), ..session };
    if remaining.workspaces.len() == 0 {
        with_created(remaining, 0, Seq::<RootModel>::empty(), fresh)
    } else if session.active == session.workspaces[index].id {
        let fallback = if index < remaining.workspaces.len() {
            index
        } else {
            remaining.workspaces.len() - 1
        };
        Ok(SessionModel { active: remaining.workspaces[fallback].id, ..remaining })
    } else {
        Ok(remaining)
    }
}

/// The session after a mutation, before its revision moves on and it is checked as a whole.
pub open spec fn mutated(session: SessionModel, mutation: MutationModel, fresh: FreshIds) -> Result<
    SessionModel,
    SessionFault,
> {
    match mutation {
        MutationModel::Create { after, roots } => match roots_violation(roots) {
            Some(violation) => Err(crate::error::invalid(violation)),
            None => match after {
                None => with_created(session, session.workspaces.len() as int, roots, fresh),
                Some(after) => match position(session.workspaces, after) {
                    None => Err(SessionFault::WorkspaceNotFound(after)),
                    Some(index) => with_created(session, index + 1, roots, fresh),
                },
            },
        },
        MutationModel::Close { workspace } => match position(session.workspaces, workspace) {
            None => Err(SessionFault::WorkspaceNotFound(workspace)),
            Some(index) => with_closed(session, index, fresh),
        },
        MutationModel::Activate { workspace } => match position(session.workspaces, workspace) {
            None => Err(SessionFault::WorkspaceNotFound(workspace)),
            Some(_) => Ok(SessionModel { active: workspace, ..session }),
        },
        MutationModel::SetRoots { workspace, roots } => match roots_violation(roots) {
            Some(violation) => Err(crate::error::invalid(violation)),
            None => match position(session.workspaces, workspace) {
                None => Err(SessionFault::WorkspaceNotFound(workspace)),
                Some(index) => Ok(
                    SessionModel {
                        workspaces: session.workspaces.update(
                            index,
                            WorkspaceModel { roots, ..session.workspaces[index] },
                        ),
                        ..session
                    },
                ),
            },
        },
        MutationModel::ReplaceLayout { workspace, expected_layout_revision, layout } => {
            match crate::layout::layout_violation(layout) {
                Some(violation) => Err(crate::error::invalid(violation)),
                None => match position(session.workspaces, workspace) {
                    None => Err(SessionFault::WorkspaceNotFound(workspace)),
                    Some(index) => {
                        let current = session.workspaces[index].layout_revision;
                        if current != expected_layout_revision {
                            Err(
                                SessionFault::StaleLayoutRevision {
                                    expected: expected_layout_revision,
                                    current,
                                },
                            )
                        } else {
                            Ok(
                                SessionModel {
                                    workspaces: session.workspaces.update(
                                        index,
                                        WorkspaceModel {
                                            layout,
                                            layout_revision: if current == u64::MAX {
                                                current
                                            } else {
                                                (current + 1) as u64
                                            },
                                            ..session.workspaces[index]
                                        },
                                    ),
                                    ..session
                                },
                            )
                        }
                    },
                },
            }
        },
    }
}

/// The session after a request at the current revision, before it is checked as a whole.
pub open spec fn requested(session: SessionModel, request: RequestModel, fresh: FreshIds) -> Result<
    SessionModel,
    SessionFault,
> {
    if request.expected_revision != session.revision {
        Err(
            SessionFault::StaleRevision {
                expected: request.expected_revision,
                current: session.revision,
            },
        )
    } else {
        match mutated(session, request.mutation, fresh) {
            Err(fault) => Err(fault),
            Ok(next) => if next.revision == u64::MAX {
                Err(SessionFault::SessionRevisionExhausted)
            } else {
                Ok(SessionModel { revision: (next.revision + 1) as u64, ..next })
            },
        }
    }
}

/// The session after a request, or why the request is refused.
pub open spec fn applied(session: SessionModel, request: RequestModel, fresh: FreshIds) -> Result<
    SessionModel,
    SessionFault,
> {
    match requested(session, request, fresh) {
        Err(fault) => Err(fault),
        Ok(next) => match session_violation(next) {
            Some(violation) => Err(crate::error::invalid(violation)),
            None => Ok(next),
        },
    }
}

/// A position is where the identity first occurs.
pub proof fn lemma_position(workspaces: Seq<WorkspaceModel>, id: WorkspaceId)
    ensures
        match position(workspaces, id) {
            Some(index) => 0 <= index < workspaces.len() && workspaces[index].id == id && forall|
                j: int,
            |
                0 <= j < index ==> (#[trigger] workspaces[j]).id != id,
            None => forall|j: int| 0 <= j < workspaces.len() ==> (#[trigger] workspaces[j]).id != id,
        },
    decreases workspaces.len(),
{
    if workspaces.len() > 0 {
        let front = workspaces.drop_last();
        lemma_position(front, id);
        assert(forall|j: int| 0 <= j < front.len() ==> front[j] == workspaces[j]);
        match position(front, id) {
            Some(index) => {
                assert forall|j: int| 0 <= j < index implies (#[trigger] workspaces[j]).id != id by {
                    assert(front[j] == workspaces[j]);
                }
            },
            None => {
                assert forall|j: int| 0 <= j < front.len() implies (#[trigger] workspaces[j]).id
                    != id by {
                    assert(front[j] == workspaces[j]);
                }
            },
        }
    }
}

/// Roots are refused exactly when they are not well formed.
pub proof fn law_roots_violation_iff_not_valid(roots: Seq<RootModel>)
    ensures
        roots_valid(roots) <==> roots_violation(roots) is None,
    decreases roots.len(),
{
    if roots.len() > 0 {
        let front = roots.drop_last();
        let last = roots.last();
        law_roots_violation_iff_not_valid(front);
        assert(forall|i: int| 0 <= i < front.len() ==> front[i] == roots[i]);
        assert(roots[roots.len() - 1] == last);
        if roots_violation(roots) is None {
            assert forall|i: int| 0 <= i < roots.len() implies crate::path::absolute(
                (#[trigger] roots[i]).requested,
            ) && crate::path::absolute(roots[i].canonical) by {
                if i < front.len() {
                    assert(front[i] == roots[i]);
                }
            }
            assert forall|i: int, j: int| 0 <= i < j < roots.len() implies !crate::path::same_path(
                (#[trigger] roots[i]).canonical,
                (#[trigger] roots[j]).canonical,
            ) by {
                assert(front[i] == roots[i]);
                if j < front.len() {
                    assert(front[j] == roots[j]);
                } else {
                    assert(!has_canonical(front, last.canonical));
                }
            }
        } else if roots_valid(roots) {
            assert forall|i: int| 0 <= i < front.len() implies crate::path::absolute(
                (#[trigger] front[i]).requested,
            ) && crate::path::absolute(front[i].canonical) by {
                assert(front[i] == roots[i]);
            }
            assert forall|i: int, j: int| 0 <= i < j < front.len() implies !crate::path::same_path(
                (#[trigger] front[i]).canonical,
                (#[trigger] front[j]).canonical,
            ) by {
                assert(front[i] == roots[i] && front[j] == roots[j]);
            }
            assert(!has_canonical(front, last.canonical)) by {
                if has_canonical(front, last.canonical) {
                    let i = choose|i: int|
                        0 <= i < front.len() && crate::path::same_path(
                            (#[trigger] front[i]).canonical,
                            last.canonical,
                        );
                    assert(front[i] == roots[i]);
                }
            }
            assert(false);
        }
    }
}

/// Whether every workspace is well formed and differs from those before it.
pub open spec fn workspaces_valid(workspaces: Seq<WorkspaceModel>) -> bool {
    &&& forall|i: int|
        0 <= i < workspaces.len() ==> roots_valid((#[trigger] workspaces[i]).roots)
            && crate::layout::layout_valid(workspaces[i].layout)
    &&& forall|i: int, j: int|
        0 <= i < j < workspaces.len() ==> (#[trigger] workspaces[i]).id != (
        #[trigger] workspaces[j]).id && workspaces[i].project != workspaces[j].project
}

proof fn lemma_workspaces_violation_none(workspaces: Seq<WorkspaceModel>)
    ensures
        workspaces_valid(workspaces) <==> workspaces_violation(workspaces) is None,
    decreases workspaces.len(),
{
    if workspaces.len() > 0 {
        let front = workspaces.drop_last();
        let last = workspaces.last();
        lemma_workspaces_violation_none(front);
        lemma_position(front, last.id);
        law_roots_violation_iff_not_valid(last.roots);
        crate::layout::law_layout_violation_iff_not_valid(last.layout);
        assert(forall|i: int| 0 <= i < front.len() ==> front[i] == workspaces[i]);
        assert(workspaces[workspaces.len() - 1] == last);
        if workspaces_violation(workspaces) is None {
            assert forall|i: int| 0 <= i < workspaces.len() implies roots_valid(
                (#[trigger] workspaces[i]).roots,
            ) && crate::layout::layout_valid(workspaces[i].layout) by {
                if i < front.len() {
                    assert(front[i] == workspaces[i]);
                }
            }
            assert forall|i: int, j: int| 0 <= i < j < workspaces.len() implies (
            #[trigger] workspaces[i]).id != (#[trigger] workspaces[j]).id && workspaces[i].project
                != workspaces[j].project by {
                assert(front[i] == workspaces[i]);
                if j < front.len() {
                    assert(front[j] == workspaces[j]);
                } else {
                    assert(!has_project(front, last.project));
                }
            }
        } else if workspaces_valid(workspaces) {
            assert(workspaces_valid(front)) by {
                assert forall|i: int| 0 <= i < front.len() implies roots_valid(
                    (#[trigger] front[i]).roots,
                ) && crate::layout::layout_valid(front[i].layout) by {
                    assert(front[i] == workspaces[i]);
                }
                assert forall|i: int, j: int| 0 <= i < j < front.len() implies (
                #[trigger] front[i]).id != (#[trigger] front[j]).id && front[i].project
                    != front[j].project by {
                    assert(front[i] == workspaces[i] && front[j] == workspaces[j]);
                }
            }
            assert(!has_project(front, last.project)) by {
                if has_project(front, last.project) {
                    let i = choose|i: int|
                        0 <= i < front.len() && (#[trigger] front[i]).project == last.project;
                    assert(front[i] == workspaces[i]);
                }
            }
            if position(front, last.id) is Some {
                let i = position(front, last.id)->0;
                assert(front[i] == workspaces[i]);
            }
            assert(false);
        }
    }
}

/// A session is refused exactly when it is not well formed.
pub proof fn law_session_violation_iff_not_valid(session: SessionModel)
    ensures
        session_valid(session) <==> session_violation(session) is None,
{
    lemma_workspaces_violation_none(session.workspaces);
    lemma_position(session.workspaces, session.active);
    let workspaces = session.workspaces;
    if session_violation(session) is None {
        let active = position(workspaces, session.active)->0;
        assert(workspaces[active].id == session.active);
    } else if session_valid(session) {
        assert(workspaces_valid(workspaces));
        assert(false);
    }
}

impl Clone for ProjectRoot {
    fn clone(&self) -> (copy: Self)
        ensures
            copy@ == self@,
    {
        ProjectRoot {
            requested_path: self.requested_path.clone(),
            canonical_path: self.canonical_path.clone(),
        }
    }
}

impl Clone for ProjectSpec {
    fn clone(&self) -> (copy: Self)
        ensures
            copy@ == self@,
    {
        let mut roots: Vec<ProjectRoot> = Vec::new();
        let mut i: usize = 0;
        while i < self.roots.len()
            invariant
                i <= self.roots@.len(),
                roots@.len() == i,
                forall|k: int| 0 <= k < i ==> (#[trigger] roots@[k])@ == self.roots@[k]@,
            decreases self.roots@.len() - i,
        {
            roots.push(self.roots[i].clone());
            i += 1;
        }
        let copy = ProjectSpec { roots };
        assert(copy@ =~= self@);
        copy
    }
}

impl Default for ProjectSpec {
    fn default() -> (spec: Self)
        ensures
            spec@ == Seq::<RootModel>::empty(),
    {
        let spec = ProjectSpec { roots: Vec::new() };
        assert(spec@ =~= Seq::<RootModel>::empty());
        spec
    }
}

impl Clone for WorkspaceSnapshot {
    fn clone(&self) -> (copy: Self)
        ensures
            copy@ == self@,
    {
        WorkspaceSnapshot {
            id: self.id,
            project_id: self.project_id,
            project_spec: self.project_spec.clone(),
            layout_revision: self.layout_revision,
            layout: self.layout.clone(),
        }
    }
}

impl Clone for HostSessionSnapshot {
    fn clone(&self) -> (copy: Self)
        ensures
            copy@ == self@,
    {
        let mut workspaces: Vec<WorkspaceSnapshot> = Vec::new();
        let mut i: usize = 0;
        while i < self.workspaces.len()
            invariant
                i <= self.workspaces@.len(),
                workspaces@.len() == i,
                forall|k: int|
                    0 <= k < i ==> (#[trigger] workspaces@[k])@ == self.workspaces@[k]@,
            decreases self.workspaces@.len() - i,
        {
            workspaces.push(self.workspaces[i].clone());
            i += 1;
        }
        let copy = HostSessionSnapshot {
            revision: self.revision,
            next_project_id: self.next_project_id,
            active_workspace_id: self.active_workspace_id,
            workspaces,
        };
        assert(copy@.workspaces =~= self@.workspaces);
        copy
    }
}

impl WorkspaceSnapshot {
    /// A workspace without roots and with one empty pane, under the given identities.
    pub fn blank_with(id: WorkspaceId, pane: PaneId, project_id: ProjectId) -> (workspace: Self)
        ensures
            workspace@ == blank_workspace(id, pane, project_id.number()),
    {
        WorkspaceSnapshot {
            id,
            project_id,
            project_spec: ProjectSpec::default(),
            layout_revision: 0,
            layout: LayoutNode::empty_with(pane),
        }
    }

    /// A workspace without roots and with one empty pane, under fresh identities.
    pub fn blank(project_id: ProjectId) -> (workspace: Self)
        ensures
            exists|pane: PaneId|
                workspace@ == blank_workspace(workspace.id, pane, project_id.number())
                    && crate::ids::random_marks(pane.value),
            crate::ids::random_marks(workspace.id.value),
    {
        let pane = PaneId::new();
        Self::blank_with(WorkspaceId::new(), pane, project_id)
    }
}

/// A session of one blank workspace.
pub open spec fn initial_session(fresh: FreshIds) -> SessionModel {
    SessionModel {
        revision: 0,
        next_project_id: 2,
        active: fresh.workspace,
        workspaces: seq![blank_workspace(fresh.workspace, fresh.pane, 1)],
    }
}

impl Default for HostSessionSnapshot {
    fn default() -> (session: Self)
        ensures
            exists|fresh: FreshIds|
                session@ == initial_session(fresh) && drawn(fresh),
            session_valid(session@),
    {
        let fresh = FreshIds { workspace: WorkspaceId::new(), pane: PaneId::new() };
        HostSessionSnapshot::initial_with(fresh)
    }
}

/// Checks that the roots of a project are well formed.
pub fn validate_project_spec(spec: &ProjectSpec) -> (result: Result<(), SessionError>)
    ensures
        result is Ok <==> roots_valid(spec@),
        result matches Err(error) ==> (roots_violation(spec@) matches Some(violation) && error@
            == crate::error::invalid(violation)),
{
    let ghost all = spec@;
    let mut i: usize = 0;
    assert(all.take(0) =~= Seq::<RootModel>::empty());
    proof {
        law_roots_violation_iff_not_valid(all);
    }
    while i < spec.roots.len()
        invariant
            i <= spec.roots@.len(),
            all == spec@,
            all.len() == spec.roots@.len(),
            roots_valid(all) <==> roots_violation(all) is None,
            roots_violation(all.take(i as int)) is None,
        decreases spec.roots@.len() - i,
    {
        let root = &spec.roots[i];
        let ghost upto = all.take(i + 1);
        proof {
            assert(all[i as int] == root@);
            assert(upto.drop_last() =~= all.take(i as int));
            assert(upto.last() == root@);
            if roots_violation(upto) is Some {
                lemma_roots_violation_prefix(all, i + 1);
            }
        }
        if !root.requested_path.is_absolute() || !root.canonical_path.is_absolute() {
            return Err(
                SessionError::Invalid(
                    "project roots must use absolute requested and canonical paths".to_string(),
                ),
            );
        }
        if holds_canonical(&spec.roots, i, &root.canonical_path) {
            assert(root_models(spec.roots@).take(i as int) =~= all.take(i as int));
            return Err(
                SessionError::Invalid(
                    message_with(
                        "duplicate canonical project root ",
                        root.canonical_path.as_str(),
                    ),
                ),
            );
        }
        i += 1;
    }
    assert(all.take(i as int) =~= all);
    Ok(())
}

proof fn lemma_roots_violation_prefix(roots: Seq<RootModel>, count: int)
    requires
        0 <= count <= roots.len(),
        roots_violation(roots.take(count)) is Some,
    ensures
        roots_violation(roots) == roots_violation(roots.take(count)),
    decreases roots.len() - count,
{
    if count == roots.len() {
        assert(roots.take(count) =~= roots);
    } else {
        assert(roots.take(count + 1).drop_last() =~= roots.take(count));
        lemma_roots_violation_prefix(roots, count + 1);
    }
}

/// Whether one of the first `count` roots has the given canonical path.
fn holds_canonical(roots: &Vec<ProjectRoot>, count: usize, path: &HostPath) -> (result: bool)
    requires
        count <= roots@.len(),
    ensures
        result == has_canonical(root_models(roots@).take(count as int), path@),
{
    let ghost seen = root_models(roots@).take(count as int);
    let mut i: usize = 0;
    while i < count
        invariant
            i <= count <= roots@.len(),
            seen == root_models(roots@).take(count as int),
            forall|k: int|
                0 <= k < i ==> !crate::path::same_path((#[trigger] seen[k]).canonical, path@),
        decreases count - i,
    {
        assert(seen[i as int] == roots@[i as int]@);
        if roots[i].canonical_path.is_same(path) {
            return true;
        }
        i += 1;
    }
    false
}

proof fn lemma_workspaces_violation_prefix(workspaces: Seq<WorkspaceModel>, count: int)
    requires
        0 <= count <= workspaces.len(),
        workspaces_violation(workspaces.take(count)) is Some,
    ensures
        workspaces_violation(workspaces) == workspaces_violation(workspaces.take(count)),
    decreases workspaces.len() - count,
{
    if count == workspaces.len() {
        assert(workspaces.take(count) =~= workspaces);
    } else {
        assert(workspaces.take(count + 1).drop_last() =~= workspaces.take(count));
        lemma_workspaces_violation_prefix(workspaces, count + 1);
    }
}

impl HostSessionSnapshot {
    /// A session of one blank workspace under the given identities.
    pub fn initial_with(fresh: FreshIds) -> (session: Self)
        ensures
            session@ == initial_session(fresh),
            session_valid(session@),
    {
        let workspace = WorkspaceSnapshot::blank_with(
            fresh.workspace,
            fresh.pane,
            ProjectId::first(),
        );
        let active = workspace.id;
        let mut workspaces: Vec<WorkspaceSnapshot> = Vec::new();
        workspaces.push(workspace);
        let session = HostSessionSnapshot {
            revision: 0,
            next_project_id: 2,
            active_workspace_id: active,
            workspaces,
        };
        proof {
            assert(session@.workspaces =~= initial_session(fresh).workspaces);
            crate::layout::law_empty_layout_is_valid(fresh.pane);
            assert(session@.workspaces[0].id == session@.active);
        }
        session
    }

    /// Checks that the session is well formed.
    pub fn validate(&self) -> (result: Result<(), SessionError>)
        ensures
            result is Ok <==> session_valid(self@),
            result matches Err(error) ==> (session_violation(self@) matches Some(violation)
                && error@ == crate::error::invalid(violation)),
    {
        let ghost all = self@.workspaces;
        proof {
            law_session_violation_iff_not_valid(self@);
        }
        if self.workspaces.len() == 0 {
            return Err(
                SessionError::Invalid(
                    "a host session must contain at least one workspace".to_string(),
                ),
            );
        }
        if self.next_project_id == 0 || self.project_beyond_next() {
            return Err(
                SessionError::Invalid(
                    "next project id must be greater than every active project id".to_string(),
                ),
            );
        }
        let mut workspace_ids: HashSet<u128> = HashSet::new();
        let mut project_ids: HashSet<u64> = HashSet::new();
        let mut i: usize = 0;
        assert(all.take(0) =~= Seq::<WorkspaceModel>::empty());
        while i < self.workspaces.len()
            invariant
                i <= self.workspaces@.len(),
                all == self@.workspaces,
                all.len() == self.workspaces@.len() > 0,
                workspaces_violation(all) is Some ==> session_violation(self@)
                    == workspaces_violation(all),
                session_valid(self@) <==> session_violation(self@) is None,
                workspaces_violation(all.take(i as int)) is None,
                forall|value: u128| #[trigger]
                    workspace_ids@.contains(value) <==> position(
                        all.take(i as int),
                        WorkspaceId { value },
                    ) is Some,
                forall|value: u64| #[trigger]
                    project_ids@.contains(value) <==> has_project(all.take(i as int), value),
            decreases self.workspaces@.len() - i,
        {
            let workspace = &self.workspaces[i];
            let ghost earlier = all.take(i as int);
            let ghost upto = all.take(i + 1);
            let ghost before_workspaces = workspace_ids@;
            let ghost before_projects = project_ids@;
            proof {
                assert(all[i as int] == workspace@);
                assert(upto.drop_last() =~= earlier);
                assert(upto.last() == workspace@);
                assert(WorkspaceId { value: workspace.id.value } == workspace.id);
                law_roots_violation_iff_not_valid(workspace@.roots);
                crate::layout::law_layout_violation_iff_not_valid(workspace@.layout);
                if workspaces_violation(upto) is Some {
                    lemma_workspaces_violation_prefix(all, i + 1);
                }
            }
            if !workspace_ids.insert(workspace.id.value) {
                return Err(
                    SessionError::Invalid(
                        message_with(
                            "duplicate workspace id ",
                            workspace.id.to_text().as_str(),
                        ),
                    ),
                );
            }
            if !project_ids.insert(workspace.project_id.get()) {
                let mut message = message_with(
                    "project id ",
                    decimal_text(workspace.project_id.get()).as_str(),
                );
                message.append(" is assigned to multiple workspace scopes");
                return Err(SessionError::Invalid(message));
            }
            match validate_project_spec(&workspace.project_spec) {
                Ok(()) => {},
                Err(error) => {
                    return Err(error);
                },
            }
            match validate_layout(&workspace.layout) {
                Ok(()) => {},
                Err(error) => {
                    return Err(error);
                },
            }
            proof {
                assert forall|value: u128| #[trigger] workspace_ids@.contains(value) <==> position(
                    upto,
                    WorkspaceId { value },
                ) is Some by {
                    assert(before_workspaces.contains(value) <==> position(
                        earlier,
                        WorkspaceId { value },
                    ) is Some);
                }
                assert forall|value: u64| #[trigger] project_ids@.contains(value) <==> has_project(
                    upto,
                    value,
                ) by {
                    assert(before_projects.contains(value) <==> has_project(earlier, value));
                    lemma_has_project_push(earlier, workspace@, value);
                    assert(upto =~= earlier.push(workspace@));
                }
            }
            i += 1;
        }
        assert(all.take(i as int) =~= all);
        assert(WorkspaceId { value: self.active_workspace_id.value } == self.active_workspace_id);
        if !workspace_ids.contains(&self.active_workspace_id.value) {
            return Err(
                SessionError::Invalid("active workspace is absent from the session".to_string()),
            );
        }
        Ok(())
    }

    /// Whether some project is not below the next one.
    fn project_beyond_next(&self) -> (result: bool)
        ensures
            result <==> exists|i: int|
                0 <= i < self@.workspaces.len() && (#[trigger] self@.workspaces[i]).project
                    >= self.next_project_id,
    {
        let mut i: usize = 0;
        while i < self.workspaces.len()
            invariant
                i <= self.workspaces@.len(),
                forall|k: int|
                    0 <= k < i ==> (#[trigger] self@.workspaces[k]).project < self.next_project_id,
            decreases self.workspaces@.len() - i,
        {
            assert(self@.workspaces[i as int] == self.workspaces@[i as int]@);
            if self.workspaces[i].project_id.get() >= self.next_project_id {
                return true;
            }
            i += 1;
        }
        false
    }

    /// Whether some workspace has the given project.
    pub fn has_project(&self, project: u64) -> (result: bool)
        ensures
            result == has_project(self@.workspaces, project),
    {
        let mut i: usize = 0;
        while i < self.workspaces.len()
            invariant
                i <= self.workspaces@.len(),
                forall|k: int| 0 <= k < i ==> (#[trigger] self@.workspaces[k]).project != project,
            decreases self.workspaces@.len() - i,
        {
            assert(self@.workspaces[i as int] == self.workspaces@[i as int]@);
            if self.workspaces[i].project_id.get() == project {
                return true;
            }
            i += 1;
        }
        false
    }

    /// Where in the list the workspace with the given identity first stands.
    pub fn workspace_index(&self, id: WorkspaceId) -> (index: Option<usize>)
        ensures
            match index {
                Some(index) => position(self@.workspaces, id) == Some(index as int) && index
                    < self.workspaces@.len(),
                None => position(self@.workspaces, id) is None,
            },
    {
        let mut i: usize = 0;
        proof {
            lemma_position(self@.workspaces, id);
        }
        while i < self.workspaces.len()
            invariant
                i <= self.workspaces@.len(),
                forall|k: int| 0 <= k < i ==> (#[trigger] self@.workspaces[k]).id != id,
                match position(self@.workspaces, id) {
                    Some(index) => 0 <= index < self@.workspaces.len()
                        && self@.workspaces[index].id == id && forall|j: int|
                        0 <= j < index ==> (#[trigger] self@.workspaces[j]).id != id,
                    None => forall|j: int|
                        0 <= j < self@.workspaces.len() ==> (#[trigger] self@.workspaces[j]).id
                            != id,
                },
            decreases self.workspaces@.len() - i,
        {
            assert(self@.workspaces[i as int] == self.workspaces@[i as int]@);
            if self.workspaces[i].id == id {
                return Some(i);
            }
            i += 1;
        }
        None
    }

    /// Takes the next project identity.
    fn allocate_project_id(&mut self) -> (result: Result<ProjectId, SessionError>)
        ensures
            final(self).workspaces == old(self).workspaces,
            final(self).revision == old(self).revision,
            final(self).active_workspace_id == old(self).active_workspace_id,
            match result {
                Ok(project_id) => 0 < old(self).next_project_id < u64::MAX && project_id.number()
                    == old(self).next_project_id && final(self).next_project_id == old(
                    self,
                ).next_project_id + 1,
                Err(error) => (old(self).next_project_id == 0 || old(self).next_project_id
                    == u64::MAX) && error@ == SessionFault::ProjectIdExhausted
                    && final(self).next_project_id == old(self).next_project_id,
            },
    {
        match ProjectId::new(self.next_project_id) {
            None => Err(SessionError::ProjectIdExhausted),
            Some(project_id) => match self.next_project_id.checked_add(1) {
                None => Err(SessionError::ProjectIdExhausted),
                Some(next) => {
                    self.next_project_id = next;
                    Ok(project_id)
                },
            },
        }
    }

    /// Adds a blank workspace with the given roots at an index and activates it.
    fn insert_workspace(
        &mut self,
        index: usize,
        project_spec: ProjectSpec,
        fresh: FreshIds,
    ) -> (result: Result<(), SessionError>)
        requires
            index <= old(self).workspaces@.len(),
        ensures
            match with_created(old(self)@, index as int, project_spec@, fresh) {
                Ok(next) => result is Ok && final(self)@ == next,
                Err(fault) => result matches Err(error) && error@ == fault,
            },
    {
        let project_id = match self.allocate_project_id() {
            Ok(project_id) => project_id,
            Err(error) => {
                return Err(error);
            },
        };
        let blank = WorkspaceSnapshot::blank_with(fresh.workspace, fresh.pane, project_id);
        let workspace = WorkspaceSnapshot { project_spec, ..blank };
        self.active_workspace_id = workspace.id;
        self.workspaces.insert(index, workspace);
        assert(self@.workspaces =~= old(self)@.workspaces.insert(index as int, workspace@));
        Ok(())
    }

    /// Removes the workspace at an index, keeping the session populated and the active workspace
    /// present.
    fn remove_workspace(&mut self, index: usize, fresh: FreshIds) -> (result: Result<
        (),
        SessionError,
    >)
        requires
            index < old(self).workspaces@.len(),
        ensures
            match with_closed(old(self)@, index as int, fresh) {
                Ok(next) => result is Ok && final(self)@ == next,
                Err(fault) => result matches Err(error) && error@ == fault,
            },
    {
        let removed = self.workspaces.remove(index);
        assert(self@.workspaces =~= old(self)@.workspaces.remove(index as int));
        if self.workspaces.len() == 0 {
            self.insert_workspace(0, ProjectSpec::default(), fresh)
        } else {
            if self.active_workspace_id == removed.id {
                let last: usize = self.workspaces.len() - 1;
                let fallback: usize = if index < last {
                    index
                } else {
                    last
                };
                self.active_workspace_id = self.workspaces[fallback].id;
            }
            Ok(())
        }
    }

    /// Changes the session as a mutation says, without checking the whole.
    fn mutate(&mut self, mutation: SessionMutation, fresh: FreshIds) -> (result: Result<
        (),
        SessionError,
    >)
        ensures
            match mutated(old(self)@, mutation@, fresh) {
                Ok(next) => result is Ok && final(self)@ == next,
                Err(fault) => result matches Err(error) && error@ == fault,
            },
    {
        match mutation {
            SessionMutation::CreateWorkspace { after, project_spec } => {
                proof {
                    law_roots_violation_iff_not_valid(project_spec@);
                }
                match validate_project_spec(&project_spec) {
                    Ok(()) => {},
                    Err(error) => {
                        return Err(error);
                    },
                }
                let count: usize = self.workspaces.len();
                let index: usize = match after {
                    Some(after) => match self.workspace_index(after) {
                        Some(index) => index + 1,
                        None => {
                            return Err(SessionError::WorkspaceNotFound(after));
                        },
                    },
                    None => count,
                };
                self.insert_workspace(index, project_spec, fresh)
            },
            SessionMutation::CloseWorkspace { workspace_id } => {
                match self.workspace_index(workspace_id) {
                    Some(index) => self.remove_workspace(index, fresh),
                    None => Err(SessionError::WorkspaceNotFound(workspace_id)),
                }
            },
            SessionMutation::ActivateWorkspace { workspace_id } => {
                match self.workspace_index(workspace_id) {
                    Some(_) => {
                        self.active_workspace_id = workspace_id;
                        Ok(())
                    },
                    None => Err(SessionError::WorkspaceNotFound(workspace_id)),
                }
            },
            SessionMutation::SetWorkspaceProjectRoots { workspace_id, project_spec } => {
                proof {
                    law_roots_violation_iff_not_valid(project_spec@);
                }
                match validate_project_spec(&project_spec) {
                    Ok(()) => {},
                    Err(error) => {
                        return Err(error);
                    },
                }
                match self.workspace_index(workspace_id) {
                    Some(index) => {
                        let ghost before = self@.workspaces;
                        let ghost roots = project_spec@;
                        self.workspaces[index].project_spec = project_spec;
                        assert(self@.workspaces =~= before.update(
                            index as int,
                            WorkspaceModel { roots, ..before[index as int] },
                        ));
                        Ok(())
                    },
                    None => Err(SessionError::WorkspaceNotFound(workspace_id)),
                }
            },
            SessionMutation::ReplaceWorkspaceLayout {
                workspace_id,
                expected_layout_revision,
                layout,
            } => {
                proof {
                    crate::layout::law_layout_violation_iff_not_valid(layout@);
                }
                match validate_layout(&layout) {
                    Ok(()) => {},
                    Err(error) => {
                        return Err(error);
                    },
                }
                match self.workspace_index(workspace_id) {
                    Some(index) => {
                        let current: u64 = self.workspaces[index].layout_revision;
                        if current != expected_layout_revision {
                            return Err(
                                SessionError::StaleLayoutRevision {
                                    expected: expected_layout_revision,
                                    current,
                                },
                            );
                        }
                        let ghost before = self@.workspaces;
                        let ghost model = layout@;
                        let next: u64 = current.saturating_add(1);
                        self.workspaces[index].layout = layout;
                        self.workspaces[index].layout_revision = next;
                        assert(self@.workspaces =~= before.update(
                            index as int,
                            WorkspaceModel {
                                layout: model,
                                layout_revision: next,
                                ..before[index as int]
                            },
                        ));
                        Ok(())
                    },
                    None => Err(SessionError::WorkspaceNotFound(workspace_id)),
                }
            },
        }
    }

    /// Changes the session as a request says and moves its revision on, without checking the
    /// whole.
    fn apply_inner(&mut self, request: MutationRequest, fresh: FreshIds) -> (result: Result<
        (),
        SessionError,
    >)
        ensures
            match requested(old(self)@, request@, fresh) {
                Ok(next) => result is Ok && final(self)@ == next,
                Err(fault) => result matches Err(error) && error@ == fault,
            },
            request.expected_revision != old(self).revision ==> *final(self) == *old(self),
    {
        if request.expected_revision != self.revision {
            return Err(
                SessionError::StaleRevision {
                    expected: request.expected_revision,
                    current: self.revision,
                },
            );
        }
        match self.mutate(request.mutation, fresh) {
            Ok(()) => {},
            Err(error) => {
                return Err(error);
            },
        }
        match self.revision.checked_add(1) {
            Some(revision) => {
                self.revision = revision;
                Ok(())
            },
            None => Err(SessionError::SessionRevisionExhausted),
        }
    }

    /// Applies a request whose new workspace, if it makes one, gets the given identities. A
    /// refused request leaves the session as it was.
    pub fn apply_with(&mut self, request: MutationRequest, fresh: FreshIds) -> (result: Result<
        (),
        SessionError,
    >)
        ensures
            match applied(old(self)@, request@, fresh) {
                Ok(next) => result is Ok && final(self)@ == next,
                Err(fault) => (result matches Err(error) && error@ == fault) && *final(self)
                    == *old(self),
            },
    {
        let mut next = self.clone();
        match next.apply_inner(request, fresh) {
            Ok(()) => {},
            Err(error) => {
                return Err(error);
            },
        }
        proof {
            law_session_violation_iff_not_valid(next@);
        }
        match next.validate() {
            Ok(()) => {},
            Err(error) => {
                return Err(error);
            },
        }
        *self = next;
        Ok(())
    }

    /// Applies a request, drawing fresh identities for a new workspace. A refused request leaves
    /// the session as it was.
    pub fn apply(&mut self, request: MutationRequest) -> (result: Result<(), SessionError>)
        ensures
            exists|fresh: FreshIds|
                drawn(fresh) && match #[trigger] applied(old(self)@, request@, fresh) {
                    Ok(next) => result is Ok && final(self)@ == next,
                    Err(fault) => (result matches Err(error) && error@ == fault) && *final(self)
                        == *old(self),
                },
    {
        let fresh = FreshIds { workspace: WorkspaceId::new(), pane: PaneId::new() };
        self.apply_with(request, fresh)
    }
}

proof fn lemma_has_project_push(
    workspaces: Seq<WorkspaceModel>,
    workspace: WorkspaceModel,
    project: u64,
)
    ensures
        has_project(workspaces.push(workspace), project) <==> has_project(workspaces, project)
            || workspace.project == project,
{
    let longer = workspaces.push(workspace);
    if has_project(workspaces, project) {
        let i = choose|i: int|
            0 <= i < workspaces.len() && (#[trigger] workspaces[i]).project == project;
        assert(longer[i] == workspaces[i]);
    }
    if workspace.project == project {
        assert(longer[workspaces.len() as int] == workspace);
    }
    if has_project(longer, project) {
        let i = choose|i: int| 0 <= i < longer.len() && (#[trigger] longer[i]).project == project;
        if i < workspaces.len() {
            assert(longer[i] == workspaces[i]);
        }
    }
}

} // verus!
