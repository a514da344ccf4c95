//! Making a client follow a snapshot of its host session.

use crate::connection::HostId;
use crate::host_session::{
    ActionModel, ClientError, ClientFault, ClientModel, CreatedWorkspace, HostProject,
    HostSessionClient, HostWorkspaceIdentity, MutationIntent, ProjectHandle, ProjectionModel,
    ReconcileAction, WorkspaceHandle, WorkspaceProjection,
};
use crate::ids::{ProjectId, WorkspaceId};
use crate::session::{HostSessionSnapshot, SessionModel, WorkspaceModel, WorkspaceSnapshot};
use vstd::prelude::*;

verus! {

/// A checked snapshot that a client is about to follow, and the steps that it takes.
#[derive(Debug)]
pub struct Reconciliation {
    pub snapshot: HostSessionSnapshot,
    pub actions: Vec<ReconcileAction>,
    pub activate_host: bool,
}

/// What the shell has to do once a client follows a snapshot: drop the projects that are gone and
/// show the workspaces in the session's order.
#[derive(Debug)]
pub struct Reconciled {
    pub host_id: HostId,
    pub removed_projects: Vec<ProjectId>,
    pub ordered_workspaces: Vec<WorkspaceHandle>,
    pub active_workspace: WorkspaceHandle,
    pub activate_host: bool,
}

/// What becomes of a mutation after an answer to it.
#[derive(Clone, Copy, Debug, PartialEq, Eq, Structural)]
pub enum AttemptOutcome {
    Done,
    Retry,
    GiveUp,
}

/// The numbers of a sequence of projects.
pub open spec fn project_numbers(projects: Seq<ProjectId>) -> Seq<u64> {
    Seq::new(projects.len(), |i: int| projects[i].number())
}

/// The workspaces shown by a sequence of projections.
pub open spec fn shown_workspaces(projections: Seq<ProjectionModel>) -> Seq<WorkspaceHandle> {
    Seq::new(projections.len(), |i: int| projections[i].workspace)
}

/// The numbers of a sequence of a client's projects.
pub open spec fn numbers_of(projects: Seq<(u64, ProjectHandle)>) -> Seq<u64> {
    Seq::new(projects.len(), |i: int| projects[i].0)
}

pub proof fn lemma_desired_shape(
    client: ClientModel,
    workspaces: Seq<WorkspaceModel>,
    created: Seq<CreatedWorkspace>,
)
    ensures
        crate::host_session::desired_projections(client, workspaces, created) matches Some(
            projections,
        ) ==> projections.len() == workspaces.len() && forall|i: int|
            0 <= i < workspaces.len() ==> crate::host_session::desired_projection(
                client,
                #[trigger] workspaces[i],
                created,
            ) == Some(projections[i]),
    decreases workspaces.len(),
{
    if workspaces.len() > 0 {
        let front = workspaces.drop_last();
        lemma_desired_shape(client, front, created);
        if let Some(projections) = crate::host_session::desired_projections(
            client,
            workspaces,
            created,
        ) {
            assert forall|i: int| 0 <= i < workspaces.len() implies
                crate::host_session::desired_projection(client, #[trigger] workspaces[i], created)
                == Some(projections[i]) by {
                if i < front.len() {
                    assert(front[i] == workspaces[i]);
                }
            }
        }
    }
}

proof fn lemma_desired_none(
    client: ClientModel,
    workspaces: Seq<WorkspaceModel>,
    created: Seq<CreatedWorkspace>,
    count: int,
)
    requires
        0 <= count <= workspaces.len(),
        crate::host_session::desired_projections(client, workspaces.take(count), created) is None,
    ensures
        crate::host_session::desired_projections(client, workspaces, created) is None,
    decreases workspaces.len() - count,
{
    if count == workspaces.len() {
        assert(workspaces.take(count) =~= workspaces);
    } else {
        assert(workspaces.take(count + 1).drop_last() =~= workspaces.take(count));
        lemma_desired_none(client, workspaces, created, count + 1);
    }
}

fn find_created(created: &Vec<CreatedWorkspace>, id: WorkspaceId) -> (result: Option<
    WorkspaceHandle,
>)
    ensures
        result == crate::host_session::created_handle(created@, id),
{
    let mut left: usize = created.len();
    assert(created@.take(left as int) =~= created@);
    while left > 0
        invariant
            left <= created@.len(),
            crate::host_session::created_handle(created@, id)
                == crate::host_session::created_handle(created@.take(left as int), id),
        decreases left,
    {
        assert(created@.take(left as int).drop_last() =~= created@.take(left - 1));
        assert(created@.take(left as int).last() == created@[left - 1]);
        if created[left - 1].workspace_id == id {
            return Some(created[left - 1].handle);
        }
        left -= 1;
    }
    None
}

impl HostSessionClient {
    /// What the client already shows of a workspace, if it still has the same identity.
    fn kept(&self, workspace: &WorkspaceSnapshot) -> (result: Option<&WorkspaceProjection>)
        ensures
            match result {
                Some(projection) => crate::host_session::kept_projection(self@, workspace@) == Some(
                    projection@,
                ),
                None => crate::host_session::kept_projection(self@, workspace@) is None,
            },
    {
        let identity = self.identity_of(workspace);
        match self.projection(workspace.id) {
            Some(projection) => if projection.identity.is_same(&identity) {
                Some(projection)
            } else {
                None
            },
            None => None,
        }
    }

    /// The identity of a workspace on the client's host.
    fn identity_of(&self, workspace: &WorkspaceSnapshot) -> (identity: HostWorkspaceIdentity)
        ensures
            identity@ == crate::host_session::identity_on(self@.host, workspace@),
    {
        HostWorkspaceIdentity {
            host_id: self.host_id.clone(),
            workspace_id: workspace.id,
            project_id: workspace.project_id,
        }
    }

    /// Adds the steps that show one workspace with its current roots.
    fn plan_workspace(&self, workspace: &WorkspaceSnapshot, actions: &mut Vec<ReconcileAction>)
        ensures
            crate::host_session::action_models(final(actions)@)
                == crate::host_session::action_models(old(actions)@)
                + crate::host_session::workspace_actions(self@, workspace@),
    {
        let ghost before = crate::host_session::action_models(actions@);
        match self.kept(workspace) {
            Some(projection) => {
                if !crate::host_session::same_project_spec(
                    &projection.project_spec,
                    &workspace.project_spec,
                ) {
                    actions.push(
                        ReconcileAction::RefreshProject { project_id: workspace.project_id },
                    );
                }
            },
            None => {
                if self.project(workspace.project_id).is_none() {
                    actions.push(
                        ReconcileAction::CreateProject { project_id: workspace.project_id },
                    );
                }
                actions.push(
                    ReconcileAction::InitializeProject { project_id: workspace.project_id },
                );
                actions.push(
                    ReconcileAction::CreateWorkspace { identity: self.identity_of(workspace) },
                );
            },
        }
        assert(crate::host_session::action_models(actions@) =~= before
            + crate::host_session::workspace_actions(self@, workspace@));
    }

    /// Adds the step that brings a workspace to its current layout, if it takes one.
    fn plan_layout(
        &self,
        workspace: &WorkspaceSnapshot,
        own_layout: Option<WorkspaceId>,
        actions: &mut Vec<ReconcileAction>,
    )
        ensures
            crate::host_session::action_models(final(actions)@)
                == crate::host_session::action_models(old(actions)@)
                + crate::host_session::layout_actions(self@, workspace@, own_layout),
    {
        let ghost before = crate::host_session::action_models(actions@);
        let shown: u64 = match self.kept(workspace) {
            Some(projection) => projection.layout_revision,
            None => 0,
        };
        let own = match own_layout {
            Some(id) => id == workspace.id,
            None => false,
        };
        if !own && shown != workspace.layout_revision {
            actions.push(
                ReconcileAction::RestoreLayout {
                    workspace_id: workspace.id,
                    layout: workspace.layout.clone(),
                },
            );
        }
        assert(crate::host_session::action_models(actions@) =~= before
            + crate::host_session::layout_actions(self@, workspace@, own_layout));
    }

    /// Checks a snapshot that came unasked and lists the steps that make the client follow it:
    /// no layout is the client's own, and the host does not come to the front.
    pub fn reconcile(&self, snapshot: HostSessionSnapshot) -> (result: Result<
        Reconciliation,
        ClientError,
    >)
        ensures
            match crate::session::session_violation(snapshot@) {
                Some(violation) => result matches Err(error) && error@
                    == ClientFault::InvalidSnapshot(crate::error::invalid(violation)),
                None => result matches Ok(reconciliation) && reconciliation.snapshot == snapshot
                    && !reconciliation.activate_host && crate::session::session_valid(snapshot@)
                    && crate::host_session::action_models(reconciliation.actions@)
                    == crate::host_session::reconcile_plan(self@, snapshot@, None),
            },
    {
        self.begin_reconciliation(snapshot, None, false)
    }

    /// Checks a snapshot and lists the steps that make the client follow it.
    pub fn begin_reconciliation(
        &self,
        snapshot: HostSessionSnapshot,
        own_layout: Option<WorkspaceId>,
        activate_host: bool,
    ) -> (result: Result<Reconciliation, ClientError>)
        ensures
            match crate::session::session_violation(snapshot@) {
                Some(violation) => result matches Err(error) && error@
                    == ClientFault::InvalidSnapshot(crate::error::invalid(violation)),
                None => result matches Ok(reconciliation) && reconciliation.snapshot == snapshot
                    && reconciliation.activate_host == activate_host
                    && crate::session::session_valid(snapshot@)
                    && crate::host_session::action_models(reconciliation.actions@)
                    == crate::host_session::reconcile_plan(self@, snapshot@, own_layout),
            },
    {
        proof {
            crate::session::law_session_violation_iff_not_valid(snapshot@);
        }
        match snapshot.validate() {
            Ok(()) => {},
            Err(error) => {
                return Err(ClientError::InvalidSnapshot(error));
            },
        }
        let ghost all = snapshot@.workspaces;
        let mut actions: Vec<ReconcileAction> = Vec::new();
        let mut i: usize = 0;
        assert(all.take(0) =~= Seq::<WorkspaceModel>::empty());
        assert(crate::host_session::action_models(actions@) =~= Seq::<ActionModel>::empty());
        while i < snapshot.workspaces.len()
            invariant
                i <= snapshot.workspaces@.len(),
                all == snapshot@.workspaces,
                crate::host_session::action_models(actions@)
                    == crate::host_session::all_workspace_actions(self@, all.take(i as int)),
            decreases snapshot.workspaces@.len() - i,
        {
            assert(all.take(i + 1).drop_last() =~= all.take(i as int));
            assert(all.take(i + 1).last() == snapshot.workspaces@[i as int]@);
            self.plan_workspace(&snapshot.workspaces[i], &mut actions);
            i += 1;
        }
        assert(all.take(i as int) =~= all);
        let ghost shown = crate::host_session::all_workspace_actions(self@, all);
        let mut j: usize = 0;
        assert(crate::host_session::action_models(actions@) =~= shown
            + crate::host_session::all_layout_actions(self@, all.take(0), own_layout));
        while j < snapshot.workspaces.len()
            invariant
                j <= snapshot.workspaces@.len(),
                all == snapshot@.workspaces,
                crate::host_session::action_models(actions@) == shown
                    + crate::host_session::all_layout_actions(
                    self@,
                    all.take(j as int),
                    own_layout,
                ),
            decreases snapshot.workspaces@.len() - j,
        {
            let ghost before = crate::host_session::action_models(actions@);
            assert(all.take(j + 1).drop_last() =~= all.take(j as int));
            assert(all.take(j + 1).last() == snapshot.workspaces@[j as int]@);
            self.plan_layout(&snapshot.workspaces[j], own_layout, &mut actions);
            assert(crate::host_session::action_models(actions@) =~= shown
                + crate::host_session::all_layout_actions(self@, all.take(j + 1), own_layout));
            j += 1;
        }
        assert(all.take(j as int) =~= all);
        Ok(Reconciliation { snapshot, actions, activate_host })
    }

    /// What the client is to show of a workspace, if all it takes is there.
    fn desire(&self, workspace: &WorkspaceSnapshot, created: &Vec<CreatedWorkspace>) -> (result:
        Option<WorkspaceProjection>)
        ensures
            match result {
                Some(projection) => crate::host_session::desired_projection(
                    self@,
                    workspace@,
                    created@,
                ) == Some(projection@),
                None => crate::host_session::desired_projection(
                    self@,
                    workspace@,
                    created@,
                ) is None,
            },
    {
        match self.kept(workspace) {
            Some(projection) => {
                let unchanged = crate::host_session::same_project_spec(
                    &projection.project_spec,
                    &workspace.project_spec,
                );
                let project_spec = if unchanged {
                    projection.project_spec.clone()
                } else {
                    workspace.project_spec.clone()
                };
                Some(
                    WorkspaceProjection {
                        identity: projection.identity.clone(),
                        project: projection.project,
                        workspace: projection.workspace,
                        project_spec,
                        layout_revision: workspace.layout_revision,
                    },
                )
            },
            None => match (self.project(workspace.project_id), find_created(created, workspace.id)) {
                (Some(project), Some(handle)) => Some(
                    WorkspaceProjection {
                        identity: self.identity_of(workspace),
                        project,
                        workspace: handle,
                        project_spec: workspace.project_spec.clone(),
                        layout_revision: workspace.layout_revision,
                    },
                ),
                _ => None,
            },
        }
    }

    /// Parts the client's projects into those that a session still has and those that it has not.
    fn part_projects(&self, snapshot: &HostSessionSnapshot) -> (result: (
        Vec<HostProject>,
        Vec<ProjectId>,
    ))
        ensures
            crate::host_session::project_models(result.0@) == crate::host_session::projects_where(
                self@.projects,
                snapshot@.workspaces,
                true,
            ),
            project_numbers(result.1@) == numbers_of(
                crate::host_session::projects_where(self@.projects, snapshot@.workspaces, false),
            ),
    {
        let ghost all = self@.projects;
        let ghost workspaces = snapshot@.workspaces;
        let mut present: Vec<HostProject> = Vec::new();
        let mut removed: Vec<ProjectId> = Vec::new();
        let mut i: usize = 0;
        assert(all.take(0) =~= Seq::<(u64, ProjectHandle)>::empty());
        assert(crate::host_session::project_models(present@) =~= all.take(0));
        assert(project_numbers(removed@) =~= numbers_of(all.take(0)));
        while i < self.projects.len()
            invariant
                i <= self.projects@.len(),
                all == self@.projects,
                workspaces == snapshot@.workspaces,
                crate::host_session::project_models(present@)
                    == crate::host_session::projects_where(all.take(i as int), workspaces, true),
                project_numbers(removed@) == numbers_of(
                    crate::host_session::projects_where(all.take(i as int), workspaces, false),
                ),
            decreases self.projects@.len() - i,
        {
            let known = self.projects[i];
            let ghost kept_before = crate::host_session::project_models(present@);
            let ghost gone_before = crate::host_session::projects_where(
                all.take(i as int),
                workspaces,
                false,
            );
            proof {
                assert(all[i as int] == (known.project_id.number(), known.handle));
                assert(all.take(i + 1).drop_last() =~= all.take(i as int));
                assert(all.take(i + 1).last() == all[i as int]);
            }
            if snapshot.has_project(known.project_id.get()) {
                present.push(known);
                assert(crate::host_session::project_models(present@) =~= kept_before.push(
                    all[i as int],
                ));
            } else {
                let ghost removed_before = project_numbers(removed@);
                removed.push(known.project_id);
                assert(project_numbers(removed@) =~= removed_before.push(all[i as int].0));
                assert(numbers_of(gone_before.push(all[i as int])) =~= numbers_of(
                    gone_before,
                ).push(all[i as int].0));
            }
            i += 1;
        }
        assert(all.take(i as int) =~= all);
        (present, removed)
    }

    /// Makes the client follow a checked snapshot once its steps are done, given the workspaces
    /// that they came to show.
    pub fn finish_reconciliation(
        &mut self,
        reconciliation: Reconciliation,
        created: &Vec<CreatedWorkspace>,
    ) -> (result: Result<Reconciled, ClientError>)
        requires
            crate::session::session_valid(reconciliation.snapshot@),
        ensures
            match crate::host_session::reconciled(
                old(self)@,
                reconciliation.snapshot@,
                created@,
            ) {
                None => (result matches Err(error) && error@ == ClientFault::MissingProjection)
                    && *final(self) == *old(self),
                Some(client) => final(self)@ == client && (result matches Ok(outcome) && {
                    &&& outcome.host_id@ == old(self)@.host
                    &&& outcome.activate_host == reconciliation.activate_host
                    &&& project_numbers(outcome.removed_projects@) == numbers_of(
                        crate::host_session::projects_where(
                            old(self)@.projects,
                            reconciliation.snapshot@.workspaces,
                            false,
                        ),
                    )
                    &&& outcome.ordered_workspaces@ == shown_workspaces(client.projections)
                    &&& outcome.active_workspace == client.projections[crate::session::position(
                        client.snapshot.workspaces,
                        client.snapshot.active,
                    )->0].workspace
                }),
            },
    {
        let snapshot = reconciliation.snapshot;
        let activate_host = reconciliation.activate_host;
        let ghost all = snapshot@.workspaces;
        let mut projections: Vec<WorkspaceProjection> = Vec::new();
        let mut ordered: Vec<WorkspaceHandle> = Vec::new();
        let mut i: usize = 0;
        assert(all.take(0) =~= Seq::<WorkspaceModel>::empty());
        assert(crate::host_session::projection_models(projections@) =~= Seq::<
            ProjectionModel,
        >::empty());
        assert(ordered@ =~= shown_workspaces(Seq::<ProjectionModel>::empty()));
        while i < snapshot.workspaces.len()
            invariant
                i <= snapshot.workspaces@.len(),
                *self == *old(self),
                snapshot == reconciliation.snapshot,
                all == snapshot@.workspaces,
                projections@.len() == i,
                ordered@ == shown_workspaces(
                    crate::host_session::projection_models(projections@),
                ),
                crate::host_session::desired_projections(self@, all.take(i as int), created@)
                    == Some(crate::host_session::projection_models(projections@)),
            decreases snapshot.workspaces@.len() - i,
        {
            let ghost before = crate::host_session::projection_models(projections@);
            assert(all.take(i + 1).drop_last() =~= all.take(i as int));
            assert(all.take(i + 1).last() == snapshot.workspaces@[i as int]@);
            match self.desire(&snapshot.workspaces[i], created) {
                Some(projection) => {
                    let ghost model = projection@;
                    ordered.push(projection.workspace);
                    projections.push(projection);
                    assert(crate::host_session::projection_models(projections@) =~= before.push(
                        model,
                    ));
                    assert(ordered@ =~= shown_workspaces(before.push(model)));
                },
                None => {
                    proof {
                        lemma_desired_none(self@, all, created@, i + 1);
                    }
                    return Err(ClientError::MissingProjection);
                },
            }
            i += 1;
        }
        assert(all.take(i as int) =~= all);
        proof {
            crate::session::lemma_position(all, snapshot@.active);
        }
        let active_workspace = match snapshot.workspace_index(snapshot.active_workspace_id) {
            Some(index) => {
                assert(ordered@[index as int] == crate::host_session::projection_models(
                    projections@,
                )[index as int].workspace);
                ordered[index]
            },
            None => {
                assert(false);
                return Err(ClientError::MissingProjection);
            },
        };
        let (present, removed_projects) = self.part_projects(&snapshot);
        let host_id = self.host_id.clone();
        self.projects = present;
        self.projections = projections;
        self.snapshot = snapshot;
        Ok(
            Reconciled {
                host_id,
                removed_projects,
                ordered_workspaces: ordered,
                active_workspace,
                activate_host,
            },
        )
    }

    /// Checks the host's answer to a mutation and lists the steps that make the client follow it.
    pub fn accept_answer(
        &self,
        intent: &MutationIntent,
        snapshot: HostSessionSnapshot,
        applied: bool,
    ) -> (result: Result<Reconciliation, ClientError>)
        ensures
            match crate::session::session_violation(snapshot@) {
                Some(violation) => result matches Err(error) && error@
                    == ClientFault::InvalidResponse(crate::error::invalid(violation)),
                None => result matches Ok(reconciliation) && reconciliation.snapshot == snapshot
                    && crate::session::session_valid(snapshot@) && reconciliation.activate_host
                    == crate::host_session::fronts_host(intent@)
                    && crate::host_session::action_models(reconciliation.actions@)
                    == crate::host_session::reconcile_plan(
                    self@,
                    snapshot@,
                    if applied {
                        crate::host_session::own_layout(intent@)
                    } else {
                        None
                    },
                ),
            },
    {
        let own = match intent {
            MutationIntent::ReplaceLayout { workspace_id, layout: _ } => if applied {
                Some(*workspace_id)
            } else {
                None
            },
            _ => None,
        };
        let activate_host = match intent {
            MutationIntent::CreateWorkspace { .. } => true,
            MutationIntent::ActivateWorkspace { .. } => true,
            _ => false,
        };
        match self.begin_reconciliation(snapshot, own, activate_host) {
            Ok(reconciliation) => Ok(reconciliation),
            Err(error) => Err(
                match error {
                    ClientError::InvalidSnapshot(error) => ClientError::InvalidResponse(error),
                    other => other,
                },
            ),
        }
    }

    /// The workspace that a session shows first.
    pub fn initial_workspace_snapshot(snapshot: &HostSessionSnapshot) -> (result: Result<
        &WorkspaceSnapshot,
        ClientError,
    >)
        ensures
            match crate::session::position(snapshot@.workspaces, snapshot@.active) {
                Some(index) => result matches Ok(workspace) && workspace@
                    == snapshot@.workspaces[index],
                None => result matches Err(error) && error@ == ClientFault::NoActiveWorkspace,
            },
    {
        match snapshot.workspace_index(snapshot.active_workspace_id) {
            Some(index) => Ok(&snapshot.workspaces[index]),
            None => Err(ClientError::NoActiveWorkspace),
        }
    }
}

/// What becomes of a mutation after an answer to its attempt number `attempt`, from zero: a stale
/// first attempt is made once more.
pub open spec fn outcome_after(attempt: nat, applied: bool) -> AttemptOutcome {
    if applied {
        AttemptOutcome::Done
    } else if attempt == 0 {
        AttemptOutcome::Retry
    } else {
        AttemptOutcome::GiveUp
    }
}

/// A mutation on its way to the host.
#[derive(Debug)]
pub struct MutationRun {
    pub intent: MutationIntent,
    pub attempt: u32,
}

impl MutationRun {
    /// A mutation that was not sent yet.
    pub fn new(intent: MutationIntent) -> (run: Self)
        ensures
            run.intent == intent,
            run.attempt == 0,
    {
        MutationRun { intent, attempt: 0 }
    }

    /// Notes the host's answer, once the client follows its snapshot. A mutation that stays stale
    /// when it is made once more is given up.
    pub fn note_answer(&mut self, applied: bool) -> (outcome: AttemptOutcome)
        ensures
            outcome == outcome_after(old(self).attempt as nat, applied),
            final(self).intent == old(self).intent,
            final(self).attempt == if outcome == AttemptOutcome::Retry {
                1
            } else {
                old(self).attempt
            },
    {
        if applied {
            AttemptOutcome::Done
        } else if self.attempt == 0 {
            self.attempt = 1;
            AttemptOutcome::Retry
        } else {
            AttemptOutcome::GiveUp
        }
    }
}

/// How often a mutation is sent while the host keeps answering in a certain way.
pub open spec fn sends(answers: Seq<bool>, attempt: nat) -> nat
    decreases answers.len(),
{
    if answers.len() == 0 {
        0
    } else {
        1 + match outcome_after(attempt, answers[0]) {
            AttemptOutcome::Retry => sends(answers.skip(1), attempt + 1),
            _ => 0nat,
        }
    }
}

/// A mutation is sent at most twice, however the host answers.
pub proof fn law_mutations_are_sent_at_most_twice(answers: Seq<bool>)
    ensures
        sends(answers, 0) <= 2,
{
    reveal_with_fuel(sends, 3);
}

/// A mutation that is made again is made for the revision of the host's last answer, so it is
/// stale only if the session moved on once more.
pub proof fn law_retry_follows_the_last_answer(
    client: ClientModel,
    answer: SessionModel,
    created: Seq<CreatedWorkspace>,
    intent: crate::host_session::IntentModel,
    fresh: crate::session::FreshIds,
)
    ensures
        crate::host_session::reconciled(client, answer, created) matches Some(next) ==> {
            &&& next.snapshot == answer
            &&& crate::host_session::intended(next.snapshot, intent) matches Ok(mutation)
                ==> !(crate::session::applied(
                answer,
                crate::session::RequestModel { expected_revision: next.snapshot.revision, mutation },
                fresh,
            ) matches Err(fault) && (fault is StaleRevision || fault is StaleLayoutRevision))
        },
{
    if let Some(next) = crate::host_session::reconciled(client, answer, created) {
        if let Ok(mutation) = crate::host_session::intended(next.snapshot, intent) {
            assert(mutation is ReplaceLayout ==> intent is ReplaceLayout);
        }
    }
}

/// What a client shows once it follows a snapshot: each workspace of the session, in the
/// session's order, under its own identity and layout revision.
pub proof fn law_reconciled_client_mirrors_the_session(
    client: ClientModel,
    snapshot: SessionModel,
    created: Seq<CreatedWorkspace>,
)
    ensures
        crate::host_session::reconciled(client, snapshot, created) matches Some(next) ==> {
            &&& next.snapshot == snapshot
            &&& next.host == client.host
            &&& next.projections.len() == snapshot.workspaces.len()
            &&& forall|i: int|
                0 <= i < snapshot.workspaces.len() ==> (#[trigger] next.projections[i]).identity
                    == crate::host_session::identity_on(client.host, snapshot.workspaces[i])
                    && next.projections[i].layout_revision
                    == snapshot.workspaces[i].layout_revision && crate::host_session::same_roots(
                    next.projections[i].roots,
                    snapshot.workspaces[i].roots,
                )
        },
{
    lemma_desired_shape(client, snapshot.workspaces, created);
    if let Some(next) = crate::host_session::reconciled(client, snapshot, created) {
        assert forall|i: int| 0 <= i < snapshot.workspaces.len() implies (
        #[trigger] next.projections[i]).identity == crate::host_session::identity_on(
            client.host,
            snapshot.workspaces[i],
        ) && next.projections[i].layout_revision == snapshot.workspaces[i].layout_revision
            && crate::host_session::same_roots(
            next.projections[i].roots,
            snapshot.workspaces[i].roots,
        ) by {
            assert(crate::host_session::desired_projection(
                client,
                snapshot.workspaces[i],
                created,
            ) == Some(next.projections[i]));
        }
    }
}

/// Following a snapshot leaves in place what the client already shows: same project object, same
/// workspace object.
pub proof fn law_reconciling_keeps_shown_workspaces(
    client: ClientModel,
    snapshot: SessionModel,
    created: Seq<CreatedWorkspace>,
    index: int,
)
    requires
        0 <= index < snapshot.workspaces.len(),
        crate::host_session::kept_projection(client, snapshot.workspaces[index]) is Some,
    ensures
        crate::host_session::reconciled(client, snapshot, created) matches Some(next) ==> {
            let before = crate::host_session::kept_projection(client, snapshot.workspaces[index])->0;
            next.projections[index].project == before.project && next.projections[index].workspace
                == before.workspace
        },
{
    lemma_desired_shape(client, snapshot.workspaces, created);
    assert(crate::host_session::reconciled(client, snapshot, created) is Some ==>
        crate::host_session::desired_projection(
        client,
        snapshot.workspaces[index],
        created,
    ) is Some);
}

pub proof fn lemma_projection_found(projections: Seq<ProjectionModel>, index: int)
    requires
        0 <= index < projections.len(),
        forall|i: int, j: int|
            0 <= i < j < projections.len() ==> (#[trigger] projections[i]).identity.workspace != (
            #[trigger] projections[j]).identity.workspace,
    ensures
        crate::host_session::projection_of(
            projections,
            projections[index].identity.workspace,
        ) == Some(projections[index]),
    decreases projections.len(),
{
    if index < projections.len() - 1 {
        let front = projections.drop_last();
        assert forall|i: int, j: int| 0 <= i < j < front.len() implies (
        #[trigger] front[i]).identity.workspace != (#[trigger] front[j]).identity.workspace by {
            assert(front[i] == projections[i] && front[j] == projections[j]);
        }
        lemma_projection_found(front, index);
        assert(projections[projections.len() - 1] == projections.last());
    }
}

/// Following the same snapshot again takes no steps.
pub proof fn law_reconciling_twice_takes_no_more_steps(
    client: ClientModel,
    snapshot: SessionModel,
    created: Seq<CreatedWorkspace>,
)
    requires
        crate::session::session_valid(snapshot),
    ensures
        crate::host_session::reconciled(client, snapshot, created) matches Some(next) ==>
            crate::host_session::reconcile_plan(next, snapshot, None) == Seq::<
            ActionModel,
        >::empty(),
{
    if let Some(next) = crate::host_session::reconciled(client, snapshot, created) {
        law_reconciled_client_mirrors_the_session(client, snapshot, created);
        let workspaces = snapshot.workspaces;
        assert forall|i: int| 0 <= i < workspaces.len() implies
            crate::host_session::kept_projection(next, #[trigger] workspaces[i]) == Some(
            next.projections[i],
        ) by {
            assert forall|a: int, b: int| 0 <= a < b < next.projections.len() implies (
            #[trigger] next.projections[a]).identity.workspace != (
            #[trigger] next.projections[b]).identity.workspace by {
                assert(workspaces[a].id != workspaces[b].id);
            }
            lemma_projection_found(next.projections, i);
        }
        lemma_no_actions(next, workspaces, workspaces.len() as int);
        assert(workspaces.take(workspaces.len() as int) =~= workspaces);
        assert(crate::host_session::reconcile_plan(next, snapshot, None) =~= Seq::<
            ActionModel,
        >::empty());
    }
}

proof fn lemma_no_actions(client: ClientModel, workspaces: Seq<WorkspaceModel>, count: int)
    requires
        0 <= count <= workspaces.len(),
        client.projections.len() == workspaces.len(),
        forall|i: int|
            0 <= i < workspaces.len() ==> crate::host_session::kept_projection(
                client,
                #[trigger] workspaces[i],
            ) == Some(client.projections[i]) && client.projections[i].layout_revision
                == workspaces[i].layout_revision && crate::host_session::same_roots(
                client.projections[i].roots,
                workspaces[i].roots,
            ),
    ensures
        crate::host_session::all_workspace_actions(client, workspaces.take(count)) == Seq::<
            ActionModel,
        >::empty(),
        crate::host_session::all_layout_actions(client, workspaces.take(count), None) == Seq::<
            ActionModel,
        >::empty(),
    decreases count,
{
    if count > 0 {
        lemma_no_actions(client, workspaces, count - 1);
        assert(workspaces.take(count).drop_last() =~= workspaces.take(count - 1));
        assert(workspaces.take(count).last() == workspaces[count - 1]);
        assert(crate::host_session::all_workspace_actions(client, workspaces.take(count))
            =~= Seq::<ActionModel>::empty());
        assert(crate::host_session::all_layout_actions(client, workspaces.take(count), None)
            =~= Seq::<ActionModel>::empty());
    }
}

} // verus!
