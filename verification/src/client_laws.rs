//! What holds of every client that follows a host session.

use crate::host_session as client_side;
use crate::host_session::{
    ActionModel, ClientError, ClientFault, ClientModel, CreatedWorkspace, HostSessionClient,
    IdentityModel, IntentModel, ProjectHandle, ProjectionModel, WorkspaceHandle,
};
use crate::ids::WorkspaceId;
use crate::reconcile::{Reconciled, Reconciliation};
use crate::session::{MutationModel, RootModel, SessionModel, WorkspaceModel};
use vstd::prelude::*;

verus! {

/// Whether a client shows no workspace twice.
pub open spec fn shows_each_once(client: ClientModel) -> bool {
    forall|i: int, j: int|
        0 <= i < j < client.projections.len() ==> (
        #[trigger] client.projections[i]).identity.workspace != (
        #[trigger] client.projections[j]).identity.workspace
}

/// Whether a client shows a workspace, at a certain place among what it shows: on its host, under
/// the workspace's identity and with its project.
pub open spec fn shown_at(client: ClientModel, workspace: WorkspaceModel, i: int) -> bool {
    0 <= i < client.projections.len() && client.projections[i].identity.host == client.host
        && client.projections[i].identity.workspace == workspace.id
        && client.projections[i].identity.project == workspace.project
}

/// Whether a client shows a workspace.
pub open spec fn is_shown(client: ClientModel, workspace: WorkspaceModel) -> bool {
    exists|i: int| #[trigger] shown_at(client, workspace, i)
}

/// Whether two lists of roots differ: in number, or somewhere in a path as asked for or as resolved.
pub open spec fn roots_differ(left: Seq<RootModel>, right: Seq<RootModel>) -> bool {
    left.len() != right.len() || exists|r: int|
        0 <= r < left.len() && (!crate::path::same_path(
            (#[trigger] left[r]).requested,
            right[r].requested,
        ) || !crate::path::same_path(left[r].canonical, right[r].canonical))
}

/// Whether a client has an object for a project.
pub open spec fn has_object(client: ClientModel, project: u64) -> bool {
    exists|i: int| 0 <= i < client.projects.len() && (#[trigger] client.projects[i]).0 == project
}

/// Whether no two workspaces have the same identity or the same project.
pub open spec fn are_distinct(workspaces: Seq<WorkspaceModel>) -> bool {
    forall|i: int, j: int|
        0 <= i < j < workspaces.len() ==> (#[trigger] workspaces[i]).id != (
        #[trigger] workspaces[j]).id && workspaces[i].project != workspaces[j].project
}

proof fn lemma_found(projections: Seq<ProjectionModel>, id: WorkspaceId)
    ensures
        match client_side::projection_of(projections, id) {
            Some(found) => exists|i: int|
                0 <= i < projections.len() && #[trigger] projections[i] == found
                    && found.identity.workspace == id,
            None => forall|i: int|
                0 <= i < projections.len() ==> (#[trigger] projections[i]).identity.workspace != id,
        },
    decreases projections.len(),
{
    if projections.len() > 0 {
        let earlier = projections.drop_last();
        lemma_found(earlier, id);
        if projections.last().identity.workspace == id {
            assert(projections[projections.len() - 1] == projections.last());
        } else if client_side::projection_of(earlier, id) is Some {
            let found = client_side::projection_of(earlier, id)->0;
            let i = choose|i: int|
                0 <= i < earlier.len() && #[trigger] earlier[i] == found
                    && found.identity.workspace == id;
            assert(projections[i] == found);
        } else {
            assert forall|i: int| 0 <= i < projections.len() implies (
            #[trigger] projections[i]).identity.workspace != id by {
                if i < earlier.len() {
                    assert(earlier[i] == projections[i]);
                }
            }
        }
    }
}

proof fn lemma_kept(client: ClientModel, workspace: WorkspaceModel)
    requires
        shows_each_once(client),
    ensures
        forall|i: int| #[trigger]
            shown_at(client, workspace, i) ==> client_side::kept_projection(client, workspace) == Some(
                client.projections[i],
            ),
        !is_shown(client, workspace) ==> client_side::kept_projection(client, workspace) is None,
        client_side::kept_projection(client, workspace) is Some ==> is_shown(client, workspace),
{
    let found = client_side::projection_of(client.projections, workspace.id);
    lemma_found(client.projections, workspace.id);
    assert forall|i: int| #[trigger] shown_at(client, workspace, i) implies
        client_side::kept_projection(client, workspace) == Some(client.projections[i]) by {
        crate::reconcile::lemma_projection_found(client.projections, i);
        assert(client.projections[i].identity =~= client_side::identity_on(client.host, workspace));
    }
    if client_side::kept_projection(client, workspace) is Some {
        let i = choose|i: int|
            0 <= i < client.projections.len() && #[trigger] client.projections[i] == found->0
                && (found->0).identity.workspace == workspace.id;
        assert(shown_at(client, workspace, i));
    }
}

pub proof fn lemma_object(projects: Seq<(u64, ProjectHandle)>, project: u64)
    ensures
        match client_side::project_handle(projects, project) {
            Some(handle) => exists|i: int|
                0 <= i < projects.len() && #[trigger] projects[i] == (project, handle),
            None => forall|i: int| 0 <= i < projects.len() ==> (#[trigger] projects[i]).0 != project,
        },
    decreases projects.len(),
{
    if projects.len() > 0 {
        let earlier = projects.drop_last();
        lemma_object(earlier, project);
        if projects.last().0 == project {
            assert(projects[projects.len() - 1] == (project, projects.last().1));
        } else if client_side::project_handle(earlier, project) is Some {
            let handle = client_side::project_handle(earlier, project)->0;
            let i = choose|i: int|
                0 <= i < earlier.len() && #[trigger] earlier[i] == (project, handle);
            assert(projects[i] == (project, handle));
        } else {
            assert forall|i: int| 0 <= i < projects.len() implies (#[trigger] projects[i]).0
                != project by {
                if i < earlier.len() {
                    assert(earlier[i] == projects[i]);
                }
            }
        }
    }
}

proof fn lemma_created(created: Seq<CreatedWorkspace>, id: WorkspaceId)
    ensures
        match client_side::created_handle(created, id) {
            Some(handle) => exists|i: int|
                0 <= i < created.len() && (#[trigger] created[i]).workspace_id == id
                    && created[i].handle == handle,
            None => forall|i: int|
                0 <= i < created.len() ==> (#[trigger] created[i]).workspace_id != id,
        },
    decreases created.len(),
{
    if created.len() > 0 {
        let earlier = created.drop_last();
        lemma_created(earlier, id);
        if created.last().workspace_id == id {
            assert(created[created.len() - 1].workspace_id == id);
        } else if client_side::created_handle(earlier, id) is Some {
            let handle = client_side::created_handle(earlier, id)->0;
            let i = choose|i: int|
                0 <= i < earlier.len() && (#[trigger] earlier[i]).workspace_id == id
                    && earlier[i].handle == handle;
            assert(created[i].workspace_id == id);
        } else {
            assert forall|i: int| 0 <= i < created.len() implies (
            #[trigger] created[i]).workspace_id != id by {
                if i < earlier.len() {
                    assert(earlier[i] == created[i]);
                }
            }
        }
    }
}

/// The steps for one workspace stand together among the steps for all.
proof fn lemma_steps_stand_together(
    client: ClientModel,
    workspaces: Seq<WorkspaceModel>,
    k: int,
) -> (at: int)
    requires
        0 <= k < workspaces.len(),
    ensures
        0 <= at,
        at + client_side::workspace_actions(client, workspaces[k]).len()
            <= client_side::all_workspace_actions(client, workspaces).len(),
        forall|i: int|
            0 <= i < client_side::workspace_actions(client, workspaces[k]).len() ==>
                client_side::all_workspace_actions(client, workspaces)[at + i]
                == #[trigger] client_side::workspace_actions(client, workspaces[k])[i],
    decreases workspaces.len(),
{
    let earlier = workspaces.drop_last();
    if k < earlier.len() {
        lemma_steps_stand_together(client, earlier, k)
    } else {
        client_side::all_workspace_actions(client, earlier).len() as int
    }
}

proof fn lemma_step_of_some_workspace(
    client: ClientModel,
    workspaces: Seq<WorkspaceModel>,
    step: ActionModel,
)
    ensures
        client_side::all_workspace_actions(client, workspaces).contains(step) <==> exists|k: int|
            0 <= k < workspaces.len() && client_side::workspace_actions(
                client,
                #[trigger] workspaces[k],
            ).contains(step),
    decreases workspaces.len(),
{
    let all = client_side::all_workspace_actions(client, workspaces);
    if workspaces.len() > 0 {
        let earlier = workspaces.drop_last();
        let before = client_side::all_workspace_actions(client, earlier);
        let own = client_side::workspace_actions(client, workspaces.last());
        lemma_step_of_some_workspace(client, earlier, step);
        if all.contains(step) {
            let i = choose|i: int| 0 <= i < all.len() && all[i] == step;
            if i < before.len() {
                assert(before[i] == step);
                let k = choose|k: int|
                    0 <= k < earlier.len() && client_side::workspace_actions(
                        client,
                        #[trigger] earlier[k],
                    ).contains(step);
                assert(workspaces[k] == earlier[k]);
            } else {
                assert(own[i - before.len()] == step);
                assert(workspaces[workspaces.len() - 1] == workspaces.last());
            }
        }
        if exists|k: int|
            0 <= k < workspaces.len() && client_side::workspace_actions(
                client,
                #[trigger] workspaces[k],
            ).contains(step) {
            let k = choose|k: int|
                0 <= k < workspaces.len() && client_side::workspace_actions(
                    client,
                    #[trigger] workspaces[k],
                ).contains(step);
            let at = lemma_steps_stand_together(client, workspaces, k);
            let own = client_side::workspace_actions(client, workspaces[k]);
            let i = choose|i: int| 0 <= i < own.len() && own[i] == step;
            assert(all[at + i] == own[i]);
        }
    }
}

proof fn lemma_layout_of_some_workspace(
    client: ClientModel,
    workspaces: Seq<WorkspaceModel>,
    own: Option<WorkspaceId>,
    step: ActionModel,
)
    ensures
        client_side::all_layout_actions(client, workspaces, own).contains(step) <==> exists|k: int|
            0 <= k < workspaces.len() && client_side::layout_actions(
                client,
                #[trigger] workspaces[k],
                own,
            ).contains(step),
    decreases workspaces.len(),
{
    let all = client_side::all_layout_actions(client, workspaces, own);
    if workspaces.len() > 0 {
        let earlier = workspaces.drop_last();
        let before = client_side::all_layout_actions(client, earlier, own);
        let last = client_side::layout_actions(client, workspaces.last(), own);
        lemma_layout_of_some_workspace(client, earlier, own, step);
        if all.contains(step) {
            let i = choose|i: int| 0 <= i < all.len() && all[i] == step;
            if i < before.len() {
                assert(before[i] == step);
                let k = choose|k: int|
                    0 <= k < earlier.len() && client_side::layout_actions(
                        client,
                        #[trigger] earlier[k],
                        own,
                    ).contains(step);
                assert(workspaces[k] == earlier[k]);
            } else {
                assert(last[i - before.len()] == step);
                assert(workspaces[workspaces.len() - 1] == workspaces.last());
            }
        }
        if exists|k: int|
            0 <= k < workspaces.len() && client_side::layout_actions(
                client,
                #[trigger] workspaces[k],
                own,
            ).contains(step) {
            let k = choose|k: int|
                0 <= k < workspaces.len() && client_side::layout_actions(
                    client,
                    #[trigger] workspaces[k],
                    own,
                ).contains(step);
            if k < earlier.len() {
                assert(earlier[k] == workspaces[k]);
                let i = choose|i: int| 0 <= i < before.len() && before[i] == step;
                assert(all[i] == step);
            } else {
                let i = choose|i: int| 0 <= i < last.len() && last[i] == step;
                assert(all[before.len() + i] == step);
            }
        }
    }
}

proof fn lemma_plan_contains(
    client: ClientModel,
    snapshot: SessionModel,
    own: Option<WorkspaceId>,
    step: ActionModel,
)
    ensures
        client_side::reconcile_plan(client, snapshot, own).contains(step) <==> (exists|k: int|
            0 <= k < snapshot.workspaces.len() && client_side::workspace_actions(
                client,
                #[trigger] snapshot.workspaces[k],
            ).contains(step)) || exists|k: int|
            0 <= k < snapshot.workspaces.len() && client_side::layout_actions(
                client,
                #[trigger] snapshot.workspaces[k],
                own,
            ).contains(step),
{
    let plan = client_side::reconcile_plan(client, snapshot, own);
    let first = client_side::all_workspace_actions(client, snapshot.workspaces);
    let second = client_side::all_layout_actions(client, snapshot.workspaces, own);
    lemma_step_of_some_workspace(client, snapshot.workspaces, step);
    lemma_layout_of_some_workspace(client, snapshot.workspaces, own, step);
    if plan.contains(step) {
        let i = choose|i: int| 0 <= i < plan.len() && plan[i] == step;
        if i < first.len() {
            assert(first[i] == step);
        } else {
            assert(second[i - first.len()] == step);
        }
    }
    if first.contains(step) {
        let i = choose|i: int| 0 <= i < first.len() && first[i] == step;
        assert(plan[i] == step);
    }
    if second.contains(step) {
        let i = choose|i: int| 0 <= i < second.len() && second[i] == step;
        assert(plan[first.len() + i] == step);
    }
}

pub proof fn lemma_same_place(workspaces: Seq<WorkspaceModel>, k: int, other: int)
    requires
        are_distinct(workspaces),
        0 <= k < workspaces.len(),
        0 <= other < workspaces.len(),
        workspaces[k].project == workspaces[other].project || workspaces[k].id
            == workspaces[other].id,
    ensures
        k == other,
{
    if k < other {
        assert(workspaces[k].id != workspaces[other].id);
    } else if other < k {
        assert(workspaces[other].id != workspaces[k].id);
    }
}

/// A project that the client shows is brought to its roots again where the roots of the snapshot
/// differ from those shown, and only there.
pub proof fn law_changed_roots_are_shown(
    client: ClientModel,
    snapshot: SessionModel,
    own: Option<WorkspaceId>,
    k: int,
    i: int,
)
    requires
        shows_each_once(client),
        are_distinct(snapshot.workspaces),
        0 <= k < snapshot.workspaces.len(),
        shown_at(client, snapshot.workspaces[k], i),
    ensures
        client_side::reconcile_plan(client, snapshot, own).contains(
            ActionModel::RefreshProject { project: snapshot.workspaces[k].project },
        ) <==> roots_differ(client.projections[i].roots, snapshot.workspaces[k].roots),
{
    let workspace = snapshot.workspaces[k];
    let step = ActionModel::RefreshProject { project: workspace.project };
    let own_steps = client_side::workspace_actions(client, workspace);
    lemma_kept(client, workspace);
    lemma_plan_contains(client, snapshot, own, step);
    if roots_differ(client.projections[i].roots, workspace.roots) {
        assert(own_steps[0] == step);
        assert(client_side::workspace_actions(client, snapshot.workspaces[k]).contains(step));
    } else {
        assert(client_side::same_roots(client.projections[i].roots, workspace.roots));
        assert forall|other: int|
            0 <= other < snapshot.workspaces.len() implies !client_side::workspace_actions(
            client,
            #[trigger] snapshot.workspaces[other],
        ).contains(step) by {
            let steps = client_side::workspace_actions(client, snapshot.workspaces[other]);
            if steps.contains(step) {
                let at = choose|at: int| 0 <= at < steps.len() && steps[at] == step;
                lemma_same_place(snapshot.workspaces, k, other);
                assert(false);
            }
        }
    }
}

/// A workspace that the client does not show yet is shown once its project is there and has its
/// roots; the project is made before that where the client has no object for it.
pub proof fn law_new_workspaces_are_shown(
    client: ClientModel,
    snapshot: SessionModel,
    own: Option<WorkspaceId>,
    k: int,
)
    requires
        shows_each_once(client),
        0 <= k < snapshot.workspaces.len(),
        !is_shown(client, snapshot.workspaces[k]),
    ensures
        ({
            let plan = client_side::reconcile_plan(client, snapshot, own);
            let workspace = snapshot.workspaces[k];
            let shows = ActionModel::CreateWorkspace {
                identity: IdentityModel {
                    host: client.host,
                    workspace: workspace.id,
                    project: workspace.project,
                },
            };
            let brings = ActionModel::InitializeProject { project: workspace.project };
            let makes = ActionModel::CreateProject { project: workspace.project };
            exists|at: int|
                0 < at < plan.len() && #[trigger] plan[at] == shows && plan[at - 1] == brings && (
                !has_object(client, workspace.project) ==> 1 < at && plan[at - 2] == makes)
        }),
{
    let plan = client_side::reconcile_plan(client, snapshot, own);
    let workspace = snapshot.workspaces[k];
    let steps = client_side::workspace_actions(client, workspace);
    lemma_kept(client, workspace);
    lemma_object(client.projects, workspace.project);
    let start = lemma_steps_stand_together(client, snapshot.workspaces, k);
    let all = client_side::all_workspace_actions(client, snapshot.workspaces);
    assert(forall|i: int| 0 <= i < all.len() ==> plan[i] == all[i]);
    let at = start + steps.len() - 1;
    assert(all[start + (steps.len() - 1)] == steps[steps.len() - 1]);
    assert(all[start + (steps.len() - 2)] == steps[steps.len() - 2]);
    if !has_object(client, workspace.project) {
        assert(client_side::project_handle(client.projects, workspace.project) is None);
        assert(all[start + (steps.len() - 3)] == steps[steps.len() - 3]);
    }
    assert(steps[steps.len() - 1] =~= ActionModel::CreateWorkspace {
        identity: IdentityModel {
            host: client.host,
            workspace: workspace.id,
            project: workspace.project,
        },
    });
    assert(plan[at] == steps[steps.len() - 1]);
}

/// What the client shows is left alone: no step shows it again, or makes or first brings its project
/// to its roots.
pub proof fn law_shown_workspaces_are_not_made_again(
    client: ClientModel,
    snapshot: SessionModel,
    own: Option<WorkspaceId>,
    k: int,
)
    requires
        shows_each_once(client),
        are_distinct(snapshot.workspaces),
        0 <= k < snapshot.workspaces.len(),
        is_shown(client, snapshot.workspaces[k]),
    ensures
        ({
            let plan = client_side::reconcile_plan(client, snapshot, own);
            let workspace = snapshot.workspaces[k];
            &&& !plan.contains(ActionModel::CreateProject { project: workspace.project })
            &&& !plan.contains(ActionModel::InitializeProject { project: workspace.project })
            &&& forall|i: int|
                0 <= i < plan.len() ==> (#[trigger] plan[i] matches ActionModel::CreateWorkspace {
                    identity,
                } ==> identity.workspace != workspace.id)
        }),
{
    let plan = client_side::reconcile_plan(client, snapshot, own);
    let workspace = snapshot.workspaces[k];
    let shown = choose|i: int| #[trigger] shown_at(client, workspace, i);
    lemma_kept(client, workspace);
    assert forall|step: ActionModel| #[trigger] plan.contains(step) implies match step {
        ActionModel::CreateProject { project } => project != workspace.project,
        ActionModel::InitializeProject { project } => project != workspace.project,
        ActionModel::CreateWorkspace { identity } => identity.workspace != workspace.id,
        _ => true,
    } by {
        lemma_plan_contains(client, snapshot, own, step);
        if exists|other: int|
            0 <= other < snapshot.workspaces.len() && client_side::workspace_actions(
                client,
                #[trigger] snapshot.workspaces[other],
            ).contains(step) {
            let other = choose|other: int|
                0 <= other < snapshot.workspaces.len() && client_side::workspace_actions(
                    client,
                    #[trigger] snapshot.workspaces[other],
                ).contains(step);
            let steps = client_side::workspace_actions(client, snapshot.workspaces[other]);
            let at = choose|at: int| 0 <= at < steps.len() && steps[at] == step;
            if workspace.project == snapshot.workspaces[other].project || workspace.id
                == snapshot.workspaces[other].id {
                lemma_same_place(snapshot.workspaces, k, other);
            }
        }
    }
    assert forall|i: int| 0 <= i < plan.len() implies (
    #[trigger] plan[i] matches ActionModel::CreateWorkspace { identity } ==> identity.workspace
        != workspace.id) by {
        assert(plan.contains(plan[i]));
    }
}

/// A workspace is brought to the layout of the snapshot where the client shows another revision of
/// it, or shows it for the first time and it was ever changed; and only there. A layout that the
/// client made itself is left as it is.
pub proof fn law_changed_layouts_are_restored(
    client: ClientModel,
    snapshot: SessionModel,
    own: Option<WorkspaceId>,
    k: int,
)
    requires
        shows_each_once(client),
        are_distinct(snapshot.workspaces),
        0 <= k < snapshot.workspaces.len(),
    ensures
        ({
            let plan = client_side::reconcile_plan(client, snapshot, own);
            let workspace = snapshot.workspaces[k];
            let restores = ActionModel::RestoreLayout {
                workspace: workspace.id,
                layout: workspace.layout,
            };
            &&& own == Some(workspace.id) ==> !plan.contains(restores)
            &&& own != Some(workspace.id) && !is_shown(client, workspace) ==> (plan.contains(restores)
                <==> workspace.layout_revision != 0)
            &&& forall|i: int|
                own != Some(workspace.id) && #[trigger] shown_at(client, workspace, i) ==> (
                plan.contains(restores) <==> client.projections[i].layout_revision
                    != workspace.layout_revision)
        }),
{
    let plan = client_side::reconcile_plan(client, snapshot, own);
    let workspace = snapshot.workspaces[k];
    let restores = ActionModel::RestoreLayout { workspace: workspace.id, layout: workspace.layout };
    lemma_kept(client, workspace);
    lemma_plan_contains(client, snapshot, own, restores);
    let steps = client_side::layout_actions(client, workspace, own);
    if steps.len() > 0 {
        assert(steps[0] == restores);
        assert(client_side::layout_actions(client, snapshot.workspaces[k], own).contains(restores));
    } else if plan.contains(restores) {
        if exists|other: int|
            0 <= other < snapshot.workspaces.len() && client_side::workspace_actions(
                client,
                #[trigger] snapshot.workspaces[other],
            ).contains(restores) {
            let other = choose|other: int|
                0 <= other < snapshot.workspaces.len() && client_side::workspace_actions(
                    client,
                    #[trigger] snapshot.workspaces[other],
                ).contains(restores);
            let made = client_side::workspace_actions(client, snapshot.workspaces[other]);
            let at = choose|at: int| 0 <= at < made.len() && made[at] == restores;
            assert(false);
        }
        let other = choose|other: int|
            0 <= other < snapshot.workspaces.len() && client_side::layout_actions(
                client,
                #[trigger] snapshot.workspaces[other],
                own,
            ).contains(restores);
        let made = client_side::layout_actions(client, snapshot.workspaces[other], own);
        let at = choose|at: int| 0 <= at < made.len() && made[at] == restores;
        lemma_same_place(snapshot.workspaces, k, other);
        assert(false);
    }
}

/// Layouts come last: no other step follows one that restores a layout.
pub proof fn law_layouts_are_restored_last(
    client: ClientModel,
    snapshot: SessionModel,
    own: Option<WorkspaceId>,
    i: int,
    j: int,
)
    requires
        0 <= i < j < client_side::reconcile_plan(client, snapshot, own).len(),
    ensures
        client_side::reconcile_plan(client, snapshot, own)[i] is RestoreLayout ==>
            client_side::reconcile_plan(client, snapshot, own)[j] is RestoreLayout,
{
    let plan = client_side::reconcile_plan(client, snapshot, own);
    let first = client_side::all_workspace_actions(client, snapshot.workspaces);
    let second = client_side::all_layout_actions(client, snapshot.workspaces, own);
    if i < first.len() {
        assert(plan[i] == first[i]);
        assert(first.contains(plan[i]));
        lemma_step_of_some_workspace(client, snapshot.workspaces, plan[i]);
        let k = choose|k: int|
            0 <= k < snapshot.workspaces.len() && client_side::workspace_actions(
                client,
                #[trigger] snapshot.workspaces[k],
            ).contains(plan[i]);
        let made = client_side::workspace_actions(client, snapshot.workspaces[k]);
        let at = choose|at: int| 0 <= at < made.len() && made[at] == plan[i];
    } else {
        assert(plan[j] == second[j - first.len()]);
        assert(second.contains(plan[j]));
        lemma_layout_of_some_workspace(client, snapshot.workspaces, own, plan[j]);
        let k = choose|k: int|
            0 <= k < snapshot.workspaces.len() && client_side::layout_actions(
                client,
                #[trigger] snapshot.workspaces[k],
                own,
            ).contains(plan[j]);
        let made = client_side::layout_actions(client, snapshot.workspaces[k], own);
        let at = choose|at: int| 0 <= at < made.len() && made[at] == plan[j];
    }
}

/// Each step is about a workspace of the snapshot, or about its project.
pub proof fn law_steps_are_about_the_snapshot(
    client: ClientModel,
    snapshot: SessionModel,
    own: Option<WorkspaceId>,
    i: int,
)
    requires
        0 <= i < client_side::reconcile_plan(client, snapshot, own).len(),
    ensures
        exists|k: int|
            0 <= k < snapshot.workspaces.len() && {
                let workspace = #[trigger] snapshot.workspaces[k];
                match client_side::reconcile_plan(client, snapshot, own)[i] {
                    ActionModel::CreateProject { project } => project == workspace.project
                        && !has_object(client, project),
                    ActionModel::InitializeProject { project } => project == workspace.project,
                    ActionModel::RefreshProject { project } => project == workspace.project,
                    ActionModel::CreateWorkspace { identity } => identity.host == client.host
                        && identity.workspace == workspace.id && identity.project
                        == workspace.project,
                    ActionModel::RestoreLayout { workspace: restored, layout } => restored
                        == workspace.id && layout == workspace.layout,
                }
            },
{
    let plan = client_side::reconcile_plan(client, snapshot, own);
    assert(plan.contains(plan[i]));
    lemma_plan_contains(client, snapshot, own, plan[i]);
    if exists|k: int|
        0 <= k < snapshot.workspaces.len() && client_side::workspace_actions(
            client,
            #[trigger] snapshot.workspaces[k],
        ).contains(plan[i]) {
        let k = choose|k: int|
            0 <= k < snapshot.workspaces.len() && client_side::workspace_actions(
                client,
                #[trigger] snapshot.workspaces[k],
            ).contains(plan[i]);
        lemma_object(client.projects, snapshot.workspaces[k].project);
        let made = client_side::workspace_actions(client, snapshot.workspaces[k]);
        let at = choose|at: int| 0 <= at < made.len() && made[at] == plan[i];
        assert(snapshot.workspaces[k] == snapshot.workspaces[k]);
    } else {
        let k = choose|k: int|
            0 <= k < snapshot.workspaces.len() && client_side::layout_actions(
                client,
                #[trigger] snapshot.workspaces[k],
                own,
            ).contains(plan[i]);
        let made = client_side::layout_actions(client, snapshot.workspaces[k], own);
        let at = choose|at: int| 0 <= at < made.len() && made[at] == plan[i];
        assert(snapshot.workspaces[k] == snapshot.workspaces[k]);
    }
}

proof fn lemma_projects_where(
    projects: Seq<(u64, ProjectHandle)>,
    workspaces: Seq<WorkspaceModel>,
    present: bool,
    entry: (u64, ProjectHandle),
)
    ensures
        client_side::projects_where(projects, workspaces, present).contains(entry)
            <==> projects.contains(entry) && (exists|k: int|
            0 <= k < workspaces.len() && (#[trigger] workspaces[k]).project == entry.0) == present,
    decreases projects.len(),
{
    if projects.len() > 0 {
        let earlier = projects.drop_last();
        let before = client_side::projects_where(earlier, workspaces, present);
        let kept = client_side::projects_where(projects, workspaces, present);
        lemma_projects_where(earlier, workspaces, present, entry);
        if projects.contains(entry) && entry != projects.last() {
            let i = choose|i: int| 0 <= i < projects.len() && projects[i] == entry;
            assert(earlier[i] == entry);
        }
        if earlier.contains(entry) {
            let i = choose|i: int| 0 <= i < earlier.len() && earlier[i] == entry;
            assert(projects[i] == entry);
        }
        if before.contains(entry) {
            let i = choose|i: int| 0 <= i < before.len() && before[i] == entry;
            assert(kept[i] == entry);
        }
        if kept.contains(entry) && !before.contains(entry) {
            let i = choose|i: int| 0 <= i < kept.len() && kept[i] == entry;
            if i < before.len() {
                assert(before[i] == entry);
            }
            assert(projects[projects.len() - 1] == entry);
        }
        if entry == projects.last() && crate::session::has_project(workspaces, entry.0) == present {
            assert(kept[kept.len() - 1] == entry);
            assert(projects[projects.len() - 1] == entry);
        }
    }
}

/// A client that follows a snapshot shows its workspaces in their order, each on its host, under
/// its identity, with its project, its roots and its layout revision. A workspace that was shown
/// keeps its objects; a new one has the client's object for its project and the one that was made
/// for it.
pub proof fn law_following_shows_the_snapshot(
    client: ClientModel,
    snapshot: SessionModel,
    created: Seq<CreatedWorkspace>,
    k: int,
)
    requires
        shows_each_once(client),
        0 <= k < snapshot.workspaces.len(),
    ensures
        client_side::reconciled(client, snapshot, created) matches Some(next) ==> {
            let workspace = snapshot.workspaces[k];
            &&& next.host == client.host
            &&& next.display_name == client.display_name
            &&& next.snapshot == snapshot
            &&& next.projections.len() == snapshot.workspaces.len()
            &&& shown_at(next, workspace, k)
            &&& next.projections[k].layout_revision == workspace.layout_revision
            &&& !roots_differ(next.projections[k].roots, workspace.roots)
            &&& forall|i: int| #[trigger]
                shown_at(client, workspace, i) ==> next.projections[k].project
                    == client.projections[i].project && next.projections[k].workspace
                    == client.projections[i].workspace
            &&& !is_shown(client, workspace) ==> client.projects.contains(
                (workspace.project, next.projections[k].project),
            ) && exists|c: int|
                0 <= c < created.len() && (#[trigger] created[c]).workspace_id == workspace.id
                    && created[c].handle == next.projections[k].workspace
        },
{
    let workspace = snapshot.workspaces[k];
    if client_side::reconciled(client, snapshot, created) is Some {
        let next = client_side::reconciled(client, snapshot, created)->0;
        crate::reconcile::lemma_desired_shape(client, snapshot.workspaces, created);
        assert(client_side::desired_projection(client, snapshot.workspaces[k], created) == Some(
            next.projections[k],
        ));
        lemma_kept(client, workspace);
        lemma_object(client.projects, workspace.project);
        lemma_created(created, workspace.id);
        let roots = next.projections[k].roots;
        if is_shown(client, workspace) {
            let i = choose|i: int| #[trigger] shown_at(client, workspace, i);
            assert(next.projections[k].identity == client.projections[i].identity);
            if !client_side::same_roots(client.projections[i].roots, workspace.roots) {
                assert(roots == workspace.roots);
            }
        }
        assert forall|r: int| 0 <= r < roots.len() && roots == workspace.roots implies
            crate::path::same_path((#[trigger] roots[r]).requested, workspace.roots[r].requested)
            && crate::path::same_path(roots[r].canonical, workspace.roots[r].canonical) by {
            crate::path::law_same_path_is_an_equivalence(
                roots[r].requested,
                roots[r].requested,
                roots[r].requested,
            );
            crate::path::law_same_path_is_an_equivalence(
                roots[r].canonical,
                roots[r].canonical,
                roots[r].canonical,
            );
        }
    }
}

/// Following a snapshot succeeds where each workspace is shown already, or the client has an object
/// for its project and one was made for the workspace; and only there.
pub proof fn law_following_takes_all_objects(
    client: ClientModel,
    snapshot: SessionModel,
    created: Seq<CreatedWorkspace>,
)
    requires
        shows_each_once(client),
    ensures
        client_side::reconciled(client, snapshot, created) is Some <==> forall|k: int|
            0 <= k < snapshot.workspaces.len() ==> is_shown(
                client,
                #[trigger] snapshot.workspaces[k],
            ) || (has_object(client, snapshot.workspaces[k].project) && exists|c: int|
                0 <= c < created.len() && (#[trigger] created[c]).workspace_id
                    == snapshot.workspaces[k].id),
{
    lemma_all_objects(client, snapshot.workspaces, created);
}

proof fn lemma_all_objects(
    client: ClientModel,
    workspaces: Seq<WorkspaceModel>,
    created: Seq<CreatedWorkspace>,
)
    requires
        shows_each_once(client),
    ensures
        client_side::desired_projections(client, workspaces, created) is Some <==> forall|k: int|
            0 <= k < workspaces.len() ==> is_shown(client, #[trigger] workspaces[k]) || (has_object(
                client,
                workspaces[k].project,
            ) && exists|c: int|
                0 <= c < created.len() && (#[trigger] created[c]).workspace_id == workspaces[k].id),
    decreases workspaces.len(),
{
    if workspaces.len() > 0 {
        let earlier = workspaces.drop_last();
        let last = workspaces.last();
        lemma_all_objects(client, earlier, created);
        lemma_kept(client, last);
        lemma_object(client.projects, last.project);
        lemma_created(created, last.id);
        assert(client_side::desired_projection(client, last, created) is Some <==> is_shown(
            client,
            last,
        ) || (has_object(client, last.project) && exists|c: int|
            0 <= c < created.len() && (#[trigger] created[c]).workspace_id == last.id));
        assert(forall|k: int| 0 <= k < earlier.len() ==> (#[trigger] workspaces[k]) == earlier[k]);
        assert(forall|k: int| 0 <= k < earlier.len() ==> workspaces[k] == (#[trigger] earlier[k]));
        assert(workspaces[workspaces.len() - 1] == last);
    }
}

/// A client that follows a snapshot keeps its objects for the projects of the snapshot's workspaces,
/// and those only. Just the others are dropped.
pub proof fn law_following_drops_what_is_gone(
    client: ClientModel,
    snapshot: SessionModel,
    created: Seq<CreatedWorkspace>,
    entry: (u64, ProjectHandle),
)
    ensures
        ({
            let used = exists|k: int|
                0 <= k < snapshot.workspaces.len() && (#[trigger] snapshot.workspaces[k]).project
                    == entry.0;
            &&& client_side::reconciled(client, snapshot, created) matches Some(next) ==> (
            next.projects.contains(entry) <==> client.projects.contains(entry) && used)
            &&& client_side::projects_where(client.projects, snapshot.workspaces, false).contains(entry)
                <==> client.projects.contains(entry) && !used
        }),
{
    lemma_projects_where(client.projects, snapshot.workspaces, true, entry);
    lemma_projects_where(client.projects, snapshot.workspaces, false, entry);
}

/// The projects that a client drops when it follows a snapshot are those that it had an object of
/// and that no workspace of the snapshot uses.
pub proof fn law_dropped_projects_are_told(
    client: &mut HostSessionClient,
    reconciliation: Reconciliation,
    created: Vec<CreatedWorkspace>,
    outcome: Reconciled,
    number: u64,
)
    requires
        call_ensures(
            HostSessionClient::finish_reconciliation,
            (client, reconciliation, &created),
            Ok::<Reconciled, ClientError>(outcome),
        ),
    ensures
        (exists|i: int|
            0 <= i < outcome.removed_projects@.len() && (
            #[trigger] outcome.removed_projects@[i]).number() == number) <==> has_object(
            old(client)@,
            number,
        ) && !exists|k: int|
            0 <= k < reconciliation.snapshot@.workspaces.len() && (
            #[trigger] reconciliation.snapshot@.workspaces[k]).project == number,
{
    let workspaces = reconciliation.snapshot@.workspaces;
    let all = old(client)@.projects;
    let gone = client_side::projects_where(all, workspaces, false);
    let told = crate::reconcile::project_numbers(outcome.removed_projects@);
    assert(told.len() == gone.len());
    if exists|i: int|
        0 <= i < outcome.removed_projects@.len() && (
        #[trigger] outcome.removed_projects@[i]).number() == number {
        let i = choose|i: int|
            0 <= i < outcome.removed_projects@.len() && (
            #[trigger] outcome.removed_projects@[i]).number() == number;
        assert(told[i] == number);
        lemma_projects_where(all, workspaces, false, gone[i]);
        assert(gone.contains(gone[i]));
        let j = choose|j: int| 0 <= j < all.len() && all[j] == gone[i];
        assert(all[j].0 == number);
    }
    if has_object(old(client)@, number) && !exists|k: int|
        0 <= k < workspaces.len() && (#[trigger] workspaces[k]).project == number {
        let j = choose|j: int| 0 <= j < all.len() && (#[trigger] all[j]).0 == number;
        lemma_projects_where(all, workspaces, false, all[j]);
        assert(all.contains(all[j]));
        let i = choose|i: int| 0 <= i < gone.len() && gone[i] == all[j];
        assert(told[i] == number);
        assert(outcome.removed_projects@[i].number() == number);
    }
}

/// What an intent amounts to is about the workspace that it names. Adding roots keeps those that
/// are there and puts the new ones behind, each to be resolved from the path as it is; removing one
/// keeps the others. A layout replaces the revision that the workspace has.
pub proof fn law_intents_keep_what_they_do_not_name(session: SessionModel, intent: IntentModel, k: int)
    requires
        are_distinct(session.workspaces),
        0 <= k < session.workspaces.len(),
    ensures
        ({
            let workspace = session.workspaces[k];
            match intent {
                IntentModel::Create { roots } => client_side::intended(session, intent) == Ok::<
                    MutationModel,
                    ClientFault,
                >(MutationModel::Create { after: Some(session.active), roots }),
                IntentModel::Activate { workspace: named } => client_side::intended(session, intent)
                    == Ok::<MutationModel, ClientFault>(MutationModel::Activate { workspace: named }),
                IntentModel::Close { workspace: named } => client_side::intended(session, intent)
                    == Ok::<MutationModel, ClientFault>(MutationModel::Close { workspace: named }),
                IntentModel::SetRoots { workspace: named, roots } => client_side::intended(
                    session,
                    intent,
                ) == Ok::<MutationModel, ClientFault>(
                    MutationModel::SetRoots { workspace: named, roots },
                ),
                IntentModel::AddRoots { workspace: named, paths } => named == workspace.id ==> (
                client_side::intended(session, intent) matches Ok(
                    MutationModel::SetRoots { workspace: changed, roots },
                ) && changed == named && workspace.roots.is_prefix_of(roots) && roots.len()
                    == workspace.roots.len() + paths.len() && forall|r: int|
                    0 <= r < paths.len() ==> #[trigger] roots[workspace.roots.len() + r].requested
                        == paths[r] && roots[workspace.roots.len() + r].canonical == paths[r]),
                IntentModel::RemoveRoot { workspace: named, path } => named == workspace.id ==> (
                client_side::intended(session, intent) matches Ok(
                    MutationModel::SetRoots { workspace: changed, roots },
                ) && changed == named && forall|root: RootModel| #[trigger]
                    roots.contains(root) <==> workspace.roots.contains(root)
                        && !crate::path::same_path(root.canonical, path)
                        && !crate::path::same_path(root.requested, path)),
                IntentModel::ReplaceLayout { workspace: named, layout } => named == workspace.id
                    ==> client_side::intended(session, intent) == Ok::<MutationModel, ClientFault>(
                    MutationModel::ReplaceLayout {
                        workspace: named,
                        expected_layout_revision: workspace.layout_revision,
                        layout,
                    },
                ),
            }
        }),
{
    let workspace = session.workspaces[k];
    crate::session::lemma_position(session.workspaces, workspace.id);
    let at = crate::session::position(session.workspaces, workspace.id);
    assert(session.workspaces[k].id == workspace.id);
    lemma_same_place(session.workspaces, k, at->0);
    match intent {
        IntentModel::AddRoots { workspace: named, paths } => {
            let roots = client_side::with_paths(workspace.roots, paths);
            assert(workspace.roots =~= roots.subrange(0, workspace.roots.len() as int));
        },
        IntentModel::RemoveRoot { workspace: named, path } => {
            assert forall|root: RootModel| #[trigger]
                client_side::without_path(workspace.roots, path).contains(root)
                    <==> workspace.roots.contains(root) && !crate::path::same_path(
                    root.canonical,
                    path,
                ) && !crate::path::same_path(root.requested, path) by {
                lemma_left_roots(workspace.roots, path, root);
            }
        },
        _ => {},
    }
}

proof fn lemma_left_roots(roots: Seq<RootModel>, path: crate::path::PathModel, root: RootModel)
    ensures
        client_side::without_path(roots, path).contains(root) <==> roots.contains(root)
            && !crate::path::same_path(root.canonical, path) && !crate::path::same_path(
            root.requested,
            path,
        ),
    decreases roots.len(),
{
    if roots.len() > 0 {
        let earlier = roots.drop_last();
        let before = client_side::without_path(earlier, path);
        let left = client_side::without_path(roots, path);
        lemma_left_roots(earlier, path, root);
        if roots.contains(root) && root != roots.last() {
            let i = choose|i: int| 0 <= i < roots.len() && roots[i] == root;
            assert(earlier[i] == root);
        }
        if earlier.contains(root) {
            let i = choose|i: int| 0 <= i < earlier.len() && earlier[i] == root;
            assert(roots[i] == root);
        }
        if before.contains(root) {
            let i = choose|i: int| 0 <= i < before.len() && before[i] == root;
            assert(left[i] == root);
        }
        if left.contains(root) && !before.contains(root) {
            let i = choose|i: int| 0 <= i < left.len() && left[i] == root;
            if i < before.len() {
                assert(before[i] == root);
            }
        }
        assert(roots[roots.len() - 1] == roots.last());
        if root == roots.last() && !client_side::known_by(root, path) {
            assert(left[left.len() - 1] == root);
        }
    }
}

/// Removing a root leaves the others in their order, and each as often as it was there: a list
/// without roots known by the path stays as it is, and removing goes part by part.
pub proof fn law_removing_a_root_goes_part_by_part(
    left: Seq<RootModel>,
    right: Seq<RootModel>,
    path: crate::path::PathModel,
)
    ensures
        client_side::without_path(left + right, path) == client_side::without_path(left, path)
            + client_side::without_path(right, path),
        (forall|r: int|
            0 <= r < left.len() ==> !crate::path::same_path((#[trigger] left[r]).canonical, path)
                && !crate::path::same_path(left[r].requested, path)) ==> client_side::without_path(
            left,
            path,
        ) == left,
    decreases right.len(), left.len(),
{
    if right.len() > 0 {
        law_removing_a_root_goes_part_by_part(left, right.drop_last(), path);
        assert((left + right).drop_last() =~= left + right.drop_last());
        assert((left + right).last() == right.last());
    } else {
        assert(left + right =~= left);
        if left.len() > 0 {
            law_removing_a_root_goes_part_by_part(left.drop_last(), right, path);
            if forall|r: int|
                0 <= r < left.len() ==> !crate::path::same_path((#[trigger] left[r]).canonical, path)
                    && !crate::path::same_path(left[r].requested, path) {
                assert forall|r: int| 0 <= r < left.len() - 1 implies !crate::path::same_path(
                    (#[trigger] left.drop_last()[r]).canonical,
                    path,
                ) && !crate::path::same_path(left.drop_last()[r].requested, path) by {
                    assert(left[r] == left.drop_last()[r]);
                }
                assert(left[left.len() - 1] == left.last());
                assert(left.drop_last().push(left.last()) =~= left);
            }
        }
    }
}

/// An intent about a workspace that the session does not have is refused where its state would be
/// needed.
pub proof fn law_intents_need_their_workspace(
    session: SessionModel,
    intent: IntentModel,
    workspace: WorkspaceId,
)
    requires
        forall|k: int|
            0 <= k < session.workspaces.len() ==> (#[trigger] session.workspaces[k]).id != workspace,
    ensures
        intent matches IntentModel::AddRoots { workspace: named, .. } && named == workspace ==>
            client_side::intended(session, intent) == Err::<MutationModel, ClientFault>(
            ClientFault::AbsentForAddedRoot,
        ),
        intent matches IntentModel::RemoveRoot { workspace: named, .. } && named == workspace ==>
            client_side::intended(session, intent) == Err::<MutationModel, ClientFault>(
            ClientFault::AbsentForRemovedRoot,
        ),
        intent matches IntentModel::ReplaceLayout { workspace: named, .. } && named == workspace ==>
            client_side::intended(session, intent) == Err::<MutationModel, ClientFault>(
            ClientFault::AbsentForLayout,
        ),
{
    crate::session::lemma_position(session.workspaces, workspace);
}

/// The host comes to the front for a workspace that is made or activated, and for nothing else. Only
/// a layout that the client replaces is its own.
pub proof fn law_intents_and_the_shell(intent: IntentModel)
    ensures
        client_side::fronts_host(intent) <==> match intent {
            IntentModel::Create { .. } => true,
            IntentModel::Activate { .. } => true,
            _ => false,
        },
        client_side::own_layout(intent) == match intent {
            IntentModel::ReplaceLayout { workspace, .. } => Some(workspace),
            _ => None,
        },
{
}

/// A workspace is taken for what it is exactly where it is one of the client's host, and the session
/// has it with the same project.
pub proof fn law_targets_are_checked(client: ClientModel, target: IdentityModel)
    requires
        are_distinct(client.snapshot.workspaces),
    ensures
        client_side::checked_target(client, target) is None <==> client.host == target.host && exists|
            k: int,
        |
            0 <= k < client.snapshot.workspaces.len() && (
            #[trigger] client.snapshot.workspaces[k]).id == target.workspace
                && client.snapshot.workspaces[k].project == target.project,
        client.host != target.host ==> client_side::checked_target(client, target) == Some(
            ClientFault::OtherHost,
        ),
        client.host == target.host && (forall|k: int|
            0 <= k < client.snapshot.workspaces.len() ==> (
            #[trigger] client.snapshot.workspaces[k]).id != target.workspace) ==>
            client_side::checked_target(client, target) == Some(ClientFault::AbsentTarget),
{
    let workspaces = client.snapshot.workspaces;
    crate::session::lemma_position(workspaces, target.workspace);
    let at = crate::session::position(workspaces, target.workspace);
    if exists|k: int|
        0 <= k < workspaces.len() && (#[trigger] workspaces[k]).id == target.workspace
            && workspaces[k].project == target.project {
        let k = choose|k: int|
            0 <= k < workspaces.len() && (#[trigger] workspaces[k]).id == target.workspace
                && workspaces[k].project == target.project;
        lemma_same_place(workspaces, k, at->0);
    }
}

/// The first workspace is attached once: to a client that shows nothing and has no object for its
/// project, and only if the workspace is shown as what it is. The client then shows it, with its
/// roots and no layout yet, and has the object for its project.
pub proof fn law_first_workspace_is_attached_once(
    client: ClientModel,
    workspace: WorkspaceModel,
    project: ProjectHandle,
    handle: WorkspaceHandle,
    shown: Option<IdentityModel>,
)
    ensures
        client_side::attached(client, workspace, project, handle, shown) is Ok <==>
            client.projections.len() == 0 && !has_object(client, workspace.project) && (
        shown matches Some(identity) && identity.host == client.host && identity.workspace
            == workspace.id && identity.project == workspace.project),
        client_side::attached(client, workspace, project, handle, shown) matches Ok(next) ==> {
            &&& next.host == client.host
            &&& next.display_name == client.display_name
            &&& next.snapshot == client.snapshot
            &&& next.projects == client.projects.push((workspace.project, project))
            &&& next.projections.len() == 1
            &&& shown_at(next, workspace, 0)
            &&& next.projections[0].project == project
            &&& next.projections[0].workspace == handle
            &&& next.projections[0].roots == workspace.roots
            &&& next.projections[0].layout_revision == 0
        },
        client_side::attached(client, workspace, project, handle, shown) matches Ok(next) ==>
            client_side::attached(next, workspace, project, handle, shown) is Err,
{
    lemma_object(client.projects, workspace.project);
    let identity = client_side::identity_on(client.host, workspace);
    if shown is Some && (shown->0).host == client.host && (shown->0).workspace == workspace.id && (
    shown->0).project == workspace.project {
        assert(shown->0 =~= identity);
    }
}

/// A mutation is done once it is applied, is made once more if the first attempt was stale, and is
/// given up after that.
pub proof fn law_stale_mutations_are_made_once_more(attempt: nat)
    ensures
        crate::reconcile::outcome_after(attempt, true) == crate::reconcile::AttemptOutcome::Done,
        crate::reconcile::outcome_after(0, false) == crate::reconcile::AttemptOutcome::Retry,
        attempt > 0 ==> crate::reconcile::outcome_after(attempt, false)
            == crate::reconcile::AttemptOutcome::GiveUp,
{
}

} // verus!
