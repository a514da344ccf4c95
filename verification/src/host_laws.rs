//! What holds of every host that is brought in line with its session.

use crate::session::{
    FreshIds, MutationModel, RequestModel, RootModel, SessionModel, WorkspaceModel,
};
use crate::superzed_host as host;
use crate::superzed_host::{HostActionModel, OpenProjects};
use vstd::prelude::*;

verus! {

/// Whether a step brings the project of a workspace to the resolved paths of its roots, all of them
/// and in their order.
pub open spec fn brings_to_roots(step: HostActionModel, workspace: WorkspaceModel) -> bool {
    step matches HostActionModel::ReconcileRoots { project, paths } && project == workspace.project
        && paths.len() == workspace.roots.len() && forall|r: int|
        0 <= r < workspace.roots.len() ==> #[trigger] paths[r] == workspace.roots[r].canonical
}

/// Whether a step opens a project.
pub open spec fn opens(step: HostActionModel, project: u64) -> bool {
    step matches HostActionModel::Create { project: opened, .. } && opened == project
}

/// Whether a project is that of some workspace.
pub open spec fn is_used(workspaces: Seq<WorkspaceModel>, project: u64) -> bool {
    exists|k: int| 0 <= k < workspaces.len() && (#[trigger] workspaces[k]).project == project
}

proof fn lemma_used_push(workspaces: Seq<WorkspaceModel>, project: u64)
    requires
        workspaces.len() > 0,
    ensures
        is_used(workspaces, project) <==> is_used(workspaces.drop_last(), project)
            || workspaces.last().project == project,
{
    let earlier = workspaces.drop_last();
    if is_used(earlier, project) {
        let k = choose|k: int| 0 <= k < earlier.len() && (#[trigger] earlier[k]).project == project;
        assert(workspaces[k].project == project);
    }
    if workspaces.last().project == project {
        assert(workspaces[workspaces.len() - 1].project == project);
    }
    if is_used(workspaces, project) && workspaces.last().project != project {
        let k = choose|k: int|
            0 <= k < workspaces.len() && (#[trigger] workspaces[k]).project == project;
        assert(earlier[k].project == project);
    }
}

/// Seeing to another workspace leaves the earlier steps in place.
proof fn lemma_earlier_steps_stay(state: OpenProjects, workspaces: Seq<WorkspaceModel>)
    ensures
        state.actions.len() <= host::opened_for_all(state, workspaces).actions.len(),
        forall|i: int|
            0 <= i < state.actions.len() ==> #[trigger] host::opened_for_all(
                state,
                workspaces,
            ).actions[i] == state.actions[i],
    decreases workspaces.len(),
{
    if workspaces.len() > 0 {
        lemma_earlier_steps_stay(state, workspaces.drop_last());
    }
}

proof fn lemma_open_projects(state: OpenProjects, workspaces: Seq<WorkspaceModel>, project: u64)
    ensures
        host::opened_for_all(state, workspaces).projects.contains(project)
            <==> state.projects.contains(project) || is_used(workspaces, project),
    decreases workspaces.len(),
{
    if workspaces.len() > 0 {
        let before = host::opened_for_all(state, workspaces.drop_last()).projects;
        let after = host::opened_for_all(state, workspaces).projects;
        let last = workspaces.last().project;
        lemma_open_projects(state, workspaces.drop_last(), project);
        lemma_used_push(workspaces, project);
        if before.contains(project) {
            let i = choose|i: int| 0 <= i < before.len() && before[i] == project;
            assert(after[i] == project);
        }
        if !before.contains(last) {
            assert(after[before.len() as int] == last);
        }
        if after.contains(project) && project != last {
            let i = choose|i: int| 0 <= i < after.len() && after[i] == project;
            assert(before[i] == project);
        }
    }
}

proof fn lemma_open_projects_were_opened(
    state: OpenProjects,
    workspaces: Seq<WorkspaceModel>,
    project: u64,
)
    requires
        host::opened_for_all(state, workspaces).projects.contains(project),
        !state.projects.contains(project),
    ensures
        exists|c: int|
            state.actions.len() <= c < host::opened_for_all(state, workspaces).actions.len()
                && opens(#[trigger] host::opened_for_all(state, workspaces).actions[c], project),
    decreases workspaces.len(),
{
    if workspaces.len() > 0 {
        let before = host::opened_for_all(state, workspaces.drop_last());
        let after = host::opened_for_all(state, workspaces);
        lemma_earlier_steps_stay(state, workspaces.drop_last());
        if before.projects.contains(project) {
            lemma_open_projects_were_opened(state, workspaces.drop_last(), project);
            let c = choose|c: int|
                state.actions.len() <= c < before.actions.len() && opens(
                    #[trigger] before.actions[c],
                    project,
                );
            assert(opens(after.actions[c], project));
        } else {
            let i = choose|i: int| 0 <= i < after.projects.len() && after.projects[i] == project;
            if i < before.projects.len() {
                assert(before.projects[i] == project);
            }
            assert(opens(after.actions[before.actions.len() as int], project));
        }
    }
}

proof fn lemma_roots_are_given(state: OpenProjects, workspaces: Seq<WorkspaceModel>, k: int)
    requires
        0 <= k < workspaces.len(),
    ensures
        ({
            let steps = host::opened_for_all(state, workspaces).actions;
            exists|j: int|
                state.actions.len() <= j < steps.len() && brings_to_roots(
                    #[trigger] steps[j],
                    workspaces[k],
                ) && (state.projects.contains(workspaces[k].project) || exists|c: int|
                    state.actions.len() <= c < j && opens(
                        #[trigger] steps[c],
                        workspaces[k].project,
                    ))
        }),
    decreases workspaces.len(),
{
    let earlier = workspaces.drop_last();
    let before = host::opened_for_all(state, earlier);
    let steps = host::opened_for_all(state, workspaces).actions;
    let base = state.actions.len() as int;
    let project = workspaces[k].project;
    lemma_earlier_steps_stay(state, earlier);
    if k < earlier.len() {
        lemma_roots_are_given(state, earlier, k);
        let j = choose|j: int|
            base <= j < before.actions.len() && brings_to_roots(
                #[trigger] before.actions[j],
                earlier[k],
            ) && (state.projects.contains(project) || exists|c: int|
                base <= c < j && opens(#[trigger] before.actions[c], project));
        assert(brings_to_roots(steps[j], workspaces[k]));
        if !state.projects.contains(project) {
            let c = choose|c: int| base <= c < j && opens(#[trigger] before.actions[c], project);
            assert(opens(steps[c], project));
        }
    } else {
        assert(brings_to_roots(steps[steps.len() - 1], workspaces[k]));
        if !state.projects.contains(project) {
            if before.projects.contains(project) {
                lemma_open_projects_were_opened(state, earlier, project);
                let c = choose|c: int|
                    base <= c < before.actions.len() && opens(#[trigger] before.actions[c], project);
                assert(opens(steps[c], project));
            } else {
                assert(opens(steps[before.actions.len() as int], project));
            }
        }
    }
}

proof fn lemma_steps_have_reasons(state: OpenProjects, workspaces: Seq<WorkspaceModel>, j: int)
    requires
        state.actions.len() <= j < host::opened_for_all(state, workspaces).actions.len(),
    ensures
        match host::opened_for_all(state, workspaces).actions[j] {
            HostActionModel::Close { .. } => false,
            HostActionModel::Create { project, .. } => !state.projects.contains(project) && is_used(
                workspaces,
                project,
            ),
            HostActionModel::ReconcileRoots { .. } => exists|k: int|
                0 <= k < workspaces.len() && brings_to_roots(
                    host::opened_for_all(state, workspaces).actions[j],
                    #[trigger] workspaces[k],
                ),
        },
    decreases workspaces.len(),
{
    if workspaces.len() > 0 {
        let earlier = workspaces.drop_last();
        let last = workspaces.last();
        let before = host::opened_for_all(state, earlier);
        let step = host::opened_for_all(state, workspaces).actions[j];
        if j < before.actions.len() {
            lemma_steps_have_reasons(state, earlier, j);
            match step {
                HostActionModel::ReconcileRoots { .. } => {
                    let k = choose|k: int|
                        0 <= k < earlier.len() && brings_to_roots(step, #[trigger] earlier[k]);
                    assert(brings_to_roots(step, workspaces[k]));
                },
                HostActionModel::Create { project, .. } => {
                    lemma_used_push(workspaces, project);
                },
                _ => {},
            }
        } else if step is Create {
            lemma_open_projects(state, earlier, last.project);
            lemma_used_push(workspaces, last.project);
        } else {
            assert(brings_to_roots(step, workspaces[workspaces.len() - 1]));
        }
    }
}

proof fn lemma_opened_once(
    state: OpenProjects,
    workspaces: Seq<WorkspaceModel>,
    c: int,
    j: int,
    project: u64,
)
    requires
        state.actions.len() <= c < j < host::opened_for_all(state, workspaces).actions.len(),
        opens(host::opened_for_all(state, workspaces).actions[c], project),
    ensures
        !opens(host::opened_for_all(state, workspaces).actions[j], project),
    decreases workspaces.len(),
{
    if workspaces.len() > 0 {
        let earlier = workspaces.drop_last();
        let before = host::opened_for_all(state, earlier);
        if j < before.actions.len() {
            lemma_opened_once(state, earlier, c, j, project);
        } else if c < before.actions.len() {
            lemma_steps_have_reasons(state, earlier, c);
            lemma_open_projects(state, earlier, project);
        }
    }
}

proof fn lemma_registered(state: OpenProjects, workspaces: Seq<WorkspaceModel>)
    ensures
        host::opened_for_all(state, workspaces).registered <==> state.registered || exists|c: int|
            state.actions.len() <= c < host::opened_for_all(state, workspaces).actions.len() && (
            #[trigger] host::opened_for_all(state, workspaces).actions[c]) is Create,
    decreases workspaces.len(),
{
    if workspaces.len() > 0 {
        let earlier = workspaces.drop_last();
        let before = host::opened_for_all(state, earlier);
        let after = host::opened_for_all(state, workspaces);
        let base = state.actions.len() as int;
        lemma_registered(state, earlier);
        lemma_earlier_steps_stay(state, earlier);
        if exists|c: int| base <= c < before.actions.len() && (#[trigger] before.actions[c]) is Create {
            let c = choose|c: int|
                base <= c < before.actions.len() && (#[trigger] before.actions[c]) is Create;
            assert(after.actions[c] is Create);
        }
        if !before.projects.contains(workspaces.last().project) {
            assert(after.actions[before.actions.len() as int] is Create);
        } else if exists|c: int|
            base <= c < after.actions.len() && (#[trigger] after.actions[c]) is Create {
            let c = choose|c: int|
                base <= c < after.actions.len() && (#[trigger] after.actions[c]) is Create;
            assert(before.actions[c] is Create);
        }
    }
}

proof fn lemma_registered_with_the_first(
    state: OpenProjects,
    workspaces: Seq<WorkspaceModel>,
    j: int,
)
    requires
        state.actions.len() <= j < host::opened_for_all(state, workspaces).actions.len(),
    ensures
        host::opened_for_all(state, workspaces).actions[j] matches HostActionModel::Create {
            register_protocol_handlers,
            ..
        } ==> (register_protocol_handlers <==> !state.registered && forall|c: int|
            state.actions.len() <= c < j ==> !((#[trigger] host::opened_for_all(
                state,
                workspaces,
            ).actions[c]) is Create)),
    decreases workspaces.len(),
{
    if workspaces.len() > 0 {
        let earlier = workspaces.drop_last();
        let before = host::opened_for_all(state, earlier);
        let after = host::opened_for_all(state, workspaces);
        let base = state.actions.len() as int;
        assert forall|c: int| 0 <= c < before.actions.len() implies #[trigger] after.actions[c]
            == before.actions[c] by {}
        if j < before.actions.len() {
            lemma_registered_with_the_first(state, earlier, j);
            assert(forall|c: int|
                base <= c < j ==> (#[trigger] after.actions[c]) == before.actions[c]);
            assert(forall|c: int|
                base <= c < j ==> (#[trigger] before.actions[c]) == after.actions[c]);
        } else if after.actions[j] is Create {
            lemma_registered(state, earlier);
            assert(forall|c: int|
                base <= c < j ==> (#[trigger] before.actions[c]) == after.actions[c]);
        }
    }
}

proof fn lemma_open_where(projects: Seq<u64>, workspaces: Seq<WorkspaceModel>, present: bool)
    ensures
        forall|p: u64| #[trigger]
            host::open_where(projects, workspaces, present).contains(p) <==> projects.contains(p)
                && is_used(workspaces, p) == present,
    decreases projects.len(),
{
    if projects.len() > 0 {
        let earlier = projects.drop_last();
        lemma_open_where(earlier, workspaces, present);
        let kept = host::open_where(projects, workspaces, present);
        let before = host::open_where(earlier, workspaces, present);
        assert forall|p: u64| #[trigger] kept.contains(p) <==> projects.contains(p) && is_used(
            workspaces,
            p,
        ) == present by {
            if projects.contains(p) && p != projects.last() {
                let i = choose|i: int| 0 <= i < projects.len() && projects[i] == p;
                assert(earlier[i] == p);
            }
            if earlier.contains(p) {
                let i = choose|i: int| 0 <= i < earlier.len() && earlier[i] == p;
                assert(projects[i] == p);
            }
            if before.contains(p) {
                let i = choose|i: int| 0 <= i < before.len() && before[i] == p;
                assert(kept[i] == p);
            }
            if kept.contains(p) && !before.contains(p) {
                let i = choose|i: int| 0 <= i < kept.len() && kept[i] == p;
                if i < before.len() {
                    assert(before[i] == p);
                }
            }
            if p == projects.last() && is_used(workspaces, p) == present {
                assert(kept[kept.len() - 1] == p);
            }
            assert(is_used(workspaces, p) == crate::session::has_project(workspaces, p));
        }
    }
}

/// Each workspace's project is brought to the resolved paths of its roots, whether or not it was
/// open before; where it was not, it is opened first.
pub proof fn law_every_project_is_brought_to_its_roots(
    projects: Seq<u64>,
    registered: bool,
    workspaces: Seq<WorkspaceModel>,
    k: int,
)
    requires
        0 <= k < workspaces.len(),
    ensures
        ({
            let steps = host::projects_reconciled(projects, registered, workspaces).actions;
            exists|j: int|
                0 <= j < steps.len() && brings_to_roots(#[trigger] steps[j], workspaces[k]) && (
                !projects.contains(workspaces[k].project) ==> exists|c: int|
                    0 <= c < j && opens(#[trigger] steps[c], workspaces[k].project))
        }),
{
    let kept = host::open_where(projects, workspaces, true);
    let start = OpenProjects {
        projects: kept,
        registered,
        actions: host::close_actions(host::open_where(projects, workspaces, false)),
    };
    lemma_open_where(projects, workspaces, true);
    lemma_roots_are_given(start, workspaces, k);
    let steps = host::projects_reconciled(projects, registered, workspaces).actions;
    let from = start.actions.len() as int;
    let j = choose|j: int|
        from <= j < steps.len() && brings_to_roots(#[trigger] steps[j], workspaces[k]) && (
        kept.contains(workspaces[k].project) || exists|c: int|
            from <= c < j && opens(#[trigger] steps[c], workspaces[k].project));
    assert(brings_to_roots(steps[j], workspaces[k]));
    if !projects.contains(workspaces[k].project) {
        assert(!kept.contains(workspaces[k].project));
        let c = choose|c: int| from <= c < j && opens(#[trigger] steps[c], workspaces[k].project);
        assert(opens(steps[c], workspaces[k].project));
    }
}

/// Once the host is in line, just the projects of the workspaces are open.
pub proof fn law_projects_of_workspaces_are_open(
    projects: Seq<u64>,
    registered: bool,
    workspaces: Seq<WorkspaceModel>,
    project: u64,
)
    ensures
        host::projects_reconciled(projects, registered, workspaces).projects.contains(project)
            <==> exists|k: int|
            0 <= k < workspaces.len() && (#[trigger] workspaces[k]).project == project,
{
    lemma_open_where(projects, workspaces, true);
    lemma_open_projects(
        OpenProjects {
            projects: host::open_where(projects, workspaces, true),
            registered,
            actions: host::close_actions(host::open_where(projects, workspaces, false)),
        },
        workspaces,
        project,
    );
}

/// A project that was open is closed where no workspace has it, and just there. No project is
/// closed that was not open, and closing goes before everything else.
pub proof fn law_projects_without_workspace_are_closed(
    projects: Seq<u64>,
    registered: bool,
    workspaces: Seq<WorkspaceModel>,
    project: u64,
)
    ensures
        ({
            let steps = host::projects_reconciled(projects, registered, workspaces).actions;
            &&& steps.contains(HostActionModel::Close { project }) <==> projects.contains(project)
                && forall|k: int|
                0 <= k < workspaces.len() ==> (#[trigger] workspaces[k]).project != project
            &&& forall|i: int, j: int|
                0 <= i < j < steps.len() && (#[trigger] steps[j]) is Close ==> (
                #[trigger] steps[i]) is Close
        }),
{
    let gone = host::open_where(projects, workspaces, false);
    let start = OpenProjects {
        projects: host::open_where(projects, workspaces, true),
        registered,
        actions: host::close_actions(gone),
    };
    lemma_open_where(projects, workspaces, false);
    lemma_earlier_steps_stay(start, workspaces);
    let steps = host::projects_reconciled(projects, registered, workspaces).actions;
    let from = start.actions.len() as int;
    assert forall|i: int| 0 <= i < from implies #[trigger] steps[i] == (HostActionModel::Close {
        project: gone[i],
    }) by {
        assert(steps[i] == start.actions[i]);
    }
    assert forall|j: int| from <= j < steps.len() implies !((#[trigger] steps[j]) is Close) by {
        lemma_steps_have_reasons(start, workspaces, j);
    }
    if gone.contains(project) {
        let i = choose|i: int| 0 <= i < gone.len() && gone[i] == project;
        assert(steps[i] == (HostActionModel::Close { project }));
    }
    if steps.contains(HostActionModel::Close { project }) {
        let i = choose|i: int|
            0 <= i < steps.len() && steps[i] == (HostActionModel::Close { project });
        assert(i < from);
        assert(gone[i] == project);
    }
}

/// Projects are opened once, only where they were not open and some workspace has them. The
/// protocol handlers are registered with the very first one, and never again. Roots are given only
/// as some workspace has them.
pub proof fn law_projects_are_opened_once(
    projects: Seq<u64>,
    registered: bool,
    workspaces: Seq<WorkspaceModel>,
    j: int,
)
    requires
        0 <= j < host::projects_reconciled(projects, registered, workspaces).actions.len(),
    ensures
        ({
            let end = host::projects_reconciled(projects, registered, workspaces);
            let steps = end.actions;
            &&& steps[j] matches HostActionModel::Create { project, register_protocol_handlers } ==> {
                &&& !projects.contains(project)
                &&& is_used(workspaces, project)
                &&& forall|c: int| 0 <= c < j ==> !opens(#[trigger] steps[c], project)
                &&& register_protocol_handlers <==> !registered && forall|c: int|
                    0 <= c < j ==> !((#[trigger] steps[c]) is Create)
                &&& end.registered
            }
            &&& steps[j] is ReconcileRoots ==> exists|k: int|
                0 <= k < workspaces.len() && brings_to_roots(steps[j], #[trigger] workspaces[k])
            &&& registered ==> end.registered
        }),
{
    let gone = host::open_where(projects, workspaces, false);
    let start = OpenProjects {
        projects: host::open_where(projects, workspaces, true),
        registered,
        actions: host::close_actions(gone),
    };
    lemma_open_where(projects, workspaces, true);
    lemma_earlier_steps_stay(start, workspaces);
    lemma_registered(start, workspaces);
    let steps = host::projects_reconciled(projects, registered, workspaces).actions;
    let from = start.actions.len() as int;
    assert forall|i: int| 0 <= i < from implies (#[trigger] steps[i]) is Close by {
        assert(steps[i] == start.actions[i]);
    }
    if from <= j {
        lemma_steps_have_reasons(start, workspaces, j);
        lemma_registered_with_the_first(start, workspaces, j);
        match steps[j] {
            HostActionModel::Create { project, .. } => {
                assert forall|c: int| 0 <= c < j implies !opens(#[trigger] steps[c], project) by {
                    if from <= c && opens(steps[c], project) {
                        lemma_opened_once(start, workspaces, c, j, project);
                    }
                }
            },
            _ => {},
        }
    }
}

/// New roots reach the running project: a request that gives a workspace well-formed roots is
/// accepted, and the host then brings the workspace's project to the resolved paths of just those
/// roots.
pub proof fn law_new_roots_reach_the_project(
    session: SessionModel,
    request: RequestModel,
    index: int,
    roots: Seq<RootModel>,
    fresh: FreshIds,
    projects: Seq<u64>,
    registered: bool,
)
    requires
        crate::session_laws::ready(session, request),
        0 <= index < session.workspaces.len(),
        crate::session::roots_valid(roots),
        request.mutation == (MutationModel::SetRoots {
            workspace: session.workspaces[index].id,
            roots,
        }),
    ensures
        crate::session::applied(session, request, fresh) matches Ok(next) && {
            let steps = host::projects_reconciled(projects, registered, next.workspaces).actions;
            exists|j: int|
                0 <= j < steps.len() && (#[trigger] steps[j] matches HostActionModel::ReconcileRoots {
                    project,
                    paths,
                } && project == session.workspaces[index].project && paths.len() == roots.len()
                    && forall|r: int| 0 <= r < roots.len() ==> #[trigger] paths[r] == roots[r].canonical)
        },
{
    crate::session_laws::law_set_roots_changes_only_its_workspace(
        session,
        request,
        index,
        roots,
        fresh,
    );
    let next = crate::session::applied(session, request, fresh)->Ok_0;
    law_every_project_is_brought_to_its_roots(projects, registered, next.workspaces, index);
    let steps = host::projects_reconciled(projects, registered, next.workspaces).actions;
    let j = choose|j: int|
        0 <= j < steps.len() && brings_to_roots(#[trigger] steps[j], next.workspaces[index]) && (
        !projects.contains(next.workspaces[index].project) ==> exists|c: int|
            0 <= c < j && opens(#[trigger] steps[c], next.workspaces[index].project));
    assert(brings_to_roots(steps[j], next.workspaces[index]));
}

} // verus!
