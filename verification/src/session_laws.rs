//! What holds of every session and every mutation.

use crate::error::{SessionFault, Violation};
use crate::ids::WorkspaceId;
use crate::session as host;
use crate::session::{FreshIds, MutationModel, RequestModel, RootModel, SessionModel, WorkspaceModel};
use vstd::prelude::*;

verus! {

/// A session stays well formed: at least one workspace, the active one among them, and distinct
/// identities and projects.
pub proof fn law_accepted_session_is_valid(
    session: SessionModel,
    request: RequestModel,
    fresh: FreshIds,
)
    ensures
        host::applied(session, request, fresh) matches Ok(next) ==> host::session_valid(next)
            && next.workspaces.len() > 0,
{
    if let Ok(next) = host::requested(session, request, fresh) {
        host::law_session_violation_iff_not_valid(next);
    }
}

/// Every accepted mutation moves the revision on by exactly one.
pub proof fn law_accepted_mutation_moves_revision_by_one(
    session: SessionModel,
    request: RequestModel,
    fresh: FreshIds,
)
    ensures
        host::applied(session, request, fresh) matches Ok(next) ==> next.revision == session.revision + 1,
{
}

/// A request for another revision is refused as stale, whatever it asks for.
pub proof fn law_stale_request_is_refused(
    session: SessionModel,
    request: RequestModel,
    fresh: FreshIds,
)
    requires
        request.expected_revision != session.revision,
    ensures
        host::applied(session, request, fresh) == Err::<SessionModel, SessionFault>(
            SessionFault::StaleRevision {
                expected: request.expected_revision,
                current: session.revision,
            },
        ),
{
}

/// Of two requests made for the same revision, the second is refused once the first is accepted.
pub proof fn law_concurrent_requests_conflict(
    session: SessionModel,
    first: RequestModel,
    second: RequestModel,
    fresh: FreshIds,
    later: FreshIds,
)
    requires
        first.expected_revision == second.expected_revision,
    ensures
        host::applied(session, first, fresh) matches Ok(next) ==> host::applied(next, second, later) == Err::<
            SessionModel,
            SessionFault,
        >(
            SessionFault::StaleRevision {
                expected: second.expected_revision,
                current: next.revision,
            },
        ),
{
}

/// Whether a workspace with this identity and project is in the list.
pub open spec fn keeps(workspaces: Seq<WorkspaceModel>, workspace: WorkspaceModel) -> bool {
    exists|k: int|
        0 <= k < workspaces.len() && (#[trigger] workspaces[k]).id == workspace.id
            && workspaces[k].project == workspace.project
}

/// A mutation keeps each workspace's project; only a new workspace gets one, and that is the next
/// project, which no workspace had before.
pub proof fn law_only_new_workspaces_take_projects(
    session: SessionModel,
    request: RequestModel,
    fresh: FreshIds,
)
    ensures
        host::applied(session, request, fresh) matches Ok(next) ==> {
            &&& next.next_project_id >= session.next_project_id
            &&& forall|i: int|
                0 <= i < next.workspaces.len() ==> keeps(
                    session.workspaces,
                    #[trigger] next.workspaces[i],
                ) || next.workspaces[i].project == session.next_project_id
                    < next.next_project_id
        },
{
    if let Ok(next) = host::applied(session, request, fresh) {
        let before = session.workspaces;
        assert forall|i: int| 0 <= i < next.workspaces.len() implies keeps(
            before,
            #[trigger] next.workspaces[i],
        ) || next.workspaces[i].project == session.next_project_id < next.next_project_id by {
            match request.mutation {
                MutationModel::Create { after, roots } => {
                    let index = match after {
                        None => before.len() as int,
                        Some(after) => host::position(before, after)->0 + 1,
                    };
                    if after is Some {
                        host::lemma_position(before, after->0);
                    }
                    if i < index {
                        assert(next.workspaces[i] == before[i]);
                    } else if i > index {
                        assert(next.workspaces[i] == before[i - 1]);
                    }
                },
                MutationModel::Close { workspace } => {
                    host::lemma_position(before, workspace);
                    let index = host::position(before, workspace)->0;
                    if before.len() > 1 {
                        if i < index {
                            assert(next.workspaces[i] == before[i]);
                        } else {
                            assert(next.workspaces[i] == before[i + 1]);
                        }
                    }
                },
                MutationModel::Activate { workspace } => {
                    assert(next.workspaces[i] == before[i]);
                },
                MutationModel::SetRoots { workspace, roots } => {
                    host::lemma_position(before, workspace);
                    assert(before[i].id == next.workspaces[i].id);
                },
                MutationModel::ReplaceLayout { workspace, .. } => {
                    host::lemma_position(before, workspace);
                    assert(before[i].id == next.workspaces[i].id);
                },
            }
        }
    }
}

/// A history of a session: each state comes from the one before by an accepted request.
pub open spec fn is_history(states: Seq<SessionModel>) -> bool {
    forall|k: int|
        #![trigger states[k]]
        0 < k < states.len() ==> accepted_step(states[k - 1], states[k])
}

/// Whether some request turns one state into another.
pub open spec fn accepted_step(before: SessionModel, after: SessionModel) -> bool {
    exists|request: RequestModel, fresh: FreshIds|
        #[trigger] host::applied(before, request, fresh) == Ok::<SessionModel, SessionFault>(after)
}

/// Project identities are never reused: a project given out by some point in a history belongs
/// later on only to a workspace that already had it then.
pub proof fn law_projects_are_never_reused(states: Seq<SessionModel>, early: int, late: int)
    requires
        is_history(states),
        0 <= early <= late < states.len(),
    ensures
        states[early].next_project_id <= states[late].next_project_id,
        forall|i: int|
            0 <= i < states[late].workspaces.len() && (#[trigger] states[late].workspaces[i]).project
                < states[early].next_project_id ==> keeps(
                states[early].workspaces,
                states[late].workspaces[i],
            ),
    decreases late - early,
{
    if early < late {
        law_projects_are_never_reused(states, early, late - 1);
        let before = states[late - 1];
        let after = states[late];
        assert(accepted_step(before, after));
        let (request, fresh) = choose|request: RequestModel, fresh: FreshIds|
            #[trigger] host::applied(before, request, fresh) == Ok::<SessionModel, SessionFault>(after);
        law_only_new_workspaces_take_projects(before, request, fresh);
        assert forall|i: int|
            0 <= i < after.workspaces.len() && (#[trigger] after.workspaces[i]).project
                < states[early].next_project_id implies keeps(
            states[early].workspaces,
            after.workspaces[i],
        ) by {
            assert(keeps(before.workspaces, after.workspaces[i]));
            let k = choose|k: int|
                0 <= k < before.workspaces.len() && (#[trigger] before.workspaces[k]).id
                    == after.workspaces[i].id && before.workspaces[k].project
                    == after.workspaces[i].project;
            assert(keeps(states[early].workspaces, before.workspaces[k]));
        }
    } else {
        assert forall|i: int|
            0 <= i < states[late].workspaces.len() && (#[trigger] states[late].workspaces[i]).project
                < states[early].next_project_id implies keeps(
            states[early].workspaces,
            states[late].workspaces[i],
        ) by {
            assert(states[early].workspaces[i].id == states[late].workspaces[i].id);
        }
    }
}

/// Whether a request may be counted: the session is well formed, the request is for its revision,
/// and there is a next revision.
pub open spec fn ready(session: SessionModel, request: RequestModel) -> bool {
    host::session_valid(session) && request.expected_revision == session.revision && session.revision
        < u64::MAX
}

/// Activating a workspace of the session succeeds and changes nothing but the active workspace.
pub proof fn law_activate(session: SessionModel, request: RequestModel, index: int, fresh: FreshIds)
    requires
        ready(session, request),
        0 <= index < session.workspaces.len(),
        request.mutation == (MutationModel::Activate { workspace: session.workspaces[index].id }),
    ensures
        host::applied(session, request, fresh) == Ok::<SessionModel, SessionFault>(
            SessionModel {
                revision: (session.revision + 1) as u64,
                active: session.workspaces[index].id,
                ..session
            },
        ),
{
    let next = SessionModel {
        revision: (session.revision + 1) as u64,
        active: session.workspaces[index].id,
        ..session
    };
    host::lemma_position(session.workspaces, session.workspaces[index].id);
    host::law_session_violation_iff_not_valid(next);
}

proof fn lemma_position_is_index(session: SessionModel, index: int)
    requires
        host::session_valid(session),
        0 <= index < session.workspaces.len(),
    ensures
        host::position(session.workspaces, session.workspaces[index].id) == Some(index),
{
    host::lemma_position(session.workspaces, session.workspaces[index].id);
}

/// Giving a workspace well-formed roots succeeds, whatever roots the others have, and changes
/// nothing else.
pub proof fn law_set_roots_changes_only_its_workspace(
    session: SessionModel,
    request: RequestModel,
    index: int,
    roots: Seq<RootModel>,
    fresh: FreshIds,
)
    requires
        ready(session, request),
        0 <= index < session.workspaces.len(),
        host::roots_valid(roots),
        request.mutation == (MutationModel::SetRoots {
            workspace: session.workspaces[index].id,
            roots,
        }),
    ensures
        host::applied(session, request, fresh) == Ok::<SessionModel, SessionFault>(
            SessionModel {
                revision: (session.revision + 1) as u64,
                workspaces: session.workspaces.update(
                    index,
                    WorkspaceModel { roots, ..session.workspaces[index] },
                ),
                ..session
            },
        ),
{
    lemma_position_is_index(session, index);
    host::law_roots_violation_iff_not_valid(roots);
    let next = SessionModel {
        revision: (session.revision + 1) as u64,
        workspaces: session.workspaces.update(
            index,
            WorkspaceModel { roots, ..session.workspaces[index] },
        ),
        ..session
    };
    lemma_update_keeps_valid(session, next, index);
    host::law_session_violation_iff_not_valid(next);
}

/// Root lists are no identities: a workspace can take the very roots of another one, and the two
/// keep apart in identity and in project.
pub proof fn law_identical_roots_stay_separate(
    session: SessionModel,
    request: RequestModel,
    index: int,
    other: int,
    fresh: FreshIds,
)
    requires
        ready(session, request),
        0 <= index < session.workspaces.len(),
        0 <= other < session.workspaces.len(),
        index != other,
        request.mutation == (MutationModel::SetRoots {
            workspace: session.workspaces[index].id,
            roots: session.workspaces[other].roots,
        }),
    ensures
        host::applied(session, request, fresh) matches Ok(next) && {
            &&& next.workspaces.len() == session.workspaces.len()
            &&& next.workspaces[index].roots == next.workspaces[other].roots
            &&& next.workspaces[index].id != next.workspaces[other].id
            &&& next.workspaces[index].project != next.workspaces[other].project
            &&& next.workspaces[other] == session.workspaces[other]
        },
{
    law_set_roots_changes_only_its_workspace(
        session,
        request,
        index,
        session.workspaces[other].roots,
        fresh,
    );
    let first = if index < other {
        index
    } else {
        other
    };
    let second = if index < other {
        other
    } else {
        index
    };
    assert(session.workspaces[first].id != session.workspaces[second].id);
}

/// Replacing one workspace by a well-formed one with the same identity and project keeps a session
/// well formed.
proof fn lemma_update_keeps_valid(session: SessionModel, next: SessionModel, index: int)
    requires
        host::session_valid(session),
        0 <= index < session.workspaces.len(),
        next.next_project_id == session.next_project_id,
        next.active == session.active,
        next.workspaces.len() == session.workspaces.len(),
        forall|i: int|
            0 <= i < session.workspaces.len() && i != index ==> (#[trigger] next.workspaces[i])
                == session.workspaces[i],
        next.workspaces[index].id == session.workspaces[index].id,
        next.workspaces[index].project == session.workspaces[index].project,
        host::roots_valid(next.workspaces[index].roots),
        crate::layout::layout_valid(next.workspaces[index].layout),
    ensures
        host::session_valid(next),
{
    let active = choose|i: int|
        0 <= i < session.workspaces.len() && (#[trigger] session.workspaces[i]).id
            == session.active;
    assert(next.workspaces[active].id == next.active);
    assert forall|i: int, j: int| 0 <= i < j < next.workspaces.len() implies (
    #[trigger] next.workspaces[i]).id != (#[trigger] next.workspaces[j]).id
        && next.workspaces[i].project != next.workspaces[j].project by {
        assert(session.workspaces[i].id != session.workspaces[j].id);
    }
    assert forall|i: int| 0 <= i < next.workspaces.len() implies (#[trigger] next.workspaces[
        i]).project < next.next_project_id && host::roots_valid(next.workspaces[i].roots)
        && crate::layout::layout_valid(next.workspaces[i].layout) by {
        assert(session.workspaces[i].project < session.next_project_id);
    }
}

/// The layout revision after another. The last one stays.
pub open spec fn next_layout_revision(revision: u64) -> u64 {
    if revision == u64::MAX {
        revision
    } else {
        (revision + 1) as u64
    }
}

/// Replacing a workspace's layout at its layout revision succeeds, moves that revision on, and
/// changes nothing else.
pub proof fn law_replace_layout_changes_only_its_workspace(
    session: SessionModel,
    request: RequestModel,
    index: int,
    layout: crate::layout::LayoutModel,
    fresh: FreshIds,
)
    requires
        ready(session, request),
        0 <= index < session.workspaces.len(),
        crate::layout::layout_valid(layout),
        request.mutation == (MutationModel::ReplaceLayout {
            workspace: session.workspaces[index].id,
            expected_layout_revision: session.workspaces[index].layout_revision,
            layout,
        }),
    ensures
        host::applied(session, request, fresh) == Ok::<SessionModel, SessionFault>(
            SessionModel {
                revision: (session.revision + 1) as u64,
                workspaces: session.workspaces.update(
                    index,
                    WorkspaceModel {
                        layout,
                        layout_revision: next_layout_revision(
                            session.workspaces[index].layout_revision,
                        ),
                        ..session.workspaces[index]
                    },
                ),
                ..session
            },
        ),
{
    lemma_position_is_index(session, index);
    crate::layout::law_layout_violation_iff_not_valid(layout);
    let next = SessionModel {
        revision: (session.revision + 1) as u64,
        workspaces: session.workspaces.update(
            index,
            WorkspaceModel {
                layout,
                layout_revision: next_layout_revision(session.workspaces[index].layout_revision),
                ..session.workspaces[index]
            },
        ),
        ..session
    };
    lemma_update_keeps_valid(session, next, index);
    host::law_session_violation_iff_not_valid(next);
}

/// A layout made for another layout revision is refused as stale.
pub proof fn law_stale_layout_is_refused(
    session: SessionModel,
    request: RequestModel,
    index: int,
    expected: u64,
    layout: crate::layout::LayoutModel,
    fresh: FreshIds,
)
    requires
        ready(session, request),
        0 <= index < session.workspaces.len(),
        crate::layout::layout_valid(layout),
        session.workspaces[index].layout_revision != expected,
        request.mutation == (MutationModel::ReplaceLayout {
            workspace: session.workspaces[index].id,
            expected_layout_revision: expected,
            layout,
        }),
    ensures
        host::applied(session, request, fresh) == Err::<SessionModel, SessionFault>(
            SessionFault::StaleLayoutRevision {
                expected,
                current: session.workspaces[index].layout_revision,
            },
        ),
{
    lemma_position_is_index(session, index);
    crate::layout::law_layout_violation_iff_not_valid(layout);
}

/// Whether fresh identities are in fact new to a session that can still give out projects.
pub open spec fn can_create(session: SessionModel, fresh: FreshIds) -> bool {
    host::position(session.workspaces, fresh.workspace) is None && session.next_project_id < u64::MAX
}

/// Creating a workspace succeeds, puts it right after the named workspace, or last if none is
/// named, activates it, and leaves all the others in their order.
pub proof fn law_create_inserts_after(
    session: SessionModel,
    request: RequestModel,
    after: Option<int>,
    roots: Seq<RootModel>,
    fresh: FreshIds,
)
    requires
        ready(session, request),
        can_create(session, fresh),
        host::roots_valid(roots),
        after matches Some(index) ==> 0 <= index < session.workspaces.len(),
        request.mutation == (MutationModel::Create {
            after: match after {
                Some(index) => Some(session.workspaces[index].id),
                None => None,
            },
            roots,
        }),
    ensures
        host::applied(session, request, fresh) matches Ok(next) && {
            let index = match after {
                Some(index) => index + 1,
                None => session.workspaces.len() as int,
            };
            &&& next.workspaces == session.workspaces.insert(
                index,
                WorkspaceModel {
                    roots,
                    ..host::blank_workspace(fresh.workspace, fresh.pane, session.next_project_id)
                },
            )
            &&& next.workspaces.remove(index) == session.workspaces
            &&& next.active == fresh.workspace
            &&& next.next_project_id == session.next_project_id + 1
            &&& next.revision == session.revision + 1
        },
{
    host::law_roots_violation_iff_not_valid(roots);
    let before = session.workspaces;
    let index = match after {
        Some(index) => {
            lemma_position_is_index(session, index);
            index + 1
        },
        None => before.len() as int,
    };
    let workspace = WorkspaceModel {
        roots,
        ..host::blank_workspace(fresh.workspace, fresh.pane, session.next_project_id)
    };
    assert(session.next_project_id > 0) by {
        let active = choose|i: int|
            0 <= i < before.len() && (#[trigger] before[i]).id == session.active;
        assert(before[active].project < session.next_project_id);
    }
    let next = SessionModel {
        revision: (session.revision + 1) as u64,
        next_project_id: (session.next_project_id + 1) as u64,
        active: fresh.workspace,
        workspaces: before.insert(index, workspace),
    };
    host::lemma_position(before, fresh.workspace);
    crate::layout::law_empty_layout_is_valid(fresh.pane);
    assert(host::session_valid(next)) by {
        assert(next.workspaces[index].id == next.active);
        assert forall|i: int| 0 <= i < next.workspaces.len() implies (#[trigger] next.workspaces[
            i]).project < next.next_project_id && host::roots_valid(next.workspaces[i].roots)
            && crate::layout::layout_valid(next.workspaces[i].layout) by {
            if i < index {
                assert(next.workspaces[i] == before[i]);
            } else if i > index {
                assert(next.workspaces[i] == before[i - 1]);
            }
        }
        assert forall|i: int, j: int| 0 <= i < j < next.workspaces.len() implies (
        #[trigger] next.workspaces[i]).id != (#[trigger] next.workspaces[j]).id
            && next.workspaces[i].project != next.workspaces[j].project by {
            let a = if i < index {
                i
            } else {
                i - 1
            };
            let b = if j < index {
                j
            } else {
                j - 1
            };
            if i == index {
                assert(next.workspaces[j] == before[b]);
                assert(before[b].project < session.next_project_id);
            } else if j == index {
                assert(next.workspaces[i] == before[a]);
                assert(before[a].project < session.next_project_id);
            } else {
                assert(next.workspaces[i] == before[a]);
                assert(next.workspaces[j] == before[b]);
            }
        }
    }
    host::law_session_violation_iff_not_valid(next);
    assert(next.workspaces.remove(index) =~= before);
}

/// Closing one of several workspaces succeeds and removes just that one; if it was active, its
/// successor becomes active, or the new last one if it had none.
pub proof fn law_close_removes_only_its_workspace(
    session: SessionModel,
    request: RequestModel,
    index: int,
    fresh: FreshIds,
)
    requires
        ready(session, request),
        0 <= index < session.workspaces.len(),
        session.workspaces.len() > 1,
        request.mutation == (MutationModel::Close { workspace: session.workspaces[index].id }),
    ensures
        host::applied(session, request, fresh) matches Ok(next) && {
            &&& next.workspaces == session.workspaces.remove(index)
            &&& next.next_project_id == session.next_project_id
            &&& next.revision == session.revision + 1
            &&& next.active == if session.active != session.workspaces[index].id {
                session.active
            } else if index < session.workspaces.len() - 1 {
                session.workspaces[index + 1].id
            } else {
                session.workspaces[index - 1].id
            }
        },
{
    lemma_position_is_index(session, index);
    let before = session.workspaces;
    let remaining = before.remove(index);
    let closes_active = session.active == before[index].id;
    let fallback = if index < remaining.len() {
        index
    } else {
        remaining.len() - 1
    };
    let next = SessionModel {
        revision: (session.revision + 1) as u64,
        active: if closes_active {
            remaining[fallback].id
        } else {
            session.active
        },
        workspaces: remaining,
        ..session
    };
    assert(host::session_valid(next)) by {
        if closes_active {
            assert(next.workspaces[fallback].id == next.active);
        } else {
            let active = choose|i: int|
                0 <= i < before.len() && (#[trigger] before[i]).id == session.active;
            if active < index {
                assert(next.workspaces[active].id == next.active);
            } else {
                assert(next.workspaces[active - 1].id == next.active);
            }
        }
        assert forall|i: int| 0 <= i < next.workspaces.len() implies (#[trigger] next.workspaces[
            i]).project < next.next_project_id && host::roots_valid(next.workspaces[i].roots)
            && crate::layout::layout_valid(next.workspaces[i].layout) by {
            if i < index {
                assert(next.workspaces[i] == before[i]);
            } else {
                assert(next.workspaces[i] == before[i + 1]);
            }
        }
        assert forall|i: int, j: int| 0 <= i < j < next.workspaces.len() implies (
        #[trigger] next.workspaces[i]).id != (#[trigger] next.workspaces[j]).id
            && next.workspaces[i].project != next.workspaces[j].project by {
            let a = if i < index {
                i
            } else {
                i + 1
            };
            let b = if j < index {
                j
            } else {
                j + 1
            };
            assert(next.workspaces[i] == before[a]);
            assert(next.workspaces[j] == before[b]);
        }
    }
    host::law_session_violation_iff_not_valid(next);
    assert(next.workspaces =~= session.workspaces.remove(index));
}

/// Closing the only workspace succeeds and leaves one blank workspace, with a project that was
/// never given out before.
pub proof fn law_close_last_leaves_a_blank_workspace(
    session: SessionModel,
    request: RequestModel,
    fresh: FreshIds,
)
    requires
        ready(session, request),
        session.next_project_id < u64::MAX,
        session.workspaces.len() == 1,
        request.mutation == (MutationModel::Close { workspace: session.workspaces[0].id }),
    ensures
        host::applied(session, request, fresh) == Ok::<SessionModel, SessionFault>(
            SessionModel {
                revision: (session.revision + 1) as u64,
                next_project_id: (session.next_project_id + 1) as u64,
                active: fresh.workspace,
                workspaces: seq![
                    host::blank_workspace(fresh.workspace, fresh.pane, session.next_project_id),
                ],
            },
        ),
        session.workspaces[0].project != session.next_project_id,
{
    lemma_position_is_index(session, 0);
    let blank = host::blank_workspace(fresh.workspace, fresh.pane, session.next_project_id);
    let next = SessionModel {
        revision: (session.revision + 1) as u64,
        next_project_id: (session.next_project_id + 1) as u64,
        active: fresh.workspace,
        workspaces: seq![blank],
    };
    assert(session.workspaces[0].project < session.next_project_id);
    crate::layout::law_empty_layout_is_valid(fresh.pane);
    assert(session.workspaces.remove(0).insert(0, blank) =~= seq![blank]);
    assert(next.workspaces[0].id == next.active);
    host::law_session_violation_iff_not_valid(next);
}

/// A mutation that names a workspace which is not in the session is refused, if nothing else is
/// wrong with it.
pub proof fn law_unknown_workspace_is_refused(
    session: SessionModel,
    request: RequestModel,
    workspace: WorkspaceId,
    fresh: FreshIds,
)
    requires
        request.expected_revision == session.revision,
        host::position(session.workspaces, workspace) is None,
        match request.mutation {
            MutationModel::Create { after, roots } => after == Some(workspace) && host::roots_valid(roots),
            MutationModel::Close { workspace: named } => named == workspace,
            MutationModel::Activate { workspace: named } => named == workspace,
            MutationModel::SetRoots { workspace: named, roots } => named == workspace
                && host::roots_valid(roots),
            MutationModel::ReplaceLayout { workspace: named, expected_layout_revision: _, layout } =>
            named == workspace && crate::layout::layout_valid(layout),
        },
    ensures
        host::applied(session, request, fresh) == Err::<SessionModel, SessionFault>(
            SessionFault::WorkspaceNotFound(workspace),
        ),
{
    match request.mutation {
        MutationModel::Create { after, roots } => host::law_roots_violation_iff_not_valid(roots),
        MutationModel::SetRoots { workspace: _, roots } => host::law_roots_violation_iff_not_valid(roots),
        MutationModel::ReplaceLayout { workspace: _, expected_layout_revision: _, layout } => {
            crate::layout::law_layout_violation_iff_not_valid(layout)
        },
        _ => {},
    }
}

/// Roots are accepted exactly where all their paths are absolute and no two have the same resolved
/// path.
pub proof fn law_roots_are_checked(roots: Seq<RootModel>)
    ensures
        host::roots_violation(roots) is None <==> {
            &&& forall|i: int|
                0 <= i < roots.len() ==> crate::path::absolute((#[trigger] roots[i]).requested)
                    && crate::path::absolute(roots[i].canonical)
            &&& forall|i: int, j: int|
                0 <= i < j < roots.len() ==> !crate::path::same_path(
                    (#[trigger] roots[i]).canonical,
                    (#[trigger] roots[j]).canonical,
                )
        },
{
    host::law_roots_violation_iff_not_valid(roots);
}

/// A session is accepted exactly where it has a workspace, the active one is among them, no two share
/// an identity or a project, every project is below the next one, and all roots and layouts are
/// accepted.
pub proof fn law_sessions_are_checked(session: SessionModel)
    ensures
        host::session_violation(session) is None <==> {
            let workspaces = session.workspaces;
            &&& exists|i: int|
                0 <= i < workspaces.len() && (#[trigger] workspaces[i]).id == session.active
            &&& forall|i: int|
                0 <= i < workspaces.len() ==> (#[trigger] workspaces[i]).project
                    < session.next_project_id && host::roots_violation(workspaces[i].roots) is None
                    && crate::layout::layout_violation(workspaces[i].layout) is None
            &&& forall|i: int, j: int|
                0 <= i < j < workspaces.len() ==> (#[trigger] workspaces[i]).id != (
                #[trigger] workspaces[j]).id && workspaces[i].project != workspaces[j].project
        },
{
    host::law_session_violation_iff_not_valid(session);
    assert forall|i: int| 0 <= i < session.workspaces.len() implies (host::roots_valid(
        (#[trigger] session.workspaces[i]).roots,
    ) <==> host::roots_violation(session.workspaces[i].roots) is None) && (
    crate::layout::layout_valid(session.workspaces[i].layout) <==> crate::layout::layout_violation(
        session.workspaces[i].layout,
    ) is None) by {
        host::law_roots_violation_iff_not_valid(session.workspaces[i].roots);
        crate::layout::law_layout_violation_iff_not_valid(session.workspaces[i].layout);
    }
}

/// What is told of roots is wrong with them: a path that is relative, or a resolved path that stands
/// there twice.
pub proof fn law_told_problems_of_roots_are_theirs(roots: Seq<RootModel>, told: Violation)
    requires
        host::roots_violation(roots) == Some(told),
    ensures
        told is RelativeRoot || told is DuplicateRoot,
        told is RelativeRoot ==> exists|i: int|
            0 <= i < roots.len() && (!crate::path::absolute((#[trigger] roots[i]).requested)
                || !crate::path::absolute(roots[i].canonical)),
        told matches Violation::DuplicateRoot(text) ==> exists|i: int, j: int|
            0 <= i < j < roots.len() && crate::path::same_path(
                (#[trigger] roots[i]).canonical,
                (#[trigger] roots[j]).canonical,
            ) && roots[j].canonical.text == text,
    decreases roots.len(),
{
    if roots.len() > 0 {
        let earlier = roots.drop_last();
        let last = roots.len() - 1;
        if host::roots_violation(earlier) is Some {
            law_told_problems_of_roots_are_theirs(earlier, told);
            if told is RelativeRoot {
                let i = choose|i: int|
                    0 <= i < earlier.len() && (!crate::path::absolute(
                        (#[trigger] earlier[i]).requested,
                    ) || !crate::path::absolute(earlier[i].canonical));
                assert(roots[i] == earlier[i]);
            }
            if let Violation::DuplicateRoot(text) = told {
                let (i, j) = choose|i: int, j: int|
                    0 <= i < j < earlier.len() && crate::path::same_path(
                        (#[trigger] earlier[i]).canonical,
                        (#[trigger] earlier[j]).canonical,
                    ) && earlier[j].canonical.text == text;
                assert(roots[i] == earlier[i] && roots[j] == earlier[j]);
            }
        } else if told is RelativeRoot {
            assert(roots[last] == roots.last());
        } else {
            let i = choose|i: int|
                0 <= i < earlier.len() && crate::path::same_path(
                    (#[trigger] earlier[i]).canonical,
                    roots.last().canonical,
                );
            assert(roots[i] == earlier[i] && roots[last] == roots.last());
        }
    }
}

/// What is told of a session is wrong with it: no workspace, a project that is not below the next
/// one, an identity or a project that stands there twice, an active workspace that is not there, or
/// what is wrong with the roots or the layout of one of its workspaces.
pub proof fn law_told_problems_of_sessions_are_theirs(session: SessionModel, told: Violation)
    requires
        host::session_violation(session) == Some(told),
    ensures
        told is NoWorkspace <==> session.workspaces.len() == 0,
        told is NextProjectIdTooSmall ==> session.next_project_id == 0 || exists|i: int|
            0 <= i < session.workspaces.len() && (#[trigger] session.workspaces[i]).project
                >= session.next_project_id,
        told is AbsentActiveWorkspace ==> forall|i: int|
            0 <= i < session.workspaces.len() ==> (#[trigger] session.workspaces[i]).id
                != session.active,
        told matches Violation::DuplicateWorkspace(id) ==> exists|i: int, j: int|
            0 <= i < j < session.workspaces.len() && (#[trigger] session.workspaces[i]).id == id && (
            #[trigger] session.workspaces[j]).id == id,
        told matches Violation::SharedProject(number) ==> exists|i: int, j: int|
            0 <= i < j < session.workspaces.len() && (#[trigger] session.workspaces[i]).project
                == number && (#[trigger] session.workspaces[j]).project == number,
        told is RelativeRoot || told is DuplicateRoot ==> exists|i: int|
            0 <= i < session.workspaces.len() && host::roots_violation(
                (#[trigger] session.workspaces[i]).roots,
            ) == Some(told),
{
    if session.workspaces.len() > 0 {
        lemma_told_workspaces(session.workspaces, session.workspaces.len() as int);
        assert(session.workspaces.take(session.workspaces.len() as int) =~= session.workspaces);
    }
    if told is AbsentActiveWorkspace {
        host::lemma_position(session.workspaces, session.active);
    }
}

proof fn lemma_told_workspaces(workspaces: Seq<WorkspaceModel>, count: int)
    requires
        0 <= count <= workspaces.len(),
    ensures
        host::workspaces_violation(workspaces.take(count)) matches Some(told) ==> {
            &&& !(told is NoWorkspace) && !(told is NextProjectIdTooSmall)
                && !(told is AbsentActiveWorkspace)
            &&& told matches Violation::DuplicateWorkspace(id) ==> exists|i: int, j: int|
                0 <= i < j < count && (#[trigger] workspaces[i]).id == id && (
                #[trigger] workspaces[j]).id == id
            &&& told matches Violation::SharedProject(number) ==> exists|i: int, j: int|
                0 <= i < j < count && (#[trigger] workspaces[i]).project == number && (
                #[trigger] workspaces[j]).project == number
            &&& told is RelativeRoot || told is DuplicateRoot ==> exists|i: int|
                0 <= i < count && host::roots_violation((#[trigger] workspaces[i]).roots) == Some(
                    told,
                )
        },
    decreases count,
{
    if count > 0 {
        lemma_told_workspaces(workspaces, count - 1);
        let earlier = workspaces.take(count - 1);
        let last = workspaces[count - 1];
        assert(workspaces.take(count).drop_last() =~= earlier);
        assert(workspaces.take(count).last() == last);
        host::lemma_position(earlier, last.id);
        if let Some(at) = host::position(earlier, last.id) {
            assert(workspaces[at].id == last.id);
        }
        if host::has_project(earlier, last.project) {
            let i = choose|i: int|
                0 <= i < earlier.len() && (#[trigger] earlier[i]).project == last.project;
            assert(workspaces[i].project == last.project);
        }
        if let Some(told) = host::roots_violation(last.roots) {
            law_told_problems_of_roots_are_theirs(last.roots, told);
        }
        lemma_told_layouts(last.layout);
    }
}

proof fn lemma_told_layouts(layout: crate::layout::LayoutModel)
    ensures
        crate::layout::layout_violation(layout) matches Some(told) ==> is_of_layout(told),
{
    lemma_told_entries(crate::layout::preorder(layout));
}

spec fn is_of_layout(told: Violation) -> bool {
    told is ShortAxis || told is FlexCountMismatch || told is FlexOutOfRange || told is DuplicatePane
        || told is RelativeItemPath || told is DuplicateItem || told is AbsentActiveItem
        || told is MultipleFocusedPanes
}

proof fn lemma_told_entries(entries: Seq<crate::layout::LayoutEntry>)
    ensures
        crate::layout::first_violation(entries) matches Some(told) ==> is_of_layout(told),
    decreases entries.len(),
{
    if entries.len() > 0 {
        lemma_told_entries(entries.drop_last());
        if let crate::layout::LayoutEntry::Pane(pane) = entries.last() {
            lemma_told_items(entries.drop_last(), pane.items);
        }
    }
}

proof fn lemma_told_items(
    before: Seq<crate::layout::LayoutEntry>,
    items: Seq<crate::layout::ItemModel>,
)
    ensures
        crate::layout::items_violation(before, items) matches Some(told) ==> is_of_layout(told),
    decreases items.len(),
{
    if items.len() > 0 {
        lemma_told_items(before, items.drop_last());
    }
}

/// A blank workspace has its identity and its project, no roots, and one empty pane whose layout was
/// never changed.
pub proof fn law_blank_workspaces_are_empty(id: WorkspaceId, pane: crate::ids::PaneId, project: u64)
    ensures
        host::blank_workspace(id, pane, project).id == id,
        host::blank_workspace(id, pane, project).project == project,
        host::blank_workspace(id, pane, project).roots.len() == 0,
        host::blank_workspace(id, pane, project).layout_revision == 0,
        host::blank_workspace(id, pane, project).layout matches crate::layout::LayoutModel::Pane(shown)
            && shown.id == pane && shown.items.len() == 0 && shown.active_item_id is None
            && shown.focused,
{
}

/// A new session has one blank workspace, which is active and has the first project; nothing was
/// changed in it, and the second project comes next.
pub proof fn law_new_sessions_have_one_blank_workspace(fresh: FreshIds)
    ensures
        ({
            let session = host::initial_session(fresh);
            &&& session.revision == 0
            &&& session.next_project_id == 2
            &&& session.active == fresh.workspace
            &&& session.workspaces.len() == 1
            &&& session.workspaces[0].id == fresh.workspace
            &&& session.workspaces[0].project == 1
            &&& session.workspaces[0].roots.len() == 0
            &&& session.workspaces[0].layout_revision == 0
            &&& session.workspaces[0].layout matches crate::layout::LayoutModel::Pane(shown)
                && shown.id == fresh.pane && shown.items.len() == 0
        }),
{
}

/// A layout that is replaced is of a later revision, unless there is none.
pub proof fn law_layout_revisions_move_on(revision: u64)
    ensures
        revision < u64::MAX ==> next_layout_revision(revision) == revision + 1,
        next_layout_revision(u64::MAX) == u64::MAX,
{
}

/// A request with roots or a layout that are not accepted is refused for them, whatever else it
/// asks for.
pub proof fn law_bad_requests_are_refused(
    session: SessionModel,
    request: RequestModel,
    fresh: FreshIds,
)
    requires
        request.expected_revision == session.revision,
    ensures
        request.mutation matches MutationModel::Create { roots, .. } ==> (host::roots_violation(
            roots,
        ) matches Some(violation) ==> host::applied(session, request, fresh) == Err::<
            SessionModel,
            SessionFault,
        >(crate::error::invalid(violation))),
        request.mutation matches MutationModel::SetRoots { roots, .. } ==> (host::roots_violation(
            roots,
        ) matches Some(violation) ==> host::applied(session, request, fresh) == Err::<
            SessionModel,
            SessionFault,
        >(crate::error::invalid(violation))),
        request.mutation matches MutationModel::ReplaceLayout { layout, .. } ==> (
        crate::layout::layout_violation(layout) matches Some(violation) ==> host::applied(
            session,
            request,
            fresh,
        ) == Err::<SessionModel, SessionFault>(crate::error::invalid(violation))),
{
}

/// Numbers that cannot move on refuse a request: the last revision, and the last project where a
/// workspace would take another.
pub proof fn law_exhausted_numbers_are_refused(
    session: SessionModel,
    request: RequestModel,
    fresh: FreshIds,
)
    requires
        host::session_valid(session),
        request.expected_revision == session.revision,
    ensures
        session.revision == u64::MAX ==> host::applied(session, request, fresh) is Err,
        session.next_project_id == u64::MAX ==> (request.mutation matches MutationModel::Create {
            after: None,
            roots,
        } && host::roots_violation(roots) is None ==> host::applied(session, request, fresh) == Err::<
            SessionModel,
            SessionFault,
        >(SessionFault::ProjectIdExhausted)),
{
}

} // verus!
