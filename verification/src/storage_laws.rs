//! What the rows of a stored session hold, and what they are read as.

use crate::persistence as storage;
use crate::persistence::{
    PersistenceFault, ProjectRowModel, TablesModel, WorkspaceRowModel,
};
use crate::session::{FreshIds, RequestModel, SessionModel, WorkspaceModel};
use vstd::prelude::*;

verus! {

/// The rows of a session hold it column by column: its numbers and active workspace in one row, and
/// for each workspace, in their order, its project with the roots, and itself with its place,
/// project and layout.
pub proof fn law_rows_hold_the_session(session: SessionModel, k: int)
    requires
        0 <= k < session.workspaces.len(),
    ensures
        storage::saved(session) matches Ok(rows) ==> {
            let workspace = session.workspaces[k];
            &&& rows.session matches Some(row) && row.revision == session.revision
                && row.next_project_id == session.next_project_id && row.active
                == crate::ids::uuid_text(session.active.value)
            &&& rows.projects.len() == session.workspaces.len()
            &&& rows.workspaces.len() == session.workspaces.len()
            &&& rows.projects[k].id == workspace.project
            &&& rows.projects[k].roots == Some(workspace.roots)
            &&& rows.workspaces[k].id == crate::ids::uuid_text(workspace.id.value)
            &&& rows.workspaces[k].position == k
            &&& rows.workspaces[k].project_id == workspace.project
            &&& rows.workspaces[k].layout_revision == workspace.layout_revision
            &&& rows.workspaces[k].layout == Some(workspace.layout)
        },
{
    if storage::saved(session) is Ok {
        storage::lemma_save_problem_none(session.workspaces);
        assert(storage::workspace_save_problem(session.workspaces[k], k) is None);
    }
}

/// A session is stored exactly where it is accepted and its numbers fit the columns.
pub proof fn law_sessions_are_stored_where_they_fit(session: SessionModel)
    ensures
        storage::saved(session) is Ok <==> crate::session::session_violation(session) is None
            && session.revision <= i64::MAX && session.next_project_id <= i64::MAX && forall|k: int|
            0 <= k < session.workspaces.len() ==> (#[trigger] session.workspaces[k]).project
                <= i64::MAX && k <= i64::MAX && session.workspaces[k].layout_revision <= i64::MAX,
        crate::session::session_violation(session) matches Some(violation) ==> storage::saved(session)
            == Err::<TablesModel, PersistenceFault>(
            PersistenceFault::InvalidSnapshot(crate::error::invalid(violation)),
        ),
{
    lemma_fits(session.workspaces);
}

proof fn lemma_fits(workspaces: Seq<WorkspaceModel>)
    ensures
        storage::workspaces_save_problem(workspaces) is None <==> forall|k: int|
            0 <= k < workspaces.len() ==> (#[trigger] workspaces[k]).project <= i64::MAX && k
                <= i64::MAX && workspaces[k].layout_revision <= i64::MAX,
    decreases workspaces.len(),
{
    if workspaces.len() > 0 {
        let earlier = workspaces.drop_last();
        lemma_fits(earlier);
        assert(workspaces[workspaces.len() - 1] == workspaces.last());
        assert(forall|k: int| 0 <= k < earlier.len() ==> (#[trigger] workspaces[k]) == earlier[k]);
        assert(forall|k: int| 0 <= k < earlier.len() ==> workspaces[k] == (#[trigger] earlier[k]));
    }
}

/// Whether a row of a project can be read.
pub open spec fn readable_project(row: ProjectRowModel) -> bool {
    row.id > 0 && row.roots is Some
}

/// Whether the last row of a project is a certain one.
pub open spec fn is_last_row_of(projects: Seq<ProjectRowModel>, id: i64, p: int) -> bool {
    0 <= p < projects.len() && projects[p].id == id && forall|q: int|
        p < q < projects.len() ==> (#[trigger] projects[q]).id != id
}

/// Whether a workspace is what a row says: its identity as text, its numbers and its layout, and the
/// roots of its project's row.
pub open spec fn reads_as(
    projects: Seq<ProjectRowModel>,
    row: WorkspaceRowModel,
    workspace: WorkspaceModel,
) -> bool {
    &&& crate::ids::parsed_uuid(row.id) == Some(workspace.id.value)
    &&& row.project_id == workspace.project
    &&& row.project_id > 0
    &&& row.layout_revision == workspace.layout_revision
    &&& row.layout == Some(workspace.layout)
    &&& exists|p: int| #[trigger]
        is_last_row_of(projects, row.project_id, p) && projects[p].roots == Some(workspace.roots)
}

proof fn lemma_last_row(projects: Seq<ProjectRowModel>, id: i64)
    ensures
        storage::stored_roots(projects, id) matches Some(roots) ==> exists|p: int| #[trigger]
            is_last_row_of(projects, id, p) && projects[p].roots == Some(roots),
        forall|p: int| #[trigger]
            is_last_row_of(projects, id, p) ==> storage::stored_roots(projects, id)
                == projects[p].roots,
    decreases projects.len(),
{
    if projects.len() > 0 {
        let earlier = projects.drop_last();
        lemma_last_row(earlier, id);
        if projects.last().id == id {
            assert(is_last_row_of(projects, id, projects.len() - 1));
        } else {
            if storage::stored_roots(earlier, id) is Some {
                let roots = storage::stored_roots(earlier, id)->0;
                let p = choose|p: int| #[trigger]
                    is_last_row_of(earlier, id, p) && earlier[p].roots == Some(roots);
                assert forall|q: int| p < q < projects.len() implies (#[trigger] projects[q]).id
                    != id by {
                    if q < earlier.len() {
                        assert(earlier[q] == projects[q]);
                    }
                }
                assert(is_last_row_of(projects, id, p));
            }
            assert forall|p: int| #[trigger] is_last_row_of(projects, id, p) implies
                storage::stored_roots(projects, id) == projects[p].roots by {
                assert(p < earlier.len());
                assert forall|q: int| p < q < earlier.len() implies (#[trigger] earlier[q]).id
                    != id by {
                    assert(projects[q] == earlier[q]);
                }
                assert(is_last_row_of(earlier, id, p));
            }
        }
        assert forall|p: int| #[trigger] is_last_row_of(projects, id, p) && projects.last().id
            == id implies p == projects.len() - 1 by {
            if p < projects.len() - 1 {
                assert(projects[projects.len() - 1].id != id);
            }
        }
    }
}

proof fn lemma_workspaces_read(projects: Seq<ProjectRowModel>, rows: Seq<WorkspaceRowModel>, k: int)
    requires
        0 <= k < rows.len(),
    ensures
        storage::loaded_workspaces(projects, rows) matches Ok(workspaces) ==> workspaces.len()
            == rows.len() && reads_as(projects, rows[k], workspaces[k]),
    decreases rows.len(),
{
    let earlier = rows.drop_last();
    if storage::loaded_workspaces(projects, rows) is Ok {
        let workspaces = storage::loaded_workspaces(projects, rows)->Ok_0;
        lemma_loaded_length(projects, earlier);
        if k < earlier.len() {
            lemma_workspaces_read(projects, earlier, k);
        } else {
            lemma_last_row(projects, rows[k].project_id);
        }
    }
}

proof fn lemma_loaded_length(projects: Seq<ProjectRowModel>, rows: Seq<WorkspaceRowModel>)
    ensures
        storage::loaded_workspaces(projects, rows) matches Ok(workspaces) ==> workspaces.len()
            == rows.len(),
    decreases rows.len(),
{
    if rows.len() > 0 {
        lemma_loaded_length(projects, rows.drop_last());
    }
}

proof fn lemma_projects_readable(rows: Seq<ProjectRowModel>)
    ensures
        storage::projects_problem(rows) is None <==> forall|p: int|
            0 <= p < rows.len() ==> readable_project(#[trigger] rows[p]),
    decreases rows.len(),
{
    if rows.len() > 0 {
        let earlier = rows.drop_last();
        lemma_projects_readable(earlier);
        assert(rows[rows.len() - 1] == rows.last());
        assert(forall|p: int| 0 <= p < earlier.len() ==> (#[trigger] rows[p]) == earlier[p]);
        assert(forall|p: int| 0 <= p < earlier.len() ==> rows[p] == (#[trigger] earlier[p]));
    }
}

/// What is read from rows is what they say, column by column and row by row, and only from rows that
/// all can be read. Without a row of the session there is none.
pub proof fn law_reading_takes_rows_as_they_are(tables: TablesModel, k: int)
    ensures
        tables.session is None <==> storage::loaded(tables) == Ok::<
            Option<SessionModel>,
            PersistenceFault,
        >(None),
        storage::loaded(tables) matches Ok(Some(session)) ==> {
            &&& tables.session matches Some(row) && row.revision == session.revision
                && row.next_project_id == session.next_project_id && crate::ids::parsed_uuid(row.active)
                == Some(session.active.value)
            &&& session.workspaces.len() == tables.workspaces.len()
            &&& 0 <= k < session.workspaces.len() ==> reads_as(
                tables.projects,
                tables.workspaces[k],
                session.workspaces[k],
            )
            &&& forall|p: int|
                0 <= p < tables.projects.len() ==> readable_project(#[trigger] tables.projects[p])
            &&& crate::session::session_violation(session) is None
        },
{
    lemma_loaded_length(tables.projects, tables.workspaces);
    lemma_projects_readable(tables.projects);
    if 0 <= k < tables.workspaces.len() {
        lemma_workspaces_read(tables.projects, tables.workspaces, k);
    }
}

/// Rows that say what an accepted session is are read as that session.
pub proof fn law_good_rows_are_read(tables: TablesModel, session: SessionModel)
    requires
        tables.session matches Some(row) && row.revision == session.revision && row.next_project_id
            == session.next_project_id && crate::ids::parsed_uuid(row.active) == Some(
            session.active.value,
        ),
        forall|p: int|
            0 <= p < tables.projects.len() ==> readable_project(#[trigger] tables.projects[p]),
        session.workspaces.len() == tables.workspaces.len(),
        forall|k: int|
            0 <= k < session.workspaces.len() ==> reads_as(
                tables.projects,
                tables.workspaces[k],
                #[trigger] session.workspaces[k],
            ),
        crate::session::session_violation(session) is None,
    ensures
        storage::loaded(tables) == Ok::<Option<SessionModel>, PersistenceFault>(Some(session)),
{
    lemma_projects_readable(tables.projects);
    lemma_good_workspaces(tables, session, session.workspaces.len() as int);
    assert(tables.workspaces.take(session.workspaces.len() as int) =~= tables.workspaces);
    assert(session.workspaces.take(session.workspaces.len() as int) =~= session.workspaces);
    let found = (storage::loaded(tables)->Ok_0)->0;
    assert(session.active == crate::ids::WorkspaceId { value: session.active.value });
}

proof fn lemma_good_workspaces(tables: TablesModel, session: SessionModel, count: int)
    requires
        0 <= count <= session.workspaces.len(),
        session.workspaces.len() == tables.workspaces.len(),
        forall|k: int|
            0 <= k < session.workspaces.len() ==> reads_as(
                tables.projects,
                tables.workspaces[k],
                #[trigger] session.workspaces[k],
            ),
    ensures
        storage::loaded_workspaces(tables.projects, tables.workspaces.take(count)) == Ok::<
            Seq<WorkspaceModel>,
            crate::persistence::LoadProblem,
        >(session.workspaces.take(count)),
    decreases count,
{
    if count > 0 {
        let last = count - 1;
        let row = tables.workspaces[last];
        let workspace = session.workspaces[last];
        lemma_good_workspaces(tables, session, last);
        assert(tables.workspaces.take(count).drop_last() =~= tables.workspaces.take(last));
        assert(tables.workspaces.take(count).last() == row);
        assert(reads_as(tables.projects, row, workspace));
        lemma_last_row(tables.projects, row.project_id);
        let read = storage::loaded_workspace(tables.projects, row)->Ok_0;
        assert(read.id == workspace.id);
        assert(read =~= workspace);
        assert(session.workspaces.take(last).push(workspace) =~= session.workspaces.take(count));
    } else {
        assert(session.workspaces.take(0) =~= Seq::<WorkspaceModel>::empty());
    }
}

/// A commit is in force exactly where the request is accepted, the session can be stored and storage
/// took it. What is in force is what the request made, in rows. A refusal is told as it came, and
/// storage's words are kept.
pub proof fn law_commits_are_stored(
    session: SessionModel,
    request: RequestModel,
    fresh: FreshIds,
    written: Result<(), Seq<char>>,
)
    ensures
        storage::committed(session, request, fresh, written) matches Ok((next, rows)) ==> {
            &&& crate::session::applied(session, request, fresh) == Ok::<
                SessionModel,
                crate::error::SessionFault,
            >(next)
            &&& storage::saved(next) == Ok::<TablesModel, PersistenceFault>(rows)
            &&& written is Ok
        },
        crate::session::applied(session, request, fresh) matches Err(fault) ==> storage::committed(
            session,
            request,
            fresh,
            written,
        ) == Err::<(SessionModel, TablesModel), PersistenceFault>(PersistenceFault::Rejected(fault)),
        crate::session::applied(session, request, fresh) matches Ok(next) ==> (storage::saved(
            next,
        ) is Ok ==> match written {
            Ok(()) => storage::committed(session, request, fresh, written) is Ok,
            Err(message) => storage::committed(session, request, fresh, written) == Err::<
                (SessionModel, TablesModel),
                PersistenceFault,
            >(PersistenceFault::Storage(message)),
        }),
{
}

/// Older rows are given the next project: one past all that are stored, or the first where there are
/// none. Nothing else in them changes. It fails only where a stored project is the last there is.
pub proof fn law_older_rows_get_the_next_project(tables: TablesModel)
    ensures
        tables.session is None ==> storage::with_next_project(tables) == Ok::<
            TablesModel,
            PersistenceFault,
        >(tables),
        tables.session matches Some(row) ==> match storage::with_next_project(tables) {
            Ok(next) => {
                &&& next.projects == tables.projects
                &&& next.workspaces == tables.workspaces
                &&& next.session matches Some(after) && after.revision == row.revision && after.active
                    == row.active && (forall|p: int|
                    0 <= p < tables.projects.len() ==> (#[trigger] tables.projects[p]).id
                        < after.next_project_id) && (tables.projects.len() == 0
                    ==> after.next_project_id == 1) && (tables.projects.len() > 0 ==> exists|p: int|
                    0 <= p < tables.projects.len() && (#[trigger] tables.projects[p]).id + 1
                        == after.next_project_id)
            },
            Err(fault) => fault is Migration && exists|p: int|
                0 <= p < tables.projects.len() && (#[trigger] tables.projects[p]).id == i64::MAX,
        },
{
    lemma_largest(tables.projects);
}

proof fn lemma_largest(rows: Seq<ProjectRowModel>)
    ensures
        match storage::largest_id(rows) {
            None => rows.len() == 0,
            Some(largest) => (forall|p: int| 0 <= p < rows.len() ==> (#[trigger] rows[p]).id <= largest)
                && exists|p: int| 0 <= p < rows.len() && (#[trigger] rows[p]).id == largest,
        },
    decreases rows.len(),
{
    if rows.len() > 0 {
        let earlier = rows.drop_last();
        lemma_largest(earlier);
        let largest = storage::largest_id(rows)->0;
        assert forall|p: int| 0 <= p < rows.len() implies (#[trigger] rows[p]).id <= largest by {
            if p < earlier.len() {
                assert(earlier[p] == rows[p]);
            }
        }
        if largest == rows.last().id {
            assert(rows[rows.len() - 1].id == largest);
        } else {
            let p = choose|p: int| 0 <= p < earlier.len() && (#[trigger] earlier[p]).id == largest;
            assert(rows[p].id == largest);
        }
    }
}

/// Dropping a column keeps the others, in their order.
pub proof fn law_dropping_a_column_keeps_the_others(
    names: Seq<Seq<char>>,
    next: Seq<char>,
    name: Seq<char>,
)
    ensures
        storage::without(Seq::<Seq<char>>::empty(), name).len() == 0,
        storage::without(names.push(next), name) == if next == name {
            storage::without(names, name)
        } else {
            storage::without(names, name).push(next)
        },
{
    assert(names.push(next).drop_last() =~= names);
}

} // verus!
