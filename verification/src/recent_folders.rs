//! Recent projects and open folders, as they are listed.

use crate::connection::RemoteConnectionOptions;
use crate::path::{HostPath, PathModel};
use crate::path_order::{distinct_paths, find_innermost};
use crate::recent_entries::{
    ListedPath, OpenFolderEntry, RecentWorkspace, RecentWorkspaceId, SerializedWorkspaceLocation,
    Timestamp,
};
use crate::text::clone_optional;
use crate::text_order::{sort_places, to_lowercase};
use crate::text_span::join_texts;
use vstd::prelude::*;

verus! {

/// A recent project.
#[derive(Debug)]
pub struct RecentProjectEntry {
    pub name: String,
    pub full_path: String,
    pub paths: Vec<HostPath>,
    pub workspace_id: RecentWorkspaceId,
    pub timestamp: Timestamp,
}

#[verifier::ext_equal]
pub struct RecentProjectModel {
    pub name: Seq<char>,
    pub full_path: Seq<char>,
    pub paths: Seq<PathModel>,
    pub workspace_id: RecentWorkspaceId,
    pub timestamp: Timestamp,
}

impl View for RecentProjectEntry {
    type V = RecentProjectModel;

    open spec fn view(&self) -> RecentProjectModel {
        RecentProjectModel {
            name: self.name@,
            full_path: self.full_path@,
            paths: crate::path::path_models(self.paths@),
            workspace_id: self.workspace_id,
            timestamp: self.timestamp,
        }
    }
}

/// What a sequence of recent projects stands for.
pub open spec fn project_models(entries: Seq<RecentProjectEntry>) -> Seq<RecentProjectModel> {
    Seq::new(entries.len(), |i: int| entries[i]@)
}

/// The texts that are not empty.
pub open spec fn nonempty(parts: Seq<Seq<char>>) -> Seq<Seq<char>>
    decreases parts.len(),
{
    if parts.len() == 0 {
        Seq::<Seq<char>>::empty()
    } else if parts.last().len() > 0 {
        nonempty(parts.drop_last()).push(parts.last())
    } else {
        nonempty(parts.drop_last())
    }
}

/// Whether a recent workspace is listed: it is on this machine and is not the current one.
pub open spec fn is_listed(workspace: RecentWorkspace, current: Option<RecentWorkspaceId>) -> bool {
    current != Some(workspace.workspace_id) && workspace.location is Local
}

/// A recent workspace as a recent project: named by the endings of its folders.
pub open spec fn as_project(workspace: RecentWorkspace) -> RecentProjectModel {
    RecentProjectModel {
        name: crate::text_span::joined_by(
            nonempty(crate::recent_entries::suffix_texts(workspace.identity_paths@)),
            ", "@,
        ),
        full_path: crate::text_span::joined_by(
            crate::recent_entries::listed_texts(workspace.identity_paths@),
            "\n"@,
        ),
        paths: crate::path::path_models(workspace.paths@),
        workspace_id: workspace.workspace_id,
        timestamp: workspace.timestamp,
    }
}

/// The listed workspaces as recent projects, in order.
pub open spec fn listed_projects(
    workspaces: Seq<RecentWorkspace>,
    current: Option<RecentWorkspaceId>,
) -> Seq<RecentProjectModel>
    decreases workspaces.len(),
{
    if workspaces.len() == 0 {
        Seq::<RecentProjectModel>::empty()
    } else {
        let before = listed_projects(workspaces.drop_last(), current);
        if is_listed(workspaces.last(), current) {
            before.push(as_project(workspaces.last()))
        } else {
            before
        }
    }
}

/// The first items, as far as there are so many.
pub open spec fn limited<A>(items: Seq<A>, limit: Option<usize>) -> Seq<A> {
    match limit {
        Some(count) if count < items.len() => items.take(count as int),
        _ => items,
    }
}

fn same_workspace(current: Option<RecentWorkspaceId>, id: RecentWorkspaceId) -> (result: bool)
    ensures
        result == (current == Some(id)),
{
    match current {
        Some(current) => current == id,
        None => false,
    }
}

fn is_local(location: &SerializedWorkspaceLocation) -> (result: bool)
    ensures
        result == (location is Local),
{
    match location {
        SerializedWorkspaceLocation::Local => true,
        SerializedWorkspaceLocation::Remote { .. } => false,
    }
}

/// A copy of a list of paths.
pub(crate) fn clone_paths(paths: &Vec<HostPath>) -> (copy: Vec<HostPath>)
    ensures
        copy@ == paths@,
{
    let mut copy: Vec<HostPath> = Vec::new();
    let mut i: usize = 0;
    while i < paths.len()
        invariant
            i <= paths@.len(),
            copy@ == paths@.take(i as int),
        decreases paths@.len() - i,
    {
        copy.push(paths[i].clone());
        i += 1;
    }
    copy
}

/// The endings that are not empty.
fn nonempty_suffixes(paths: &Vec<ListedPath>) -> (suffixes: Vec<String>)
    ensures
        crate::text::texts(suffixes@) == nonempty(crate::recent_entries::suffix_texts(paths@)),
{
    let ghost all = crate::recent_entries::suffix_texts(paths@);
    let mut suffixes: Vec<String> = Vec::new();
    let mut i: usize = 0;
    assert(all.take(0) =~= Seq::<Seq<char>>::empty());
    assert(crate::text::texts(suffixes@) =~= Seq::<Seq<char>>::empty());
    while i < paths.len()
        invariant
            i <= paths@.len(),
            all == crate::recent_entries::suffix_texts(paths@),
            crate::text::texts(suffixes@) == nonempty(all.take(i as int)),
        decreases paths@.len() - i,
    {
        let ghost before = suffixes@;
        proof {
            assert(all.take(i + 1).drop_last() =~= all.take(i as int));
            assert(all.take(i + 1).last() == paths@[i as int].suffix@);
        }
        if paths[i].suffix.as_str().unicode_len() > 0 {
            suffixes.push(paths[i].suffix.clone());
            assert(crate::text::texts(suffixes@) =~= crate::text::texts(before).push(
                paths@[i as int].suffix@,
            ));
        }
        i += 1;
    }
    assert(all.take(i as int) =~= all);
    suffixes
}

/// The full texts of the paths.
fn path_strings(paths: &Vec<ListedPath>) -> (strings: Vec<String>)
    ensures
        crate::text::texts(strings@) == crate::recent_entries::listed_texts(paths@),
{
    let mut strings: Vec<String> = Vec::new();
    let mut i: usize = 0;
    while i < paths.len()
        invariant
            i <= paths@.len(),
            strings@.len() == i,
            forall|j: int| 0 <= j < i ==> (#[trigger] strings@[j])@ == paths@[j].path@.text,
        decreases paths@.len() - i,
    {
        strings.push(paths[i].path.text.clone());
        i += 1;
    }
    assert(crate::text::texts(strings@) =~= crate::recent_entries::listed_texts(paths@));
    strings
}

/// The recent projects on this machine but for the current one, at most as many as wanted.
pub fn get_recent_projects(
    current_workspace_id: Option<RecentWorkspaceId>,
    limit: Option<usize>,
    workspaces: &Vec<RecentWorkspace>,
) -> (entries: Vec<RecentProjectEntry>)
    ensures
        project_models(entries@) == limited(
            listed_projects(workspaces@, current_workspace_id),
            limit,
        ),
{
    let mut entries: Vec<RecentProjectEntry> = Vec::new();
    let mut i: usize = 0;
    assert(workspaces@.take(0) =~= Seq::<RecentWorkspace>::empty());
    assert(project_models(entries@) =~= Seq::<RecentProjectModel>::empty());
    while i < workspaces.len()
        invariant
            i <= workspaces@.len(),
            project_models(entries@) == listed_projects(
                workspaces@.take(i as int),
                current_workspace_id,
            ),
        decreases workspaces@.len() - i,
    {
        let workspace = &workspaces[i];
        let ghost before = entries@;
        proof {
            assert(workspaces@.take(i + 1).drop_last() =~= workspaces@.take(i as int));
            assert(workspaces@.take(i + 1).last() == *workspace);
        }
        if !same_workspace(current_workspace_id, workspace.workspace_id) && is_local(
            &workspace.location,
        ) {
            let entry = RecentProjectEntry {
                name: join_texts(&nonempty_suffixes(&workspace.identity_paths), ", "),
                full_path: join_texts(&path_strings(&workspace.identity_paths), "\n"),
                paths: clone_paths(&workspace.paths),
                workspace_id: workspace.workspace_id,
                timestamp: workspace.timestamp,
            };
            let ghost model = entry@;
            entries.push(entry);
            assert(project_models(entries@) =~= project_models(before).push(model));
        }
        i += 1;
    }
    assert(workspaces@.take(i as int) =~= workspaces@);
    match limit {
        Some(count) => {
            if count < entries.len() {
                let ghost all = entries@;
                entries.truncate(count);
                assert(project_models(entries@) =~= project_models(all).take(count as int));
            }
            entries
        },
        None => entries,
    }
}

/// The folders of the listed workspaces, in order.
pub open spec fn listed_folders(
    workspaces: Seq<RecentWorkspace>,
    current: Option<RecentWorkspaceId>,
) -> Seq<PathModel>
    decreases workspaces.len(),
{
    if workspaces.len() == 0 {
        Seq::<PathModel>::empty()
    } else {
        let before = listed_folders(workspaces.drop_last(), current);
        if is_listed(workspaces.last(), current) {
            before + crate::recent_entries::listed_paths(workspaces.last().identity_paths@)
        } else {
            before
        }
    }
}

/// The different folders of the listed workspaces: those whose endings have to tell them apart.
pub fn recent_folders_to_name(
    current_workspace_id: Option<RecentWorkspaceId>,
    workspaces: &Vec<RecentWorkspace>,
) -> (distinct: Vec<HostPath>)
    ensures
        crate::path_order::strictly_ordered(crate::path::path_models(distinct@)),
        forall|i: int|
            0 <= i < listed_folders(workspaces@, current_workspace_id).len()
                ==> crate::path_order::holds_path(
                crate::path::path_models(distinct@),
                #[trigger] listed_folders(workspaces@, current_workspace_id)[i],
            ),
        forall|i: int|
            0 <= i < distinct@.len() ==> listed_folders(
                workspaces@,
                current_workspace_id,
            ).contains(#[trigger] distinct@[i]@),
{
    let mut folders: Vec<HostPath> = Vec::new();
    let mut i: usize = 0;
    assert(workspaces@.take(0) =~= Seq::<RecentWorkspace>::empty());
    assert(crate::path::path_models(folders@) =~= Seq::<PathModel>::empty());
    while i < workspaces.len()
        invariant
            i <= workspaces@.len(),
            crate::path::path_models(folders@) == listed_folders(
                workspaces@.take(i as int),
                current_workspace_id,
            ),
        decreases workspaces@.len() - i,
    {
        let workspace = &workspaces[i];
        proof {
            assert(workspaces@.take(i + 1).drop_last() =~= workspaces@.take(i as int));
            assert(workspaces@.take(i + 1).last() == *workspace);
        }
        if !same_workspace(current_workspace_id, workspace.workspace_id) && is_local(
            &workspace.location,
        ) {
            let ghost before = crate::path::path_models(folders@);
            let ghost added = crate::recent_entries::listed_paths(workspace.identity_paths@);
            let mut next: usize = 0;
            assert(before + added.take(0) =~= before);
            while next < workspace.identity_paths.len()
                invariant
                    next <= workspace.identity_paths@.len(),
                    added == crate::recent_entries::listed_paths(workspace.identity_paths@),
                    crate::path::path_models(folders@) == before + added.take(next as int),
                decreases workspace.identity_paths@.len() - next,
            {
                let ghost was = folders@;
                folders.push(workspace.identity_paths[next].path.clone());
                proof {
                    assert(crate::path::path_models(folders@) =~= crate::path::path_models(was).push(
                        added[next as int],
                    ));
                    assert(added.take(next + 1) =~= added.take(next as int).push(
                        added[next as int],
                    ));
                    assert((before + added.take(next as int)).push(added[next as int])
                        =~= before + added.take(next + 1));
                }
                next += 1;
            }
            assert(added.take(next as int) =~= added);
        }
        i += 1;
    }
    assert(workspaces@.take(i as int) =~= workspaces@);
    let distinct = distinct_paths(&folders);
    proof {
        let all = listed_folders(workspaces@, current_workspace_id);
        assert forall|j: int| 0 <= j < all.len() implies crate::path_order::holds_path(
            crate::path::path_models(distinct@),
            #[trigger] all[j],
        ) by {
            assert(folders@[j]@ == all[j]);
        }
    }
    distinct
}

/// A worktree that a project shows.
#[derive(Debug)]
pub struct VisibleWorktree {
    pub id: u64,
    pub path: ListedPath,
}

/// A repository, with the branch that is checked out.
#[derive(Debug)]
pub struct BranchRepository {
    pub work_directory: HostPath,
    pub branch: Option<String>,
}

/// What is read of a project to list its folders.
#[derive(Debug)]
pub struct ProjectFolders {
    pub connection_options: Option<RemoteConnectionOptions>,
    pub visible_worktrees: Vec<VisibleWorktree>,
    /// The directory of the active repository.
    pub active_repository: Option<HostPath>,
    pub repositories: Vec<BranchRepository>,
}

/// The directories of repositories.
pub open spec fn branch_directories(repositories: Seq<BranchRepository>) -> Seq<PathModel> {
    Seq::new(repositories.len(), |i: int| repositories[i].work_directory@)
}

/// The branch of a folder: that of the innermost repository that holds it.
pub open spec fn branch_of(path: PathModel, repositories: Seq<BranchRepository>) -> Option<
    Seq<char>,
> {
    match crate::path_order::innermost(branch_directories(repositories), path) {
        Some(place) => crate::text::optional_text(repositories[place].branch),
        None => None,
    }
}

/// Finds the branch of a folder.
pub fn get_branch_for_worktree(path: &HostPath, repositories: &Vec<BranchRepository>) -> (branch:
    Option<String>)
    ensures
        crate::text::optional_text(branch) == branch_of(path@, repositories@),
{
    let mut directories: Vec<HostPath> = Vec::new();
    let mut i: usize = 0;
    while i < repositories.len()
        invariant
            i <= repositories@.len(),
            directories@.len() == i,
            forall|j: int|
                0 <= j < i ==> (#[trigger] directories@[j])@ == repositories@[j].work_directory@,
        decreases repositories@.len() - i,
    {
        directories.push(repositories[i].work_directory.clone());
        i += 1;
    }
    assert(crate::path::path_models(directories@) =~= branch_directories(repositories@));
    match find_innermost(path, &directories) {
        Some(place) => clone_optional(&repositories[place].branch),
        None => None,
    }
}

/// The first worktree in a directory.
pub open spec fn first_within(worktrees: Seq<VisibleWorktree>, directory: PathModel) -> Option<u64>
    decreases worktrees.len(),
{
    if worktrees.len() == 0 {
        None
    } else if crate::path::within(worktrees[0].path.path@, directory) {
        Some(worktrees[0].id)
    } else {
        first_within(worktrees.skip(1), directory)
    }
}

/// The active worktree: the first one in the active repository, or the first one where no
/// repository is active.
pub open spec fn active_worktree(project: ProjectFolders) -> Option<u64> {
    match project.active_repository {
        Some(directory) => first_within(project.visible_worktrees@, directory@),
        None => if project.visible_worktrees@.len() > 0 {
            Some(project.visible_worktrees@[0].id)
        } else {
            None
        },
    }
}

fn find_active_worktree(project: &ProjectFolders) -> (id: Option<u64>)
    ensures
        id == active_worktree(*project),
{
    match &project.active_repository {
        Some(directory) => {
            let ghost all = project.visible_worktrees@;
            let mut i: usize = 0;
            assert(all.skip(0) =~= all);
            while i < project.visible_worktrees.len()
                invariant
                    i <= project.visible_worktrees@.len(),
                    all == project.visible_worktrees@,
                    project.active_repository == Some(*directory),
                    first_within(all, directory@) == first_within(all.skip(i as int), directory@),
                decreases project.visible_worktrees@.len() - i,
            {
                let worktree = &project.visible_worktrees[i];
                proof {
                    assert(all.skip(i as int)[0] == *worktree);
                    assert(all.skip(i as int).skip(1) =~= all.skip(i + 1));
                }
                if worktree.path.path.starts_with(directory) {
                    return Some(worktree.id);
                }
                i += 1;
            }
            None
        },
        None => if project.visible_worktrees.len() > 0 {
            Some(project.visible_worktrees[0].id)
        } else {
            None
        },
    }
}

/// The texts of the paths of worktrees.
pub open spec fn worktree_texts(worktrees: Seq<VisibleWorktree>) -> Seq<PathModel> {
    Seq::new(worktrees.len(), |i: int| worktrees[i].path.path@)
}

/// The different folders of a project: those whose endings have to tell them apart.
pub fn open_folders_to_name(project: &ProjectFolders) -> (distinct: Vec<HostPath>)
    ensures
        crate::path_order::strictly_ordered(crate::path::path_models(distinct@)),
        forall|i: int|
            0 <= i < project.visible_worktrees@.len() ==> crate::path_order::holds_path(
                crate::path::path_models(distinct@),
                #[trigger] worktree_texts(project.visible_worktrees@)[i],
            ),
        forall|i: int|
            0 <= i < distinct@.len() ==> worktree_texts(project.visible_worktrees@).contains(
                #[trigger] distinct@[i]@,
            ),
{
    let worktrees = &project.visible_worktrees;
    let mut folders: Vec<HostPath> = Vec::new();
    let mut i: usize = 0;
    while i < worktrees.len()
        invariant
            i <= worktrees@.len(),
            folders@.len() == i,
            forall|j: int| 0 <= j < i ==> (#[trigger] folders@[j])@ == worktrees@[j].path.path@,
        decreases worktrees@.len() - i,
    {
        folders.push(worktrees[i].path.path.clone());
        i += 1;
    }
    let distinct = distinct_paths(&folders);
    proof {
        assert(crate::path::path_models(folders@) =~= worktree_texts(worktrees@));
        assert forall|j: int| 0 <= j < worktrees@.len() implies crate::path_order::holds_path(
            crate::path::path_models(distinct@),
            #[trigger] worktree_texts(worktrees@)[j],
        ) by {
            assert(folders@[j]@ == worktree_texts(worktrees@)[j]);
        }
    }
    distinct
}

#[verifier::ext_equal]
pub struct OpenFolderModel {
    pub worktree_id: u64,
    pub name: Seq<char>,
    pub path: PathModel,
    pub compact: PathModel,
    pub branch: Option<Seq<char>>,
    pub is_active: bool,
    pub connection_options: Option<crate::connection::RemoteModel>,
}

/// The host that a project is on.
pub open spec fn optional_connection(options: Option<RemoteConnectionOptions>) -> Option<
    crate::connection::RemoteModel,
> {
    match options {
        Some(options) => Some(options@),
        None => None,
    }
}

impl View for OpenFolderEntry {
    type V = OpenFolderModel;

    open spec fn view(&self) -> OpenFolderModel {
        OpenFolderModel {
            worktree_id: self.worktree_id,
            name: self.name@,
            path: self.path@,
            compact: self.compact@,
            branch: crate::text::optional_text(self.branch),
            is_active: self.is_active,
            connection_options: optional_connection(self.connection_options),
        }
    }
}

/// What a sequence of open folders stands for.
pub open spec fn folder_models(folders: Seq<OpenFolderEntry>) -> Seq<OpenFolderModel> {
    Seq::new(folders.len(), |i: int| folders[i]@)
}

/// A worktree as an open folder.
pub open spec fn as_folder(worktree: VisibleWorktree, project: ProjectFolders) -> OpenFolderModel {
    OpenFolderModel {
        worktree_id: worktree.id,
        name: worktree.path.suffix@,
        path: worktree.path.path@,
        compact: worktree.path.compact@,
        branch: branch_of(worktree.path.path@, project.repositories@),
        is_active: active_worktree(project) == Some(worktree.id),
        connection_options: optional_connection(project.connection_options),
    }
}

/// The names of worktrees, in lower case.
pub open spec fn lower_suffixes(worktrees: Seq<VisibleWorktree>) -> Seq<Seq<char>> {
    Seq::new(
        worktrees.len(),
        |i: int| crate::text_order::lowercase(worktrees[i].path.suffix@),
    )
}

/// The folders that are listed for a project: none where it has only one, and all of them by
/// their names but for case otherwise.
pub open spec fn open_folders(project: ProjectFolders) -> Seq<OpenFolderModel> {
    let worktrees = project.visible_worktrees@;
    if worktrees.len() <= 1 {
        Seq::<OpenFolderModel>::empty()
    } else {
        let places = crate::text_order::sorted_places(lower_suffixes(worktrees));
        Seq::new(places.len(), |i: int| as_folder(worktrees[places[i]], project))
    }
}

/// Lists the folders of a project.
pub fn get_open_folders(project: &ProjectFolders) -> (entries: Vec<OpenFolderEntry>)
    ensures
        folder_models(entries@) == open_folders(*project),
{
    let worktrees = &project.visible_worktrees;
    let mut entries: Vec<OpenFolderEntry> = Vec::new();
    if worktrees.len() <= 1 {
        assert(folder_models(entries@) =~= Seq::<OpenFolderModel>::empty());
        return entries;
    }
    let active = find_active_worktree(project);
    let mut keys: Vec<String> = Vec::new();
    let mut i: usize = 0;
    while i < worktrees.len()
        invariant
            i <= worktrees@.len(),
            keys@.len() == i,
            forall|j: int|
                0 <= j < i ==> (#[trigger] keys@[j])@ == crate::text_order::lowercase(
                    worktrees@[j].path.suffix@,
                ),
        decreases worktrees@.len() - i,
    {
        keys.push(to_lowercase(worktrees[i].path.suffix.as_str()));
        i += 1;
    }
    assert(crate::text::texts(keys@) =~= lower_suffixes(worktrees@));
    let places = sort_places(&keys);
    let mut next: usize = 0;
    while next < places.len()
        invariant
            next <= places@.len(),
            worktrees@ == project.visible_worktrees@,
            keys@.len() == worktrees@.len(),
            worktrees@.len() > 1,
            active == active_worktree(*project),
            forall|j: int| 0 <= j < places@.len() ==> #[trigger] places@[j] < keys@.len(),
            crate::text_order::as_places(places@) == crate::text_order::sorted_places(
                lower_suffixes(worktrees@),
            ),
            entries@.len() == next,
            forall|j: int|
                0 <= j < next ==> (#[trigger] entries@[j])@ == open_folders(*project)[j],
        decreases places@.len() - next,
    {
        let worktree = &worktrees[places[next]];
        let is_active = match active {
            Some(id) => id == worktree.id,
            None => false,
        };
        let entry = OpenFolderEntry {
            worktree_id: worktree.id,
            name: worktree.path.suffix.clone(),
            path: worktree.path.path.clone(),
            compact: worktree.path.compact.clone(),
            branch: get_branch_for_worktree(&worktree.path.path, &project.repositories),
            is_active,
            connection_options: match &project.connection_options {
                Some(options) => Some(options.clone()),
                None => None,
            },
        };
        proof {
            assert(crate::text_order::as_places(places@)[next as int] == places@[next as int]);
            assert(entry@ =~= as_folder(*worktree, *project));
        }
        entries.push(entry);
        next += 1;
    }
    assert(folder_models(entries@) =~= open_folders(*project));
    entries
}

/// The folders that are listed for a project with several are all of its folders, once each, in
/// the order of their names but for case.
pub proof fn law_folders_are_listed_by_name(project: ProjectFolders)
    requires
        project.visible_worktrees@.len() > 1,
    ensures
        open_folders(project).to_multiset() == Seq::new(
            project.visible_worktrees@.len(),
            |i: int| as_folder(project.visible_worktrees@[i], project),
        ).to_multiset(),
        forall|i: int, j: int|
            0 <= i <= j < open_folders(project).len() ==> crate::text_order::text_le(
                crate::text_order::lowercase((#[trigger] open_folders(project)[i]).name),
                crate::text_order::lowercase((#[trigger] open_folders(project)[j]).name),
            ),
{
    let worktrees = project.visible_worktrees@;
    let keys = lower_suffixes(worktrees);
    let places = crate::text_order::sorted_places(keys);
    crate::text_order::law_sorting_is_stable(keys);
    let all = Seq::new(worktrees.len(), |i: int| as_folder(worktrees[i], project));
    crate::text_order::lemma_rearranged(all, places);
    assert forall|i: int| 0 <= i < places.len() implies open_folders(project)[i]
        == all[places[i]] by {
        assert(places.contains(places[i]));
    }
    assert(open_folders(project) =~= Seq::new(places.len(), |i: int| all[places[i]]));
    assert forall|i: int, j: int|
        0 <= i <= j < open_folders(project).len() implies crate::text_order::text_le(
        crate::text_order::lowercase((#[trigger] open_folders(project)[i]).name),
        crate::text_order::lowercase((#[trigger] open_folders(project)[j]).name),
    ) by {
        assert(places.contains(places[i]));
        assert(places.contains(places[j]));
        assert(keys[places[i]] == crate::text_order::lowercase(open_folders(project)[i].name));
        assert(keys[places[j]] == crate::text_order::lowercase(open_folders(project)[j].name));
        crate::text_order::law_text_order_is_total(keys[places[i]], keys[places[j]]);
    }
}

} // verus!
