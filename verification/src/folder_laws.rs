//! What holds of recent projects and open folders as they are listed, and of distributions.

use crate::connection::WslConnectionOptions;
use crate::path::PathModel;
use crate::recent_entries::{RecentWorkspace, RecentWorkspaceId};
use crate::recent_folders as folders;
use crate::recent_folders::{
    BranchRepository, ProjectFolders, RecentProjectEntry, VisibleWorktree,
};
use crate::recent_panel as panel;
use crate::recent_panel::{ChosenPath, OpenInWsl};
use crate::remote_connections::WslConnection;
use vstd::prelude::*;

verus! {

/// Recent projects are listed in the order of the stored workspaces: those on this machine but the
/// one that is open.
pub proof fn law_recent_projects_are_local_and_not_open(
    workspaces: Seq<RecentWorkspace>,
    next: RecentWorkspace,
    current: Option<RecentWorkspaceId>,
)
    ensures
        folders::listed_projects(Seq::<RecentWorkspace>::empty(), current).len() == 0,
        if next.location is Local && current != Some(next.workspace_id) {
            folders::listed_projects(workspaces.push(next), current) == folders::listed_projects(
                workspaces,
                current,
            ).push(folders::as_project(next)) && folders::listed_folders(
                workspaces.push(next),
                current,
            ) == folders::listed_folders(workspaces, current) + Seq::new(
                next.identity_paths@.len(),
                |i: int| next.identity_paths@[i].path@,
            )
        } else {
            folders::listed_projects(workspaces.push(next), current) == folders::listed_projects(
                workspaces,
                current,
            ) && folders::listed_folders(workspaces.push(next), current) == folders::listed_folders(
                workspaces,
                current,
            )
        },
{
    assert(workspaces.push(next).drop_last() =~= workspaces);
    assert(crate::recent_entries::listed_paths(next.identity_paths@) =~= Seq::new(
        next.identity_paths@.len(),
        |i: int| next.identity_paths@[i].path@,
    ));
}

/// A recent project has the identity, the time and all the paths of its workspace. Its name puts the
/// names of its folders together, and its full path their paths, a line each.
pub proof fn law_recent_projects_show_their_workspace(workspace: RecentWorkspace)
    ensures
        ({
            let shown = folders::as_project(workspace);
            let paths = workspace.identity_paths@;
            &&& shown.workspace_id == workspace.workspace_id
            &&& shown.timestamp == workspace.timestamp
            &&& shown.paths == Seq::new(workspace.paths@.len(), |i: int| workspace.paths@[i]@)
            &&& shown.name == crate::text_span::joined_by(
                folders::nonempty(Seq::new(paths.len(), |i: int| paths[i].suffix@)),
                ", "@,
            )
            &&& shown.full_path == crate::text_span::joined_by(
                Seq::new(paths.len(), |i: int| paths[i].path@.text),
                "\n"@,
            )
        }),
{
    let paths = workspace.identity_paths@;
    assert(crate::recent_entries::suffix_texts(paths) =~= Seq::new(
        paths.len(),
        |i: int| paths[i].suffix@,
    ));
    assert(crate::recent_entries::listed_texts(paths) =~= Seq::new(
        paths.len(),
        |i: int| paths[i].path@.text,
    ));
    assert(crate::path::path_models(workspace.paths@) =~= Seq::new(
        workspace.paths@.len(),
        |i: int| workspace.paths@[i]@,
    ));
}

/// Empty names are left out, the others stay in their order.
pub proof fn law_empty_names_are_left_out(parts: Seq<Seq<char>>, next: Seq<char>)
    ensures
        folders::nonempty(Seq::<Seq<char>>::empty()).len() == 0,
        folders::nonempty(parts.push(next)) == if next.len() > 0 {
            folders::nonempty(parts).push(next)
        } else {
            folders::nonempty(parts)
        },
{
    assert(parts.push(next).drop_last() =~= parts);
}

/// The list of recent projects is the whole list, or as much of its front as is asked for.
pub proof fn law_recent_projects_are_limited(
    current: Option<RecentWorkspaceId>,
    limit: Option<usize>,
    workspaces: Vec<RecentWorkspace>,
    entries: Vec<RecentProjectEntry>,
    i: int,
)
    requires
        call_ensures(folders::get_recent_projects, (current, limit, &workspaces), entries),
    ensures
        ({
            let all = folders::listed_projects(workspaces@, current);
            &&& limit is None ==> entries@.len() == all.len()
            &&& limit matches Some(count) ==> entries@.len() == if count < all.len() {
                count as int
            } else {
                all.len() as int
            }
            &&& 0 <= i < entries@.len() ==> entries@[i]@ == all[i]
        }),
{
    let shown = folders::project_models(entries@);
    assert(shown.len() == entries@.len());
    if 0 <= i < entries@.len() {
        assert(shown[i] == entries@[i]@);
    }
}

/// The branch of a path is that of the repository whose directory holds it most closely.
pub proof fn law_branches_come_from_the_innermost_repository(
    path: PathModel,
    repositories: Seq<BranchRepository>,
)
    ensures
        (forall|i: int|
            0 <= i < repositories.len() ==> !crate::path::within(
                path,
                (#[trigger] repositories[i]).work_directory@,
            )) ==> folders::branch_of(path, repositories) is None,
        (exists|i: int|
            0 <= i < repositories.len() && crate::path::within(
                path,
                (#[trigger] repositories[i]).work_directory@,
            )) ==> exists|i: int|
            0 <= i < repositories.len() && crate::path::within(
                path,
                (#[trigger] repositories[i]).work_directory@,
            ) && folders::branch_of(path, repositories) == crate::text::optional_text(
                repositories[i].branch,
            ) && forall|j: int|
                0 <= j < repositories.len() && crate::path::within(
                    path,
                    (#[trigger] repositories[j]).work_directory@,
                ) ==> crate::text_span::byte_length(repositories[j].work_directory@.text)
                    <= crate::text_span::byte_length(repositories[i].work_directory@.text),
{
    let directories = folders::branch_directories(repositories);
    crate::path_order::law_innermost_is_longest(directories, path);
    assert(forall|i: int|
        0 <= i < repositories.len() ==> (#[trigger] repositories[i]).work_directory@
            == directories[i]);
    assert(forall|i: int|
        0 <= i < repositories.len() ==> repositories[i].work_directory@
            == #[trigger] directories[i]);
}

/// The active folder is the first in the active repository, or the first of all where no repository
/// is active.
pub proof fn law_active_folder_is_the_first_in_the_repository(project: ProjectFolders)
    ensures
        ({
            let worktrees = project.visible_worktrees@;
            match project.active_repository {
                None => folders::active_worktree(project) == if worktrees.len() > 0 {
                    Some(worktrees[0].id)
                } else {
                    None
                },
                Some(directory) => match folders::active_worktree(project) {
                    Some(id) => exists|i: int|
                        0 <= i < worktrees.len() && (#[trigger] worktrees[i]).id == id
                            && crate::path::within(worktrees[i].path.path@, directory@) && forall|j: int|
                            0 <= j < i ==> !crate::path::within(
                                (#[trigger] worktrees[j]).path.path@,
                                directory@,
                            ),
                    None => forall|i: int|
                        0 <= i < worktrees.len() ==> !crate::path::within(
                            (#[trigger] worktrees[i]).path.path@,
                            directory@,
                        ),
                },
            }
        }),
{
    match project.active_repository {
        Some(directory) => lemma_first_within(project.visible_worktrees@, directory@),
        None => {},
    }
}

proof fn lemma_first_within(worktrees: Seq<VisibleWorktree>, directory: PathModel)
    ensures
        match folders::first_within(worktrees, directory) {
            Some(id) => exists|i: int|
                0 <= i < worktrees.len() && (#[trigger] worktrees[i]).id == id
                    && crate::path::within(worktrees[i].path.path@, directory) && forall|j: int|
                    0 <= j < i ==> !crate::path::within(
                        (#[trigger] worktrees[j]).path.path@,
                        directory,
                    ),
            None => forall|i: int|
                0 <= i < worktrees.len() ==> !crate::path::within(
                    (#[trigger] worktrees[i]).path.path@,
                    directory,
                ),
        },
    decreases worktrees.len(),
{
    if worktrees.len() > 0 {
        let rest = worktrees.skip(1);
        if crate::path::within(worktrees[0].path.path@, directory) {
            assert(worktrees[0].id == worktrees[0].id);
        } else {
            lemma_first_within(rest, directory);
            match folders::first_within(rest, directory) {
                Some(id) => {
                    let i = choose|i: int|
                        0 <= i < rest.len() && (#[trigger] rest[i]).id == id && crate::path::within(
                            rest[i].path.path@,
                            directory,
                        ) && forall|j: int|
                            0 <= j < i ==> !crate::path::within(
                                (#[trigger] rest[j]).path.path@,
                                directory,
                            );
                    assert(worktrees[i + 1].id == id);
                    assert forall|j: int| 0 <= j < i + 1 implies !crate::path::within(
                        (#[trigger] worktrees[j]).path.path@,
                        directory,
                    ) by {
                        if j > 0 {
                            assert(rest[j - 1] == worktrees[j]);
                        }
                    }
                },
                None => {
                    assert forall|i: int| 0 <= i < worktrees.len() implies !crate::path::within(
                        (#[trigger] worktrees[i]).path.path@,
                        directory,
                    ) by {
                        if i > 0 {
                            assert(rest[i - 1] == worktrees[i]);
                        }
                    }
                },
            }
        }
    }
}

/// An open folder is listed with its identity, name and path, the branch of its path, and the
/// project's host. A single folder is not listed.
pub proof fn law_open_folders_show_their_worktree(worktree: VisibleWorktree, project: ProjectFolders)
    ensures
        ({
            let shown = folders::as_folder(worktree, project);
            &&& shown.worktree_id == worktree.id
            &&& shown.name == worktree.path.suffix@
            &&& shown.path == worktree.path.path@
            &&& shown.compact == worktree.path.compact@
            &&& shown.branch == folders::branch_of(worktree.path.path@, project.repositories@)
            &&& shown.is_active <==> folders::active_worktree(project) == Some(worktree.id)
            &&& match project.connection_options {
                Some(options) => shown.connection_options == Some(options@),
                None => shown.connection_options is None,
            }
        }),
        project.visible_worktrees@.len() <= 1 ==> folders::open_folders(project).len() == 0,
        project.visible_worktrees@.len() > 1 ==> folders::open_folders(project).len()
            == project.visible_worktrees@.len(),
{
    crate::text_order::law_sorting_is_stable(
        folders::lower_suffixes(project.visible_worktrees@),
    );
}

/// A chosen path in a distribution opens that path there, the first such path before all others.
/// Paths that a distribution can see ask for one, in their order. Anything else is no path for it,
/// and choosing nothing does nothing.
pub proof fn law_folders_open_in_their_distribution(
    chosen: Option<Vec<ChosenPath>>,
    action: OpenInWsl,
)
    requires
        call_ensures(panel::open_folder_in_wsl, (chosen,), action),
    ensures
        chosen is None ==> action is Nothing,
        chosen matches Some(paths) ==> match action {
            OpenInWsl::Nothing => false,
            OpenInWsl::OpenProject { options, path } => options.user is None && exists|i: int|
                0 <= i < paths@.len() && ((#[trigger] paths@[i]).inside matches Some(inside)
                    && inside.distro@ == options.distro_name@ && inside.path@ == path@) && forall|j: int|
                    0 <= j < i ==> (#[trigger] paths@[j]).inside is None,
            OpenInWsl::InvalidPath => forall|i: int|
                0 <= i < paths@.len() ==> (#[trigger] paths@[i]).inside is None
                    && paths@[i].from_wsl is None,
            OpenInWsl::ChooseDistro { paths: seen } => seen@.len() > 0 && (forall|i: int|
                0 <= i < paths@.len() ==> (#[trigger] paths@[i]).inside is None)
                && crate::text::texts(seen@) == panel::seen_from_wsl(paths@),
        },
{
    match chosen {
        Some(paths) => {
            lemma_first_inside(paths@);
            lemma_seen(paths@);
            match action {
                OpenInWsl::ChooseDistro { paths: seen } => {
                    assert(crate::text::texts(seen@).len() == seen@.len());
                },
                _ => {},
            }
        },
        None => {},
    }
}

proof fn lemma_first_inside(paths: Seq<ChosenPath>)
    ensures
        match panel::first_inside(paths) {
            Some(found) => exists|i: int|
                0 <= i < paths.len() && (#[trigger] paths[i]).inside == Some(found) && forall|j: int|
                    0 <= j < i ==> (#[trigger] paths[j]).inside is None,
            None => forall|i: int| 0 <= i < paths.len() ==> (#[trigger] paths[i]).inside is None,
        },
    decreases paths.len(),
{
    if paths.len() > 0 {
        let rest = paths.skip(1);
        if paths[0].inside is Some {
            assert(paths[0].inside == panel::first_inside(paths));
        } else {
            lemma_first_inside(rest);
            match panel::first_inside(rest) {
                Some(found) => {
                    let i = choose|i: int|
                        0 <= i < rest.len() && (#[trigger] rest[i]).inside == Some(found) && forall|
                            j: int,
                        |
                            0 <= j < i ==> (#[trigger] rest[j]).inside is None;
                    assert(paths[i + 1].inside == Some(found));
                    assert forall|j: int| 0 <= j < i + 1 implies (
                    #[trigger] paths[j]).inside is None by {
                        if j > 0 {
                            assert(rest[j - 1] == paths[j]);
                        }
                    }
                },
                None => {
                    assert forall|i: int| 0 <= i < paths.len() implies (
                    #[trigger] paths[i]).inside is None by {
                        if i > 0 {
                            assert(rest[i - 1] == paths[i]);
                        }
                    }
                },
            }
        }
    }
}

proof fn lemma_seen(paths: Seq<ChosenPath>)
    ensures
        panel::seen_from_wsl(paths).len() == 0 ==> forall|i: int|
            0 <= i < paths.len() ==> (#[trigger] paths[i]).from_wsl is None,
    decreases paths.len(),
{
    if paths.len() > 0 {
        let earlier = paths.drop_last();
        lemma_seen(earlier);
        assert(forall|i: int| 0 <= i < earlier.len() ==> (#[trigger] paths[i]) == earlier[i]);
        assert(paths[paths.len() - 1] == paths.last());
    }
}

/// The paths that a distribution can see are those with such a form, in their order.
pub proof fn law_paths_are_seen_in_order(paths: Seq<ChosenPath>, next: ChosenPath)
    ensures
        panel::seen_from_wsl(Seq::<ChosenPath>::empty()).len() == 0,
        panel::seen_from_wsl(paths.push(next)) == match next.from_wsl {
            Some(path) => panel::seen_from_wsl(paths).push(path@),
            None => panel::seen_from_wsl(paths),
        },
{
    assert(paths.push(next).drop_last() =~= paths);
}

/// Whether a distribution in the settings is the one that options lead to, under the same user.
pub open spec fn is_distribution(connection: WslConnection, options: WslConnectionOptions) -> bool {
    connection.distro_name@ == options.distro_name@ && crate::text::optional_text(connection.user)
        == crate::text::optional_text(options.user)
}

/// A distribution that the settings have, under the same user, leaves them as they are. Any other is
/// put behind those that are there, under its name and user and without projects.
pub proof fn law_new_distributions_are_put_behind(
    settings: Option<Vec<WslConnection>>,
    before: Seq<WslConnection>,
    options: WslConnectionOptions,
    result: Vec<WslConnection>,
)
    requires
        settings matches Some(connections) ==> before == connections@,
        settings is None ==> before.len() == 0,
        call_ensures(panel::add_wsl_distro, (settings, &options), result),
    ensures
        ({
            if exists|i: int| 0 <= i < before.len() && is_distribution(#[trigger] before[i], options) {
                result@ == before
            } else {
                &&& result@.len() == before.len() + 1
                &&& result@.drop_last() == before
                &&& is_distribution(result@.last(), options)
                &&& result@.last().projects@.len() == 0
            }
        }),
{
    assert(before =~= panel::distros_of(settings));
    let models = panel::distro_models(before);
    let wanted = (options.distro_name@, crate::text::optional_text(options.user));
    if exists|i: int| 0 <= i < before.len() && is_distribution(#[trigger] before[i], options) {
        let i = choose|i: int|
            0 <= i < before.len() && is_distribution(#[trigger] before[i], options);
        assert(models[i] == wanted);
        assert(models.contains(wanted));
    } else {
        if models.contains(wanted) {
            let i = choose|i: int| 0 <= i < models.len() && models[i] == wanted;
            assert(is_distribution(before[i], options));
        }
        let after = panel::distro_models(result@);
        let last = before.len() as int;
        assert(result@ == before.push(result@.last()));
        assert(after == models.push(wanted));
        assert(after[last] == panel::distro_model(result@[last]));
        assert(after[last] == wanted);
        assert(result@.last() == result@[last]);
        assert(result@.drop_last() =~= before);
    }
}

} // verus!
