//! What holds of the list of projects: its lines, and what is done with them.

use crate::connection::RemoteConnectionOptions;
use crate::path::HostPath;
use crate::recent_actions as actions;
use crate::recent_actions::{ConfirmAction, OpenRecentModel, RemoveAction};
use crate::recent_entries::{
    EntryModel, IconName, ListedPath, MatchModel, PickerSection, ProjectGroupKey,
    ProjectPickerStyle, RecentWorkspace, SerializedWorkspaceLocation, StringMatchCandidate,
};
use crate::recent_projects as list;
use crate::recent_projects::{CurrentWorkspace, PickerMatches, RecentProjectsDelegate};
use crate::recent_view as view;
use crate::recent_view::{ConfirmButton, PickerFooter, PickerRow, RemoveButton};
use crate::remote_connections::{RemoteSettings, WindowHandle};
use vstd::prelude::*;

verus! {

/// How many lines a section takes, with its title.
pub open spec fn section_height(count: int) -> int {
    if count == 0 {
        0
    } else {
        count + 1
    }
}

/// Nothing is asked for exactly where the query is all white space.
pub proof fn law_blank_queries_ask_nothing(query: Seq<char>)
    ensures
        list::asks_nothing(query) <==> forall|i: int|
            0 <= i < query.len() ==> crate::text_span::white_space(#[trigger] query[i]),
    decreases query.len(),
{
    if query.len() > 0 {
        let rest = query.skip(1);
        law_blank_queries_ask_nothing(rest);
        assert(forall|i: int| 0 <= i < rest.len() ==> (#[trigger] rest[i]) == query[i + 1]);
        if crate::text_span::white_space(query[0]) {
            if list::asks_nothing(query) {
                assert forall|i: int| 0 <= i < query.len() implies crate::text_span::white_space(
                    #[trigger] query[i],
                ) by {
                    if i > 0 {
                        assert(rest[i - 1] == query[i]);
                    }
                }
            }
        }
    }
}

/// Without a query everything is listed: the open folders, the groups of this window and the recent
/// workspaces on offer, each section under its title, in this order, and nothing highlighted.
pub proof fn law_everything_is_listed_without_a_query(
    delegate: RecentProjectsDelegate,
    query: Seq<char>,
    current: Option<CurrentWorkspace>,
    matches: PickerMatches,
    i: int,
)
    requires
        forall|j: int| 0 <= j < query.len() ==> crate::text_span::white_space(#[trigger] query[j]),
    ensures
        ({
            let lines = list::listed_lines(delegate, query, current, matches);
            let offered = list::candidates(delegate, current);
            let folders = delegate.open_folders@.len() as int;
            let groups = delegate.window_project_groups@.len() as int;
            let second = section_height(folders);
            let third = second + section_height(groups);
            &&& lines.len() == third + section_height(offered.len() as int)
            &&& folders > 0 ==> lines[0] == EntryModel::Header("Current Folders"@)
            &&& 0 <= i < folders ==> lines[1 + i] == (EntryModel::OpenFolder {
                index: i,
                positions: Seq::empty(),
            })
            &&& groups > 0 ==> lines[second] == EntryModel::Header("This Window"@)
            &&& 0 <= i < groups ==> lines[second + 1 + i] == EntryModel::ProjectGroup(
                MatchModel { candidate_id: i, positions: Seq::empty(), string: Seq::empty() },
            )
            &&& offered.len() > 0 ==> lines[third] == EntryModel::Header("Recent Projects"@)
            &&& 0 <= i < offered.len() ==> lines[third + 1 + i] == EntryModel::RecentProject(
                MatchModel {
                    candidate_id: offered[i],
                    positions: Seq::empty(),
                    string: Seq::empty(),
                },
            )
        }),
{
    law_blank_queries_ask_nothing(query);
}

/// With a query what matches it is listed, in the order in which it matches and highlighted as it
/// does, section by section and each under its title.
pub proof fn law_matches_are_listed_for_a_query(
    delegate: RecentProjectsDelegate,
    query: Seq<char>,
    current: Option<CurrentWorkspace>,
    matches: PickerMatches,
    letter: int,
    i: int,
)
    requires
        0 <= letter < query.len(),
        !crate::text_span::white_space(query[letter]),
    ensures
        ({
            let lines = list::listed_lines(delegate, query, current, matches);
            let folders = if delegate.open_folders@.len() == 0 {
                0
            } else {
                matches.folders@.len() as int
            };
            let groups = matches.groups@.len() as int;
            let recents = matches.recents@.len() as int;
            let second = section_height(folders);
            let third = second + section_height(groups);
            &&& lines.len() == third + section_height(recents)
            &&& folders > 0 ==> lines[0] == EntryModel::Header("Current Folders"@)
            &&& 0 <= i < folders ==> lines[1 + i] == (EntryModel::OpenFolder {
                index: matches.folders@[i].candidate_id as int,
                positions: matches.folders@[i].positions@,
            })
            &&& groups > 0 ==> lines[second] == EntryModel::Header("This Window"@)
            &&& 0 <= i < groups ==> lines[second + 1 + i] == EntryModel::ProjectGroup(
                matches.groups@[i]@,
            )
            &&& recents > 0 ==> lines[third] == EntryModel::Header("Recent Projects"@)
            &&& 0 <= i < recents ==> lines[third + 1 + i] == EntryModel::RecentProject(
                matches.recents@[i]@,
            )
        }),
{
    law_blank_queries_ask_nothing(query);
    assert(!list::asks_nothing(query));
}

/// A recent workspace is on offer unless it is the one that is open, belongs to a group of this
/// window, or has a path that is an open folder.
pub proof fn law_open_projects_are_not_offered(
    delegate: RecentProjectsDelegate,
    workspace: RecentWorkspace,
    current: Option<CurrentWorkspace>,
)
    ensures
        list::is_candidate(delegate, workspace, current) <==> {
            &&& current matches Some(open) ==> open.database_id != Some(workspace.workspace_id)
            &&& forall|g: int|
                0 <= g < delegate.window_project_groups@.len() ==> !workspace.matching_groups@.contains(
                    (#[trigger] delegate.window_project_groups@[g]).id,
                )
            &&& forall|p: int, f: int|
                0 <= p < workspace.paths@.len() && 0 <= f < delegate.open_folders@.len()
                    ==> !crate::path::same_path(
                    (#[trigger] workspace.paths@[p])@,
                    (#[trigger] delegate.open_folders@[f]).path@,
                )
        },
{
}

/// Every line but a title can be selected, and belongs to the section of its kind.
pub proof fn law_lines_belong_to_sections(entry: EntryModel)
    ensures
        crate::recent_entries::selectable(entry) <==> !(entry is Header),
        crate::recent_entries::section_of(entry) == Some(PickerSection::CurrentFolders) <==> entry is OpenFolder,
        crate::recent_entries::section_of(entry) == Some(PickerSection::ThisWindow) <==> entry is ProjectGroup,
        crate::recent_entries::section_of(entry) == Some(PickerSection::RecentProjects) <==> entry is RecentProject,
{
}

/// What is searched in are the names of folders, and the paths of groups and of offered workspaces,
/// one behind the other.
pub proof fn law_candidates_are_searched_by_path(
    delegate: RecentProjectsDelegate,
    current: Option<CurrentWorkspace>,
    folders: Vec<StringMatchCandidate>,
    groups: Vec<StringMatchCandidate>,
    recents: Vec<StringMatchCandidate>,
    i: int,
)
    requires
        call_ensures(RecentProjectsDelegate::folder_candidates, (&delegate,), folders),
        call_ensures(RecentProjectsDelegate::project_group_candidates, (&delegate,), groups),
        call_ensures(RecentProjectsDelegate::recent_candidates, (&delegate, &current), recents),
    ensures
        folders@.len() == delegate.open_folders@.len(),
        groups@.len() == delegate.window_project_groups@.len(),
        0 <= i < folders@.len() ==> folders@[i].id == i && folders@[i].text@
            == delegate.open_folders@[i].name@,
        0 <= i < groups@.len() ==> groups@[i].id == i && groups@[i].text@ == list::searched_text(
            delegate.window_project_groups@[i].paths@,
        ),
        0 <= i < recents@.len() ==> list::is_candidate(
            delegate,
            delegate.workspaces@[recents@[i].id as int],
            current,
        ) && recents@[i].text@ == list::searched_text(
            delegate.workspaces@[recents@[i].id as int].identity_paths@,
        ),
{
    let f = list::candidate_models(folders@);
    let g = list::candidate_models(groups@);
    let r = list::candidate_models(recents@);
    assert(f.len() == folders@.len() && g.len() == groups@.len() && r.len() == recents@.len());
    if 0 <= i < folders@.len() {
        assert(f[i] == (folders@[i].id as int, folders@[i].text@));
    }
    if 0 <= i < groups@.len() {
        assert(g[i] == (groups@[i].id as int, groups@[i].text@));
    }
    if 0 <= i < recents@.len() {
        assert(r[i] == (recents@[i].id as int, recents@[i].text@));
        list::law_offered_workspaces_are_listed(delegate, current);
        assert(list::candidates(delegate, current).contains(list::candidates(delegate, current)[i]));
    }
}

/// The searched text of paths is that of the earlier ones followed by that of the last, shortened
/// as it is shown.
pub proof fn law_searched_text_is_put_together(paths: Seq<ListedPath>, next: ListedPath)
    ensures
        list::searched_text(Seq::<ListedPath>::empty()).len() == 0,
        list::searched_text(paths.push(next)) == list::searched_text(paths) + next.compact@.text,
{
    let texts = crate::recent_entries::compact_texts(paths.push(next));
    assert(texts.drop_last() =~= crate::recent_entries::compact_texts(paths));
    assert(crate::recent_entries::compact_texts(Seq::<ListedPath>::empty()) =~= Seq::<
        Seq<char>,
    >::empty());
}

/// Whether a line can take the place of one that was deleted: in the wanted section, or any line.
pub open spec fn can_replace(entry: EntryModel, section: Option<PickerSection>) -> bool {
    match section {
        None => !(entry is Header),
        Some(PickerSection::CurrentFolders) => entry is OpenFolder,
        Some(PickerSection::ThisWindow) => entry is ProjectGroup,
        Some(PickerSection::RecentProjects) => entry is RecentProject,
    }
}

proof fn lemma_first_from(entries: Seq<EntryModel>, from: int, section: Option<PickerSection>)
    requires
        0 <= from,
    ensures
        match actions::nearest_from(entries, from, section) {
            Some(index) => from <= index < entries.len() && can_replace(entries[index], section)
                && forall|i: int| from <= i < index ==> !can_replace(#[trigger] entries[i], section),
            None => forall|i: int|
                from <= i < entries.len() ==> !can_replace(#[trigger] entries[i], section),
        },
    decreases entries.len() - from,
{
    if from < entries.len() && !can_replace(entries[from], section) {
        lemma_first_from(entries, from + 1, section);
    }
}

proof fn lemma_last_before(entries: Seq<EntryModel>, upto: int, section: Option<PickerSection>)
    requires
        0 <= upto <= entries.len(),
    ensures
        match actions::nearest_before(entries, upto, section) {
            Some(index) => 0 <= index < upto && can_replace(entries[index], section) && forall|i: int|
                index < i < upto ==> !can_replace(#[trigger] entries[i], section),
            None => forall|i: int| 0 <= i < upto ==> !can_replace(#[trigger] entries[i], section),
        },
    decreases upto,
{
    if upto > 0 && !can_replace(entries[upto - 1], section) {
        lemma_last_before(entries, upto - 1, section);
    }
}

/// The line that takes the place of a deleted one is the next that can, or the one before where
/// that is preferred; the other way round only where there is none. Lines of the section come before
/// all others.
pub proof fn law_replacement_is_the_nearest(
    entries: Seq<EntryModel>,
    deleted: int,
    prefer_previous: bool,
    section: PickerSection,
)
    requires
        0 <= deleted <= entries.len(),
    ensures
        ({
            let chosen = actions::replacement(entries, deleted, prefer_previous, section);
            let wanted = if exists|i: int|
                0 <= i < entries.len() && can_replace(#[trigger] entries[i], Some(section)) {
                Some(section)
            } else {
                None
            };
            let after = exists|i: int|
                deleted <= i < entries.len() && can_replace(#[trigger] entries[i], wanted);
            let before = exists|i: int| 0 <= i < deleted && can_replace(#[trigger] entries[i], wanted);
            match chosen {
                None => !after && !before,
                Some(index) => {
                    &&& 0 <= index < entries.len()
                    &&& can_replace(entries[index], wanted)
                    &&& if after && (!prefer_previous || !before) {
                        deleted <= index && forall|i: int|
                            deleted <= i < index ==> !can_replace(#[trigger] entries[i], wanted)
                    } else {
                        index < deleted && forall|i: int|
                            index < i < deleted ==> !can_replace(#[trigger] entries[i], wanted)
                    }
                },
            }
        }),
{
    lemma_first_from(entries, deleted, Some(section));
    lemma_first_from(entries, deleted, None);
    lemma_last_before(entries, deleted, Some(section));
    lemma_last_before(entries, deleted, None);
}

/// Removing the selected line is about what it stands for: the root of a folder, the group unless
/// it is the active one, or the stored workspace. Without an open workspace neither a folder nor a
/// stored workspace is removed.
pub proof fn law_removing_is_about_the_selected_line(
    delegate: RecentProjectsDelegate,
    current: Option<CurrentWorkspace>,
    action: RemoveAction,
)
    requires
        actions::removal_matches(delegate, current, action),
        delegate.selected_index < delegate.filtered_entries@.len(),
    ensures
        match delegate.filtered_entries@[delegate.selected_index as int]@ {
            EntryModel::Header(_) => action is Nothing,
            EntryModel::OpenFolder { index, .. } => index < delegate.open_folders@.len() && current is Some
                ==> (action matches RemoveAction::RemoveRoot { path, worktree_id } && path
                == delegate.open_folders@[index].path && worktree_id
                == delegate.open_folders@[index].worktree_id),
            EntryModel::ProjectGroup(hit) => hit.candidate_id < delegate.window_project_groups@.len()
                ==> {
                let id = delegate.window_project_groups@[hit.candidate_id].id;
                if current matches Some(open) && open.group_id == id {
                    action is Nothing
                } else {
                    action == (RemoveAction::RemoveGroup { id })
                }
            },
            EntryModel::RecentProject(hit) => 0 <= hit.candidate_id < delegate.workspaces@.len() ==> if current is Some {
                action matches RemoveAction::DeleteRecent { place } && place == hit.candidate_id
            } else {
                action is Nothing
            },
        },
{
}

/// Nothing is removed where no line is selected.
pub proof fn law_nothing_is_removed_without_a_line(
    delegate: RecentProjectsDelegate,
    current: Option<CurrentWorkspace>,
    action: RemoveAction,
)
    requires
        actions::removal_matches(delegate, current, action),
        delegate.selected_index >= delegate.filtered_entries@.len(),
    ensures
        action is Nothing,
{
}

/// Removing a group leaves the other groups in their order.
pub proof fn law_removing_a_group_goes_part_by_part(
    groups: Seq<ProjectGroupKey>,
    first: ProjectGroupKey,
    id: u64,
)
    ensures
        actions::without_group(Seq::<ProjectGroupKey>::empty(), id).len() == 0,
        actions::without_group(seq![first] + groups, id) == if first.id == id {
            actions::without_group(groups, id)
        } else {
            seq![first] + actions::without_group(groups, id)
        },
{
    assert((seq![first] + groups).skip(1) =~= groups);
}

/// The paths of a recent workspace are added to the open one only where it is on this machine.
pub proof fn law_local_workspaces_can_be_added(
    delegate: RecentProjectsDelegate,
    current: Option<CurrentWorkspace>,
    paths: Option<Vec<HostPath>>,
    hit: MatchModel,
)
    requires
        call_ensures(
            RecentProjectsDelegate::handle_add_to_workspace,
            (&delegate, &current),
            paths,
        ),
        delegate.selected_index < delegate.filtered_entries@.len(),
        delegate.filtered_entries@[delegate.selected_index as int]@ == EntryModel::RecentProject(hit),
        0 <= hit.candidate_id < delegate.workspaces@.len(),
        current is Some,
    ensures
        delegate.workspaces@[hit.candidate_id].location is Local <==> paths is Some,
        paths matches Some(added) ==> added@ == delegate.workspaces@[hit.candidate_id].paths@,
{
}

/// A recent workspace that is open already is not opened again. One on this machine is opened in
/// the workspace that asks, or as a project of the window where that has no identity. A host reached
/// over SSH is connected, to the place that was stored, in the window. Other places are opened with
/// their paths.
pub proof fn law_recent_workspaces_open_where_they_are(
    candidate: RecentWorkspace,
    workspace: CurrentWorkspace,
    window: Option<WindowHandle>,
    settings: RemoteSettings,
)
    ensures
        ({
            let opened = actions::opened_from(candidate, workspace, window, settings);
            if workspace.database_id == Some(candidate.workspace_id) {
                opened is Nothing
            } else {
                match candidate.location {
                    SerializedWorkspaceLocation::Local => match window {
                        None => opened is Nothing,
                        Some(window) => match workspace.identity {
                            Some(identity) => opened == (OpenRecentModel::OpenPaths {
                                target: identity,
                                paths: candidate.paths@,
                                window,
                            }),
                            None => opened == (OpenRecentModel::OpenProject {
                                paths: candidate.paths@,
                                window,
                            }),
                        },
                    },
                    SerializedWorkspaceLocation::Remote {
                        options: RemoteConnectionOptions::Ssh(ssh),
                        ..
                    } => match window {
                        None => opened is NoHostWindow,
                        Some(window) => opened matches OpenRecentModel::ConnectHost {
                            options: crate::connection::RemoteModel::Ssh(options),
                            window: used,
                        } && used == window && options.host == ssh@.host && options.username
                            == ssh@.username && options.port == ssh@.port && options.password
                            == ssh@.password,
                    },
                    SerializedWorkspaceLocation::Remote { options, .. } => opened == (
                    OpenRecentModel::OpenRemote { options: options@, paths: candidate.paths@, window }),
                }
            }
        }),
{
    match candidate.location {
        SerializedWorkspaceLocation::Remote { options: RemoteConnectionOptions::Ssh(ssh), .. } => {
            crate::remote_connections::law_settings_keep_the_place(
                ssh@,
                crate::remote_connections::setting_models(settings.ssh_connections@),
            );
        },
        _ => {},
    }
}

/// Confirming the selected line does what the line is for and leaves the list: a folder's repository
/// becomes active, a group of the window is activated, a recent workspace is opened. A title, or a
/// line that stands for nothing, does nothing and leaves the list open.
pub proof fn law_confirming_does_what_the_line_is_for(
    delegate: RecentProjectsDelegate,
    current: Option<CurrentWorkspace>,
    window: Option<WindowHandle>,
    settings: RemoteSettings,
    result: (ConfirmAction, bool),
)
    requires
        call_ensures(
            RecentProjectsDelegate::confirm,
            (&delegate, &current, window, &settings),
            result,
        ),
        delegate.selected_index < delegate.filtered_entries@.len(),
    ensures
        match delegate.filtered_entries@[delegate.selected_index as int]@ {
            EntryModel::Header(_) => result.0 is Nothing && !result.1,
            EntryModel::OpenFolder { index, .. } => {
                &&& result.1 <==> index < delegate.open_folders@.len()
                &&& result.1 && current is Some ==> result.0 == (ConfirmAction::ActivateRepository {
                    worktree_id: delegate.open_folders@[index].worktree_id,
                })
            },
            EntryModel::ProjectGroup(hit) => {
                &&& result.1 <==> hit.candidate_id < delegate.window_project_groups@.len()
                &&& result.1 ==> (window matches Some(window) ==> result.0 == (
                ConfirmAction::ActivateGroup {
                    id: delegate.window_project_groups@[hit.candidate_id].id,
                    window,
                }))
            },
            EntryModel::RecentProject(hit) => {
                &&& result.1 <==> hit.candidate_id < delegate.workspaces@.len() && current is Some
                &&& result.1 ==> (result.0 matches ConfirmAction::Open(open) && open@
                    == actions::opened_from(
                    delegate.workspaces@[hit.candidate_id],
                    current->0,
                    window,
                    settings,
                ))
            },
        },
{
}

/// The footer says what can be done with the selected line. Removing is offered for every line but a
/// title and the active group; a folder or a group is activated and everything else opened; adding
/// is offered for recent workspaces on this machine. A popover has no such footer.
pub proof fn law_footer_follows_the_selected_line(
    delegate: RecentProjectsDelegate,
    current: Option<CurrentWorkspace>,
    shown: PickerFooter,
)
    requires
        call_ensures(RecentProjectsDelegate::render_footer, (&delegate, &current), shown),
    ensures
        shown is Popover <==> delegate.style == ProjectPickerStyle::Popover,
        shown matches PickerFooter::Modal { remove, confirm, offers_adding } ==> if delegate.selected_index
            >= delegate.filtered_entries@.len() {
            remove is None && confirm == ConfirmButton::Open && !offers_adding
        } else {
            match delegate.filtered_entries@[delegate.selected_index as int]@ {
                EntryModel::Header(_) => remove is None && confirm == ConfirmButton::Open
                    && !offers_adding,
                EntryModel::OpenFolder { .. } => remove == Some(RemoveButton::Folder) && confirm
                    == ConfirmButton::Activate && !offers_adding,
                EntryModel::ProjectGroup(hit) => confirm == ConfirmButton::Activate && !offers_adding
                    && (remove is Some ==> remove == Some(RemoveButton::FromWindow)) && (
                hit.candidate_id < delegate.window_project_groups@.len() ==> (remove is None <==> (
                current matches Some(open) && open.group_id
                    == delegate.window_project_groups@[hit.candidate_id].id))),
                EntryModel::RecentProject(hit) => remove == Some(RemoveButton::Recent) && confirm
                    == ConfirmButton::Open && (offers_adding <==> hit.candidate_id
                    < delegate.workspaces@.len()
                    && delegate.workspaces@[hit.candidate_id].location is Local),
            }
        },
{
}

/// A host is shown by a sign of its kind: this machine, a server, a distribution or a container.
pub proof fn law_hosts_are_shown_by_kind(options: Option<RemoteConnectionOptions>)
    ensures
        crate::recent_entries::connection_icon(options) == IconName::Screen <==> match options {
            None => true,
            Some(options) => options is Local,
        },
        crate::recent_entries::connection_icon(options) == IconName::Linux <==> (options matches Some(
            options,
        ) && options is Wsl),
        crate::recent_entries::connection_icon(options) == IconName::Box <==> (options matches Some(
            options,
        ) && options is Docker),
{
}

/// A folder's line shows its name, branch and place as they are, and highlights what matches.
pub proof fn law_folder_lines_show_the_folder(
    delegate: RecentProjectsDelegate,
    index: usize,
    current: Option<CurrentWorkspace>,
    row: Option<PickerRow>,
    folder: int,
    positions: Seq<usize>,
)
    requires
        index < delegate.filtered_entries@.len(),
        delegate.filtered_entries@[index as int]@ == (EntryModel::OpenFolder {
            index: folder,
            positions,
        }),
        0 <= folder < delegate.open_folders@.len(),
        call_ensures(RecentProjectsDelegate::render_match, (&delegate, index, &current), row),
    ensures
        row matches Some(PickerRow::Folder(shown)) && {
            let entry = delegate.open_folders@[folder];
            &&& shown.worktree_id == entry.worktree_id
            &&& shown.name@ == entry.name@
            &&& shown.positions@ == positions
            &&& crate::text::optional_text(shown.branch) == crate::text::optional_text(entry.branch)
            &&& shown.is_active == entry.is_active
            &&& delegate.style == ProjectPickerStyle::Modal ==> shown.tooltip is None
                && crate::text::optional_text(shown.path) == Some(entry.compact@.text)
            &&& delegate.style == ProjectPickerStyle::Popover ==> shown.path is None && (
            shown.tooltip matches Some(tooltip) && tooltip.path@ == entry.compact@.text && match entry.branch {
                Some(branch) => crate::text::optional_text(tooltip.title) == Some(
                    entry.name@ + "/"@ + branch@,
                ),
                None => tooltip.title is None,
            })
            &&& shown.icon matches Some(icon) ==> icon == crate::recent_entries::connection_icon(
                entry.connection_options,
            )
            &&& entry.connection_options is Some ==> shown.icon is Some
        },
{
}

/// A title's line shows the title, under a divider unless it is the first line. Behind the last line
/// nothing is shown.
pub proof fn law_title_lines_show_the_title(
    delegate: RecentProjectsDelegate,
    index: usize,
    current: Option<CurrentWorkspace>,
    row: Option<PickerRow>,
)
    requires
        call_ensures(RecentProjectsDelegate::render_match, (&delegate, index, &current), row),
    ensures
        index >= delegate.filtered_entries@.len() ==> row is None,
        index < delegate.filtered_entries@.len() ==> (
        delegate.filtered_entries@[index as int]@ matches EntryModel::Header(words) ==> (
        row matches Some(PickerRow::Header { title, divider }) && title@ == words && divider == (index
            > 0))),
{
}

/// A group's line shows the group; the active one is marked and cannot be removed.
pub proof fn law_group_lines_show_the_group(
    delegate: RecentProjectsDelegate,
    index: usize,
    current: Option<CurrentWorkspace>,
    row: Option<PickerRow>,
    hit: MatchModel,
)
    requires
        index < delegate.filtered_entries@.len(),
        delegate.filtered_entries@[index as int]@ == EntryModel::ProjectGroup(hit),
        0 <= hit.candidate_id < delegate.window_project_groups@.len(),
        call_ensures(RecentProjectsDelegate::render_match, (&delegate, index, &current), row),
    ensures
        row matches Some(PickerRow::Group(shown)) && {
            let key = delegate.window_project_groups@[hit.candidate_id];
            let active = current matches Some(open) && open.group_id == key.id;
            &&& shown.id == key.id
            &&& shown.removable == !active
            &&& shown.highlighted.active == active
            &&& shown.highlighted.prefix is None
            &&& shown.highlighted.paths@.len() == if delegate.render_paths {
                key.paths@.len()
            } else {
                0
            }
            &&& shown.tooltip@ == crate::text_span::joined_by(
                crate::recent_entries::compact_texts(key.paths@),
                "\n"@,
            )
            &&& shown.icon matches Some(icon) ==> icon == crate::recent_entries::connection_icon(
                key.host,
            )
            &&& key.host is Some ==> shown.icon is Some
        },
{
    assert(delegate.filtered_entries@[index as int] == delegate.filtered_entries@[index as int]);
    if row is Some && row->0 is Group {
        let shown = row->0->Group_0;
        let models = view::highlight_models(shown.highlighted.paths@);
        assert(models.len() == shown.highlighted.paths@.len());
    }
}

/// The line of a recent workspace names its host where it is on another one, and offers to add it
/// only where it is on this machine.
pub proof fn law_recent_lines_show_the_workspace(
    delegate: RecentProjectsDelegate,
    index: usize,
    current: Option<CurrentWorkspace>,
    row: Option<PickerRow>,
    hit: MatchModel,
)
    requires
        index < delegate.filtered_entries@.len(),
        delegate.filtered_entries@[index as int]@ == EntryModel::RecentProject(hit),
        0 <= hit.candidate_id < delegate.workspaces@.len(),
        call_ensures(RecentProjectsDelegate::render_match, (&delegate, index, &current), row),
    ensures
        row matches Some(PickerRow::Recent(shown)) && {
            let workspace = delegate.workspaces@[hit.candidate_id];
            &&& shown.add_title is Some <==> workspace.location is Local
            &&& match workspace.location {
                SerializedWorkspaceLocation::Local => shown.highlighted.prefix is None,
                SerializedWorkspaceLocation::Remote { display_name, .. } => crate::text::optional_text(
                    shown.highlighted.prefix,
                ) == Some(display_name@),
            }
            &&& !shown.highlighted.active
            &&& shown.highlighted.paths@.len() == if delegate.render_paths {
                workspace.identity_paths@.len()
            } else {
                0
            }
            &&& shown.tooltip_title@ == "Open Project in This Workspace"@
            &&& match workspace.location {
                SerializedWorkspaceLocation::Local => shown.tooltip@ == crate::text_span::joined_by(
                    crate::recent_entries::compact_texts(workspace.identity_paths@),
                    "\n"@,
                ) && (shown.icon matches Some(icon) ==> icon == IconName::Screen) && (
                shown.add_title matches Some(title) && title@ == (if workspace.identity_paths@.len()
                    > 1 {
                    "Add Folders to this Project"@
                } else {
                    "Add Folder to this Project"@
                })),
                SerializedWorkspaceLocation::Remote { options, display_name } => {
                    let folders = crate::recent_entries::compact_texts(workspace.identity_paths@);
                    &&& folders.len() == 1 ==> shown.tooltip@ == folders[0] + " ("@ + display_name@
                        + ")"@
                    &&& folders.len() != 1 ==> shown.tooltip@ == crate::text_span::joined_by(
                        folders,
                        "\n"@,
                    ) + "\n("@ + display_name@ + ")"@
                    &&& shown.icon == Some(crate::recent_entries::connection_icon(Some(options)))
                },
            }
        },
{
    assert(delegate.filtered_entries@[index as int] == delegate.filtered_entries@[index as int]);
    if row is Some && row->0 is Recent {
        let shown = row->0->Recent_0;
        let models = view::highlight_models(shown.highlighted.paths@);
        assert(models.len() == shown.highlighted.paths@.len());
    }
}

/// Hosts are marked in the list exactly where some line is about another host.
pub proof fn law_hosts_are_marked_where_they_differ(delegate: RecentProjectsDelegate, icon: IconName)
    ensures
        view::row_icon(delegate, icon) == Some(icon) || view::row_icon(delegate, icon) is None,
        view::row_icon(delegate, icon) is Some <==> exists|i: int|
            0 <= i < delegate.filtered_entries@.len() && match (
            #[trigger] delegate.filtered_entries@[i])@ {
                EntryModel::Header(_) => false,
                EntryModel::OpenFolder { index, .. } => index < delegate.open_folders@.len()
                    && delegate.open_folders@[index].connection_options is Some,
                EntryModel::ProjectGroup(hit) => hit.candidate_id
                    < delegate.window_project_groups@.len()
                    && delegate.window_project_groups@[hit.candidate_id].host is Some,
                EntryModel::RecentProject(hit) => hit.candidate_id < delegate.workspaces@.len()
                    && delegate.workspaces@[hit.candidate_id].location is Remote,
            },
{
    if view::lists_remote(delegate) {
        let i = choose|i: int|
            0 <= i < delegate.filtered_entries@.len() && view::is_remote_line(
                delegate,
                (#[trigger] delegate.filtered_entries@[i])@,
            );
        assert(delegate.filtered_entries@[i] == delegate.filtered_entries@[i]);
    }
}

proof fn lemma_skipped(positions: Seq<int>, start: int) -> (from: int)
    requires
        view::places_ascend(positions),
    ensures
        0 <= from <= positions.len(),
        view::from_start(positions, start) == positions.skip(from),
        forall|i: int| 0 <= i < from ==> (#[trigger] positions[i]) < start,
        from < positions.len() ==> positions[from] >= start,
    decreases positions.len(),
{
    if positions.len() > 0 && positions[0] < start {
        let rest = positions.skip(1);
        assert forall|i: int, j: int| 0 <= i <= j < rest.len() implies #[trigger] rest[i]
            <= #[trigger] rest[j] by {
            assert(positions[i + 1] <= positions[j + 1]);
        }
        let from = lemma_skipped(rest, start);
        assert(rest.skip(from) =~= positions.skip(from + 1));
        assert forall|i: int| 0 <= i < from + 1 implies (#[trigger] positions[i]) < start by {
            if i > 0 {
                assert(rest[i - 1] < start);
            }
        }
        from + 1
    } else {
        assert(positions.skip(0) =~= positions);
        0
    }
}

proof fn lemma_kept(positions: Seq<int>, end: int) -> (upto: int)
    requires
        view::places_ascend(positions),
    ensures
        0 <= upto <= positions.len(),
        view::upto_end(positions, end) == positions.take(upto),
        forall|i: int| 0 <= i < upto ==> (#[trigger] positions[i]) < end,
        upto < positions.len() ==> positions[upto] >= end,
    decreases positions.len(),
{
    if positions.len() > 0 && positions[0] < end {
        let rest = positions.skip(1);
        assert forall|i: int, j: int| 0 <= i <= j < rest.len() implies #[trigger] rest[i]
            <= #[trigger] rest[j] by {
            assert(positions[i + 1] <= positions[j + 1]);
        }
        let upto = lemma_kept(rest, end);
        assert(seq![positions[0]] + rest.take(upto) =~= positions.take(upto + 1));
        assert forall|i: int| 0 <= i < upto + 1 implies (#[trigger] positions[i]) < end by {
            if i > 0 {
                assert(rest[i - 1] < end);
            }
        }
        upto + 1
    } else {
        assert(positions.take(0) =~= Seq::<int>::empty());
        0
    }
}

/// Of ascending positions, those in a stretch are found, all of them and no others, counted from its
/// start.
pub proof fn law_positions_in_a_stretch_are_found(
    positions: Seq<int>,
    start: int,
    length: int,
    place: int,
)
    requires
        view::places_ascend(positions),
    ensures
        view::stretch_positions(positions, start, length).contains(place) <==> 0 <= place < length
            && positions.contains(start + place),
{
    let from = lemma_skipped(positions, start);
    let rest = positions.skip(from);
    assert forall|i: int, j: int| 0 <= i <= j < rest.len() implies #[trigger] rest[i]
        <= #[trigger] rest[j] by {
        assert(positions[i + from] <= positions[j + from]);
    }
    let upto = lemma_kept(rest, start + length);
    let inside = view::in_stretch(positions, start, length);
    let found = view::stretch_positions(positions, start, length);
    assert(inside == rest.take(upto));
    if found.contains(place) {
        let i = choose|i: int| 0 <= i < found.len() && found[i] == place;
        assert(inside[i] == rest[i] && rest[i] == positions[i + from]);
        assert(rest[0] <= rest[i]);
        assert(positions[from] == rest[0]);
        assert(positions[i + from] == start + place);
    }
    if 0 <= place < length && positions.contains(start + place) {
        let k = choose|k: int| 0 <= k < positions.len() && positions[k] == start + place;
        if k < from {
            assert(positions[k] < start);
        }
        let i = k - from;
        assert(rest[i] == positions[k]);
        if upto <= i {
            assert(rest[upto] <= rest[i]);
        }
        assert(inside[i] == rest[i]);
        assert(found[i] == place);
    }
}

/// A path is shown whole, with what matches in it highlighted; so is its last name, which stands at
/// its end.
pub proof fn law_matches_are_highlighted_in_path_and_name(
    path: crate::path::PathModel,
    positions: Seq<int>,
    offset: int,
    place: int,
)
    requires
        view::places_ascend(positions),
    ensures
        ({
            let length = crate::text_span::byte_length(path.text) as int;
            let shown = view::path_highlight(path, positions, offset);
            &&& shown.text == path.text
            &&& shown.positions.contains(place) <==> 0 <= place < length && positions.contains(
                offset + place,
            )
            &&& match crate::path::file_name_of(path) {
                None => view::name_highlight(path, positions, offset) is None,
                Some(name) => {
                    let own = crate::text_span::byte_length(name) as int;
                    view::name_highlight(path, positions, offset) matches Some(label) && label.text
                        == name && (label.positions.contains(place) <==> 0 <= place < own
                        && positions.contains(offset + (length - own) + place))
                },
            }
        }),
{
    let length = crate::text_span::byte_length(path.text) as int;
    law_positions_in_a_stretch_are_found(positions, offset, length, place);
    match crate::path::file_name_of(path) {
        Some(name) => {
            let own = crate::text_span::byte_length(name) as int;
            let inner = view::path_highlight(path, positions, offset).positions;
            view::lemma_file_name_bytes(path);
            view::law_stretches_of_ascending_positions(positions, offset, length);
            law_positions_in_a_stretch_are_found(inner, length - own, own, place);
            law_positions_in_a_stretch_are_found(positions, offset, length, length - own + place);
        },
        None => {},
    }
}

/// Paths are matched one behind the other: each one starts where those before it end.
pub proof fn law_paths_start_where_the_earlier_end(paths: Seq<ListedPath>, count: int)
    requires
        0 <= count < paths.len(),
    ensures
        view::path_offset(paths, 0) == 0,
        view::path_offset(paths, count + 1) == view::path_offset(paths, count)
            + crate::text_span::byte_length(paths[count].compact@.text),
        ({
            let places = Seq::<int>::empty();
            view::name_highlights(paths, places, 0).len() == 0
        }),
{
}

/// The labels of a line are the names of its paths, in their order, each highlighted where its path
/// starts. A path without a name has no label.
pub proof fn law_labels_are_the_names_of_paths(
    paths: Seq<ListedPath>,
    positions: Seq<int>,
    count: int,
)
    requires
        0 <= count < paths.len(),
    ensures
        ({
            let before = view::name_highlights(paths, positions, count);
            let label = view::name_highlight(
                paths[count].compact@,
                positions,
                view::path_offset(paths, count) as int,
            );
            view::name_highlights(paths, positions, count + 1) == match label {
                Some(label) => before.push(label),
                None => before,
            }
        }),
        view::path_highlights(paths, positions).len() == paths.len(),
        view::path_highlights(paths, positions)[count] == view::path_highlight(
            paths[count].compact@,
            positions,
            view::path_offset(paths, count) as int,
        ),
{
}

/// Joined texts are the texts with the separator between them.
pub proof fn law_joined_texts_have_separators_between(
    parts: Seq<Seq<char>>,
    next: Seq<char>,
    separator: Seq<char>,
)
    ensures
        crate::text_span::joined_by(Seq::<Seq<char>>::empty(), separator).len() == 0,
        crate::text_span::joined_by(seq![next], separator) == next,
        parts.len() > 0 ==> crate::text_span::joined_by(parts.push(next), separator)
            == crate::text_span::joined_by(parts, separator) + separator + next,
{
    assert(parts.push(next).drop_last() =~= parts);
}

} // verus!
