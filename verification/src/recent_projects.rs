//! The list of projects: its lines, what is selected in it, and what is done with a line.

use crate::host_session::HostWorkspaceIdentity;
use crate::path::HostPath;
use crate::recent_entries::{
    clone_positions, is_selectable_entry, EntryModel, ListedPath, MatchModel, OpenFolderEntry,
    ProjectGroupKey, ProjectPickerEntry, ProjectPickerStyle, RecentWorkspace, RecentWorkspaceId,
    StringMatch, StringMatchCandidate,
};
use crate::text_span::trim_start;
use vstd::prelude::*;

verus! {

/// What is read of the workspace that the list belongs to.
#[derive(Debug)]
pub struct CurrentWorkspace {
    pub database_id: Option<RecentWorkspaceId>,
    /// The number of the project group that is shown in it.
    pub group_id: u64,
    /// Which workspace of a host it is.
    pub identity: Option<HostWorkspaceIdentity>,
}

/// What a query was found in.
#[derive(Debug)]
pub struct PickerMatches {
    pub folders: Vec<StringMatch>,
    pub groups: Vec<StringMatch>,
    pub recents: Vec<StringMatch>,
}

/// The list of projects.
#[derive(Debug)]
pub struct RecentProjectsDelegate {
    pub open_folders: Vec<OpenFolderEntry>,
    pub window_project_groups: Vec<ProjectGroupKey>,
    pub workspaces: Vec<RecentWorkspace>,
    pub filtered_entries: Vec<ProjectPickerEntry>,
    pub selected_index: usize,
    pub render_paths: bool,
    pub snap_selection_to_first_non_header_match: bool,
    pub style: ProjectPickerStyle,
}

/// Whether a recent workspace is the current one.
pub open spec fn is_current(current: Option<CurrentWorkspace>, id: RecentWorkspaceId) -> bool {
    current matches Some(workspace) && workspace.database_id == Some(id)
}

/// Whether a recent workspace belongs to one of the groups.
pub open spec fn in_groups(groups: Seq<ProjectGroupKey>, workspace: RecentWorkspace) -> bool {
    exists|i: int|
        0 <= i < groups.len() && workspace.matching_groups@.contains((#[trigger] groups[i]).id)
}

/// Whether one of the paths is a folder that is open.
pub open spec fn has_open_folder(folders: Seq<OpenFolderEntry>, paths: Seq<HostPath>) -> bool {
    exists|i: int, j: int|
        0 <= i < paths.len() && 0 <= j < folders.len() && crate::path::same_path(
            (#[trigger] paths[i])@,
            (#[trigger] folders[j]).path@,
        )
}

/// Whether a recent workspace is offered: it is neither the current one nor shown in this window,
/// and none of its folders is open.
pub open spec fn is_candidate(
    delegate: RecentProjectsDelegate,
    workspace: RecentWorkspace,
    current: Option<CurrentWorkspace>,
) -> bool {
    &&& !is_current(current, workspace.workspace_id)
    &&& !in_groups(delegate.window_project_groups@, workspace)
    &&& !has_open_folder(delegate.open_folders@, workspace.paths@)
}

/// The places of the first recent workspaces that are offered.
pub open spec fn candidates_upto(
    delegate: RecentProjectsDelegate,
    current: Option<CurrentWorkspace>,
    count: nat,
) -> Seq<int>
    decreases count,
{
    if count == 0 {
        Seq::<int>::empty()
    } else {
        let before = candidates_upto(delegate, current, (count - 1) as nat);
        if is_candidate(delegate, delegate.workspaces@[count - 1], current) {
            before.push(count - 1)
        } else {
            before
        }
    }
}

/// The places of the recent workspaces that are offered.
pub open spec fn candidates(
    delegate: RecentProjectsDelegate,
    current: Option<CurrentWorkspace>,
) -> Seq<int> {
    candidates_upto(delegate, current, delegate.workspaces@.len())
}

/// A section of the list: a title in front of its lines, or nothing where it has none.
pub open spec fn section(title: Seq<char>, entries: Seq<EntryModel>) -> Seq<EntryModel> {
    if entries.len() == 0 {
        Seq::<EntryModel>::empty()
    } else {
        seq![EntryModel::Header(title)] + entries
    }
}

/// Whether nothing is looked for.
pub open spec fn asks_nothing(query: Seq<char>) -> bool {
    crate::text_span::trimmed_start(query).len() == 0
}

/// The open folders that are listed: all of them, or those that a query was found in.
pub open spec fn folder_lines(
    delegate: RecentProjectsDelegate,
    query: Seq<char>,
    matches: Seq<MatchModel>,
) -> Seq<EntryModel> {
    if delegate.open_folders@.len() == 0 {
        Seq::<EntryModel>::empty()
    } else if asks_nothing(query) {
        Seq::new(
            delegate.open_folders@.len(),
            |i: int| EntryModel::OpenFolder { index: i, positions: Seq::<usize>::empty() },
        )
    } else {
        Seq::new(
            matches.len(),
            |i: int|
                EntryModel::OpenFolder {
                    index: matches[i].candidate_id,
                    positions: matches[i].positions,
                },
        )
    }
}

/// The groups that are listed: all of them, or those that a query was found in.
pub open spec fn group_lines(
    delegate: RecentProjectsDelegate,
    query: Seq<char>,
    matches: Seq<MatchModel>,
) -> Seq<EntryModel> {
    if asks_nothing(query) {
        Seq::new(
            delegate.window_project_groups@.len(),
            |i: int| EntryModel::ProjectGroup(crate::recent_entries::bare_match(i)),
        )
    } else {
        Seq::new(matches.len(), |i: int| EntryModel::ProjectGroup(matches[i]))
    }
}

/// The recent workspaces that are listed: all that are offered, or those that a query was found
/// in.
pub open spec fn recent_lines(
    delegate: RecentProjectsDelegate,
    query: Seq<char>,
    current: Option<CurrentWorkspace>,
    matches: Seq<MatchModel>,
) -> Seq<EntryModel> {
    if asks_nothing(query) {
        let places = candidates(delegate, current);
        Seq::new(
            places.len(),
            |i: int| EntryModel::RecentProject(crate::recent_entries::bare_match(places[i])),
        )
    } else {
        Seq::new(matches.len(), |i: int| EntryModel::RecentProject(matches[i]))
    }
}

/// The lines of the list for a query.
pub open spec fn listed_lines(
    delegate: RecentProjectsDelegate,
    query: Seq<char>,
    current: Option<CurrentWorkspace>,
    matches: PickerMatches,
) -> Seq<EntryModel> {
    section(
        "Current Folders"@,
        folder_lines(
            delegate,
            query,
            crate::recent_entries::match_models(matches.folders@),
        ),
    ) + section(
        "This Window"@,
        group_lines(delegate, query, crate::recent_entries::match_models(matches.groups@)),
    ) + section(
        "Recent Projects"@,
        recent_lines(
            delegate,
            query,
            current,
            crate::recent_entries::match_models(matches.recents@),
        ),
    )
}

/// The first line from a place on that can be selected, or the first line where none can.
pub open spec fn first_selectable(entries: Seq<EntryModel>, from: int) -> int
    decreases entries.len() - from,
{
    if from < 0 || from >= entries.len() {
        0
    } else if crate::recent_entries::selectable(entries[from]) {
        from
    } else {
        first_selectable(entries, from + 1)
    }
}

/// Whether the positions in each line go up.
pub open spec fn positions_ascend(entries: Seq<EntryModel>) -> bool {
    forall|i: int|
        0 <= i < entries.len() ==> match #[trigger] entries[i] {
            EntryModel::Header(_) => true,
            EntryModel::OpenFolder { index, positions } => crate::recent_entries::ascending(
                positions,
            ),
            EntryModel::ProjectGroup(hit) => crate::recent_entries::ascending(hit.positions),
            EntryModel::RecentProject(hit) => crate::recent_entries::ascending(hit.positions),
        }
}

/// Whether the positions in each match go up.
pub open spec fn matches_ascend(matches: Seq<MatchModel>) -> bool {
    forall|i: int|
        0 <= i < matches.len() ==> crate::recent_entries::ascending(
            (#[trigger] matches[i]).positions,
        )
}

impl RecentProjectsDelegate {
    /// The list before anything was looked for.
    pub fn new(
        open_folders: Vec<OpenFolderEntry>,
        window_project_groups: Vec<ProjectGroupKey>,
        style: ProjectPickerStyle,
    ) -> (delegate: Self)
        ensures
            delegate.open_folders == open_folders,
            delegate.window_project_groups == window_project_groups,
            delegate.workspaces@.len() == 0,
            delegate.filtered_entries@.len() == 0,
            delegate.selected_index == 0,
            delegate.render_paths == (style == ProjectPickerStyle::Modal),
            delegate.snap_selection_to_first_non_header_match,
            delegate.style == style,
    {
        RecentProjectsDelegate {
            open_folders,
            window_project_groups,
            workspaces: Vec::new(),
            filtered_entries: Vec::new(),
            selected_index: 0,
            render_paths: style == ProjectPickerStyle::Modal,
            snap_selection_to_first_non_header_match: true,
            style,
        }
    }

    /// Whether nothing but the lines, the selection and how it is set differs.
    pub open spec fn same_projects(&self, other: &Self) -> bool {
        &&& self.open_folders == other.open_folders
        &&& self.window_project_groups == other.window_project_groups
        &&& self.workspaces == other.workspaces
        &&& self.render_paths == other.render_paths
        &&& self.style == other.style
    }

    /// Takes other recent workspaces.
    pub fn set_workspaces(&mut self, workspaces: Vec<RecentWorkspace>)
        ensures
            final(self).workspaces == workspaces,
            final(self).open_folders == old(self).open_folders,
            final(self).window_project_groups == old(self).window_project_groups,
            final(self).filtered_entries == old(self).filtered_entries,
            final(self).selected_index == old(self).selected_index,
            final(self).render_paths == old(self).render_paths,
            final(self).snap_selection_to_first_non_header_match
                == old(self).snap_selection_to_first_non_header_match,
            final(self).style == old(self).style,
    {
        self.workspaces = workspaces;
    }

    /// The name of the list.
    pub fn name() -> (name: &'static str)
        ensures
            name@ == "recent projects"@,
    {
        "recent projects"
    }

    /// What stands where nothing was typed yet.
    pub fn placeholder_text(&self) -> (text: &'static str)
        ensures
            text@ == "Search projects…"@,
    {
        "Search projects…"
    }

    /// How many lines there are.
    pub fn match_count(&self) -> (count: usize)
        ensures
            count == self.filtered_entries@.len(),
    {
        self.filtered_entries.len()
    }

    /// The selected line.
    pub fn selected_index(&self) -> (index: usize)
        ensures
            index == self.selected_index,
    {
        self.selected_index
    }

    /// Selects a line.
    pub fn set_selected_index(&mut self, index: usize)
        ensures
            final(self).selected_index == index,
            final(self).filtered_entries == old(self).filtered_entries,
            final(self).snap_selection_to_first_non_header_match
                == old(self).snap_selection_to_first_non_header_match,
            final(self).same_projects(old(self)),
    {
        self.selected_index = index;
    }

    /// Whether a line is there and can be selected.
    pub fn can_select(&self, index: usize) -> (result: bool)
        ensures
            result == (index < self.filtered_entries@.len() && crate::recent_entries::selectable(
                self.filtered_entries@[index as int]@,
            )),
    {
        index < self.filtered_entries.len() && is_selectable_entry(&self.filtered_entries[index])
    }

    /// What is said where no line is listed.
    pub fn no_matches_text(&self) -> (text: &'static str)
        ensures
            text@ == if self.workspaces@.len() == 0 && self.open_folders@.len() == 0 {
                "Recently opened projects will show up here"@
            } else {
                "No matches"@
            },
    {
        if self.workspaces.len() == 0 && self.open_folders.len() == 0 {
            "Recently opened projects will show up here"
        } else {
            "No matches"
        }
    }

    /// Whether a recent workspace is the current one.
    pub fn is_current_workspace(
        &self,
        workspace_id: RecentWorkspaceId,
        current: &Option<CurrentWorkspace>,
    ) -> (result: bool)
        ensures
            result == is_current(*current, workspace_id),
    {
        match current {
            Some(workspace) => match workspace.database_id {
                Some(id) => id == workspace_id,
                None => false,
            },
            None => false,
        }
    }

    /// Whether a group is the one of the current workspace.
    pub fn is_active_project_group(
        &self,
        key: &ProjectGroupKey,
        current: &Option<CurrentWorkspace>,
    ) -> (result: bool)
        ensures
            result == (current matches Some(workspace) && workspace.group_id == key.id),
    {
        match current {
            Some(workspace) => workspace.group_id == key.id,
            None => false,
        }
    }

    /// Whether a recent workspace is shown in this window.
    pub fn is_in_current_window_groups(&self, workspace: &RecentWorkspace) -> (result: bool)
        ensures
            result == in_groups(self.window_project_groups@, *workspace),
    {
        let groups = &self.window_project_groups;
        let mut i: usize = 0;
        while i < groups.len()
            invariant
                i <= groups@.len(),
                groups@ == self.window_project_groups@,
                forall|k: int|
                    0 <= k < i ==> !workspace.matching_groups@.contains((#[trigger] groups@[k]).id),
            decreases groups@.len() - i,
        {
            let id = groups[i].id;
            let mut j: usize = 0;
            while j < workspace.matching_groups.len()
                invariant
                    i < groups@.len(),
                    id == groups@[i as int].id,
                    groups@ == self.window_project_groups@,
                    j <= workspace.matching_groups@.len(),
                    forall|k: int| 0 <= k < j ==> #[trigger] workspace.matching_groups@[k] != id,
                decreases workspace.matching_groups@.len() - j,
            {
                if workspace.matching_groups[j] == id {
                    assert(workspace.matching_groups@.contains(groups@[i as int].id));
                    return true;
                }
                j += 1;
            }
            i += 1;
        }
        false
    }

    /// Whether one of the paths is a folder that is open.
    pub fn is_open_folder(&self, paths: &Vec<HostPath>) -> (result: bool)
        ensures
            result == has_open_folder(self.open_folders@, paths@),
    {
        let mut i: usize = 0;
        while i < paths.len()
            invariant
                i <= paths@.len(),
                forall|k: int, j: int|
                    0 <= k < i && 0 <= j < self.open_folders@.len() ==> !crate::path::same_path(
                        (#[trigger] paths@[k])@,
                        (#[trigger] self.open_folders@[j]).path@,
                    ),
            decreases paths@.len() - i,
        {
            let mut j: usize = 0;
            while j < self.open_folders.len()
                invariant
                    i < paths@.len(),
                    j <= self.open_folders@.len(),
                    forall|k: int|
                        0 <= k < j ==> !crate::path::same_path(
                            paths@[i as int]@,
                            (#[trigger] self.open_folders@[k]).path@,
                        ),
                decreases self.open_folders@.len() - j,
            {
                if paths[i].is_same(&self.open_folders[j].path) {
                    return true;
                }
                j += 1;
            }
            i += 1;
        }
        false
    }

    /// Whether a recent workspace is offered.
    pub fn is_valid_recent_candidate(
        &self,
        workspace: &RecentWorkspace,
        current: &Option<CurrentWorkspace>,
    ) -> (result: bool)
        ensures
            result == is_candidate(*self, *workspace, *current),
    {
        !self.is_current_workspace(workspace.workspace_id, current)
            && !self.is_in_current_window_groups(workspace) && !self.is_open_folder(
            &workspace.paths,
        )
    }
}

/// What a sequence of candidates stands for: a number and a text each.
pub open spec fn candidate_models(candidates: Seq<StringMatchCandidate>) -> Seq<(int, Seq<char>)> {
    Seq::new(candidates.len(), |i: int| (candidates[i].id as int, candidates[i].text@))
}

/// The text that is looked through for a group or a workspace: its folders, with the home
/// directory shortened, one behind the other.
pub open spec fn searched_text(paths: Seq<ListedPath>) -> Seq<char> {
    crate::text_span::concatenated(crate::recent_entries::compact_texts(paths))
}

fn concatenate(paths: &Vec<ListedPath>) -> (text: String)
    ensures
        text@ == searched_text(paths@),
{
    let ghost all = crate::recent_entries::compact_texts(paths@);
    let mut text = String::new();
    let mut i: usize = 0;
    assert(all.take(0) =~= Seq::<Seq<char>>::empty());
    assert(text@ =~= Seq::<char>::empty());
    while i < paths.len()
        invariant
            i <= paths@.len(),
            all == crate::recent_entries::compact_texts(paths@),
            text@ == crate::text_span::concatenated(all.take(i as int)),
        decreases paths@.len() - i,
    {
        proof {
            assert(all.take(i + 1).drop_last() =~= all.take(i as int));
            assert(all.take(i + 1).last() == paths@[i as int].compact@.text);
        }
        text.append(paths[i].compact.as_str());
        i += 1;
    }
    assert(all.take(i as int) =~= all);
    text
}

impl RecentProjectsDelegate {
    /// The open folders, by their names.
    pub fn folder_candidates(&self) -> (result: Vec<StringMatchCandidate>)
        ensures
            candidate_models(result@) == Seq::new(
                self.open_folders@.len(),
                |i: int| (i, self.open_folders@[i].name@),
            ),
    {
        let mut result: Vec<StringMatchCandidate> = Vec::new();
        let mut i: usize = 0;
        while i < self.open_folders.len()
            invariant
                i <= self.open_folders@.len(),
                result@.len() == i,
                forall|j: int|
                    0 <= j < i ==> (#[trigger] result@[j]).id == j && result@[j].text@
                        == self.open_folders@[j].name@,
            decreases self.open_folders@.len() - i,
        {
            result.push(StringMatchCandidate { id: i, text: self.open_folders[i].name.clone() });
            i += 1;
        }
        assert(candidate_models(result@) =~= Seq::new(
            self.open_folders@.len(),
            |j: int| (j, self.open_folders@[j].name@),
        ));
        result
    }

    /// The groups of this window, by their folders.
    pub fn project_group_candidates(&self) -> (result: Vec<StringMatchCandidate>)
        ensures
            candidate_models(result@) == Seq::new(
                self.window_project_groups@.len(),
                |i: int| (i, searched_text(self.window_project_groups@[i].paths@)),
            ),
    {
        let groups = &self.window_project_groups;
        let mut result: Vec<StringMatchCandidate> = Vec::new();
        let mut i: usize = 0;
        while i < groups.len()
            invariant
                i <= groups@.len(),
                result@.len() == i,
                forall|j: int|
                    0 <= j < i ==> (#[trigger] result@[j]).id == j && result@[j].text@
                        == searched_text(groups@[j].paths@),
            decreases groups@.len() - i,
        {
            result.push(StringMatchCandidate { id: i, text: concatenate(&groups[i].paths) });
            i += 1;
        }
        assert(candidate_models(result@) =~= Seq::new(
            groups@.len(),
            |j: int| (j, searched_text(groups@[j].paths@)),
        ));
        result
    }

    /// The recent workspaces that are offered, by their folders.
    pub fn recent_candidates(&self, current: &Option<CurrentWorkspace>) -> (result: Vec<
        StringMatchCandidate,
    >)
        ensures
            candidate_models(result@) == Seq::new(
                candidates(*self, *current).len(),
                |i: int|
                    (
                        candidates(*self, *current)[i],
                        searched_text(
                            self.workspaces@[candidates(*self, *current)[i]].identity_paths@,
                        ),
                    ),
            ),
    {
        let mut result: Vec<StringMatchCandidate> = Vec::new();
        let mut i: usize = 0;
        while i < self.workspaces.len()
            invariant
                i <= self.workspaces@.len(),
                result@.len() == candidates_upto(*self, *current, i as nat).len(),
                forall|j: int|
                    0 <= j < result@.len() ==> (#[trigger] result@[j]).id == candidates_upto(
                        *self,
                        *current,
                        i as nat,
                    )[j] && result@[j].id < i && result@[j].text@ == searched_text(
                        self.workspaces@[result@[j].id as int].identity_paths@,
                    ),
            decreases self.workspaces@.len() - i,
        {
            let workspace = &self.workspaces[i];
            if self.is_valid_recent_candidate(workspace, current) {
                result.push(
                    StringMatchCandidate { id: i, text: concatenate(&workspace.identity_paths) },
                );
            }
            i += 1;
        }
        assert(candidate_models(result@) =~= Seq::new(
            candidates(*self, *current).len(),
            |j: int|
                (
                    candidates(*self, *current)[j],
                    searched_text(
                        self.workspaces@[candidates(*self, *current)[j]].identity_paths@,
                    ),
                ),
        ));
        result
    }

    fn folder_entries(&self, query: &str, matches: &Vec<StringMatch>) -> (lines: Vec<
        ProjectPickerEntry,
    >)
        ensures
            crate::recent_entries::entry_models(lines@) == folder_lines(
                *self,
                query@,
                crate::recent_entries::match_models(matches@),
            ),
    {
        let ghost wanted = folder_lines(
            *self,
            query@,
            crate::recent_entries::match_models(matches@),
        );
        let mut lines: Vec<ProjectPickerEntry> = Vec::new();
        if self.open_folders.len() > 0 {
            let mut i: usize = 0;
            if trim_start(query).as_str().unicode_len() == 0 {
                while i < self.open_folders.len()
                    invariant
                        i <= self.open_folders@.len(),
                        wanted.len() == self.open_folders@.len(),
                        forall|j: int|
                            0 <= j < wanted.len() ==> #[trigger] wanted[j]
                                == (EntryModel::OpenFolder {
                                index: j,
                                positions: Seq::<usize>::empty(),
                            }),
                        lines@.len() == i,
                        forall|j: int| 0 <= j < i ==> (#[trigger] lines@[j])@ == wanted[j],
                    decreases self.open_folders@.len() - i,
                {
                    let line = ProjectPickerEntry::OpenFolder { index: i, positions: Vec::new() };
                    assert(line@ =~= wanted[i as int]);
                    lines.push(line);
                    i += 1;
                }
            } else {
                while i < matches.len()
                    invariant
                        i <= matches@.len(),
                        wanted.len() == matches@.len(),
                        forall|j: int|
                            0 <= j < wanted.len() ==> #[trigger] wanted[j]
                                == (EntryModel::OpenFolder {
                                index: matches@[j].candidate_id as int,
                                positions: matches@[j].positions@,
                            }),
                        lines@.len() == i,
                        forall|j: int| 0 <= j < i ==> (#[trigger] lines@[j])@ == wanted[j],
                    decreases matches@.len() - i,
                {
                    let line = ProjectPickerEntry::OpenFolder {
                        index: matches[i].candidate_id,
                        positions: clone_positions(&matches[i].positions),
                    };
                    assert(line@ =~= wanted[i as int]);
                    lines.push(line);
                    i += 1;
                }
            }
        }
        assert(crate::recent_entries::entry_models(lines@) =~= wanted);
        lines
    }

    fn group_entries(&self, query: &str, matches: &Vec<StringMatch>) -> (lines: Vec<
        ProjectPickerEntry,
    >)
        ensures
            crate::recent_entries::entry_models(lines@) == group_lines(
                *self,
                query@,
                crate::recent_entries::match_models(matches@),
            ),
    {
        let ghost wanted = group_lines(
            *self,
            query@,
            crate::recent_entries::match_models(matches@),
        );
        let mut lines: Vec<ProjectPickerEntry> = Vec::new();
        let mut i: usize = 0;
        if trim_start(query).as_str().unicode_len() == 0 {
            while i < self.window_project_groups.len()
                invariant
                    i <= self.window_project_groups@.len(),
                    wanted.len() == self.window_project_groups@.len(),
                    forall|j: int|
                        0 <= j < wanted.len() ==> #[trigger] wanted[j] == EntryModel::ProjectGroup(
                            crate::recent_entries::bare_match(j),
                        ),
                    lines@.len() == i,
                    forall|j: int| 0 <= j < i ==> (#[trigger] lines@[j])@ == wanted[j],
                decreases self.window_project_groups@.len() - i,
            {
                lines.push(ProjectPickerEntry::ProjectGroup(StringMatch::bare(i)));
                i += 1;
            }
        } else {
            while i < matches.len()
                invariant
                    i <= matches@.len(),
                    wanted.len() == matches@.len(),
                    forall|j: int|
                        0 <= j < wanted.len() ==> #[trigger] wanted[j] == EntryModel::ProjectGroup(
                            matches@[j]@,
                        ),
                    lines@.len() == i,
                    forall|j: int| 0 <= j < i ==> (#[trigger] lines@[j])@ == wanted[j],
                decreases matches@.len() - i,
            {
                lines.push(ProjectPickerEntry::ProjectGroup(matches[i].clone()));
                i += 1;
            }
        }
        assert(crate::recent_entries::entry_models(lines@) =~= wanted);
        lines
    }

    fn recent_entries(
        &self,
        query: &str,
        current: &Option<CurrentWorkspace>,
        matches: &Vec<StringMatch>,
    ) -> (lines: Vec<ProjectPickerEntry>)
        ensures
            crate::recent_entries::entry_models(lines@) == recent_lines(
                *self,
                query@,
                *current,
                crate::recent_entries::match_models(matches@),
            ),
    {
        let ghost wanted = recent_lines(
            *self,
            query@,
            *current,
            crate::recent_entries::match_models(matches@),
        );
        let mut lines: Vec<ProjectPickerEntry> = Vec::new();
        let mut i: usize = 0;
        if trim_start(query).as_str().unicode_len() == 0 {
            while i < self.workspaces.len()
                invariant
                    i <= self.workspaces@.len(),
                    lines@.len() == candidates_upto(*self, *current, i as nat).len(),
                    forall|j: int|
                        0 <= j < lines@.len() ==> (#[trigger] lines@[j])@
                            == EntryModel::RecentProject(
                            crate::recent_entries::bare_match(
                                candidates_upto(*self, *current, i as nat)[j],
                            ),
                        ),
                decreases self.workspaces@.len() - i,
            {
                if self.is_valid_recent_candidate(&self.workspaces[i], current) {
                    lines.push(ProjectPickerEntry::RecentProject(StringMatch::bare(i)));
                }
                i += 1;
            }
        } else {
            while i < matches.len()
                invariant
                    i <= matches@.len(),
                    wanted.len() == matches@.len(),
                    forall|j: int|
                        0 <= j < wanted.len() ==> #[trigger] wanted[j]
                            == EntryModel::RecentProject(matches@[j]@),
                    lines@.len() == i,
                    forall|j: int| 0 <= j < i ==> (#[trigger] lines@[j])@ == wanted[j],
                decreases matches@.len() - i,
            {
                lines.push(ProjectPickerEntry::RecentProject(matches[i].clone()));
                i += 1;
            }
        }
        assert(crate::recent_entries::entry_models(lines@) =~= wanted);
        lines
    }

    /// Lists what a query was found in, and selects the first line that can be selected unless
    /// the selection is to stay.
    pub fn update_matches(
        &mut self,
        query: &str,
        current: &Option<CurrentWorkspace>,
        matches: &PickerMatches,
    )
        ensures
            crate::recent_entries::entry_models(final(self).filtered_entries@) == listed_lines(
                *old(self),
                query@,
                *current,
                *matches,
            ),
            final(self).selected_index == if old(self).snap_selection_to_first_non_header_match {
                first_selectable(listed_lines(*old(self), query@, *current, *matches), 0)
            } else {
                old(self).selected_index as int
            },
            final(self).snap_selection_to_first_non_header_match,
            final(self).same_projects(old(self)),
    {
        let folders = self.folder_entries(query, &matches.folders);
        let groups = self.group_entries(query, &matches.groups);
        let recents = self.recent_entries(query, current, &matches.recents);
        let mut entries: Vec<ProjectPickerEntry> = Vec::new();
        assert(crate::recent_entries::entry_models(entries@) =~= Seq::<EntryModel>::empty());
        push_section(&mut entries, "Current Folders", folders);
        push_section(&mut entries, "This Window", groups);
        push_section(&mut entries, "Recent Projects", recents);
        let ghost lines = listed_lines(*self, query@, *current, *matches);
        assert(crate::recent_entries::entry_models(entries@) =~= lines);
        self.filtered_entries = entries;
        if self.snap_selection_to_first_non_header_match {
            self.selected_index = find_first_selectable(&self.filtered_entries);
        }
        self.snap_selection_to_first_non_header_match = true;
    }
}

/// Adds a section to the list.
fn push_section(
    entries: &mut Vec<ProjectPickerEntry>,
    title: &str,
    mut lines: Vec<ProjectPickerEntry>,
)
    ensures
        crate::recent_entries::entry_models(final(entries)@)
            == crate::recent_entries::entry_models(old(entries)@) + section(
            title@,
            crate::recent_entries::entry_models(lines@),
        ),
{
    let ghost before = crate::recent_entries::entry_models(entries@);
    let ghost added = crate::recent_entries::entry_models(lines@);
    if lines.len() > 0 {
        entries.push(ProjectPickerEntry::Header(title.to_string()));
        entries.append(&mut lines);
    }
    assert(crate::recent_entries::entry_models(entries@) =~= before + section(title@, added));
}

/// Finds the first line that can be selected.
fn find_first_selectable(entries: &Vec<ProjectPickerEntry>) -> (index: usize)
    ensures
        index == first_selectable(crate::recent_entries::entry_models(entries@), 0),
{
    let ghost all = crate::recent_entries::entry_models(entries@);
    let mut i: usize = 0;
    while i < entries.len()
        invariant
            i <= entries@.len(),
            all == crate::recent_entries::entry_models(entries@),
            first_selectable(all, 0) == first_selectable(all, i as int),
        decreases entries@.len() - i,
    {
        if is_selectable_entry(&entries[i]) {
            return i;
        }
        i += 1;
    }
    0
}

/// Whether each title is followed by a line that can be selected.
pub open spec fn titles_have_lines(entries: Seq<EntryModel>) -> bool {
    forall|i: int|
        0 <= i < entries.len() && !crate::recent_entries::selectable(#[trigger] entries[i]) ==> i
            + 1 < entries.len() && crate::recent_entries::selectable(entries[i + 1])
}

proof fn lemma_section_has_lines(title: Seq<char>, entries: Seq<EntryModel>)
    requires
        forall|i: int|
            0 <= i < entries.len() ==> crate::recent_entries::selectable(#[trigger] entries[i]),
    ensures
        titles_have_lines(section(title, entries)),
{
    let all = section(title, entries);
    assert forall|i: int|
        0 <= i < all.len() && !crate::recent_entries::selectable(#[trigger] all[i]) implies i + 1
        < all.len() && crate::recent_entries::selectable(all[i + 1]) by {
        if i > 0 {
            assert(all[i] == entries[i - 1]);
        } else {
            assert(all[1] == entries[0]);
        }
    }
}

proof fn lemma_sections_have_lines(left: Seq<EntryModel>, right: Seq<EntryModel>)
    requires
        titles_have_lines(left),
        titles_have_lines(right),
    ensures
        titles_have_lines(left + right),
{
    let all = left + right;
    assert forall|i: int|
        0 <= i < all.len() && !crate::recent_entries::selectable(#[trigger] all[i]) implies i + 1
        < all.len() && crate::recent_entries::selectable(all[i + 1]) by {
        if i < left.len() {
            assert(all[i] == left[i]);
            assert(all[i + 1] == left[i + 1]);
        } else {
            assert(all[i] == right[i - left.len()]);
            assert(all[i + 1] == right[i - left.len() + 1]);
        }
    }
}

/// A title never stands in the list without a line behind it.
pub proof fn law_titles_have_lines(
    delegate: RecentProjectsDelegate,
    query: Seq<char>,
    current: Option<CurrentWorkspace>,
    matches: PickerMatches,
)
    ensures
        titles_have_lines(listed_lines(delegate, query, current, matches)),
{
    let folders = folder_lines(
        delegate,
        query,
        crate::recent_entries::match_models(matches.folders@),
    );
    let groups = group_lines(delegate, query, crate::recent_entries::match_models(matches.groups@));
    let recents = recent_lines(
        delegate,
        query,
        current,
        crate::recent_entries::match_models(matches.recents@),
    );
    lemma_section_has_lines("Current Folders"@, folders);
    lemma_section_has_lines("This Window"@, groups);
    lemma_section_has_lines("Recent Projects"@, recents);
    lemma_sections_have_lines(
        section("Current Folders"@, folders),
        section("This Window"@, groups),
    );
    lemma_sections_have_lines(
        section("Current Folders"@, folders) + section("This Window"@, groups),
        section("Recent Projects"@, recents),
    );
}

proof fn lemma_first_selectable(entries: Seq<EntryModel>, from: int)
    requires
        0 <= from < entries.len(),
        exists|i: int|
            from <= i < entries.len() && crate::recent_entries::selectable(#[trigger] entries[i]),
    ensures
        from <= first_selectable(entries, from) < entries.len(),
        crate::recent_entries::selectable(entries[first_selectable(entries, from)]),
        forall|i: int|
            from <= i < first_selectable(entries, from) ==> !crate::recent_entries::selectable(
                #[trigger] entries[i],
            ),
    decreases entries.len() - from,
{
    if !crate::recent_entries::selectable(entries[from]) {
        let i = choose|i: int|
            from <= i < entries.len() && crate::recent_entries::selectable(#[trigger] entries[i]);
        assert(i != from);
        lemma_first_selectable(entries, from + 1);
    }
}

/// Where the list has lines, the one that is selected when it is filled can be selected, and none
/// before it can.
pub proof fn law_first_line_is_selected(
    delegate: RecentProjectsDelegate,
    query: Seq<char>,
    current: Option<CurrentWorkspace>,
    matches: PickerMatches,
)
    requires
        listed_lines(delegate, query, current, matches).len() > 0,
    ensures
        ({
            let lines = listed_lines(delegate, query, current, matches);
            let selected = first_selectable(lines, 0);
            &&& 0 <= selected < lines.len()
            &&& crate::recent_entries::selectable(lines[selected])
            &&& forall|i: int|
                0 <= i < selected ==> !crate::recent_entries::selectable(#[trigger] lines[i])
        }),
{
    let lines = listed_lines(delegate, query, current, matches);
    law_titles_have_lines(delegate, query, current, matches);
    assert(crate::recent_entries::selectable(lines[0]) || crate::recent_entries::selectable(
        lines[1],
    ));
    lemma_first_selectable(lines, 0);
}

proof fn lemma_candidates_upto(
    delegate: RecentProjectsDelegate,
    current: Option<CurrentWorkspace>,
    count: nat,
)
    requires
        count <= delegate.workspaces@.len(),
    ensures
        forall|x: int| #[trigger]
            candidates_upto(delegate, current, count).contains(x) <==> 0 <= x < count
                && is_candidate(delegate, delegate.workspaces@[x], current),
        forall|i: int, j: int|
            0 <= i < j < candidates_upto(delegate, current, count).len()
                ==> #[trigger] candidates_upto(delegate, current, count)[i]
                < #[trigger] candidates_upto(delegate, current, count)[j],
    decreases count,
{
    if count > 0 {
        let before = candidates_upto(delegate, current, (count - 1) as nat);
        let all = candidates_upto(delegate, current, count);
        lemma_candidates_upto(delegate, current, (count - 1) as nat);
        assert forall|x: int| #[trigger] all.contains(x) <==> 0 <= x < count && is_candidate(
            delegate,
            delegate.workspaces@[x],
            current,
        ) by {
            if all.contains(x) {
                let k = choose|k: int| 0 <= k < all.len() && all[k] == x;
                if k < before.len() {
                    assert(before[k] == x);
                    assert(before.contains(x));
                }
            }
            if before.contains(x) {
                let k = choose|k: int| 0 <= k < before.len() && before[k] == x;
                assert(all[k] == x);
            }
            if x == count - 1 && is_candidate(delegate, delegate.workspaces@[x], current) {
                assert(all[before.len() as int] == x);
            }
        }
        assert forall|i: int, j: int| 0 <= i < j < all.len() implies #[trigger] all[i]
            < #[trigger] all[j] by {
            assert(all[i] == before[i]);
            if j < before.len() {
                assert(all[j] == before[j]);
            } else {
                assert(before.contains(before[i]));
            }
        }
    }
}

/// Without a query, the recent workspaces that are offered are listed, each once and in their
/// order, and no others: neither the current one, nor one that this window shows, nor one with a
/// folder that is open.
pub proof fn law_offered_workspaces_are_listed(
    delegate: RecentProjectsDelegate,
    current: Option<CurrentWorkspace>,
)
    ensures
        forall|x: int| #[trigger]
            candidates(delegate, current).contains(x) <==> 0 <= x < delegate.workspaces@.len()
                && is_candidate(delegate, delegate.workspaces@[x], current),
        forall|i: int, j: int|
            0 <= i < j < candidates(delegate, current).len() ==> #[trigger] candidates(
                delegate,
                current,
            )[i] < #[trigger] candidates(delegate, current)[j],
{
    lemma_candidates_upto(delegate, current, delegate.workspaces@.len());
}

/// Where the positions in each match go up, so do those in each line of the list.
pub proof fn law_lines_keep_positions_in_order(
    delegate: RecentProjectsDelegate,
    query: Seq<char>,
    current: Option<CurrentWorkspace>,
    matches: PickerMatches,
)
    requires
        matches_ascend(crate::recent_entries::match_models(matches.folders@)),
        matches_ascend(crate::recent_entries::match_models(matches.groups@)),
        matches_ascend(crate::recent_entries::match_models(matches.recents@)),
    ensures
        positions_ascend(listed_lines(delegate, query, current, matches)),
{
    let folders = folder_lines(
        delegate,
        query,
        crate::recent_entries::match_models(matches.folders@),
    );
    let groups = group_lines(delegate, query, crate::recent_entries::match_models(matches.groups@));
    let recents = recent_lines(
        delegate,
        query,
        current,
        crate::recent_entries::match_models(matches.recents@),
    );
    let first = section("Current Folders"@, folders);
    let second = section("This Window"@, groups);
    let third = section("Recent Projects"@, recents);
    assert(positions_ascend(folders));
    assert(positions_ascend(groups));
    assert(positions_ascend(recents));
    lemma_section_ascends("Current Folders"@, folders);
    lemma_section_ascends("This Window"@, groups);
    lemma_section_ascends("Recent Projects"@, recents);
    lemma_joined_ascend(first, second);
    lemma_joined_ascend(first + second, third);
}

proof fn lemma_section_ascends(title: Seq<char>, entries: Seq<EntryModel>)
    requires
        positions_ascend(entries),
    ensures
        positions_ascend(section(title, entries)),
{
    let all = section(title, entries);
    assert forall|i: int| 0 <= i < all.len() implies match #[trigger] all[i] {
        EntryModel::Header(_) => true,
        EntryModel::OpenFolder { index, positions } => crate::recent_entries::ascending(positions),
        EntryModel::ProjectGroup(hit) => crate::recent_entries::ascending(hit.positions),
        EntryModel::RecentProject(hit) => crate::recent_entries::ascending(hit.positions),
    } by {
        if i > 0 {
            assert(all[i] == entries[i - 1]);
        }
    }
}

proof fn lemma_joined_ascend(left: Seq<EntryModel>, right: Seq<EntryModel>)
    requires
        positions_ascend(left),
        positions_ascend(right),
    ensures
        positions_ascend(left + right),
{
    let all = left + right;
    assert forall|i: int| 0 <= i < all.len() implies match #[trigger] all[i] {
        EntryModel::Header(_) => true,
        EntryModel::OpenFolder { index, positions } => crate::recent_entries::ascending(positions),
        EntryModel::ProjectGroup(hit) => crate::recent_entries::ascending(hit.positions),
        EntryModel::RecentProject(hit) => crate::recent_entries::ascending(hit.positions),
    } by {
        if i < left.len() {
            assert(all[i] == left[i]);
        } else {
            assert(all[i] == right[i - left.len()]);
        }
    }
}

} // verus!
