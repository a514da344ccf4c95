//! What is done with the lines of the list of projects.

use crate::connection::RemoteConnectionOptions;
use crate::host_session::HostWorkspaceIdentity;
use crate::path::HostPath;
use crate::recent_entries::{
    is_in_section, is_selectable_entry, EntryModel, PickerSection, ProjectGroupKey,
    ProjectPickerEntry, RecentWorkspace, SerializedWorkspaceLocation,
};
use crate::recent_folders::clone_paths;
use crate::recent_projects::{CurrentWorkspace, PickerMatches, RecentProjectsDelegate};
use crate::remote_connections::{RemoteSettings, WindowHandle};
use vstd::prelude::*;

verus! {

/// Whether a line is wanted: one of a section, or any that can be selected.
pub open spec fn is_wanted(entry: EntryModel, wanted: Option<PickerSection>) -> bool {
    match wanted {
        Some(section) => crate::recent_entries::section_of(entry) == Some(section),
        None => crate::recent_entries::selectable(entry),
    }
}

/// The nearest wanted line at a place or behind it.
pub open spec fn nearest_from(
    entries: Seq<EntryModel>,
    from: int,
    wanted: Option<PickerSection>,
) -> Option<int>
    decreases entries.len() - from,
{
    if from < 0 || from >= entries.len() {
        None
    } else if is_wanted(entries[from], wanted) {
        Some(from)
    } else {
        nearest_from(entries, from + 1, wanted)
    }
}

/// The nearest wanted line before a place.
pub open spec fn nearest_before(
    entries: Seq<EntryModel>,
    upto: int,
    wanted: Option<PickerSection>,
) -> Option<int>
    decreases upto,
{
    if upto <= 0 || upto > entries.len() {
        None
    } else if is_wanted(entries[upto - 1], wanted) {
        Some(upto - 1)
    } else {
        nearest_before(entries, upto - 1, wanted)
    }
}

/// The nearest wanted line to a place, behind it or before it as is preferred.
pub open spec fn nearest(
    entries: Seq<EntryModel>,
    place: int,
    prefer_previous: bool,
    wanted: Option<PickerSection>,
) -> Option<int> {
    let next = nearest_from(entries, place, wanted);
    let previous = nearest_before(
        entries,
        if place < entries.len() {
            place
        } else {
            entries.len() as int
        },
        wanted,
    );
    if prefer_previous {
        if previous is Some {
            previous
        } else {
            next
        }
    } else {
        if next is Some {
            next
        } else {
            previous
        }
    }
}

/// The line to select after another one is gone: the nearest one of a section, or the nearest
/// one that can be selected where the section has none.
pub open spec fn replacement(
    entries: Seq<EntryModel>,
    deleted_index: int,
    prefer_previous: bool,
    section: PickerSection,
) -> Option<int> {
    match nearest(entries, deleted_index, prefer_previous, Some(section)) {
        Some(index) => Some(index),
        None => nearest(entries, deleted_index, prefer_previous, None),
    }
}

proof fn lemma_nearest_from(entries: Seq<EntryModel>, from: int, wanted: Option<PickerSection>)
    requires
        0 <= from,
    ensures
        match nearest_from(entries, from, wanted) {
            Some(index) => from <= index < entries.len() && is_wanted(entries[index], wanted),
            None => forall|i: int|
                from <= i < entries.len() ==> !is_wanted(#[trigger] entries[i], wanted),
        },
    decreases entries.len() - from,
{
    if from < entries.len() && !is_wanted(entries[from], wanted) {
        lemma_nearest_from(entries, from + 1, wanted);
    }
}

proof fn lemma_nearest_before(entries: Seq<EntryModel>, upto: int, wanted: Option<PickerSection>)
    requires
        0 <= upto <= entries.len(),
    ensures
        match nearest_before(entries, upto, wanted) {
            Some(index) => 0 <= index < upto && is_wanted(entries[index], wanted),
            None => forall|i: int| 0 <= i < upto ==> !is_wanted(#[trigger] entries[i], wanted),
        },
    decreases upto,
{
    if upto > 0 && !is_wanted(entries[upto - 1], wanted) {
        lemma_nearest_before(entries, upto - 1, wanted);
    }
}

proof fn lemma_nearest(
    entries: Seq<EntryModel>,
    place: int,
    prefer_previous: bool,
    wanted: Option<PickerSection>,
)
    requires
        0 <= place,
    ensures
        match nearest(entries, place, prefer_previous, wanted) {
            Some(index) => 0 <= index < entries.len() && is_wanted(entries[index], wanted),
            None => forall|i: int|
                0 <= i < entries.len() ==> !is_wanted(#[trigger] entries[i], wanted),
        },
{
    lemma_nearest_from(entries, place, wanted);
    lemma_nearest_before(
        entries,
        if place < entries.len() {
            place
        } else {
            entries.len() as int
        },
        wanted,
    );
}

/// After a line is gone, the line to select is never a title. It is one of the preferred section
/// as long as the section has lines, and there is one as long as any line can be selected.
pub proof fn law_replacement_can_be_selected(
    entries: Seq<EntryModel>,
    deleted_index: int,
    prefer_previous: bool,
    section: PickerSection,
)
    requires
        0 <= deleted_index,
    ensures
        match replacement(entries, deleted_index, prefer_previous, section) {
            Some(index) => {
                &&& 0 <= index < entries.len()
                &&& crate::recent_entries::selectable(entries[index])
                &&& (exists|i: int|
                    0 <= i < entries.len() && crate::recent_entries::section_of(
                        #[trigger] entries[i],
                    ) == Some(section)) ==> crate::recent_entries::section_of(entries[index])
                    == Some(section)
            },
            None => forall|i: int|
                0 <= i < entries.len() ==> !crate::recent_entries::selectable(
                    #[trigger] entries[i],
                ),
        },
{
    lemma_nearest(entries, deleted_index, prefer_previous, Some(section));
    lemma_nearest(entries, deleted_index, prefer_previous, None);
    if nearest(entries, deleted_index, prefer_previous, Some(section)) is None {
        assert forall|i: int| 0 <= i < entries.len() implies crate::recent_entries::section_of(
            #[trigger] entries[i],
        ) != Some(section) by {
            assert(!is_wanted(entries[i], Some(section)));
        }
        if nearest(entries, deleted_index, prefer_previous, None) is None {
            assert forall|i: int|
                0 <= i < entries.len() implies !crate::recent_entries::selectable(
                #[trigger] entries[i],
            ) by {
                assert(!is_wanted(entries[i], None));
            }
        }
    }
}

/// After a line is gone, the line of its section that moved to its place is selected, unless the
/// one before is preferred. Where it is preferred, the line of the section just before is.
pub proof fn law_replacement_is_the_neighbour(
    entries: Seq<EntryModel>,
    deleted_index: int,
    section: PickerSection,
)
    requires
        0 <= deleted_index < entries.len(),
    ensures
        crate::recent_entries::section_of(entries[deleted_index]) == Some(section) ==> replacement(
            entries,
            deleted_index,
            false,
            section,
        ) == Some(deleted_index),
        deleted_index > 0 && crate::recent_entries::section_of(entries[deleted_index - 1]) == Some(
            section,
        ) ==> replacement(entries, deleted_index, true, section) == Some(deleted_index - 1),
{
}

fn wants(entry: &ProjectPickerEntry, wanted: Option<PickerSection>) -> (result: bool)
    ensures
        result == is_wanted(entry@, wanted),
{
    match wanted {
        Some(section) => is_in_section(entry, section),
        None => is_selectable_entry(entry),
    }
}

fn find_nearest(
    entries: &Vec<ProjectPickerEntry>,
    place: usize,
    prefer_previous: bool,
    wanted: Option<PickerSection>,
) -> (found: Option<usize>)
    ensures
        match found {
            Some(index) => nearest(
                crate::recent_entries::entry_models(entries@),
                place as int,
                prefer_previous,
                wanted,
            ) == Some(index as int),
            None => nearest(
                crate::recent_entries::entry_models(entries@),
                place as int,
                prefer_previous,
                wanted,
            ) is None,
        },
{
    let ghost all = crate::recent_entries::entry_models(entries@);
    let mut next: Option<usize> = None;
    let mut i: usize = place;
    while i < entries.len() && next.is_none()
        invariant
            place <= i,
            all == crate::recent_entries::entry_models(entries@),
            match next {
                Some(index) => nearest_from(all, place as int, wanted) == Some(index as int),
                None => nearest_from(all, place as int, wanted) == nearest_from(
                    all,
                    i as int,
                    wanted,
                ),
            },
        decreases entries@.len() - i,
    {
        if wants(&entries[i], wanted) {
            next = Some(i);
        }
        i += 1;
    }
    let mut previous: Option<usize> = None;
    let upto: usize = if place < entries.len() {
        place
    } else {
        entries.len()
    };
    let mut j: usize = upto;
    while j > 0 && previous.is_none()
        invariant
            j <= upto <= entries@.len(),
            all == crate::recent_entries::entry_models(entries@),
            match previous {
                Some(index) => nearest_before(all, upto as int, wanted) == Some(index as int),
                None => nearest_before(all, upto as int, wanted) == nearest_before(
                    all,
                    j as int,
                    wanted,
                ),
            },
        decreases j,
    {
        j -= 1;
        if wants(&entries[j], wanted) {
            previous = Some(j);
        }
    }
    if prefer_previous {
        if previous.is_some() {
            previous
        } else {
            next
        }
    } else {
        if next.is_some() {
            next
        } else {
            previous
        }
    }
}

impl RecentProjectsDelegate {
    /// The line to select after the one at `deleted_index` is gone: the nearest one of the
    /// preferred section, or any other that can be selected.
    pub fn replacement_index_after_deletion(
        &self,
        deleted_index: usize,
        prefer_previous: bool,
        prefer_section: PickerSection,
    ) -> (index: Option<usize>)
        ensures
            match index {
                Some(index) => replacement(
                    crate::recent_entries::entry_models(self.filtered_entries@),
                    deleted_index as int,
                    prefer_previous,
                    prefer_section,
                ) == Some(index as int),
                None => replacement(
                    crate::recent_entries::entry_models(self.filtered_entries@),
                    deleted_index as int,
                    prefer_previous,
                    prefer_section,
                ) is None,
            },
    {
        let preferred = find_nearest(
            &self.filtered_entries,
            deleted_index,
            prefer_previous,
            Some(prefer_section),
        );
        if preferred.is_some() {
            preferred
        } else {
            find_nearest(&self.filtered_entries, deleted_index, prefer_previous, None)
        }
    }

    /// Lists what is left after a recent project was deleted, and selects the line next to where
    /// it stood. The line before is preferred where the list is scrolled to its end.
    pub fn update_picker_after_recent_project_deletion(
        &mut self,
        deleted_index: usize,
        workspaces: Vec<RecentWorkspace>,
        scrolled_to_end: Option<bool>,
        query: &str,
        current: &Option<CurrentWorkspace>,
        matches: &PickerMatches,
    )
        ensures
            final(self).workspaces == workspaces,
            final(self).open_folders == old(self).open_folders,
            final(self).window_project_groups == old(self).window_project_groups,
            final(self).render_paths == old(self).render_paths,
            final(self).style == old(self).style,
            final(self).snap_selection_to_first_non_header_match,
            crate::recent_entries::entry_models(final(self).filtered_entries@)
                == crate::recent_projects::listed_lines(
                *final(self),
                query@,
                *current,
                *matches,
            ),
            match replacement(
                crate::recent_entries::entry_models(final(self).filtered_entries@),
                deleted_index as int,
                scrolled_to_end == Some(true),
                PickerSection::RecentProjects,
            ) {
                Some(index) => final(self).selected_index == index,
                None => final(self).selected_index == old(self).selected_index,
            },
    {
        let prefer_previous = match scrolled_to_end {
            Some(at_end) => at_end,
            None => false,
        };
        self.set_workspaces(workspaces);
        self.snap_selection_to_first_non_header_match = false;
        let ghost before = *self;
        self.update_matches(query, current, matches);
        proof {
            lemma_same_lines(before, *self, query@, *current, *matches);
        }
        let ghost listed = *self;
        match self.replacement_index_after_deletion(
            deleted_index,
            prefer_previous,
            PickerSection::RecentProjects,
        ) {
            Some(index) => self.set_selected_index(index),
            None => {},
        }
        proof {
            lemma_same_lines(listed, *self, query@, *current, *matches);
        }
    }
}

/// The lines depend on the projects alone, not on what was listed or selected before.
pub proof fn lemma_same_lines(
    left: RecentProjectsDelegate,
    right: RecentProjectsDelegate,
    query: Seq<char>,
    current: Option<CurrentWorkspace>,
    matches: PickerMatches,
)
    requires
        left.same_projects(&right),
    ensures
        crate::recent_projects::listed_lines(left, query, current, matches)
            == crate::recent_projects::listed_lines(right, query, current, matches),
{
    lemma_same_candidates(left, right, current, left.workspaces@.len());
    assert(crate::recent_projects::candidates(left, current)
        == crate::recent_projects::candidates(right, current));
}

proof fn lemma_same_candidates(
    left: RecentProjectsDelegate,
    right: RecentProjectsDelegate,
    current: Option<CurrentWorkspace>,
    count: nat,
)
    requires
        left.same_projects(&right),
    ensures
        crate::recent_projects::candidates_upto(left, current, count)
            == crate::recent_projects::candidates_upto(right, current, count),
    decreases count,
{
    if count > 0 {
        lemma_same_candidates(left, right, current, (count - 1) as nat);
    }
}

/// The groups but for one.
pub open spec fn without_group(groups: Seq<ProjectGroupKey>, id: u64) -> Seq<ProjectGroupKey>
    decreases groups.len(),
{
    if groups.len() == 0 {
        Seq::<ProjectGroupKey>::empty()
    } else if groups[0].id == id {
        without_group(groups.skip(1), id)
    } else {
        seq![groups[0]] + without_group(groups.skip(1), id)
    }
}

/// A group that was removed is gone, and every other one stays.
pub proof fn law_removed_group_is_gone(groups: Seq<ProjectGroupKey>, id: u64)
    ensures
        forall|key: ProjectGroupKey| #[trigger]
            without_group(groups, id).contains(key) <==> groups.contains(key) && key.id != id,
    decreases groups.len(),
{
    if groups.len() > 0 {
        let rest = groups.skip(1);
        law_removed_group_is_gone(rest, id);
        let left = without_group(groups, id);
        let inner = without_group(rest, id);
        assert forall|key: ProjectGroupKey| #[trigger] left.contains(key) <==> groups.contains(key)
            && key.id != id by {
            if left.contains(key) {
                let k = choose|k: int| 0 <= k < left.len() && left[k] == key;
                if groups[0].id == id {
                    assert(inner.contains(key));
                } else if k == 0 {
                    assert(groups[0] == key);
                } else {
                    assert(inner[k - 1] == key);
                    assert(inner.contains(key));
                }
                if inner.contains(key) {
                    let m = choose|m: int| 0 <= m < rest.len() && rest[m] == key;
                    assert(groups[m + 1] == key);
                }
            }
            if groups.contains(key) && key.id != id {
                let k = choose|k: int| 0 <= k < groups.len() && groups[k] == key;
                if k > 0 {
                    assert(rest[k - 1] == key);
                    assert(inner.contains(key));
                    let m = choose|m: int| 0 <= m < inner.len() && inner[m] == key;
                    if groups[0].id == id {
                        assert(left[m] == key);
                    } else {
                        assert(left[m + 1] == key);
                    }
                } else {
                    assert(left[0] == key);
                }
            }
        }
    }
}

/// What is to be done to remove a line.
#[derive(Debug)]
pub enum RemoveAction {
    Nothing,
    /// Take a folder out of the project, and list the folders anew.
    RemoveRoot { path: HostPath, worktree_id: u64 },
    /// Take a group out of the window; it is no longer in the list.
    RemoveGroup { id: u64 },
    /// Delete the recent workspace at a place.
    DeleteRecent { place: usize },
}

/// Whether a line is that of a recent workspace that can be deleted.
pub open spec fn deletable(
    delegate: RecentProjectsDelegate,
    index: int,
    current: Option<CurrentWorkspace>,
) -> Option<int> {
    if 0 <= index < delegate.filtered_entries@.len() {
        match delegate.filtered_entries@[index]@ {
            EntryModel::RecentProject(hit) if hit.candidate_id < delegate.workspaces@.len()
                && current is Some => Some(hit.candidate_id),
            _ => None,
        }
    } else {
        None
    }
}

/// What removing the selected line comes to.
pub open spec fn removal_matches(
    delegate: RecentProjectsDelegate,
    current: Option<CurrentWorkspace>,
    action: RemoveAction,
) -> bool {
    let index = delegate.selected_index as int;
    if index >= delegate.filtered_entries@.len() {
        action is Nothing
    } else {
        match delegate.filtered_entries@[index]@ {
            EntryModel::Header(_) => action is Nothing,
            EntryModel::OpenFolder { index, positions } => if index < delegate.open_folders@.len()
                && current is Some {
                action matches RemoveAction::RemoveRoot { path, worktree_id } && path
                    == delegate.open_folders@[index].path && worktree_id
                    == delegate.open_folders@[index].worktree_id
            } else {
                action is Nothing
            },
            EntryModel::ProjectGroup(hit) => if hit.candidate_id
                < delegate.window_project_groups@.len() && !(current matches Some(workspace)
                && workspace.group_id == delegate.window_project_groups@[hit.candidate_id].id) {
                action matches RemoveAction::RemoveGroup { id } && id
                    == delegate.window_project_groups@[hit.candidate_id].id
            } else {
                action is Nothing
            },
            EntryModel::RecentProject(_) => match deletable(
                delegate,
                delegate.selected_index as int,
                current,
            ) {
                Some(place) => action matches RemoveAction::DeleteRecent { place: found } && found
                    == place,
                None => action is Nothing,
            },
        }
    }
}

impl RecentProjectsDelegate {
    /// Takes a group out of the list.
    pub fn remove_project_group(&mut self, id: u64)
        ensures
            final(self).window_project_groups@ == without_group(
                old(self).window_project_groups@,
                id,
            ),
            final(self).open_folders == old(self).open_folders,
            final(self).workspaces == old(self).workspaces,
            final(self).filtered_entries == old(self).filtered_entries,
            final(self).selected_index == old(self).selected_index,
            final(self).render_paths == old(self).render_paths,
            final(self).snap_selection_to_first_non_header_match
                == old(self).snap_selection_to_first_non_header_match,
            final(self).style == old(self).style,
    {
        let ghost was = self.window_project_groups@;
        let ghost start = *self;
        let mut i: usize = self.window_project_groups.len();
        assert(was.take(i as int) + without_group(was.skip(i as int), id) =~= was);
        while i > 0
            invariant
                i <= was.len(),
                i <= self.window_project_groups@.len(),
                self.window_project_groups@ == was.take(i as int) + without_group(
                    was.skip(i as int),
                    id,
                ),
                self.open_folders == start.open_folders,
                self.workspaces == start.workspaces,
                self.filtered_entries == start.filtered_entries,
                self.selected_index == start.selected_index,
                self.render_paths == start.render_paths,
                self.snap_selection_to_first_non_header_match
                    == start.snap_selection_to_first_non_header_match,
                self.style == start.style,
            decreases i,
        {
            i -= 1;
            proof {
                assert(was.skip(i as int)[0] == was[i as int]);
                assert(was.skip(i as int).skip(1) =~= was.skip(i + 1));
                assert(self.window_project_groups@[i as int] == was[i as int]);
            }
            if self.window_project_groups[i].id == id {
                self.window_project_groups.remove(i);
            }
            assert(self.window_project_groups@ =~= was.take(i as int) + without_group(
                was.skip(i as int),
                id,
            ));
        }
        assert(was.take(0) + without_group(was.skip(0), id) =~= without_group(was, id)) by {
            assert(was.skip(0) =~= was);
        }
    }

    /// The recent workspace of a line that can be deleted: there has to be a workspace to do it
    /// from.
    pub fn delete_recent_project(&self, index: usize, current: &Option<CurrentWorkspace>) -> (place:
        Option<usize>)
        ensures
            match place {
                Some(place) => deletable(*self, index as int, *current) == Some(place as int),
                None => deletable(*self, index as int, *current) is None,
            },
    {
        if index >= self.filtered_entries.len() || current.is_none() {
            return None;
        }
        match &self.filtered_entries[index] {
            ProjectPickerEntry::RecentProject(hit) => if hit.candidate_id < self.workspaces.len() {
                Some(hit.candidate_id)
            } else {
                None
            },
            _ => None,
        }
    }

    /// Says what to do to remove the selected line. A group is taken out of the list at once.
    pub fn handle_remove_selected(&mut self, current: &Option<CurrentWorkspace>) -> (action:
        RemoveAction)
        ensures
            removal_matches(*old(self), *current, action),
            match action {
                RemoveAction::RemoveGroup { id } => final(self).window_project_groups@
                    == without_group(old(self).window_project_groups@, id),
                _ => final(self).window_project_groups == old(self).window_project_groups,
            },
            final(self).open_folders == old(self).open_folders,
            final(self).workspaces == old(self).workspaces,
            final(self).filtered_entries == old(self).filtered_entries,
            final(self).selected_index == old(self).selected_index,
            final(self).render_paths == old(self).render_paths,
            final(self).snap_selection_to_first_non_header_match
                == old(self).snap_selection_to_first_non_header_match,
            final(self).style == old(self).style,
    {
        let index = self.selected_index;
        if index >= self.filtered_entries.len() {
            return RemoveAction::Nothing;
        }
        let action = match &self.filtered_entries[index] {
            ProjectPickerEntry::Header(_) => RemoveAction::Nothing,
            ProjectPickerEntry::OpenFolder { index, positions: _ } => {
                if *index < self.open_folders.len() && current.is_some() {
                    RemoveAction::RemoveRoot {
                        path: self.open_folders[*index].path.clone(),
                        worktree_id: self.open_folders[*index].worktree_id,
                    }
                } else {
                    RemoveAction::Nothing
                }
            },
            ProjectPickerEntry::ProjectGroup(hit) => {
                if hit.candidate_id < self.window_project_groups.len()
                    && !self.is_active_project_group(
                    &self.window_project_groups[hit.candidate_id],
                    current,
                ) {
                    RemoveAction::RemoveGroup {
                        id: self.window_project_groups[hit.candidate_id].id,
                    }
                } else {
                    RemoveAction::Nothing
                }
            },
            ProjectPickerEntry::RecentProject(_) => match self.delete_recent_project(
                index,
                current,
            ) {
                Some(place) => RemoveAction::DeleteRecent { place },
                None => RemoveAction::Nothing,
            },
        };
        match &action {
            RemoveAction::RemoveGroup { id } => self.remove_project_group(*id),
            _ => {},
        }
        action
    }

    /// The folders to add to the project for the selected line: those of a recent workspace on
    /// this machine, where there is a workspace to add them to.
    pub fn handle_add_to_workspace(&self, current: &Option<CurrentWorkspace>) -> (paths: Option<
        Vec<HostPath>,
    >)
        ensures
            match addable(*self, *current) {
                Some(place) => paths matches Some(paths) && paths@
                    == self.workspaces@[place].paths@,
                None => paths is None,
            },
    {
        let index = self.selected_index;
        if index >= self.filtered_entries.len() || current.is_none() {
            return None;
        }
        match &self.filtered_entries[index] {
            ProjectPickerEntry::RecentProject(hit) => {
                if hit.candidate_id < self.workspaces.len() {
                    match &self.workspaces[hit.candidate_id].location {
                        SerializedWorkspaceLocation::Local => Some(
                            clone_paths(&self.workspaces[hit.candidate_id].paths),
                        ),
                        SerializedWorkspaceLocation::Remote { .. } => None,
                    }
                } else {
                    None
                }
            },
            _ => None,
        }
    }
}

/// The recent workspace of the selected line, where its folders can be added to the project.
pub open spec fn addable(
    delegate: RecentProjectsDelegate,
    current: Option<CurrentWorkspace>,
) -> Option<int> {
    match deletable(delegate, delegate.selected_index as int, current) {
        Some(place) if delegate.workspaces@[place].location is Local => Some(place),
        _ => None,
    }
}

/// How a recent workspace is opened.
#[derive(Debug)]
pub enum OpenRecent {
    Nothing,
    /// Replace the folders of a workspace of a host.
    OpenPaths { target: HostWorkspaceIdentity, paths: Vec<HostPath>, window: WindowHandle },
    /// Open the folders as a project of the window.
    OpenProject { paths: Vec<HostPath>, window: WindowHandle },
    /// Connect to a host over SSH, from the window.
    ConnectHost { options: RemoteConnectionOptions, window: WindowHandle },
    /// Open the folders on a host of another kind.
    OpenRemote {
        options: RemoteConnectionOptions,
        paths: Vec<HostPath>,
        window: Option<WindowHandle>,
    },
    /// Report that there is no window to connect from.
    NoHostWindow,
}

#[verifier::ext_equal]
pub enum OpenRecentModel {
    Nothing,
    OpenPaths { target: HostWorkspaceIdentity, paths: Seq<HostPath>, window: WindowHandle },
    OpenProject { paths: Seq<HostPath>, window: WindowHandle },
    ConnectHost { options: crate::connection::RemoteModel, window: WindowHandle },
    OpenRemote {
        options: crate::connection::RemoteModel,
        paths: Seq<HostPath>,
        window: Option<WindowHandle>,
    },
    NoHostWindow,
}

impl View for OpenRecent {
    type V = OpenRecentModel;

    open spec fn view(&self) -> OpenRecentModel {
        match *self {
            OpenRecent::Nothing => OpenRecentModel::Nothing,
            OpenRecent::OpenPaths { target, paths, window } => OpenRecentModel::OpenPaths {
                target,
                paths: paths@,
                window,
            },
            OpenRecent::OpenProject { paths, window } => OpenRecentModel::OpenProject {
                paths: paths@,
                window,
            },
            OpenRecent::ConnectHost { options, window } => OpenRecentModel::ConnectHost {
                options: options@,
                window,
            },
            OpenRecent::OpenRemote { options, paths, window } => OpenRecentModel::OpenRemote {
                options: options@,
                paths: paths@,
                window,
            },
            OpenRecent::NoHostWindow => OpenRecentModel::NoHostWindow,
        }
    }
}

/// The words in which a missing window is reported.
pub fn no_host_window_message() -> (text: &'static str)
    ensures
        text@ == "Super Zed requires its existing host window"@,
{
    "Super Zed requires its existing host window"
}

/// How a recent workspace is opened from a workspace. On this machine it replaces the folders of
/// the workspace where that is one of a host, and is opened in the window otherwise. On another
/// machine the host is connected.
pub open spec fn opened_from(
    candidate: RecentWorkspace,
    workspace: CurrentWorkspace,
    window: Option<WindowHandle>,
    settings: RemoteSettings,
) -> OpenRecentModel {
    if workspace.database_id == Some(candidate.workspace_id) {
        OpenRecentModel::Nothing
    } else {
        match candidate.location {
            SerializedWorkspaceLocation::Local => match (workspace.identity, window) {
                (Some(target), Some(window)) => OpenRecentModel::OpenPaths {
                    target,
                    paths: candidate.paths@,
                    window,
                },
                (None, Some(window)) => OpenRecentModel::OpenProject {
                    paths: candidate.paths@,
                    window,
                },
                (_, None) => OpenRecentModel::Nothing,
            },
            SerializedWorkspaceLocation::Remote { options, display_name } => match options {
                RemoteConnectionOptions::Ssh(ssh) => match window {
                    Some(window) => OpenRecentModel::ConnectHost {
                        options: crate::connection::RemoteModel::Ssh(
                            crate::remote_connections::filled(
                                ssh@,
                                crate::remote_connections::setting_models(
                                    settings.ssh_connections@,
                                ),
                            ),
                        ),
                        window,
                    },
                    None => OpenRecentModel::NoHostWindow,
                },
                _ => OpenRecentModel::OpenRemote {
                    options: options@,
                    paths: candidate.paths@,
                    window,
                },
            },
        }
    }
}

impl RecentProjectsDelegate {
    /// Says how a recent workspace is opened, and whether the list is left.
    pub fn open_recent_projects(
        &self,
        candidate_id: usize,
        current: &Option<CurrentWorkspace>,
        window: Option<WindowHandle>,
        settings: &RemoteSettings,
    ) -> (result: (OpenRecent, bool))
        ensures
            match *current {
                Some(workspace) if candidate_id < self.workspaces@.len() => result.0@
                    == opened_from(
                    self.workspaces@[candidate_id as int],
                    workspace,
                    window,
                    *settings,
                ) && result.1,
                _ => result.0 is Nothing && !result.1,
            },
    {
        let workspace = match current {
            Some(workspace) => workspace,
            None => {
                return (OpenRecent::Nothing, false);
            },
        };
        if candidate_id >= self.workspaces.len() {
            return (OpenRecent::Nothing, false);
        }
        let candidate = &self.workspaces[candidate_id];
        let is_current = match workspace.database_id {
            Some(id) => id == candidate.workspace_id,
            None => false,
        };
        if is_current {
            return (OpenRecent::Nothing, true);
        }
        let action = match &candidate.location {
            SerializedWorkspaceLocation::Local => match window {
                Some(window) => match &workspace.identity {
                    Some(target) => OpenRecent::OpenPaths {
                        target: target.clone(),
                        paths: clone_paths(&candidate.paths),
                        window,
                    },
                    None => OpenRecent::OpenProject {
                        paths: clone_paths(&candidate.paths),
                        window,
                    },
                },
                None => OpenRecent::Nothing,
            },
            SerializedWorkspaceLocation::Remote { options, display_name: _ } => match options {
                RemoteConnectionOptions::Ssh(ssh) => match window {
                    Some(window) => {
                        let mut ssh = ssh.clone();
                        settings.fill_connection_options_from_settings(&mut ssh);
                        OpenRecent::ConnectHost { options: RemoteConnectionOptions::Ssh(ssh), window }
                    },
                    None => OpenRecent::NoHostWindow,
                },
                _ => OpenRecent::OpenRemote {
                    options: options.clone(),
                    paths: clone_paths(&candidate.paths),
                    window,
                },
            },
        };
        (action, true)
    }
}

/// Opening a recent workspace on this machine from a workspace of a host never leads anywhere but
/// to that workspace: no other one is made or shown.
pub proof fn law_opening_stays_in_the_workspace(
    candidate: RecentWorkspace,
    workspace: CurrentWorkspace,
    window: WindowHandle,
    settings: RemoteSettings,
)
    requires
        candidate.location is Local,
        workspace.identity is Some,
        workspace.database_id != Some(candidate.workspace_id),
    ensures
        opened_from(candidate, workspace, Some(window), settings) == (OpenRecentModel::OpenPaths {
            target: workspace.identity->0,
            paths: candidate.paths@,
            window,
        }),
{
}

/// What confirming a line comes to.
#[derive(Debug)]
pub enum ConfirmAction {
    Nothing,
    /// Make the repository of a worktree the active one.
    ActivateRepository { worktree_id: u64 },
    /// Show a group in the window.
    ActivateGroup { id: u64, window: WindowHandle },
    /// Open a recent workspace.
    Open(OpenRecent),
}

/// Whether an action and leaving the list are what confirming the selected line comes to.
pub open spec fn confirmation_matches(
    delegate: RecentProjectsDelegate,
    current: Option<CurrentWorkspace>,
    window: Option<WindowHandle>,
    settings: RemoteSettings,
    action: ConfirmAction,
    dismissed: bool,
) -> bool {
    let index = delegate.selected_index as int;
    if index >= delegate.filtered_entries@.len() {
        action is Nothing && !dismissed
    } else {
        match delegate.filtered_entries@[index]@ {
            EntryModel::Header(_) => action is Nothing && !dismissed,
            EntryModel::OpenFolder { index, positions } => if index < delegate.open_folders@.len() {
                &&& dismissed
                &&& if current is Some {
                    action == (ConfirmAction::ActivateRepository {
                        worktree_id: delegate.open_folders@[index].worktree_id,
                    })
                } else {
                    action is Nothing
                }
            } else {
                action is Nothing && !dismissed
            },
            EntryModel::ProjectGroup(hit) => if hit.candidate_id
                < delegate.window_project_groups@.len() {
                &&& dismissed
                &&& match window {
                    Some(window) => action == (ConfirmAction::ActivateGroup {
                        id: delegate.window_project_groups@[hit.candidate_id].id,
                        window,
                    }),
                    None => action is Nothing,
                }
            } else {
                action is Nothing && !dismissed
            },
            EntryModel::RecentProject(hit) => match current {
                Some(workspace) if hit.candidate_id < delegate.workspaces@.len() => {
                    &&& dismissed
                    &&& action matches ConfirmAction::Open(open) && open@ == opened_from(
                        delegate.workspaces@[hit.candidate_id],
                        workspace,
                        window,
                        settings,
                    )
                },
                _ => !dismissed && (action matches ConfirmAction::Open(open) && open is Nothing),
            },
        }
    }
}

impl RecentProjectsDelegate {
    /// Says what confirming the selected line comes to, and whether the list is left.
    pub fn confirm(
        &self,
        current: &Option<CurrentWorkspace>,
        window: Option<WindowHandle>,
        settings: &RemoteSettings,
    ) -> (result: (ConfirmAction, bool))
        ensures
            confirmation_matches(*self, *current, window, *settings, result.0, result.1),
    {
        if self.selected_index >= self.filtered_entries.len() {
            return (ConfirmAction::Nothing, false);
        }
        match &self.filtered_entries[self.selected_index] {
            ProjectPickerEntry::Header(_) => (ConfirmAction::Nothing, false),
            ProjectPickerEntry::OpenFolder { index, positions: _ } => {
                if *index >= self.open_folders.len() {
                    return (ConfirmAction::Nothing, false);
                }
                if current.is_some() {
                    (
                        ConfirmAction::ActivateRepository {
                            worktree_id: self.open_folders[*index].worktree_id,
                        },
                        true,
                    )
                } else {
                    (ConfirmAction::Nothing, true)
                }
            },
            ProjectPickerEntry::ProjectGroup(hit) => {
                if hit.candidate_id >= self.window_project_groups.len() {
                    return (ConfirmAction::Nothing, false);
                }
                match window {
                    Some(window) => (
                        ConfirmAction::ActivateGroup {
                            id: self.window_project_groups[hit.candidate_id].id,
                            window,
                        },
                        true,
                    ),
                    None => (ConfirmAction::Nothing, true),
                }
            },
            ProjectPickerEntry::RecentProject(hit) => {
                let (open, dismissed) = self.open_recent_projects(
                    hit.candidate_id,
                    current,
                    window,
                    settings,
                );
                (ConfirmAction::Open(open), dismissed)
            },
        }
    }
}

/// How a group is shown: in the workspace that last showed it, or in one that is looked for or
/// made.
#[derive(Clone, Copy, Debug, PartialEq, Eq, Structural)]
pub enum GroupAction {
    Activate { workspace: u64 },
    FindOrCreate,
}

/// Says how a group is shown, given the workspace that last showed it.
pub fn activate_project_group(last_active: Option<u64>) -> (action: GroupAction)
    ensures
        action == match last_active {
            Some(workspace) => GroupAction::Activate { workspace },
            None => GroupAction::FindOrCreate,
        },
{
    match last_active {
        Some(workspace) => GroupAction::Activate { workspace },
        None => GroupAction::FindOrCreate,
    }
}

/// What can be chosen where folders are asked for.
#[derive(Clone, Copy, Debug, PartialEq, Eq, Structural)]
pub struct PathPromptOptions {
    pub files: bool,
    pub directories: bool,
    pub multiple: bool,
}

/// How folders that were asked for are opened.
#[derive(Debug)]
pub enum OpenLocal {
    Nothing,
    OpenPaths {
        target: HostWorkspaceIdentity,
        paths: Vec<HostPath>,
        window: Option<WindowHandle>,
    },
    OpenProject { paths: Vec<HostPath>, window: WindowHandle },
}

/// Why folders that were asked for are not opened.
#[derive(Clone, Copy, Debug, PartialEq, Eq, Structural)]
pub enum OpenLocalError {
    NoHostIdentity,
    NoHostShell,
}

/// The words in which such an error is reported.
pub open spec fn open_local_message(error: OpenLocalError) -> Seq<char> {
    match error {
        OpenLocalError::NoHostIdentity => "requesting workspace has no host identity"@,
        OpenLocalError::NoHostShell => "opening a project requires the authoritative Super Zed host shell"@,
    }
}

impl OpenLocalError {
    /// The words in which the error is reported.
    pub fn message(&self) -> (text: &'static str)
        ensures
            text@ == open_local_message(*self),
    {
        match self {
            OpenLocalError::NoHostIdentity => "requesting workspace has no host identity",
            OpenLocalError::NoHostShell => {
                "opening a project requires the authoritative Super Zed host shell"
            },
        }
    }
}

/// What is asked for before folders are opened, where there is a workspace to open them from:
/// any number of files and directories.
pub fn open_local_prompt(current: &Option<CurrentWorkspace>) -> (prompt: Option<PathPromptOptions>)
    ensures
        prompt == match *current {
            Some(_) => Some(PathPromptOptions { files: true, directories: true, multiple: true }),
            None => None,
        },
{
    if current.is_some() {
        Some(PathPromptOptions { files: true, directories: true, multiple: true })
    } else {
        None
    }
}

/// Says how the folders that were chosen are opened: in the workspace they were asked for from
/// where the window shows a host session, and as a project of the window otherwise.
pub fn open_local_project(
    chosen: Option<Vec<HostPath>>,
    target: Option<HostWorkspaceIdentity>,
    window: Option<WindowHandle>,
    is_host_session: bool,
) -> (result: Result<OpenLocal, OpenLocalError>)
    ensures
        match chosen {
            None => result matches Ok(action) && action is Nothing,
            Some(paths) => if is_host_session {
                match target {
                    Some(target) => result == Ok::<OpenLocal, OpenLocalError>(
                        OpenLocal::OpenPaths { target, paths, window },
                    ),
                    None => result == Err::<OpenLocal, OpenLocalError>(
                        OpenLocalError::NoHostIdentity,
                    ),
                }
            } else {
                match window {
                    Some(window) => result == Ok::<OpenLocal, OpenLocalError>(
                        OpenLocal::OpenProject { paths, window },
                    ),
                    None => result == Err::<OpenLocal, OpenLocalError>(OpenLocalError::NoHostShell),
                }
            },
        },
{
    let paths = match chosen {
        Some(paths) => paths,
        None => {
            return Ok(OpenLocal::Nothing);
        },
    };
    if is_host_session {
        return match target {
            Some(target) => Ok(OpenLocal::OpenPaths { target, paths, window }),
            None => Err(OpenLocalError::NoHostIdentity),
        };
    }
    match window {
        Some(window) => Ok(OpenLocal::OpenProject { paths, window }),
        None => Err(OpenLocalError::NoHostShell),
    }
}

} // verus!
