//! Choosing the active repository of a project.

use crate::path::{HostPath, PathModel};
use crate::path_order::find_innermost;
use crate::text::{contains, trim_end_matches};
use crate::text_order::{sort_places, to_lowercase};
use vstd::prelude::*;

verus! {

/// How many files a repository has in each state.
#[derive(Clone, Copy, Debug, PartialEq, Eq, Structural)]
pub struct StatusSummary {
    pub count: usize,
    pub conflict: usize,
    pub worktree_deleted: usize,
    pub index_deleted: usize,
    pub worktree_modified: usize,
    pub index_modified: usize,
}

/// A repository of a project.
#[derive(Debug, PartialEq)]
pub struct Repository {
    pub id: u64,
    pub display_name: String,
    pub work_directory: HostPath,
    pub summary: StatusSummary,
}

impl Clone for Repository {
    fn clone(&self) -> (copy: Self)
        ensures
            copy == *self,
    {
        Repository {
            id: self.id,
            display_name: self.display_name.clone(),
            work_directory: self.work_directory.clone(),
            summary: self.summary,
        }
    }
}

/// A worktree of a project.
#[derive(Debug)]
pub struct Worktree {
    pub root_name: String,
    pub path: HostPath,
}

/// What a workspace can be asked to do.
#[derive(Clone, Copy, Debug, PartialEq, Eq, Structural)]
pub enum WorkspaceAction {
    SelectRepository,
}

/// The actions that a workspace answers to.
#[derive(Debug)]
pub struct WorkspaceActions {
    pub registered: Vec<WorkspaceAction>,
}

/// Makes a workspace answer to the selection of a repository.
pub fn register(workspace: &mut WorkspaceActions)
    ensures
        final(workspace).registered@ == old(workspace).registered@.push(
            WorkspaceAction::SelectRepository,
        ),
{
    workspace.registered.push(WorkspaceAction::SelectRepository);
}

/// How large a label is.
#[derive(Clone, Copy, Debug, PartialEq, Eq, Structural)]
pub enum LabelSize {
    Small,
    Default,
}

/// A label with a folder in front, and a chevron behind where it opens a menu.
#[derive(Debug)]
pub struct SelectorLabel {
    pub label: String,
    pub label_size: LabelSize,
    pub show_chevron: bool,
}

/// The label of the selector.
pub fn repository_selector_label(label: String, label_size: LabelSize, show_chevron: bool) -> (view:
    SelectorLabel)
    ensures
        view.label == label,
        view.label_size == label_size,
        view.show_chevron == show_chevron,
{
    SelectorLabel { label, label_size, show_chevron }
}

/// The button of the selector: its label with a chevron.
pub fn repository_selector_trigger(label: String, label_size: LabelSize) -> (view: SelectorLabel)
    ensures
        view.label == label,
        view.label_size == label_size,
        view.show_chevron,
{
    repository_selector_label(label, label_size, true)
}

/// The button that opens the selector, where there is more than one repository and one of them is
/// active.
pub fn repository_selector_button(repository_count: usize, active_name: Option<&str>) -> (view:
    Option<SelectorLabel>)
    ensures
        match active_name {
            Some(name) if repository_count > 1 => view matches Some(button) && button.label@
                == crate::text::trimmed_end(name@, '/') && button.label_size == LabelSize::Small
                && button.show_chevron,
            _ => view is None,
        },
{
    if repository_count <= 1 {
        return None;
    }
    match active_name {
        None => None,
        Some(name) => Some(
            repository_selector_trigger(trim_end_matches(name, '/'), LabelSize::Small),
        ),
    }
}

/// A row of the selector's menu.
#[derive(Debug, PartialEq, Eq)]
pub struct MenuRow {
    pub id: String,
    pub label: String,
    /// The row is marked with a check.
    pub selected: bool,
    /// The row cannot be chosen, and says so.
    pub disabled: bool,
    pub tooltip: Option<String>,
}

/// A row of the selector's menu. One that cannot be chosen says why.
pub fn worktree_repository_menu_row(label: String, selected: bool, disabled: bool) -> (row: MenuRow)
    ensures
        row.id@ == "worktree-repository-menu-row-"@ + label@,
        row.label@ == label@,
        row.selected == selected,
        row.disabled == disabled,
        crate::text::optional_text(row.tooltip) == if disabled {
            Some("Not a Git repository"@)
        } else {
            None
        },
{
    let id = crate::error::message_with("worktree-repository-menu-row-", label.as_str());
    let tooltip = if disabled {
        Some("Not a Git repository".to_string())
    } else {
        None
    };
    MenuRow { id, label, selected, disabled, tooltip }
}

/// The directories of repositories.
pub open spec fn work_directories(repositories: Seq<Repository>) -> Seq<PathModel> {
    Seq::new(repositories.len(), |i: int| repositories[i].work_directory@)
}

/// Which repository a worktree is in: of those whose directory holds it, the one with the longest
/// path, and of equally long ones the last.
pub open spec fn repository_place(repositories: Seq<Repository>, worktree: PathModel) -> Option<
    int,
> {
    crate::path_order::innermost(work_directories(repositories), worktree)
}

/// Finds the repository that a worktree is in.
pub fn repository_for_worktree(worktree: &HostPath, repositories: &Vec<Repository>) -> (index:
    Option<usize>)
    ensures
        match index {
            Some(index) => repository_place(repositories@, worktree@) == Some(index as int) && index
                < repositories@.len(),
            None => repository_place(repositories@, worktree@) is None,
        },
{
    let mut directories: Vec<HostPath> = Vec::new();
    let mut i: usize = 0;
    while i < repositories.len()
        invariant
            i <= repositories@.len(),
            directories@.len() == i,
            forall|j: int|
                0 <= j < i ==> (#[trigger] directories@[j])@ == repositories@[j].work_directory@,
        decreases repositories@.len() - i,
    {
        directories.push(repositories[i].work_directory.clone());
        i += 1;
    }
    assert(crate::path::path_models(directories@) =~= work_directories(repositories@));
    find_innermost(worktree, &directories)
}

/// A worktree, with the repository that it is in.
#[derive(Debug)]
pub struct WorktreeRepositoryEntry {
    pub label: String,
    pub repository: Option<u64>,
}

/// The entry of a worktree.
pub open spec fn entry_repository(worktree: Worktree, repositories: Seq<Repository>) -> Option<
    u64,
> {
    match repository_place(repositories, worktree.path@) {
        Some(index) => Some(repositories[index].id),
        None => None,
    }
}

/// The worktrees of a project, each with the repository that it is in.
pub fn worktree_repository_entries(worktrees: &Vec<Worktree>, repositories: &Vec<Repository>) -> (entries:
    Vec<WorktreeRepositoryEntry>)
    ensures
        entries@.len() == worktrees@.len(),
        forall|i: int|
            0 <= i < worktrees@.len() ==> (#[trigger] entries@[i]).label@
                == worktrees@[i].root_name@ && entries@[i].repository == entry_repository(
                worktrees@[i],
                repositories@,
            ),
{
    let mut entries: Vec<WorktreeRepositoryEntry> = Vec::new();
    let mut i: usize = 0;
    while i < worktrees.len()
        invariant
            i <= worktrees@.len(),
            entries@.len() == i,
            forall|k: int|
                0 <= k < i ==> (#[trigger] entries@[k]).label@ == worktrees@[k].root_name@
                    && entries@[k].repository == entry_repository(worktrees@[k], repositories@),
        decreases worktrees@.len() - i,
    {
        let repository = match repository_for_worktree(&worktrees[i].path, repositories) {
            Some(index) => Some(repositories[index].id),
            None => None,
        };
        entries.push(
            WorktreeRepositoryEntry { label: worktrees[i].root_name.clone(), repository },
        );
        i += 1;
    }
    entries
}

/// A choice in the selector's menu.
#[derive(Debug)]
pub struct MenuChoice {
    pub row: MenuRow,
    /// The repository that the choice makes active.
    pub repository: Option<u64>,
}

/// The selector: a label where there is one worktree, and a menu where there are more.
#[derive(Debug)]
pub enum SelectorMenu {
    Label { view: SelectorLabel },
    Menu { trigger: SelectorLabel, choices: Vec<MenuChoice> },
}

/// The choice for an entry: one in a repository can be chosen and is marked where that repository
/// is active, another one is disabled.
pub open spec fn choice_matches(
    choice: MenuChoice,
    entry: WorktreeRepositoryEntry,
    active: Option<u64>,
) -> bool {
    &&& choice.repository == entry.repository
    &&& choice.row.label@ == entry.label@
    &&& choice.row.id@ == "worktree-repository-menu-row-"@ + entry.label@
    &&& choice.row.selected == (entry.repository is Some && entry.repository == active)
    &&& choice.row.disabled == (entry.repository is None)
    &&& crate::text::optional_text(choice.row.tooltip) == if entry.repository is None {
        Some("Not a Git repository"@)
    } else {
        None
    }
}

/// The choices of the selector's menu.
pub fn menu_choices(entries: &Vec<WorktreeRepositoryEntry>, active: Option<u64>) -> (choices: Vec<
    MenuChoice,
>)
    ensures
        choices@.len() == entries@.len(),
        forall|i: int|
            0 <= i < entries@.len() ==> choice_matches(#[trigger] choices@[i], entries@[i], active),
{
    let mut choices: Vec<MenuChoice> = Vec::new();
    let mut i: usize = 0;
    while i < entries.len()
        invariant
            i <= entries@.len(),
            choices@.len() == i,
            forall|k: int|
                0 <= k < i ==> choice_matches(#[trigger] choices@[k], entries@[k], active),
        decreases entries@.len() - i,
    {
        let entry = &entries[i];
        let selected = match (entry.repository, active) {
            (Some(repository), Some(active)) => repository == active,
            _ => false,
        };
        let row = worktree_repository_menu_row(
            entry.label.clone(),
            selected,
            entry.repository.is_none(),
        );
        choices.push(MenuChoice { row, repository: entry.repository });
        i += 1;
    }
    choices
}

/// Whether a menu is the one for worktrees and the active repository: nothing without worktrees,
/// a mere label for one, and a choice for several.
pub open spec fn menu_matches(
    entries: Seq<WorktreeRepositoryEntry>,
    active: Option<(u64, &str)>,
    label_size: LabelSize,
    menu: Option<SelectorMenu>,
) -> bool {
    let shown = match active {
        Some((_, name)) => name@,
        None => entries[0].label@,
    };
    let id = match active {
        Some((id, _)) => Some(id),
        None => None,
    };
    if entries.len() == 0 {
        menu is None
    } else if entries.len() == 1 {
        menu matches Some(SelectorMenu::Label { view }) && view.label@ == crate::text::trimmed_end(
            shown,
            '/',
        ) && view.label_size == label_size && !view.show_chevron
    } else {
        menu matches Some(SelectorMenu::Menu { trigger, choices }) && trigger.label@
            == crate::text::trimmed_end(shown, '/') && trigger.label_size == label_size
            && trigger.show_chevron && choices@.len() == entries.len() && forall|i: int|
            0 <= i < entries.len() ==> choice_matches(#[trigger] choices@[i], entries[i], id)
    }
}

/// The menu of repositories, with a small label.
pub fn repository_selector_menu(
    entries: &Vec<WorktreeRepositoryEntry>,
    active: Option<(u64, &str)>,
) -> (menu: Option<SelectorMenu>)
    ensures
        menu_matches(entries@, active, LabelSize::Small, menu),
{
    repository_selector_menu_with_label_size(entries, active, LabelSize::Small)
}

/// The menu of repositories, with a label of ordinary size.
pub fn repository_selector_menu_default(
    entries: &Vec<WorktreeRepositoryEntry>,
    active: Option<(u64, &str)>,
) -> (menu: Option<SelectorMenu>)
    ensures
        menu_matches(entries@, active, LabelSize::Default, menu),
{
    repository_selector_menu_with_label_size(entries, active, LabelSize::Default)
}

/// The selector for the worktrees of a project. It shows the active repository, or else the first
/// worktree; there is none without worktrees.
pub fn repository_selector_menu_with_label_size(
    entries: &Vec<WorktreeRepositoryEntry>,
    active: Option<(u64, &str)>,
    label_size: LabelSize,
) -> (menu: Option<SelectorMenu>)
    ensures
        menu_matches(entries@, active, label_size, menu),
{
    if entries.len() == 0 {
        return None;
    }
    let label = match active {
        Some((_, name)) => trim_end_matches(name, '/'),
        None => trim_end_matches(entries[0].label.as_str(), '/'),
    };
    if entries.len() == 1 {
        return Some(
            SelectorMenu::Label { view: repository_selector_label(label, label_size, false) },
        );
    }
    let id = match active {
        Some((id, _)) => Some(id),
        None => None,
    };
    Some(
        SelectorMenu::Menu {
            trigger: repository_selector_trigger(label, label_size),
            choices: menu_choices(entries, id),
        },
    )
}

/// The names of repositories, in lower case.
pub open spec fn lower_names(repositories: Seq<Repository>) -> Seq<Seq<char>> {
    Seq::new(
        repositories.len(),
        |i: int| crate::text_order::lowercase(repositories[i].display_name@),
    )
}

/// Repositories by their names but for case; those with the same name stay in order.
pub open spec fn sorted_repositories(repositories: Seq<Repository>) -> Seq<Repository> {
    let places = crate::text_order::sorted_places(lower_names(repositories));
    Seq::new(places.len(), |i: int| repositories[places[i]])
}

/// Sorting keeps every repository once and puts them in the order of their names but for case.
pub proof fn law_sorting_orders_repositories(repositories: Seq<Repository>)
    ensures
        sorted_repositories(repositories).to_multiset() == repositories.to_multiset(),
        forall|i: int, j: int|
            0 <= i <= j < repositories.len() ==> crate::text_order::text_le(
                #[trigger] lower_names(sorted_repositories(repositories))[i],
                #[trigger] lower_names(sorted_repositories(repositories))[j],
            ),
{
    let keys = lower_names(repositories);
    let places = crate::text_order::sorted_places(keys);
    let sorted = sorted_repositories(repositories);
    crate::text_order::law_sorting_is_stable(keys);
    assert forall|i: int, j: int| 0 <= i <= j < repositories.len() implies crate::text_order::text_le(
        #[trigger] lower_names(sorted)[i],
        #[trigger] lower_names(sorted)[j],
    ) by {
        assert(places.contains(places[i]));
        assert(places.contains(places[j]));
        assert(lower_names(sorted)[i] == keys[places[i]]);
        assert(lower_names(sorted)[j] == keys[places[j]]);
        crate::text_order::law_text_order_is_total(keys[places[i]], keys[places[j]]);
    }
    crate::text_order::lemma_rearranged(repositories, places);
    assert(sorted =~= Seq::new(places.len(), |i: int| repositories[places[i]]));
}

/// Sorting leaves repositories with the same name but for case in the order in which they came.
pub proof fn law_sorting_is_stable(repositories: Seq<Repository>, i: int, j: int)
    requires
        0 <= i < j < repositories.len(),
        lower_names(sorted_repositories(repositories))[i] == lower_names(
            sorted_repositories(repositories),
        )[j],
    ensures
        exists|from: int, to: int|
            0 <= from < to < repositories.len() && #[trigger] repositories[from]
                == sorted_repositories(repositories)[i] && #[trigger] repositories[to]
                == sorted_repositories(repositories)[j],
{
    let keys = lower_names(repositories);
    let places = crate::text_order::sorted_places(keys);
    crate::text_order::law_sorting_is_stable(keys);
    assert(places.contains(places[i]));
    assert(places.contains(places[j]));
    assert(keys[places[i]] == keys[places[j]]);
    assert(places[i] < places[j]);
    assert(repositories[places[i]] == sorted_repositories(repositories)[i]);
    assert(repositories[places[j]] == sorted_repositories(repositories)[j]);
}

/// Sorts repositories by their names but for case.
pub fn sort_repositories(repositories: &Vec<Repository>) -> (sorted: Vec<Repository>)
    ensures
        sorted@ == sorted_repositories(repositories@),
{
    let mut keys: Vec<String> = Vec::new();
    let mut i: usize = 0;
    while i < repositories.len()
        invariant
            i <= repositories@.len(),
            keys@.len() == i,
            forall|j: int|
                0 <= j < i ==> (#[trigger] keys@[j])@ == crate::text_order::lowercase(
                    repositories@[j].display_name@,
                ),
        decreases repositories@.len() - i,
    {
        keys.push(to_lowercase(repositories[i].display_name.as_str()));
        i += 1;
    }
    assert(crate::text::texts(keys@) =~= lower_names(repositories@));
    let places = sort_places(&keys);
    let mut sorted: Vec<Repository> = Vec::new();
    let mut next: usize = 0;
    while next < places.len()
        invariant
            next <= places@.len(),
            keys@.len() == repositories@.len(),
            forall|j: int| 0 <= j < places@.len() ==> #[trigger] places@[j] < keys@.len(),
            crate::text_order::as_places(places@) == crate::text_order::sorted_places(
                lower_names(repositories@),
            ),
            sorted@ =~= sorted_repositories(repositories@).take(next as int),
        decreases places@.len() - next,
    {
        assert(crate::text_order::as_places(places@)[next as int] == places@[next as int]);
        sorted.push(repositories[places[next]].clone());
        next += 1;
    }
    assert(sorted@ =~= sorted_repositories(repositories@));
    sorted
}

/// Whether a repository answers to a query: its name holds the query but for case.
pub open spec fn answers_query(repository: Repository, query: Seq<char>) -> bool {
    query.len() == 0 || crate::text::contains_text(
        crate::text_order::lowercase(repository.display_name@),
        crate::text_order::lowercase(query),
    )
}

/// The repositories that answer to a query, in order.
pub open spec fn matching(repositories: Seq<Repository>, query: Seq<char>) -> Seq<Repository>
    decreases repositories.len(),
{
    if repositories.len() == 0 {
        Seq::<Repository>::empty()
    } else if answers_query(repositories.last(), query) {
        matching(repositories.drop_last(), query).push(repositories.last())
    } else {
        matching(repositories.drop_last(), query)
    }
}

/// Where the repository with an identity first stands.
pub open spec fn place_of(repositories: Seq<Repository>, id: u64) -> Option<int>
    decreases repositories.len(),
{
    if repositories.len() == 0 {
        None
    } else {
        match place_of(repositories.drop_last(), id) {
            Some(index) => Some(index),
            None => if repositories.last().id == id {
                Some(repositories.len() - 1)
            } else {
                None
            },
        }
    }
}

proof fn lemma_place_of(repositories: Seq<Repository>, id: u64, count: int)
    requires
        0 <= count <= repositories.len(),
        place_of(repositories.take(count), id) is Some,
    ensures
        place_of(repositories, id) == place_of(repositories.take(count), id),
        0 <= place_of(repositories, id)->0 < repositories.len(),
    decreases repositories.len() - count,
{
    if count == repositories.len() {
        assert(repositories.take(count) =~= repositories);
        lemma_place_bound(repositories, id);
    } else {
        assert(repositories.take(count + 1).drop_last() =~= repositories.take(count));
        lemma_place_of(repositories, id, count + 1);
    }
}

proof fn lemma_place_bound(repositories: Seq<Repository>, id: u64)
    ensures
        place_of(repositories, id) matches Some(index) ==> 0 <= index < repositories.len()
            && repositories[index].id == id,
    decreases repositories.len(),
{
    if repositories.len() > 0 {
        lemma_place_bound(repositories.drop_last(), id);
    }
}

fn find_place(repositories: &Vec<Repository>, id: u64) -> (place: Option<usize>)
    ensures
        match place {
            Some(index) => place_of(repositories@, id) == Some(index as int) && index
                < repositories@.len(),
            None => place_of(repositories@, id) is None,
        },
{
    let mut i: usize = 0;
    assert(repositories@.take(0) =~= Seq::<Repository>::empty());
    while i < repositories.len()
        invariant
            i <= repositories@.len(),
            place_of(repositories@.take(i as int), id) is None,
        decreases repositories@.len() - i,
    {
        assert(repositories@.take(i + 1).drop_last() =~= repositories@.take(i as int));
        assert(repositories@.take(i + 1).last() == repositories@[i as int]);
        if repositories[i].id == id {
            proof {
                lemma_place_of(repositories@, id, i + 1);
            }
            return Some(i);
        }
        i += 1;
    }
    assert(repositories@.take(i as int) =~= repositories@);
    None
}

/// The place to select: that of the active repository, or else the first.
pub open spec fn place_to_select(repositories: Seq<Repository>, active: Option<u64>) -> int {
    match active {
        Some(id) => match place_of(repositories, id) {
            Some(index) => index,
            None => 0,
        },
        None => 0,
    }
}

/// The state of a repository, in the order in which a worse one hides a better one.
#[derive(Clone, Copy, Debug, PartialEq, Eq, Structural)]
pub enum RepositoryStatus {
    Unmerged,
    Deleted,
    Modified,
    Added,
}

/// The state that a summary shows, if any file changed.
pub open spec fn status_of(summary: StatusSummary) -> Option<RepositoryStatus> {
    if summary.count == 0 {
        None
    } else if summary.conflict > 0 {
        Some(RepositoryStatus::Unmerged)
    } else if summary.worktree_deleted > 0 || summary.index_deleted > 0 {
        Some(RepositoryStatus::Deleted)
    } else if summary.worktree_modified > 0 || summary.index_modified > 0 {
        Some(RepositoryStatus::Modified)
    } else {
        Some(RepositoryStatus::Added)
    }
}

/// A match as it is shown.
#[derive(Debug)]
pub struct RepositoryRow {
    pub display_name: String,
    pub selected: bool,
    pub is_active: bool,
    pub status: Option<RepositoryStatus>,
}

/// The state of the selector.
#[derive(Debug)]
pub struct RepositorySelectorDelegate {
    pub repository_entries: Vec<Repository>,
    pub filtered_repositories: Vec<Repository>,
    pub active_repository: Option<u64>,
    pub selected_index: usize,
}

impl RepositorySelectorDelegate {
    /// The selection is one of the matches, where there are any.
    pub open spec fn well_formed(&self) -> bool {
        self.selected_index == 0 || self.selected_index < self.filtered_repositories@.len()
    }

    fn select_active(&mut self)
        ensures
            final(self).repository_entries == old(self).repository_entries,
            final(self).filtered_repositories == old(self).filtered_repositories,
            final(self).active_repository == old(self).active_repository,
            final(self).selected_index == place_to_select(
                old(self).filtered_repositories@,
                old(self).active_repository,
            ),
            final(self).well_formed(),
    {
        self.selected_index = match self.active_repository {
            Some(id) => match find_place(&self.filtered_repositories, id) {
                Some(index) => index,
                None => 0,
            },
            None => 0,
        };
    }

    /// A selector of the given repositories, sorted, with the active one selected.
    pub fn new(repositories: &Vec<Repository>, active_repository: Option<u64>) -> (delegate: Self)
        ensures
            delegate.repository_entries@ == sorted_repositories(repositories@),
            delegate.filtered_repositories@ == sorted_repositories(repositories@),
            delegate.active_repository == active_repository,
            delegate.selected_index == place_to_select(
                sorted_repositories(repositories@),
                active_repository,
            ),
            delegate.well_formed(),
    {
        let mut delegate = RepositorySelectorDelegate {
            repository_entries: sort_repositories(repositories),
            filtered_repositories: sort_repositories(repositories),
            active_repository,
            selected_index: 0,
        };
        delegate.select_active();
        delegate
    }

    /// Takes other repositories, all of them matching, with the active one selected.
    pub fn update_repository_entries(&mut self, all_repositories: Vec<Repository>)
        ensures
            final(self).repository_entries@ == all_repositories@,
            final(self).filtered_repositories@ == all_repositories@,
            final(self).active_repository == old(self).active_repository,
            final(self).selected_index == place_to_select(
                all_repositories@,
                old(self).active_repository,
            ),
            final(self).well_formed(),
    {
        let mut copy: Vec<Repository> = Vec::new();
        let mut i: usize = 0;
        while i < all_repositories.len()
            invariant
                i <= all_repositories@.len(),
                copy@ == all_repositories@.take(i as int),
            decreases all_repositories@.len() - i,
        {
            copy.push(all_repositories[i].clone());
            i += 1;
        }
        assert(all_repositories@.take(i as int) =~= all_repositories@);
        self.repository_entries = copy;
        self.filtered_repositories = all_repositories;
        self.select_active();
    }

    /// How many repositories match.
    pub fn match_count(&self) -> (count: usize)
        ensures
            count == self.filtered_repositories@.len(),
    {
        self.filtered_repositories.len()
    }

    /// The place that is selected.
    pub fn selected_index(&self) -> (index: usize)
        ensures
            index == self.selected_index,
    {
        self.selected_index
    }

    /// Selects a place, or the last one where there are not so many.
    pub fn set_selected_index(&mut self, index: usize)
        ensures
            final(self).repository_entries == old(self).repository_entries,
            final(self).filtered_repositories == old(self).filtered_repositories,
            final(self).active_repository == old(self).active_repository,
            final(self).selected_index == if index < old(self).filtered_repositories@.len() {
                index as int
            } else if old(self).filtered_repositories@.len() > 0 {
                old(self).filtered_repositories@.len() - 1
            } else {
                0
            },
            final(self).well_formed(),
    {
        let count: usize = self.filtered_repositories.len();
        let last: usize = count.saturating_sub(1);
        self.selected_index = if index < last {
            index
        } else {
            last
        };
    }

    /// The hint in the empty query field.
    pub fn placeholder_text(&self) -> (text: String)
        ensures
            text@ == "Select a repository..."@,
    {
        "Select a repository...".to_string()
    }

    /// Takes a query: those that answer to it match, sorted, with the active one selected.
    pub fn update_matches(&mut self, query: &str)
        ensures
            final(self).repository_entries == old(self).repository_entries,
            final(self).active_repository == old(self).active_repository,
            final(self).filtered_repositories@ == sorted_repositories(
                matching(old(self).repository_entries@, query@),
            ),
            final(self).selected_index == place_to_select(
                final(self).filtered_repositories@,
                old(self).active_repository,
            ),
            final(self).well_formed(),
    {
        let everything = query.unicode_len() == 0;
        let lower = to_lowercase(query);
        let mut matches: Vec<Repository> = Vec::new();
        let mut i: usize = 0;
        let ghost all = self.repository_entries@;
        assert(all.take(0) =~= Seq::<Repository>::empty());
        while i < self.repository_entries.len()
            invariant
                i <= self.repository_entries@.len(),
                *self == *old(self),
                all == self.repository_entries@,
                everything == (query@.len() == 0),
                lower@ == crate::text_order::lowercase(query@),
                matches@ == matching(all.take(i as int), query@),
            decreases self.repository_entries@.len() - i,
        {
            let repository = &self.repository_entries[i];
            assert(all.take(i + 1).drop_last() =~= all.take(i as int));
            assert(all.take(i + 1).last() == *repository);
            if everything || contains(
                to_lowercase(repository.display_name.as_str()).as_str(),
                lower.as_str(),
            ) {
                matches.push(repository.clone());
            }
            i += 1;
        }
        assert(all.take(i as int) =~= all);
        self.filtered_repositories = sort_repositories(&matches);
        self.select_active();
    }

    /// The repository to make active, where there is one at the selected place.
    pub fn confirm(&self) -> (id: Option<u64>)
        ensures
            id == if self.selected_index < self.filtered_repositories@.len() {
                Some(self.filtered_repositories@[self.selected_index as int].id)
            } else {
                None
            },
    {
        if self.selected_index < self.filtered_repositories.len() {
            Some(self.filtered_repositories[self.selected_index].id)
        } else {
            None
        }
    }

    /// A match as it is shown.
    pub fn render_match(&self, index: usize, selected: bool) -> (row: Option<RepositoryRow>)
        ensures
            if index < self.filtered_repositories@.len() {
                let repository = self.filtered_repositories@[index as int];
                row matches Some(row) && {
                    &&& row.display_name@ == repository.display_name@
                    &&& row.selected == selected
                    &&& row.is_active == (self.active_repository == Some(repository.id))
                    &&& row.status == status_of(repository.summary)
                }
            } else {
                row is None
            },
    {
        if index >= self.filtered_repositories.len() {
            return None;
        }
        let repository = &self.filtered_repositories[index];
        let summary = repository.summary;
        let is_active = match self.active_repository {
            Some(id) => id == repository.id,
            None => false,
        };
        let status = if summary.count > 0 {
            Some(
                if summary.conflict > 0 {
                    RepositoryStatus::Unmerged
                } else if summary.worktree_deleted > 0 || summary.index_deleted > 0 {
                    RepositoryStatus::Deleted
                } else if summary.worktree_modified > 0 || summary.index_modified > 0 {
                    RepositoryStatus::Modified
                } else {
                    RepositoryStatus::Added
                },
            )
        } else {
            None
        };
        Some(
            RepositoryRow {
                display_name: repository.display_name.clone(),
                selected,
                is_active,
                status,
            },
        )
    }
}

/// The selector of repositories, as it is open.
#[derive(Debug)]
pub struct RepositorySelector {
    pub picker: RepositorySelectorDelegate,
    /// How wide the selector is at first, in widths of the letter m.
    pub width: u32,
}

impl RepositorySelector {
    /// A selector of the given repositories, sorted, with the active one selected.
    pub fn new(repositories: &Vec<Repository>, active_repository: Option<u64>, width: u32) -> (selector:
        Self)
        ensures
            selector.picker.repository_entries@ == sorted_repositories(repositories@),
            selector.picker.filtered_repositories@ == sorted_repositories(repositories@),
            selector.picker.active_repository == active_repository,
            selector.picker.selected_index == place_to_select(
                sorted_repositories(repositories@),
                active_repository,
            ),
            selector.picker.well_formed(),
            selector.width == width,
    {
        RepositorySelector {
            picker: RepositorySelectorDelegate::new(repositories, active_repository),
            width,
        }
    }
}

/// Opens the selector over a workspace.
pub fn open(repositories: &Vec<Repository>, active_repository: Option<u64>) -> (selector:
    RepositorySelector)
    ensures
        selector.picker.repository_entries@ == sorted_repositories(repositories@),
        selector.picker.filtered_repositories@ == sorted_repositories(repositories@),
        selector.picker.active_repository == active_repository,
        selector.picker.selected_index == place_to_select(
            sorted_repositories(repositories@),
            active_repository,
        ),
        selector.width == 34,
{
    RepositorySelector::new(repositories, active_repository, 34)
}

} // verus!
