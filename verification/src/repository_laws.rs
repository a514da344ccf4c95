//! What holds of choosing the active repository.

use crate::repository_selector as selector;
use crate::repository_selector::{
    MenuChoice, Repository, RepositoryRow, RepositorySelectorDelegate, RepositoryStatus,
    SelectorLabel, SelectorMenu, StatusSummary, Worktree, WorktreeRepositoryEntry,
};
use vstd::prelude::*;

verus! {

/// The repositories that answer a query are those whose name holds it, whatever the case, in their
/// order. Without a query all do.
pub proof fn law_repositories_are_found_by_name(
    repositories: Seq<Repository>,
    next: Repository,
    query: Seq<char>,
)
    ensures
        selector::matching(Seq::<Repository>::empty(), query).len() == 0,
        selector::matching(repositories.push(next), query) == if query.len() == 0 || exists|
            before: Seq<char>,
            after: Seq<char>,
        |
            crate::text_order::lowercase(next.display_name@) == #[trigger] (before
                + crate::text_order::lowercase(query) + after) {
            selector::matching(repositories, query).push(next)
        } else {
            selector::matching(repositories, query)
        },
{
    assert(repositories.push(next).drop_last() =~= repositories);
    let name = crate::text_order::lowercase(next.display_name@);
    let pattern = crate::text_order::lowercase(query);
    if crate::text::contains_text(name, pattern) {
        let i = choose|i: int| crate::text::occurs_at(name, pattern, i);
        let before = name.take(i);
        let after = name.skip(i + pattern.len());
        assert(name.subrange(i, i + pattern.len()) =~= pattern);
        assert(name =~= before + pattern + after);
    }
    if exists|before: Seq<char>, after: Seq<char>|
        name == #[trigger] (before + pattern + after) {
        let (before, after) = choose|before: Seq<char>, after: Seq<char>|
            name == #[trigger] (before + pattern + after);
        assert(name.subrange(before.len() as int, before.len() + pattern.len() as int) =~= pattern);
        assert(crate::text::occurs_at(name, pattern, before.len() as int));
    }
}

/// The active repository is selected where it is listed, and otherwise the first line.
pub proof fn law_active_repository_is_selected(repositories: Seq<Repository>, active: Option<u64>)
    ensures
        ({
            let selected = selector::place_to_select(repositories, active);
            if active matches Some(id) && exists|i: int|
                0 <= i < repositories.len() && (#[trigger] repositories[i]).id == id {
                0 <= selected < repositories.len() && repositories[selected].id == active->0
                    && forall|i: int|
                    0 <= i < selected ==> (#[trigger] repositories[i]).id != active->0
            } else {
                selected == 0
            }
        }),
{
    match active {
        Some(id) => lemma_place(repositories, id),
        None => {},
    }
}

proof fn lemma_place(repositories: Seq<Repository>, id: u64)
    ensures
        match selector::place_of(repositories, id) {
            Some(place) => 0 <= place < repositories.len() && repositories[place].id == id && forall|
                i: int,
            |
                0 <= i < place ==> (#[trigger] repositories[i]).id != id,
            None => forall|i: int| 0 <= i < repositories.len() ==> (#[trigger] repositories[i]).id != id,
        },
    decreases repositories.len(),
{
    if repositories.len() > 0 {
        let earlier = repositories.drop_last();
        lemma_place(earlier, id);
        assert(forall|i: int| 0 <= i < earlier.len() ==> (#[trigger] repositories[i]) == earlier[i]);
        assert(repositories[repositories.len() - 1] == repositories.last());
    }
}

/// The status of a repository is the worst that it holds: conflicts before deletions, deletions
/// before changes, and only additions where there is nothing else. Without changes it has none.
pub proof fn law_worst_status_is_shown(summary: StatusSummary)
    ensures
        selector::status_of(summary) is None <==> summary.count == 0,
        summary.count > 0 ==> {
            &&& selector::status_of(summary) == Some(RepositoryStatus::Unmerged) <==> summary.conflict > 0
            &&& selector::status_of(summary) == Some(RepositoryStatus::Deleted) <==> summary.conflict == 0
                && summary.worktree_deleted + summary.index_deleted > 0
            &&& selector::status_of(summary) == Some(RepositoryStatus::Modified) <==> summary.conflict
                == 0 && summary.worktree_deleted + summary.index_deleted == 0
                && summary.worktree_modified + summary.index_modified > 0
            &&& selector::status_of(summary) == Some(RepositoryStatus::Added) <==> summary.conflict == 0
                && summary.worktree_deleted + summary.index_deleted == 0
                && summary.worktree_modified + summary.index_modified == 0
        },
{
}

/// Confirming chooses the repository of the selected line, and a line shows its repository.
pub proof fn law_selected_repository_is_chosen(
    delegate: RepositorySelectorDelegate,
    chosen: Option<u64>,
    index: usize,
    selected: bool,
    row: Option<RepositoryRow>,
)
    requires
        call_ensures(RepositorySelectorDelegate::confirm, (&delegate,), chosen),
        call_ensures(RepositorySelectorDelegate::render_match, (&delegate, index, selected), row),
    ensures
        delegate.selected_index < delegate.filtered_repositories@.len() ==> chosen == Some(
            delegate.filtered_repositories@[delegate.selected_index as int].id,
        ),
        delegate.selected_index >= delegate.filtered_repositories@.len() ==> chosen is None,
        row is Some <==> index < delegate.filtered_repositories@.len(),
        row matches Some(row) ==> {
            let repository = delegate.filtered_repositories@[index as int];
            row.display_name@ == repository.display_name@ && row.selected == selected
                && row.is_active == (delegate.active_repository == Some(repository.id)) && row.status
                == selector::status_of(repository.summary)
        },
{
}

/// Each worktree is listed under its name, with the repository whose directory holds it most
/// closely, if there is one.
pub proof fn law_worktrees_go_with_their_repository(
    worktrees: Vec<Worktree>,
    repositories: Vec<Repository>,
    entries: Vec<WorktreeRepositoryEntry>,
    i: int,
)
    requires
        call_ensures(
            selector::worktree_repository_entries,
            (&worktrees, &repositories),
            entries,
        ),
        0 <= i < worktrees@.len(),
    ensures
        entries@.len() == worktrees@.len(),
        entries@[i].label@ == worktrees@[i].root_name@,
        match entries@[i].repository {
            None => forall|r: int|
                0 <= r < repositories@.len() ==> !crate::path::within(
                    worktrees@[i].path@,
                    (#[trigger] repositories@[r]).work_directory@,
                ),
            Some(id) => exists|r: int|
                0 <= r < repositories@.len() && (#[trigger] repositories@[r]).id == id
                    && crate::path::within(worktrees@[i].path@, repositories@[r].work_directory@)
                    && forall|s: int|
                    0 <= s < repositories@.len() && crate::path::within(
                        worktrees@[i].path@,
                        (#[trigger] repositories@[s]).work_directory@,
                    ) ==> crate::text_span::byte_length(repositories@[s].work_directory@.text)
                        <= crate::text_span::byte_length(repositories@[r].work_directory@.text),
        },
{
    let directories = selector::work_directories(repositories@);
    let path = worktrees@[i].path@;
    crate::path_order::law_innermost_is_longest(directories, path);
    assert(forall|r: int|
        0 <= r < repositories@.len() ==> (#[trigger] repositories@[r]).work_directory@
            == directories[r]);
    assert(forall|r: int|
        0 <= r < repositories@.len() ==> repositories@[r].work_directory@
            == #[trigger] directories[r]);
    assert(entries@[i].label@ == worktrees@[i].root_name@);
    match selector::repository_place(repositories@, path) {
        Some(r) => {
            assert(repositories@[r].id == repositories@[r].id);
        },
        None => {},
    }
}

/// The choices of the menu go with the worktrees: each one chooses its repository, the active one is
/// marked, and one without a repository cannot be chosen.
pub proof fn law_menu_offers_the_repositories(
    entries: Vec<WorktreeRepositoryEntry>,
    active: Option<u64>,
    choices: Vec<MenuChoice>,
    i: int,
)
    requires
        call_ensures(selector::menu_choices, (&entries, active), choices),
        0 <= i < entries@.len(),
    ensures
        choices@.len() == entries@.len(),
        choices@[i].repository == entries@[i].repository,
        choices@[i].row.label@ == entries@[i].label@,
        choices@[i].row.disabled <==> entries@[i].repository is None,
        choices@[i].row.selected <==> entries@[i].repository is Some && entries@[i].repository == active,
        choices@[i].row.tooltip is Some <==> entries@[i].repository is None,
{
    assert(selector::choice_matches(choices@[i], entries@[i], active));
}

/// There is no menu without worktrees, a plain label for one, and a menu with a choice for each for
/// more. The label is the active repository's name, or that of the first worktree.
pub proof fn law_menu_opens_for_more_than_one(
    entries: Vec<WorktreeRepositoryEntry>,
    active: Option<(u64, &str)>,
    menu: Option<SelectorMenu>,
)
    requires
        call_ensures(selector::repository_selector_menu, (&entries, active), menu),
    ensures
        menu is None <==> entries@.len() == 0,
        menu matches Some(SelectorMenu::Label { .. }) <==> entries@.len() == 1,
        menu matches Some(SelectorMenu::Menu { trigger, choices }) ==> entries@.len() > 1
            && choices@.len() == entries@.len() && trigger.show_chevron && trigger.label@
            == crate::text::trimmed_end(
            match active {
                Some((_, name)) => name@,
                None => entries@[0].label@,
            },
            '/',
        ),
{
}

/// The button is shown for the active repository where there are several.
pub proof fn law_button_needs_several_repositories(
    count: usize,
    name: Option<&str>,
    view: Option<SelectorLabel>,
)
    requires
        call_ensures(selector::repository_selector_button, (count, name), view),
    ensures
        view is Some <==> count > 1 && name is Some,
        view matches Some(button) ==> button.label@ == crate::text::trimmed_end((name->0)@, '/'),
{
}

} // verus!
