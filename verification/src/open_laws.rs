//! What holds of everything that is opened for the command line.

use crate::open_flow as flow;
use crate::open_flow::{
    CommandPath, OutcomeModel, PairOutcome, ResponseModel, WorkspaceMatching,
};
use crate::open_request::OpenBehavior;
use crate::path::PathModel;
use crate::remote_connections::{
    GivenPath, OpenedItem, PathWithPosition, PositionModel, SettingModel,
};
use vstd::prelude::*;

verus! {

/// A path of the command line that does not exist as it was given stands for what it reads as: that
/// path, with the row and the column that it reads with, both unchanged.
pub proof fn law_places_of_paths_are_kept(path: PathModel, parsed: PositionModel, windows: bool)
    ensures
        flow::derived(path, parsed, false, windows).path == parsed.path,
        flow::derived(path, parsed, false, windows).row == parsed.row,
        flow::derived(path, parsed, false, windows).column == parsed.column,
{
}

/// A path that exists as it was given stands for itself, without a place; but on Windows not where a
/// colon stands in its last name, or where it has no such name.
pub proof fn law_existing_paths_are_taken_as_they_are(
    path: PathModel,
    parsed: PositionModel,
    windows: bool,
)
    requires
        parsed.row is Some,
        !crate::path::same_path(parsed.path, path),
    ensures
        ({
            let meant = flow::derived(path, parsed, true, windows);
            let marks_a_place = windows && (crate::path::file_name_of(path) matches Some(name)
                ==> exists|i: int| 0 <= i < name.len() && #[trigger] name[i] == ':');
            &&& !marks_a_place ==> meant.path == path && meant.row is None && meant.column is None
            &&& marks_a_place ==> meant.path == parsed.path && meant.row == parsed.row
                && meant.column == parsed.column
        }),
{
    reveal_strlit(":");
    match crate::path::file_name_of(path) {
        Some(name) => {
            if exists|i: int| 0 <= i < name.len() && #[trigger] name[i] == ':' {
                let i = choose|i: int| 0 <= i < name.len() && #[trigger] name[i] == ':';
                assert(name.subrange(i, i + 1) =~= ":"@);
                assert(crate::text::occurs_at(name, ":"@, i));
            }
            if crate::text::contains_text(name, ":"@) {
                let i = choose|i: int| crate::text::occurs_at(name, ":"@, i);
                assert(name.subrange(i, i + 1)[0] == ':');
                assert(name[i] == ':');
            }
        },
        None => {},
    }
}

/// It is found out whether a path exists as given only where that matters: elsewhere the answer
/// changes nothing.
pub proof fn law_existence_is_asked_where_it_matters(
    path: PathModel,
    parsed: PositionModel,
    windows: bool,
)
    ensures
        flow::may_be_literal(path, parsed, windows) <== flow::derived(path, parsed, true, windows)
            != flow::derived(path, parsed, false, windows),
{
}

/// The resolved form of a path takes the place of the path alone: the row and the column stay.
pub proof fn law_resolving_keeps_the_place(given: CommandPath, windows: bool)
    ensures
        ({
            let meant = flow::derived(given.path@, given.parsed@, given.exists_as_given, windows);
            let result = flow::resolved(given, windows);
            &&& result.row == meant.row
            &&& result.column == meant.column
            &&& match given.canonical {
                Some(canonical) => result.path == canonical@,
                None => result.path == meant.path,
            }
        }),
{
}

/// A path that reads with a place and does not exist as given stands for the path and the place;
/// any other stands for itself, without a place.
pub proof fn law_given_paths_keep_their_places(given: GivenPath)
    ensures
        ({
            let result = crate::remote_connections::positioned(given);
            if given.exists {
                result.path == given.path@ && result.row is None && result.column is None
            } else {
                match given.parsed {
                    Some(parsed) if parsed.row is Some => result.path == parsed.path@ && result.row
                        == parsed.row && result.column == parsed.column,
                    _ => result.path == given.path@ && result.row is None && result.column is None,
                }
            }
        }),
{
}

/// Saying nothing of the window is the same as asking for an existing one. Reusing a window takes
/// the place of what it shows, so nothing is looked for; adding looks for a workspace around the
/// paths; everything else looks for the very workspace.
pub proof fn law_behaviors_of_windows(behavior: OpenBehavior)
    ensures
        flow::effective_behavior(OpenBehavior::Default) == OpenBehavior::ExistingWindow,
        behavior != OpenBehavior::Default ==> flow::effective_behavior(behavior) == behavior,
        flow::matching_for(behavior) == WorkspaceMatching::Never <==> behavior == OpenBehavior::Reuse,
        flow::matching_for(behavior) == WorkspaceMatching::MatchSubdirectory <==> behavior
            == OpenBehavior::Add,
        flow::matching_for(behavior) == WorkspaceMatching::MatchExact <==> behavior
            != OpenBehavior::Reuse && behavior != OpenBehavior::Add,
{
}

/// The paths of a workspace are those given. Where only a comparison is asked for, it is the
/// directory that the command line runs in.
pub proof fn law_comparisons_open_the_working_directory(
    paths: Seq<Seq<char>>,
    diff_count: nat,
    cwd: Option<Seq<char>>,
)
    ensures
        paths.len() > 0 || diff_count == 0 || cwd is None ==> flow::workspace_paths(
            paths,
            diff_count,
            cwd,
        ) == paths,
        paths.len() == 0 && diff_count > 0 && cwd is Some ==> flow::workspace_paths(
            paths,
            diff_count,
            cwd,
        ) == seq![cwd->0],
{
    if paths.len() == 0 && diff_count > 0 && cwd is Some {
        assert(paths.push(cwd->0) =~= seq![cwd->0]);
    }
}

/// The paths of a project begin with those to open, and what follows are paths to compare, none of
/// which is there twice.
pub proof fn law_project_has_no_other_paths(paths: Seq<PathModel>, more: Seq<PathModel>, i: int)
    requires
        paths.len() <= i < flow::with_new_paths(paths, more).len(),
    ensures
        more.contains(flow::with_new_paths(paths, more)[i]),
        forall|j: int|
            0 <= j < i ==> !crate::path::same_path(
                #[trigger] flow::with_new_paths(paths, more)[j],
                flow::with_new_paths(paths, more)[i],
            ),
    decreases more.len(),
{
    if more.len() > 0 {
        let earlier = more.drop_last();
        let before = flow::with_new_paths(paths, earlier);
        let all = flow::with_new_paths(paths, more);
        if i < before.len() {
            law_project_has_no_other_paths(paths, earlier, i);
            let k = choose|k: int| 0 <= k < earlier.len() && earlier[k] == before[i];
            assert(more[k] == all[i]);
            assert forall|j: int| 0 <= j < i implies !crate::path::same_path(
                #[trigger] all[j],
                all[i],
            ) by {
                assert(before[j] == all[j]);
            }
        } else {
            assert(more[more.len() - 1] == all[i]);
            assert forall|j: int| 0 <= j < i implies !crate::path::same_path(
                #[trigger] all[j],
                all[i],
            ) by {
                assert(before[j] == all[j]);
            }
        }
    }
}

/// What became of comparisons stands behind what became of paths: in one view it is that view, if
/// it opened; otherwise it is pair by pair, each failure or the view of the pair, if it opened.
pub proof fn law_comparisons_stand_behind_paths(
    items: Seq<OutcomeModel>,
    view: Option<u64>,
    pairs: Seq<PairOutcome>,
    next: PairOutcome,
)
    ensures
        flow::with_comparisons(items, true, view, pairs) == match view {
            Some(item) => items.push(OutcomeModel::Opened { item }),
            None => items,
        },
        flow::with_comparisons(items, false, view, Seq::empty()) == items,
        flow::with_comparisons(items, false, view, pairs.push(next)) == match next {
            PairOutcome::Shown { item: Some(item) } => flow::with_comparisons(
                items,
                false,
                view,
                pairs,
            ).push(OutcomeModel::Opened { item }),
            PairOutcome::Shown { item: None } => flow::with_comparisons(items, false, view, pairs),
            PairOutcome::Unresolved { failures } => flow::with_comparisons(
                items,
                false,
                view,
                pairs,
            ) + Seq::new(failures@.len(), |i: int| failures@[i]@),
        },
{
    assert(pairs.push(next).drop_last() =~= pairs);
    let before = flow::pair_items(pairs);
    match next {
        PairOutcome::Shown { item: Some(item) } => {
            assert(items + (before + seq![OutcomeModel::Opened { item }]) =~= (items + before).push(
                OutcomeModel::Opened { item },
            ));
        },
        PairOutcome::Shown { item: None } => {
            assert(items + (before + Seq::<OutcomeModel>::empty()) =~= items + before);
        },
        PairOutcome::Unresolved { failures } => {
            let failed = flow::outcome_models(failures@);
            assert(failed =~= Seq::new(failures@.len(), |i: int| failures@[i]@));
            assert(items + (before + failed) =~= (items + before) + failed);
        },
    }
    match view {
        Some(item) => {
            assert(items + seq![OutcomeModel::Opened { item }] =~= items.push(
                OutcomeModel::Opened { item },
            ));
        },
        None => {
            assert(items + Seq::<OutcomeModel>::empty() =~= items);
        },
    }
    assert(items + Seq::<OutcomeModel>::empty() =~= items);
}

/// Saying which path an outcome is about changes failures only, and keeps their words at the end.
pub proof fn law_labels_keep_the_outcome(outcome: OutcomeModel, quoted: Seq<char>)
    ensures
        outcome is Absent ==> flow::labelled(outcome, quoted) == outcome,
        outcome is Opened ==> flow::labelled(outcome, quoted) == outcome,
        outcome matches OutcomeModel::Failed { message } ==> (flow::labelled(
            outcome,
            quoted,
        ) matches OutcomeModel::Failed { message: told } && told == "error opening "@ + quoted + ": "@
            + message),
{
}

/// Items go with the paths in their places. Those beyond the paths are left as they are.
pub proof fn law_items_go_with_their_paths(
    items: Seq<OutcomeModel>,
    paths: Seq<PathWithPosition>,
    index: int,
)
    requires
        0 <= index < items.len(),
    ensures
        index >= paths.len() ==> flow::opened_as(items, paths, index) == items[index],
        index < paths.len() && !(items[index] is Failed) ==> flow::opened_as(items, paths, index)
            == items[index],
        index < paths.len() && items[index] is Failed ==> (flow::opened_as(
            items,
            paths,
            index,
        ) matches OutcomeModel::Failed { message } && message == "error opening "@
            + flow::quoted_path(paths[index].path@.text) + ": "@ + items[index]->message),
{
}

/// Each item that opened is watched, in the order of the items, and no other.
pub proof fn law_opened_items_are_watched(items: Seq<OutcomeModel>, next: OutcomeModel)
    ensures
        flow::opened_items(Seq::<OutcomeModel>::empty()).len() == 0,
        flow::opened_items(items.push(next)) == match next {
            OutcomeModel::Opened { item } => flow::opened_items(items).push(item),
            _ => flow::opened_items(items),
        },
{
    assert(items.push(next).drop_last() =~= items);
}

/// Each failure is told, in its own words and in the order of the items, and nothing else.
pub proof fn law_failures_are_told_in_order(items: Seq<OutcomeModel>, next: OutcomeModel)
    ensures
        flow::failure_responses(Seq::<OutcomeModel>::empty()).len() == 0,
        flow::failure_responses(items.push(next)) == match next {
            OutcomeModel::Failed { message } => flow::failure_responses(items).push(
                ResponseModel::Stderr { message },
            ),
            _ => flow::failure_responses(items),
        },
{
    assert(items.push(next).drop_last() =~= items);
}

/// The window is waited for only where the command line waits; then it is where nothing was asked
/// for, and where a directory is among the paths that were given.
pub proof fn law_windows_are_waited_for(
    path_count: nat,
    diff_count: nat,
    given: bool,
    directories: Seq<bool>,
    i: int,
)
    ensures
        !flow::waits_for_window(false, path_count, diff_count, given, directories),
        flow::waits_for_window(true, 0, 0, given, directories),
        0 <= i < directories.len() && directories[i] ==> flow::waits_for_window(
            true,
            path_count,
            diff_count,
            true,
            directories,
        ),
        path_count + diff_count > 0 ==> !flow::waits_for_window(
            true,
            path_count,
            diff_count,
            false,
            directories,
        ),
        path_count + diff_count > 0 && (forall|j: int|
            0 <= j < directories.len() ==> !#[trigger] directories[j]) ==> !flow::waits_for_window(
            true,
            path_count,
            diff_count,
            given,
            directories,
        ),
{
}

/// Opened editors are scrolled to the place that their path was given with: rows and columns are
/// counted from zero, and no column is the first. Nothing else is scrolled.
pub proof fn law_editors_are_scrolled_to_their_places(
    items: Seq<OpenedItem>,
    positions: Seq<PathWithPosition>,
    count: int,
)
    requires
        0 < count <= items.len(),
        count <= positions.len(),
        count <= usize::MAX,
    ensures
        ({
            let last = count - 1;
            let before = crate::remote_connections::navigations(items, positions, last);
            let after = crate::remote_connections::navigations(items, positions, count);
            if items[last].opened && items[last].is_editor && positions[last].row is Some {
                after.len() == before.len() + 1 && after.drop_last() == before && after.last().item
                    == last && (positions[last].row == Some(0u32) ==> after.last().row == 0) && (
                positions[last].row->0 > 0 ==> after.last().row == positions[last].row->0 - 1) && (
                match positions[last].column {
                    Some(column) => after.last().column == if column > 0 {
                        column - 1
                    } else {
                        0
                    },
                    None => after.last().column == 0,
                })
            } else {
                after == before
            }
        }),
        crate::remote_connections::navigations(items, positions, 0).len() == 0,
{
    let last = count - 1;
    let before = crate::remote_connections::navigations(items, positions, last);
    let after = crate::remote_connections::navigations(items, positions, count);
    if items[last].opened && items[last].is_editor && positions[last].row is Some {
        assert(after.drop_last() =~= before);
    }
}

/// What the settings say of a place is taken from the first connection with the same machine, user
/// and port: its nickname, arguments, forwarded ports and way of uploading. Without one, nothing
/// changes.
pub proof fn law_first_matching_setting_counts(
    options: crate::connection::SshModel,
    settings: Seq<SettingModel>,
)
    ensures
        ({
            let filled = crate::remote_connections::filled(options, settings);
            ||| filled == options && forall|i: int|
                0 <= i < settings.len() ==> !((#[trigger] settings[i]).host == options.host.0
                    && settings[i].username == options.username && settings[i].port == options.port)
            ||| exists|i: int|
                0 <= i < settings.len() && (#[trigger] settings[i]).host == options.host.0
                    && settings[i].username == options.username && settings[i].port == options.port
                    && filled.nickname == settings[i].nickname && filled.args == Some(
                    settings[i].args,
                ) && filled.port_forwards == settings[i].port_forwards
                    && filled.upload_binary_over_ssh == (settings[i].upload_binary_over_ssh == Some(
                    true,
                )) && filled.connection_timeout == options.connection_timeout && forall|j: int|
                    0 <= j < i ==> !((#[trigger] settings[j]).host == options.host.0
                        && settings[j].username == options.username && settings[j].port
                        == options.port)
        }),
    decreases settings.len(),
{
    if settings.len() > 0 {
        let rest = settings.skip(1);
        if settings[0].host == options.host.0 && settings[0].username == options.username
            && settings[0].port == options.port {
            assert(settings[0] == settings[0]);
        } else {
            law_first_matching_setting_counts(options, rest);
            let filled = crate::remote_connections::filled(options, rest);
            if exists|i: int|
                0 <= i < rest.len() && (#[trigger] rest[i]).host == options.host.0
                    && rest[i].username == options.username && rest[i].port == options.port
                    && filled.nickname == rest[i].nickname && filled.args == Some(rest[i].args)
                    && filled.port_forwards == rest[i].port_forwards && filled.upload_binary_over_ssh
                    == (rest[i].upload_binary_over_ssh == Some(true)) && filled.connection_timeout
                    == options.connection_timeout && forall|j: int|
                    0 <= j < i ==> !((#[trigger] rest[j]).host == options.host.0 && rest[j].username
                        == options.username && rest[j].port == options.port) {
                let i = choose|i: int|
                    0 <= i < rest.len() && (#[trigger] rest[i]).host == options.host.0
                        && rest[i].username == options.username && rest[i].port == options.port
                        && filled.nickname == rest[i].nickname && filled.args == Some(rest[i].args)
                        && filled.port_forwards == rest[i].port_forwards
                        && filled.upload_binary_over_ssh == (rest[i].upload_binary_over_ssh == Some(
                        true,
                    )) && filled.connection_timeout == options.connection_timeout && forall|j: int|
                        0 <= j < i ==> !((#[trigger] rest[j]).host == options.host.0
                            && rest[j].username == options.username && rest[j].port == options.port);
                assert(settings[i + 1] == rest[i]);
                assert forall|j: int| 0 <= j < i + 1 implies !((#[trigger] settings[j]).host
                    == options.host.0 && settings[j].username == options.username
                    && settings[j].port == options.port) by {
                    if j > 0 {
                        assert(rest[j - 1] == settings[j]);
                    }
                }
            } else {
                assert forall|i: int| 0 <= i < settings.len() implies !((
                #[trigger] settings[i]).host == options.host.0 && settings[i].username
                    == options.username && settings[i].port == options.port) by {
                    if i > 0 {
                        assert(rest[i - 1] == settings[i]);
                    }
                }
            }
        }
    }
}

} // verus!
