//! How the lines of the list of projects are shown.

use crate::path::{HostPath, PathModel};
use crate::recent_entries::{
    clone_positions, host_icon, icon_for_project_group, icon_for_remote_connection, EntryModel,
    IconName, ListedPath, ProjectGroupKey, ProjectPickerEntry, ProjectPickerStyle,
    RecentWorkspace, SerializedWorkspaceLocation, StringMatch,
};
use crate::recent_projects::{CurrentWorkspace, RecentProjectsDelegate};
use crate::text::clone_optional;
use crate::text_span::{count_bytes, join_texts};
use vstd::prelude::*;

verus! {

/// A text, with the places in it that are highlighted.
#[derive(Debug)]
pub struct HighlightedMatch {
    pub text: String,
    pub highlight_positions: Vec<usize>,
}

#[verifier::ext_equal]
pub struct HighlightModel {
    pub text: Seq<char>,
    pub positions: Seq<int>,
}

impl View for HighlightedMatch {
    type V = HighlightModel;

    open spec fn view(&self) -> HighlightModel {
        HighlightModel {
            text: self.text@,
            positions: crate::text_order::as_places(self.highlight_positions@),
        }
    }
}

/// What a sequence of highlighted texts stands for.
pub open spec fn highlight_models(highlights: Seq<HighlightedMatch>) -> Seq<HighlightModel> {
    Seq::new(highlights.len(), |i: int| highlights[i]@)
}

/// Positions without those in front of the first one that is not before `start`.
pub open spec fn from_start(positions: Seq<int>, start: int) -> Seq<int>
    decreases positions.len(),
{
    if positions.len() > 0 && positions[0] < start {
        from_start(positions.skip(1), start)
    } else {
        positions
    }
}

/// The positions in front of the first one that is not before `end`.
pub open spec fn upto_end(positions: Seq<int>, end: int) -> Seq<int>
    decreases positions.len(),
{
    if positions.len() > 0 && positions[0] < end {
        seq![positions[0]] + upto_end(positions.skip(1), end)
    } else {
        Seq::<int>::empty()
    }
}

/// The positions in a stretch of a text.
pub open spec fn in_stretch(positions: Seq<int>, start: int, length: int) -> Seq<int> {
    upto_end(from_start(positions, start), start + length)
}

/// The positions in a stretch of a text, counted from where it starts.
pub open spec fn stretch_positions(positions: Seq<int>, start: int, length: int) -> Seq<int> {
    Seq::new(
        in_stretch(positions, start, length).len(),
        |i: int| in_stretch(positions, start, length)[i] - start,
    )
}

/// Whether none of the positions in a stretch is before it.
pub open spec fn stretch_is_sound(positions: Seq<int>, start: int, length: int) -> bool {
    forall|i: int|
        0 <= i < in_stretch(positions, start, length).len() ==> #[trigger] in_stretch(
            positions,
            start,
            length,
        )[i] >= start
}

/// Whether numbers never go down.
pub open spec fn places_ascend(places: Seq<int>) -> bool {
    forall|i: int, j: int|
        0 <= i <= j < places.len() ==> #[trigger] places[i] <= #[trigger] places[j]
}

proof fn lemma_upto_end(positions: Seq<int>, end: int)
    ensures
        upto_end(positions, end).len() <= positions.len(),
        forall|i: int|
            0 <= i < upto_end(positions, end).len() ==> #[trigger] upto_end(positions, end)[i]
                == positions[i] && positions[i] < end,
    decreases positions.len(),
{
    if positions.len() > 0 && positions[0] < end {
        let rest = positions.skip(1);
        lemma_upto_end(rest, end);
        assert forall|i: int| 0 <= i < upto_end(positions, end).len() implies #[trigger] upto_end(
            positions,
            end,
        )[i] == positions[i] && positions[i] < end by {
            if i > 0 {
                assert(upto_end(positions, end)[i] == upto_end(rest, end)[i - 1]);
            }
        }
    }
}

proof fn lemma_from_start(positions: Seq<int>, start: int)
    requires
        places_ascend(positions),
    ensures
        places_ascend(from_start(positions, start)),
        forall|i: int|
            0 <= i < from_start(positions, start).len() ==> #[trigger] from_start(
                positions,
                start,
            )[i] >= start,
    decreases positions.len(),
{
    if positions.len() > 0 && positions[0] < start {
        let rest = positions.skip(1);
        assert forall|i: int, j: int| 0 <= i <= j < rest.len() implies #[trigger] rest[i]
            <= #[trigger] rest[j] by {
            assert(rest[i] == positions[i + 1] && rest[j] == positions[j + 1]);
        }
        lemma_from_start(rest, start);
    } else {
        assert forall|i: int| 0 <= i < positions.len() implies #[trigger] positions[i] >= start by {
            assert(positions[0] <= positions[i]);
        }
    }
}

/// Positions that go up give stretches whose positions lie in them and go up.
pub proof fn law_stretches_of_ascending_positions(positions: Seq<int>, start: int, length: int)
    requires
        places_ascend(positions),
    ensures
        stretch_is_sound(positions, start, length),
        places_ascend(stretch_positions(positions, start, length)),
        forall|i: int|
            0 <= i < stretch_positions(positions, start, length).len() ==> 0
                <= #[trigger] stretch_positions(positions, start, length)[i] < length,
{
    lemma_from_start(positions, start);
    lemma_upto_end(from_start(positions, start), start + length);
    let found = in_stretch(positions, start, length);
    let from = from_start(positions, start);
    assert forall|i: int| 0 <= i < found.len() implies #[trigger] found[i] >= start by {
        assert(found[i] == from[i]);
    }
    let shifted = stretch_positions(positions, start, length);
    assert forall|i: int, j: int| 0 <= i <= j < shifted.len() implies #[trigger] shifted[i]
        <= #[trigger] shifted[j] by {
        assert(found[i] == from[i] && found[j] == from[j]);
    }
}

/// The positions in a stretch of a text, counted from where it starts.
fn positions_in_stretch(positions: &Vec<usize>, start: usize, length: usize) -> (found: Vec<usize>)
    requires
        start + length <= usize::MAX,
        stretch_is_sound(crate::text_order::as_places(positions@), start as int, length as int),
    ensures
        crate::text_order::as_places(found@) == stretch_positions(
            crate::text_order::as_places(positions@),
            start as int,
            length as int,
        ),
{
    let ghost all = crate::text_order::as_places(positions@);
    let ghost window = in_stretch(all, start as int, length as int);
    let mut i: usize = 0;
    assert(all.skip(0) =~= all);
    while i < positions.len() && positions[i] < start
        invariant
            i <= positions@.len(),
            all == crate::text_order::as_places(positions@),
            from_start(all, start as int) == from_start(all.skip(i as int), start as int),
        decreases positions@.len() - i,
    {
        assert(all.skip(i as int)[0] == all[i as int]);
        assert(all.skip(i as int).skip(1) =~= all.skip(i + 1));
        i += 1;
    }
    assert(i < positions@.len() ==> all.skip(i as int)[0] == all[i as int]);
    assert(from_start(all, start as int) == all.skip(i as int));
    let end: usize = start + length;
    let mut found: Vec<usize> = Vec::new();
    assert(window =~= Seq::<int>::empty() + upto_end(all.skip(i as int), end as int));
    while i < positions.len() && positions[i] < end
        invariant
            i <= positions@.len(),
            all == crate::text_order::as_places(positions@),
            window == in_stretch(all, start as int, length as int),
            stretch_is_sound(all, start as int, length as int),
            found@.len() <= window.len(),
            window == window.take(found@.len() as int) + upto_end(all.skip(i as int), end as int),
            forall|j: int| 0 <= j < found@.len() ==> #[trigger] found@[j] == window[j] - start,
        decreases positions@.len() - i,
    {
        let ghost count = found@.len() as int;
        proof {
            let rest = all.skip(i as int);
            assert(rest[0] == all[i as int]);
            assert(rest.skip(1) =~= all.skip(i + 1));
            assert(upto_end(rest, end as int)[0] == rest[0]);
            assert(window[count] == rest[0]);
            assert(window.take(count + 1) =~= window.take(count).push(rest[0]));
            assert(window =~= window.take(count + 1) + upto_end(all.skip(i + 1), end as int));
        }
        found.push(positions[i] - start);
        i += 1;
    }
    proof {
        assert(i < positions@.len() ==> all.skip(i as int)[0] == all[i as int]);
        assert(upto_end(all.skip(i as int), end as int).len() == 0);
        assert(window.len() == found@.len());
        assert(crate::text_order::as_places(found@) =~= stretch_positions(
            all,
            start as int,
            length as int,
        ));
    }
    found
}

proof fn lemma_piece_bytes(text: Seq<char>, separator: char)
    ensures
        forall|i: int|
            0 <= i < crate::text::pieces(text, separator).len() ==> crate::text_span::byte_length(
                #[trigger] crate::text::pieces(text, separator)[i],
            ) <= crate::text_span::byte_length(text),
    decreases text.len(),
{
    if text.len() > 0 {
        let front = text.drop_last();
        lemma_piece_bytes(front, separator);
        crate::text::lemma_pieces_shape(front, separator);
        let before = crate::text::pieces(front, separator);
        let last = seq![text.last()];
        assert(front + last =~= text);
        crate::text_span::lemma_bytes_append(front, last);
        crate::text_span::lemma_bytes_append(before.last(), last);
        assert(before.last().push(text.last()) =~= before.last() + last);
        assert forall|i: int|
            0 <= i < crate::text::pieces(text, separator).len() implies crate::text_span::byte_length(
            #[trigger] crate::text::pieces(text, separator)[i],
        ) <= crate::text_span::byte_length(text) by {
            if i < before.len() - 1 || (i < before.len() && text.last() == separator) {
                assert(crate::text::pieces(text, separator)[i] == before[i]);
            } else if text.last() != separator {
                assert(before[before.len() - 1] == before.last());
            }
        }
    }
}

/// The name of a file takes no more bytes than its path.
pub proof fn lemma_file_name_bytes(path: PathModel)
    ensures
        crate::path::file_name_of(path) matches Some(name) ==> crate::text_span::byte_length(name)
            <= crate::text_span::byte_length(path.text),
{
    let sep = crate::path::separator(path.style);
    let body = crate::path::body(path);
    let all = crate::text::pieces(body, sep);
    lemma_piece_bytes(body, sep);
    lemma_body_bytes(path);
    crate::path::lemma_kept_holds(crate::path::is_verbatim(path), all);
    let named = crate::path::named_components(path);
    if let Some(name) = crate::path::file_name_of(path) {
        crate::path::lemma_file_name_is_named(path);
        assert(named.contains(name));
        let i = choose|i: int| 0 <= i < named.len() && named[i] == name;
        assert(all.contains(named[i]));
    }
}

/// What follows the prefix of a path takes no more bytes than the path.
proof fn lemma_body_bytes(path: PathModel)
    ensures
        crate::text_span::byte_length(crate::path::body(path)) <= crate::text_span::byte_length(
            path.text,
        ),
{
    let start = crate::path::prefix_text(path).len() as int;
    crate::path_prefix::lemma_prefix_shape(path.text);
    let front = path.text.take(start);
    let rest = path.text.skip(start);
    assert(front + rest =~= path.text);
    crate::text_span::lemma_bytes_append(front, rest);
    lemma_backslash_bytes(rest);
}

/// A backslash takes as many bytes as a slash.
proof fn lemma_backslash_bytes(text: Seq<char>)
    ensures
        crate::text_span::byte_length(crate::path_prefix::with_backslashes(text))
            == crate::text_span::byte_length(text),
    decreases text.len(),
{
    let turned = crate::path_prefix::with_backslashes(text);
    if text.len() > 0 {
        assert(turned.drop_first() =~= crate::path_prefix::with_backslashes(text.drop_first()));
        lemma_backslash_bytes(text.drop_first());
        assert(turned[0] == text[0] || (turned[0] == '\\' && text[0] == '/'));
    } else {
        assert(turned =~= text);
    }
}

/// A path with the positions that lie in it.
pub open spec fn path_highlight(path: PathModel, positions: Seq<int>, offset: int) -> HighlightModel {
    HighlightModel {
        text: path.text,
        positions: stretch_positions(
            positions,
            offset,
            crate::text_span::byte_length(path.text) as int,
        ),
    }
}

/// Where the name is taken to start in a path: as far before the end as the name is long.
pub open spec fn name_start(path: PathModel, name: Seq<char>) -> int {
    crate::text_span::byte_length(path.text) - crate::text_span::byte_length(name)
}

/// The name of a path with the positions that lie in it.
pub open spec fn name_highlight(path: PathModel, positions: Seq<int>, offset: int) -> Option<
    HighlightModel,
> {
    match crate::path::file_name_of(path) {
        Some(name) => Some(
            HighlightModel {
                text: name,
                positions: stretch_positions(
                    path_highlight(path, positions, offset).positions,
                    name_start(path, name),
                    crate::text_span::byte_length(name) as int,
                ),
            },
        ),
        None => None,
    }
}

/// The highlighted name, if there is one.
pub open spec fn optional_highlight(highlight: Option<HighlightedMatch>) -> Option<HighlightModel> {
    match highlight {
        Some(highlight) => Some(highlight@),
        None => None,
    }
}

/// Whether the positions that lie in a path and in its name do so.
pub open spec fn positions_fit(path: PathModel, positions: Seq<int>, offset: int) -> bool {
    &&& stretch_is_sound(positions, offset, crate::text_span::byte_length(path.text) as int)
    &&& crate::path::file_name_of(path) matches Some(name) ==> stretch_is_sound(
        path_highlight(path, positions, offset).positions,
        name_start(path, name),
        crate::text_span::byte_length(name) as int,
    )
}

/// Highlights the name of a path and the whole path.
pub fn highlights_for_path(
    path: &HostPath,
    match_positions: &Vec<usize>,
    path_start_offset: usize,
) -> (result: (Option<HighlightedMatch>, HighlightedMatch))
    requires
        path_start_offset + crate::text_span::byte_length(path@.text) <= usize::MAX,
        positions_fit(
            path@,
            crate::text_order::as_places(match_positions@),
            path_start_offset as int,
        ),
    ensures
        optional_highlight(result.0) == name_highlight(
            path@,
            crate::text_order::as_places(match_positions@),
            path_start_offset as int,
        ),
        result.1@ == path_highlight(
            path@,
            crate::text_order::as_places(match_positions@),
            path_start_offset as int,
        ),
{
    let byte_len = count_bytes(path.as_str());
    let path_positions = positions_in_stretch(match_positions, path_start_offset, byte_len);
    let name = match path.file_name() {
        Some(name) => {
            proof {
                lemma_file_name_bytes(path@);
            }
            let name_len = count_bytes(name.as_str());
            let highlight_positions = positions_in_stretch(
                &path_positions,
                byte_len - name_len,
                name_len,
            );
            Some(HighlightedMatch { text: name, highlight_positions })
        },
        None => None,
    };
    (name, HighlightedMatch { text: path.text.clone(), highlight_positions: path_positions })
}

/// Where a path starts in the text that is looked through: behind the paths before it.
pub open spec fn path_offset(paths: Seq<ListedPath>, count: int) -> nat
    decreases count,
{
    if count <= 0 {
        0
    } else {
        path_offset(paths, count - 1) + crate::text_span::byte_length(paths[count - 1].compact@.text)
    }
}

proof fn lemma_path_offset(paths: Seq<ListedPath>, count: int)
    requires
        0 <= count <= paths.len(),
    ensures
        path_offset(paths, count) <= path_offset(paths, paths.len() as int),
    decreases paths.len() - count,
{
    if count < paths.len() {
        lemma_path_offset(paths, count + 1);
    }
}

/// The highlighted names of paths, as far as they have names.
pub open spec fn name_highlights(paths: Seq<ListedPath>, positions: Seq<int>, count: int) -> Seq<
    HighlightModel,
>
    decreases count,
{
    if count <= 0 {
        Seq::<HighlightModel>::empty()
    } else {
        let before = name_highlights(paths, positions, count - 1);
        match name_highlight(
            paths[count - 1].compact@,
            positions,
            path_offset(paths, count - 1) as int,
        ) {
            Some(highlight) => before.push(highlight),
            None => before,
        }
    }
}

/// The highlighted paths.
pub open spec fn path_highlights(paths: Seq<ListedPath>, positions: Seq<int>) -> Seq<
    HighlightModel,
> {
    Seq::new(
        paths.len(),
        |i: int| path_highlight(paths[i].compact@, positions, path_offset(paths, i) as int),
    )
}

proof fn lemma_ascending_places(positions: Seq<usize>)
    requires
        crate::recent_entries::ascending(positions),
    ensures
        places_ascend(crate::text_order::as_places(positions)),
{
    let places = crate::text_order::as_places(positions);
    assert forall|i: int, j: int| 0 <= i <= j < places.len() implies #[trigger] places[i]
        <= #[trigger] places[j] by {
        assert(positions[i] <= positions[j]);
    }
}

proof fn lemma_positions_fit(path: PathModel, positions: Seq<int>, offset: int)
    requires
        places_ascend(positions),
    ensures
        positions_fit(path, positions, offset),
{
    law_stretches_of_ascending_positions(
        positions,
        offset,
        crate::text_span::byte_length(path.text) as int,
    );
    if let Some(name) = crate::path::file_name_of(path) {
        law_stretches_of_ascending_positions(
            path_highlight(path, positions, offset).positions,
            name_start(path, name),
            crate::text_span::byte_length(name) as int,
        );
    }
}

/// Whether the positions of a match can be shown in paths, one behind the other: none that falls in
/// a path lies before it, and the paths are of a length that can be counted.
pub open spec fn paths_can_be_shown(paths: Seq<ListedPath>, positions: Seq<usize>) -> bool {
    &&& path_offset(paths, paths.len() as int) <= usize::MAX
    &&& forall|i: int|
        0 <= i < paths.len() ==> positions_fit(
            (#[trigger] paths[i]).compact@,
            crate::text_order::as_places(positions),
            path_offset(paths, i) as int,
        )
}

/// Whether a line can be shown. Only the positions of the line itself matter, and those only where
/// they are told apart by path: in a group and in a recent workspace.
pub open spec fn can_be_shown(delegate: RecentProjectsDelegate, entry: EntryModel) -> bool {
    match entry {
        EntryModel::Header(_) => true,
        EntryModel::OpenFolder { .. } => true,
        EntryModel::ProjectGroup(hit) => hit.candidate_id < delegate.window_project_groups@.len()
            ==> paths_can_be_shown(
            delegate.window_project_groups@[hit.candidate_id].paths@,
            hit.positions,
        ),
        EntryModel::RecentProject(hit) => hit.candidate_id < delegate.workspaces@.len()
            ==> paths_can_be_shown(
            delegate.workspaces@[hit.candidate_id].identity_paths@,
            hit.positions,
        ),
    }
}

/// Positions that go up can be shown in any paths whose length can be counted.
pub proof fn law_ascending_positions_can_be_shown(paths: Seq<ListedPath>, positions: Seq<usize>)
    requires
        crate::recent_entries::ascending(positions),
        path_offset(paths, paths.len() as int) <= usize::MAX,
    ensures
        paths_can_be_shown(paths, positions),
{
    lemma_ascending_places(positions);
    assert forall|i: int| 0 <= i < paths.len() implies positions_fit(
        (#[trigger] paths[i]).compact@,
        crate::text_order::as_places(positions),
        path_offset(paths, i) as int,
    ) by {
        lemma_positions_fit(
            paths[i].compact@,
            crate::text_order::as_places(positions),
            path_offset(paths, i) as int,
        );
    }
}

/// Highlights the names of paths and the paths.
fn highlights_for_paths(paths: &Vec<ListedPath>, positions: &Vec<usize>) -> (result: (
    Vec<HighlightedMatch>,
    Vec<HighlightedMatch>,
))
    requires
        paths_can_be_shown(paths@, positions@),
    ensures
        highlight_models(result.0@) == name_highlights(
            paths@,
            crate::text_order::as_places(positions@),
            paths@.len() as int,
        ),
        highlight_models(result.1@) == path_highlights(
            paths@,
            crate::text_order::as_places(positions@),
        ),
{
    let ghost places = crate::text_order::as_places(positions@);
    let mut names: Vec<HighlightedMatch> = Vec::new();
    let mut whole: Vec<HighlightedMatch> = Vec::new();
    let mut offset: usize = 0;
    let mut i: usize = 0;
    assert(highlight_models(names@) =~= Seq::<HighlightModel>::empty());
    while i < paths.len()
        invariant
            i <= paths@.len(),
            places == crate::text_order::as_places(positions@),
            offset == path_offset(paths@, i as int),
            paths_can_be_shown(paths@, positions@),
            highlight_models(names@) == name_highlights(paths@, places, i as int),
            whole@.len() == i,
            forall|j: int|
                0 <= j < i ==> (#[trigger] whole@[j])@ == path_highlights(paths@, places)[j],
        decreases paths@.len() - i,
    {
        proof {
            lemma_path_offset(paths@, i + 1);
            assert(positions_fit(paths@[i as int].compact@, places, offset as int));
        }
        let (name, path) = highlights_for_path(&paths[i].compact, positions, offset);
        let ghost before = names@;
        match name {
            Some(name) => {
                let ghost model = name@;
                names.push(name);
                assert(highlight_models(names@) =~= highlight_models(before).push(model));
            },
            None => {},
        }
        whole.push(path);
        offset += count_bytes(paths[i].compact.as_str());
        i += 1;
    }
    assert(highlight_models(whole@) =~= path_highlights(paths@, places));
    (names, whole)
}

/// Whether a line is that of a project on another host.
pub open spec fn is_remote_line(delegate: RecentProjectsDelegate, entry: EntryModel) -> bool {
    match entry {
        EntryModel::Header(_) => false,
        EntryModel::OpenFolder { index, positions } => index < delegate.open_folders@.len()
            && delegate.open_folders@[index].connection_options is Some,
        EntryModel::ProjectGroup(hit) => hit.candidate_id < delegate.window_project_groups@.len()
            && delegate.window_project_groups@[hit.candidate_id].host is Some,
        EntryModel::RecentProject(hit) => hit.candidate_id < delegate.workspaces@.len()
            && delegate.workspaces@[hit.candidate_id].location is Remote,
    }
}

/// Whether a line of the list is that of a project on another host.
pub open spec fn lists_remote(delegate: RecentProjectsDelegate) -> bool {
    exists|i: int|
        0 <= i < delegate.filtered_entries@.len() && is_remote_line(
            delegate,
            (#[trigger] delegate.filtered_entries@[i])@,
        )
}

impl RecentProjectsDelegate {
    /// Whether a line is that of a project on another host.
    pub fn entry_is_remote_project(&self, entry: &ProjectPickerEntry) -> (result: bool)
        ensures
            result == is_remote_line(*self, entry@),
    {
        match entry {
            ProjectPickerEntry::Header(_) => false,
            ProjectPickerEntry::OpenFolder { index, positions: _ } => {
                *index < self.open_folders.len()
                    && self.open_folders[*index].connection_options.is_some()
            },
            ProjectPickerEntry::ProjectGroup(hit) => {
                hit.candidate_id < self.window_project_groups.len()
                    && self.window_project_groups[hit.candidate_id].host.is_some()
            },
            ProjectPickerEntry::RecentProject(hit) => {
                hit.candidate_id < self.workspaces.len() && match self.workspaces[hit.candidate_id].location {
                    SerializedWorkspaceLocation::Local => false,
                    SerializedWorkspaceLocation::Remote { .. } => true,
                }
            },
        }
    }

    /// Whether a line of the list is that of a project on another host. Pictures are shown only
    /// where one is.
    pub fn filtered_entries_include_remote_project(&self) -> (result: bool)
        ensures
            result == lists_remote(*self),
    {
        let mut i: usize = 0;
        while i < self.filtered_entries.len()
            invariant
                i <= self.filtered_entries@.len(),
                forall|j: int|
                    0 <= j < i ==> !is_remote_line(
                        *self,
                        (#[trigger] self.filtered_entries@[j])@,
                    ),
            decreases self.filtered_entries@.len() - i,
        {
            if self.entry_is_remote_project(&self.filtered_entries[i]) {
                return true;
            }
            i += 1;
        }
        false
    }
}

/// What a project is shown as: highlighted names, and the paths below them.
#[derive(Debug)]
pub struct HighlightedMatchWithPaths {
    /// The host, where it is another one.
    pub prefix: Option<String>,
    /// The names, which are shown in one line with commas between them.
    pub match_labels: Vec<HighlightedMatch>,
    pub paths: Vec<HighlightedMatch>,
    pub active: bool,
}

/// What is shown of a folder where the pointer rests on it.
#[derive(Debug)]
pub struct FolderTooltip {
    pub title: Option<String>,
    pub path: String,
}

/// A line of an open folder.
#[derive(Debug)]
pub struct FolderRow {
    pub worktree_id: u64,
    pub icon: Option<IconName>,
    pub name: String,
    pub positions: Vec<usize>,
    pub branch: Option<String>,
    pub is_active: bool,
    pub path: Option<String>,
    pub tooltip: Option<FolderTooltip>,
}

/// A line of a group.
#[derive(Debug)]
pub struct GroupRow {
    pub id: u64,
    pub icon: Option<IconName>,
    pub highlighted: HighlightedMatchWithPaths,
    /// Whether the line offers to remove the group from the window.
    pub removable: bool,
    pub tooltip: String,
}

/// A line of a recent workspace.
#[derive(Debug)]
pub struct RecentRow {
    pub icon: Option<IconName>,
    pub highlighted: HighlightedMatchWithPaths,
    /// What the line offers to add to the project.
    pub add_title: Option<&'static str>,
    pub tooltip_title: &'static str,
    pub tooltip: String,
}

/// A line of the list, as it is shown.
#[derive(Debug)]
pub enum PickerRow {
    Header { title: String, divider: bool },
    Folder(FolderRow),
    Group(GroupRow),
    Recent(RecentRow),
}

/// The picture in front of a line.
pub open spec fn row_icon(delegate: RecentProjectsDelegate, icon: IconName) -> Option<IconName> {
    if lists_remote(delegate) {
        Some(icon)
    } else {
        None
    }
}

/// Whether a line shows an open folder as it is.
pub open spec fn folder_row_matches(
    delegate: RecentProjectsDelegate,
    index: int,
    positions: Seq<usize>,
    row: FolderRow,
) -> bool {
    let folder = delegate.open_folders@[index];
    &&& row.worktree_id == folder.worktree_id
    &&& row.icon == row_icon(
        delegate,
        crate::recent_entries::connection_icon(folder.connection_options),
    )
    &&& row.name@ == folder.name@
    &&& row.positions@ == positions
    &&& crate::text::optional_text(row.branch) == crate::text::optional_text(folder.branch)
    &&& row.is_active == folder.is_active
    &&& if delegate.style == ProjectPickerStyle::Modal {
        &&& row.path matches Some(path) && path@ == folder.compact@.text
        &&& row.tooltip is None
    } else {
        &&& row.path is None
        &&& row.tooltip matches Some(tooltip) && {
            &&& tooltip.path@ == folder.compact@.text
            &&& match folder.branch {
                Some(branch) => tooltip.title matches Some(title) && title@ == folder.name@ + "/"@
                    + branch@,
                None => tooltip.title is None,
            }
        }
    }
}

/// Whether highlighted names and paths are those of a project.
pub open spec fn highlights_match(
    delegate: RecentProjectsDelegate,
    paths: Seq<ListedPath>,
    positions: Seq<usize>,
    shown: HighlightedMatchWithPaths,
) -> bool {
    let places = crate::text_order::as_places(positions);
    &&& highlight_models(shown.match_labels@) == name_highlights(paths, places, paths.len() as int)
    &&& highlight_models(shown.paths@) == if delegate.render_paths {
        path_highlights(paths, places)
    } else {
        Seq::<HighlightModel>::empty()
    }
}

/// Whether a line shows a group as it is.
pub open spec fn group_row_matches(
    delegate: RecentProjectsDelegate,
    key: ProjectGroupKey,
    positions: Seq<usize>,
    current: Option<CurrentWorkspace>,
    row: GroupRow,
) -> bool {
    let is_active = current matches Some(workspace) && workspace.group_id == key.id;
    &&& row.id == key.id
    &&& row.icon == row_icon(delegate, crate::recent_entries::connection_icon(key.host))
    &&& row.highlighted.prefix is None
    &&& row.highlighted.active == is_active
    &&& highlights_match(delegate, key.paths@, positions, row.highlighted)
    &&& row.removable == !is_active
    &&& row.tooltip@ == crate::text_span::joined_by(
        crate::recent_entries::compact_texts(key.paths@),
        "\n"@,
    )
}

/// What is shown of a recent workspace where the pointer rests on it: its folders, and the host
/// where it is another one.
pub open spec fn recent_tooltip(workspace: RecentWorkspace) -> Seq<char> {
    let folders = crate::recent_entries::compact_texts(workspace.identity_paths@);
    match workspace.location {
        SerializedWorkspaceLocation::Local => crate::text_span::joined_by(folders, "\n"@),
        SerializedWorkspaceLocation::Remote { options, display_name } => if folders.len() == 1 {
            folders[0] + " ("@ + display_name@ + ")"@
        } else {
            crate::text_span::joined_by(folders, "\n"@) + "\n("@ + display_name@ + ")"@
        },
    }
}

/// The picture for a recent workspace.
pub open spec fn location_icon(location: SerializedWorkspaceLocation) -> IconName {
    match location {
        SerializedWorkspaceLocation::Local => crate::recent_entries::connection_icon(None),
        SerializedWorkspaceLocation::Remote { options, display_name } => {
            crate::recent_entries::connection_icon(Some(options))
        },
    }
}

/// Whether a line shows a recent workspace as it is.
pub open spec fn recent_row_matches(
    delegate: RecentProjectsDelegate,
    workspace: RecentWorkspace,
    positions: Seq<usize>,
    row: RecentRow,
) -> bool {
    &&& row.icon == row_icon(delegate, location_icon(workspace.location))
    &&& match workspace.location {
        SerializedWorkspaceLocation::Local => row.highlighted.prefix is None,
        SerializedWorkspaceLocation::Remote { options, display_name } => {
            row.highlighted.prefix matches Some(prefix) && prefix@ == display_name@
        },
    }
    &&& !row.highlighted.active
    &&& highlights_match(delegate, workspace.identity_paths@, positions, row.highlighted)
    &&& match workspace.location {
        SerializedWorkspaceLocation::Local => row.add_title matches Some(title) && title@
            == if workspace.identity_paths@.len() > 1 {
            "Add Folders to this Project"@
        } else {
            "Add Folder to this Project"@
        },
        SerializedWorkspaceLocation::Remote { .. } => row.add_title is None,
    }
    &&& row.tooltip_title@ == "Open Project in This Workspace"@
    &&& row.tooltip@ == recent_tooltip(workspace)
}

/// Whether a line is shown as it is, or not at all where what it stands for is gone.
pub open spec fn row_matches(
    delegate: RecentProjectsDelegate,
    index: int,
    current: Option<CurrentWorkspace>,
    row: Option<PickerRow>,
) -> bool {
    if index >= delegate.filtered_entries@.len() {
        row is None
    } else {
        match delegate.filtered_entries@[index]@ {
            EntryModel::Header(title) => row matches Some(
                PickerRow::Header { title: shown, divider },
            ) && shown@ == title && divider == (index > 0),
            EntryModel::OpenFolder { index, positions } => if index < delegate.open_folders@.len() {
                row matches Some(PickerRow::Folder(row)) && folder_row_matches(
                    delegate,
                    index,
                    positions,
                    row,
                )
            } else {
                row is None
            },
            EntryModel::ProjectGroup(hit) => if hit.candidate_id
                < delegate.window_project_groups@.len() {
                row matches Some(PickerRow::Group(row)) && group_row_matches(
                    delegate,
                    delegate.window_project_groups@[hit.candidate_id],
                    hit.positions,
                    current,
                    row,
                )
            } else {
                row is None
            },
            EntryModel::RecentProject(hit) => if hit.candidate_id < delegate.workspaces@.len() {
                row matches Some(PickerRow::Recent(row)) && recent_row_matches(
                    delegate,
                    delegate.workspaces@[hit.candidate_id],
                    hit.positions,
                    row,
                )
            } else {
                row is None
            },
        }
    }
}

/// Whether what a line stands for is still there. A title always is.
pub open spec fn stands_for_something(delegate: RecentProjectsDelegate, entry: EntryModel) -> bool {
    match entry {
        EntryModel::Header(_) => true,
        EntryModel::OpenFolder { index, .. } => index < delegate.open_folders@.len(),
        EntryModel::ProjectGroup(hit) => hit.candidate_id < delegate.window_project_groups@.len(),
        EntryModel::RecentProject(hit) => hit.candidate_id < delegate.workspaces@.len(),
    }
}

/// The texts of paths, with the home directory shortened.
fn compact_strings(paths: &Vec<ListedPath>) -> (strings: Vec<String>)
    ensures
        crate::text::texts(strings@) == crate::recent_entries::compact_texts(paths@),
{
    let mut strings: Vec<String> = Vec::new();
    let mut i: usize = 0;
    while i < paths.len()
        invariant
            i <= paths@.len(),
            strings@.len() == i,
            forall|j: int| 0 <= j < i ==> (#[trigger] strings@[j])@ == paths@[j].compact@.text,
        decreases paths@.len() - i,
    {
        strings.push(paths[i].compact.text.clone());
        i += 1;
    }
    assert(crate::text::texts(strings@) =~= crate::recent_entries::compact_texts(paths@));
    strings
}

impl RecentProjectsDelegate {
    fn icon_to_show(&self, icon: IconName) -> (shown: Option<IconName>)
        ensures
            shown == row_icon(*self, icon),
    {
        if self.filtered_entries_include_remote_project() {
            Some(icon)
        } else {
            None
        }
    }

    fn highlighted(
        &self,
        paths: &Vec<ListedPath>,
        positions: &Vec<usize>,
        prefix: Option<String>,
        active: bool,
    ) -> (shown: HighlightedMatchWithPaths)
        requires
            paths_can_be_shown(paths@, positions@),
        ensures
            shown.prefix == prefix,
            shown.active == active,
            highlights_match(*self, paths@, positions@, shown),
    {
        let (match_labels, whole) = highlights_for_paths(paths, positions);
        let paths = if self.render_paths {
            whole
        } else {
            Vec::new()
        };
        proof {
            if !self.render_paths {
                assert(highlight_models(paths@) =~= Seq::<HighlightModel>::empty());
            }
        }
        HighlightedMatchWithPaths { prefix, match_labels, paths, active }
    }

    fn folder_row(&self, index: usize, positions: &Vec<usize>) -> (row: FolderRow)
        requires
            index < self.open_folders@.len(),
        ensures
            folder_row_matches(*self, index as int, positions@, row),
    {
        let folder = &self.open_folders[index];
        let show_path = self.style == ProjectPickerStyle::Modal;
        let title = match &folder.branch {
            Some(branch) => {
                let mut title = folder.name.clone();
                title.append("/");
                title.append(branch.as_str());
                Some(title)
            },
            None => None,
        };
        FolderRow {
            worktree_id: folder.worktree_id,
            icon: self.icon_to_show(icon_for_remote_connection(&folder.connection_options)),
            name: folder.name.clone(),
            positions: clone_positions(positions),
            branch: clone_optional(&folder.branch),
            is_active: folder.is_active,
            path: if show_path {
                Some(folder.compact.text.clone())
            } else {
                None
            },
            tooltip: if show_path {
                None
            } else {
                Some(FolderTooltip { title, path: folder.compact.text.clone() })
            },
        }
    }

    fn group_row(
        &self,
        key: &ProjectGroupKey,
        hit: &StringMatch,
        current: &Option<CurrentWorkspace>,
    ) -> (row: GroupRow)
        requires
            paths_can_be_shown(key.paths@, hit.positions@),
        ensures
            group_row_matches(*self, *key, hit.positions@, *current, row),
    {
        let is_active = self.is_active_project_group(key, current);
        GroupRow {
            id: key.id,
            icon: self.icon_to_show(icon_for_project_group(key)),
            highlighted: self.highlighted(&key.paths, &hit.positions, None, is_active),
            removable: !is_active,
            tooltip: join_texts(&compact_strings(&key.paths), "\n"),
        }
    }

    fn recent_row(&self, workspace: &RecentWorkspace, hit: &StringMatch) -> (row: RecentRow)
        requires
            paths_can_be_shown(workspace.identity_paths@, hit.positions@),
        ensures
            recent_row_matches(*self, *workspace, hit.positions@, row),
    {
        let folders = compact_strings(&workspace.identity_paths);
        let joined = join_texts(&folders, "\n");
        let (icon, prefix, add_title, tooltip) = match &workspace.location {
            SerializedWorkspaceLocation::Local => {
                let title: &'static str = if workspace.identity_paths.len() > 1 {
                    "Add Folders to this Project"
                } else {
                    "Add Folder to this Project"
                };
                (icon_for_remote_connection(&None), None, Some(title), joined)
            },
            SerializedWorkspaceLocation::Remote { options, display_name } => {
                let mut tooltip = if folders.len() == 1 {
                    assert(crate::text::texts(folders@)[0] == folders@[0]@);
                    let mut tooltip = folders[0].clone();
                    tooltip.append(" (");
                    tooltip
                } else {
                    let mut tooltip = joined;
                    tooltip.append("\n(");
                    tooltip
                };
                tooltip.append(display_name.as_str());
                tooltip.append(")");
                (host_icon(options), Some(display_name.clone()), None, tooltip)
            },
        };
        RecentRow {
            icon: self.icon_to_show(icon),
            highlighted: self.highlighted(
                &workspace.identity_paths,
                &hit.positions,
                prefix,
                false,
            ),
            add_title,
            tooltip_title: "Open Project in This Workspace",
            tooltip,
        }
    }

    /// A line as it is shown. There is none for a line that is not there, or whose folder, group or
    /// workspace is not.
    pub fn render_match(&self, index: usize, current: &Option<CurrentWorkspace>) -> (row: Option<
        PickerRow,
    >)
        requires
            index < self.filtered_entries@.len() ==> can_be_shown(
                *self,
                self.filtered_entries@[index as int]@,
            ),
        ensures
            row_matches(*self, index as int, *current, row),
            row is Some <==> index < self.filtered_entries@.len() && stands_for_something(
                *self,
                self.filtered_entries@[index as int]@,
            ),
    {
        if index >= self.filtered_entries.len() {
            return None;
        }
        match &self.filtered_entries[index] {
            ProjectPickerEntry::Header(title) => Some(
                PickerRow::Header { title: title.clone(), divider: index > 0 },
            ),
            ProjectPickerEntry::OpenFolder { index: folder, positions } => {
                if *folder < self.open_folders.len() {
                    Some(PickerRow::Folder(self.folder_row(*folder, positions)))
                } else {
                    None
                }
            },
            ProjectPickerEntry::ProjectGroup(hit) => {
                if hit.candidate_id < self.window_project_groups.len() {
                    Some(
                        PickerRow::Group(
                            self.group_row(
                                &self.window_project_groups[hit.candidate_id],
                                hit,
                                current,
                            ),
                        ),
                    )
                } else {
                    None
                }
            },
            ProjectPickerEntry::RecentProject(hit) => {
                if hit.candidate_id < self.workspaces.len() {
                    Some(PickerRow::Recent(self.recent_row(&self.workspaces[hit.candidate_id], hit)))
                } else {
                    None
                }
            },
        }
    }
}

/// The button that removes the selected line.
#[derive(Clone, Copy, Debug, PartialEq, Eq, Structural)]
pub enum RemoveButton {
    Folder,
    FromWindow,
    Recent,
}

/// The button that confirms the selected line.
#[derive(Clone, Copy, Debug, PartialEq, Eq, Structural)]
pub enum ConfirmButton {
    Activate,
    Open,
}

/// What stands below the list.
#[derive(Clone, Copy, Debug, PartialEq, Eq, Structural)]
pub enum PickerFooter {
    /// Buttons to open folders of this machine and to connect a host.
    Popover,
    /// Buttons for the selected line, and a menu that may offer to add its folders.
    Modal { remove: Option<RemoveButton>, confirm: ConfirmButton, offers_adding: bool },
}

impl RemoveButton {
    /// What stands on the button.
    pub fn label(&self) -> (label: &'static str)
        ensures
            label@ == match *self {
                RemoveButton::Folder => "Remove Folder"@,
                RemoveButton::FromWindow => "Remove from Window"@,
                RemoveButton::Recent => "Remove"@,
            },
    {
        match self {
            RemoveButton::Folder => "Remove Folder",
            RemoveButton::FromWindow => "Remove from Window",
            RemoveButton::Recent => "Remove",
        }
    }
}

impl ConfirmButton {
    /// What stands on the button.
    pub fn label(&self) -> (label: &'static str)
        ensures
            label@ == match *self {
                ConfirmButton::Activate => "Activate"@,
                ConfirmButton::Open => "Open"@,
            },
    {
        match self {
            ConfirmButton::Activate => "Activate",
            ConfirmButton::Open => "Open",
        }
    }
}

/// The selected line, if there is one.
pub open spec fn selected_line(delegate: RecentProjectsDelegate) -> Option<EntryModel> {
    if delegate.selected_index < delegate.filtered_entries@.len() {
        Some(delegate.filtered_entries@[delegate.selected_index as int]@)
    } else {
        None
    }
}

/// What stands below the list for the selected line. A folder or a group that is open is
/// activated, a recent workspace is opened. The group of the current workspace cannot be removed.
pub open spec fn footer(delegate: RecentProjectsDelegate, current: Option<CurrentWorkspace>) -> PickerFooter {
    if delegate.style == ProjectPickerStyle::Popover {
        PickerFooter::Popover
    } else {
        match selected_line(delegate) {
            Some(EntryModel::OpenFolder { .. }) => PickerFooter::Modal {
                remove: Some(RemoveButton::Folder),
                confirm: ConfirmButton::Activate,
                offers_adding: false,
            },
            Some(EntryModel::ProjectGroup(hit)) => PickerFooter::Modal {
                remove: if hit.candidate_id < delegate.window_project_groups@.len()
                    && (current matches Some(workspace) && workspace.group_id
                    == delegate.window_project_groups@[hit.candidate_id].id) {
                    None
                } else {
                    Some(RemoveButton::FromWindow)
                },
                confirm: ConfirmButton::Activate,
                offers_adding: false,
            },
            Some(EntryModel::RecentProject(hit)) => PickerFooter::Modal {
                remove: Some(RemoveButton::Recent),
                confirm: ConfirmButton::Open,
                offers_adding: hit.candidate_id < delegate.workspaces@.len()
                    && delegate.workspaces@[hit.candidate_id].location is Local,
            },
            _ => PickerFooter::Modal {
                remove: None,
                confirm: ConfirmButton::Open,
                offers_adding: false,
            },
        }
    }
}

impl RecentProjectsDelegate {
    /// What stands below the list.
    pub fn render_footer(&self, current: &Option<CurrentWorkspace>) -> (shown: PickerFooter)
        ensures
            shown == footer(*self, *current),
    {
        if self.style == ProjectPickerStyle::Popover {
            return PickerFooter::Popover;
        }
        if self.selected_index >= self.filtered_entries.len() {
            return PickerFooter::Modal {
                remove: None,
                confirm: ConfirmButton::Open,
                offers_adding: false,
            };
        }
        match &self.filtered_entries[self.selected_index] {
            ProjectPickerEntry::Header(_) => PickerFooter::Modal {
                remove: None,
                confirm: ConfirmButton::Open,
                offers_adding: false,
            },
            ProjectPickerEntry::OpenFolder { .. } => PickerFooter::Modal {
                remove: Some(RemoveButton::Folder),
                confirm: ConfirmButton::Activate,
                offers_adding: false,
            },
            ProjectPickerEntry::ProjectGroup(hit) => {
                let is_current = hit.candidate_id < self.window_project_groups.len()
                    && self.is_active_project_group(
                    &self.window_project_groups[hit.candidate_id],
                    current,
                );
                PickerFooter::Modal {
                    remove: if is_current {
                        None
                    } else {
                        Some(RemoveButton::FromWindow)
                    },
                    confirm: ConfirmButton::Activate,
                    offers_adding: false,
                }
            },
            ProjectPickerEntry::RecentProject(hit) => {
                let is_local = hit.candidate_id < self.workspaces.len()
                    && match self.workspaces[hit.candidate_id].location {
                    SerializedWorkspaceLocation::Local => true,
                    SerializedWorkspaceLocation::Remote { .. } => false,
                };
                PickerFooter::Modal {
                    remove: Some(RemoveButton::Recent),
                    confirm: ConfirmButton::Open,
                    offers_adding: is_local,
                }
            },
        }
    }
}

/// The button that removes a line is offered exactly where removing it comes to something,
/// as long as there is a workspace and the line stands for something.
pub proof fn law_remove_is_offered_where_it_works(
    delegate: RecentProjectsDelegate,
    current: Option<CurrentWorkspace>,
    action: crate::recent_actions::RemoveAction,
)
    requires
        delegate.style == ProjectPickerStyle::Modal,
        current is Some,
        match selected_line(delegate) {
            Some(EntryModel::OpenFolder { index, positions }) => index
                < delegate.open_folders@.len(),
            Some(EntryModel::ProjectGroup(hit)) => hit.candidate_id
                < delegate.window_project_groups@.len(),
            Some(EntryModel::RecentProject(hit)) => hit.candidate_id < delegate.workspaces@.len(),
            _ => true,
        },
        crate::recent_actions::removal_matches(delegate, current, action),
    ensures
        footer(delegate, current) matches PickerFooter::Modal { remove, confirm, offers_adding } && (
        remove is Some <==> !(action is Nothing)),
{
}

} // verus!
