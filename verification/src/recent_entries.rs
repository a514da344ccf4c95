//! What the list of projects is made of.

use crate::connection::RemoteConnectionOptions;
use crate::path::{HostPath, PathModel};
use vstd::prelude::*;

verus! {

/// A path that is listed, with the two ways in which it is shown.
#[derive(Debug)]
pub struct ListedPath {
    pub path: HostPath,
    /// The path with the home directory shortened.
    pub compact: HostPath,
    /// The shortest ending that tells the path from the others it is listed with.
    pub suffix: String,
}

impl Clone for ListedPath {
    fn clone(&self) -> (copy: Self)
        ensures
            copy == *self,
    {
        ListedPath {
            path: self.path.clone(),
            compact: self.compact.clone(),
            suffix: self.suffix.clone(),
        }
    }
}

/// The texts of the paths, with the home directory shortened.
pub open spec fn compact_texts(paths: Seq<ListedPath>) -> Seq<Seq<char>> {
    Seq::new(paths.len(), |i: int| paths[i].compact@.text)
}

/// The texts of the paths.
pub open spec fn listed_texts(paths: Seq<ListedPath>) -> Seq<Seq<char>> {
    Seq::new(paths.len(), |i: int| paths[i].path@.text)
}

/// The paths of a list.
pub open spec fn listed_paths(paths: Seq<ListedPath>) -> Seq<PathModel> {
    Seq::new(paths.len(), |i: int| paths[i].path@)
}

/// The endings by which the paths are told apart.
pub open spec fn suffix_texts(paths: Seq<ListedPath>) -> Seq<Seq<char>> {
    Seq::new(paths.len(), |i: int| paths[i].suffix@)
}

/// A workspace among the recent ones, by its number.
#[derive(Clone, Copy, Debug, PartialEq, Eq, Structural)]
pub struct RecentWorkspaceId {
    pub value: i64,
}

/// A moment, as time since the start of 1970.
#[derive(Clone, Copy, Debug, PartialEq, Eq, Structural)]
pub struct Timestamp {
    pub seconds: i64,
    pub nanoseconds: u32,
}

/// Where a recent workspace is.
#[derive(Debug)]
pub enum SerializedWorkspaceLocation {
    Local,
    Remote {
        options: RemoteConnectionOptions,
        /// The name under which the host is shown.
        display_name: String,
    },
}

/// A workspace that was open some time ago.
#[derive(Debug)]
pub struct RecentWorkspace {
    pub workspace_id: RecentWorkspaceId,
    pub location: SerializedWorkspaceLocation,
    /// The folders that were open.
    pub paths: Vec<HostPath>,
    /// The folders by which the workspace is known, in the order in which they are shown.
    pub identity_paths: Vec<ListedPath>,
    /// The numbers of the project groups that the workspace belongs to.
    pub matching_groups: Vec<u64>,
    pub timestamp: Timestamp,
}

/// A group of projects. Groups have the same number exactly where they are the same.
#[derive(Debug)]
pub struct ProjectGroupKey {
    pub id: u64,
    pub host: Option<RemoteConnectionOptions>,
    /// The folders of the group, in the order in which they are shown.
    pub paths: Vec<ListedPath>,
}

/// A folder that is open in the active workspace.
#[derive(Debug)]
pub struct OpenFolderEntry {
    pub worktree_id: u64,
    pub name: String,
    pub path: HostPath,
    /// The path with the home directory shortened.
    pub compact: HostPath,
    pub branch: Option<String>,
    pub is_active: bool,
    pub connection_options: Option<RemoteConnectionOptions>,
}

/// A text that is looked through, by the number of what it stands for.
#[derive(Debug)]
pub struct StringMatchCandidate {
    pub id: usize,
    pub text: String,
}

/// A candidate that a query was found in, with the places of the query's characters.
#[derive(Debug)]
pub struct StringMatch {
    pub candidate_id: usize,
    pub positions: Vec<usize>,
    pub string: String,
}

#[verifier::ext_equal]
pub struct MatchModel {
    pub candidate_id: int,
    pub positions: Seq<usize>,
    pub string: Seq<char>,
}

impl View for StringMatch {
    type V = MatchModel;

    open spec fn view(&self) -> MatchModel {
        MatchModel {
            candidate_id: self.candidate_id as int,
            positions: self.positions@,
            string: self.string@,
        }
    }
}

/// What a sequence of matches stands for.
pub open spec fn match_models(matches: Seq<StringMatch>) -> Seq<MatchModel> {
    Seq::new(matches.len(), |i: int| matches[i]@)
}

/// A candidate that is listed without a query.
pub open spec fn bare_match(candidate_id: int) -> MatchModel {
    MatchModel {
        candidate_id,
        positions: Seq::<usize>::empty(),
        string: Seq::<char>::empty(),
    }
}

/// Whether numbers never go down.
pub open spec fn ascending(positions: Seq<usize>) -> bool {
    forall|i: int, j: int|
        0 <= i <= j < positions.len() ==> #[trigger] positions[i] <= #[trigger] positions[j]
}

/// A copy of numbers.
pub(crate) fn clone_positions(positions: &Vec<usize>) -> (copy: Vec<usize>)
    ensures
        copy@ == positions@,
{
    let copy = positions.clone();
    assert(copy@ =~= positions@);
    copy
}

impl Clone for StringMatch {
    fn clone(&self) -> (copy: Self)
        ensures
            copy@ == self@,
    {
        StringMatch {
            candidate_id: self.candidate_id,
            positions: clone_positions(&self.positions),
            string: self.string.clone(),
        }
    }
}

impl StringMatch {
    /// A candidate that is listed without a query.
    pub fn bare(candidate_id: usize) -> (result: Self)
        ensures
            result@ == bare_match(candidate_id as int),
    {
        let result = StringMatch { candidate_id, positions: Vec::new(), string: String::new() };
        assert(result@ =~= bare_match(candidate_id as int));
        result
    }
}

/// A line of the list.
#[derive(Debug)]
pub enum ProjectPickerEntry {
    /// The title of a section.
    Header(String),
    /// A folder that is open in the active workspace: its number among them, and the places to
    /// highlight in its name.
    OpenFolder { index: usize, positions: Vec<usize> },
    /// A group of projects of this window.
    ProjectGroup(StringMatch),
    /// A workspace that was open some time ago.
    RecentProject(StringMatch),
}

#[verifier::ext_equal]
pub enum EntryModel {
    Header(Seq<char>),
    OpenFolder { index: int, positions: Seq<usize> },
    ProjectGroup(MatchModel),
    RecentProject(MatchModel),
}

impl View for ProjectPickerEntry {
    type V = EntryModel;

    open spec fn view(&self) -> EntryModel {
        match self {
            ProjectPickerEntry::Header(title) => EntryModel::Header(title@),
            ProjectPickerEntry::OpenFolder { index, positions } => EntryModel::OpenFolder {
                index: *index as int,
                positions: positions@,
            },
            ProjectPickerEntry::ProjectGroup(hit) => EntryModel::ProjectGroup(hit@),
            ProjectPickerEntry::RecentProject(hit) => EntryModel::RecentProject(hit@),
        }
    }
}

/// What a sequence of lines stands for.
pub open spec fn entry_models(entries: Seq<ProjectPickerEntry>) -> Seq<EntryModel> {
    Seq::new(entries.len(), |i: int| entries[i]@)
}

/// Whether a line can be selected: all but titles can.
pub open spec fn selectable(entry: EntryModel) -> bool {
    !(entry is Header)
}

/// Whether a line can be selected.
pub fn is_selectable_entry(entry: &ProjectPickerEntry) -> (result: bool)
    ensures
        result == selectable(entry@),
{
    match entry {
        ProjectPickerEntry::Header(_) => false,
        _ => true,
    }
}

/// The sections of the list.
#[derive(Clone, Copy, Debug, PartialEq, Eq, Structural)]
pub enum PickerSection {
    CurrentFolders,
    ThisWindow,
    RecentProjects,
}

/// The section that a line is in; a title is in none.
pub open spec fn section_of(entry: EntryModel) -> Option<PickerSection> {
    match entry {
        EntryModel::Header(_) => None,
        EntryModel::OpenFolder { .. } => Some(PickerSection::CurrentFolders),
        EntryModel::ProjectGroup(_) => Some(PickerSection::ThisWindow),
        EntryModel::RecentProject(_) => Some(PickerSection::RecentProjects),
    }
}

/// Whether a line is in a section.
pub fn is_in_section(entry: &ProjectPickerEntry, section: PickerSection) -> (result: bool)
    ensures
        result == (section_of(entry@) == Some(section)),
{
    match entry {
        ProjectPickerEntry::Header(_) => false,
        ProjectPickerEntry::OpenFolder { .. } => section == PickerSection::CurrentFolders,
        ProjectPickerEntry::ProjectGroup(_) => section == PickerSection::ThisWindow,
        ProjectPickerEntry::RecentProject(_) => section == PickerSection::RecentProjects,
    }
}

/// Where the list is shown.
#[derive(Clone, Copy, Debug, PartialEq, Eq, Structural)]
pub enum ProjectPickerStyle {
    Modal,
    Popover,
}

/// The pictures in front of projects.
#[derive(Clone, Copy, Debug, PartialEq, Eq, Structural)]
pub enum IconName {
    Screen,
    Server,
    Linux,
    Box,
}

/// The picture for a project on a host.
pub open spec fn connection_icon(options: Option<RemoteConnectionOptions>) -> IconName {
    match options {
        None => IconName::Screen,
        Some(RemoteConnectionOptions::Local(_)) => IconName::Screen,
        Some(RemoteConnectionOptions::Ssh(_)) => IconName::Server,
        Some(RemoteConnectionOptions::Wsl(_)) => IconName::Linux,
        Some(RemoteConnectionOptions::Docker(_)) => IconName::Box,
        Some(RemoteConnectionOptions::Mock(_)) => IconName::Server,
    }
}

/// The picture for a project on a host.
pub fn icon_for_remote_connection(options: &Option<RemoteConnectionOptions>) -> (icon: IconName)
    ensures
        icon == connection_icon(*options),
{
    match options {
        None => IconName::Screen,
        Some(options) => host_icon(options),
    }
}

/// The picture for a host.
pub fn host_icon(options: &RemoteConnectionOptions) -> (icon: IconName)
    ensures
        icon == connection_icon(Some(*options)),
{
    match options {
        RemoteConnectionOptions::Local(_) => IconName::Screen,
        RemoteConnectionOptions::Ssh(_) => IconName::Server,
        RemoteConnectionOptions::Wsl(_) => IconName::Linux,
        RemoteConnectionOptions::Docker(_) => IconName::Box,
        RemoteConnectionOptions::Mock(_) => IconName::Server,
    }
}

/// The picture for a group of projects.
pub fn icon_for_project_group(key: &ProjectGroupKey) -> (icon: IconName)
    ensures
        icon == connection_icon(key.host),
{
    icon_for_remote_connection(&key.host)
}

} // verus!
