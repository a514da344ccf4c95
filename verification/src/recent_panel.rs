//! Opening and leaving the list of projects, and folders of other systems.

use crate::connection::WslConnectionOptions;
use crate::path::HostPath;
use crate::recent_entries::{ProjectGroupKey, ProjectPickerStyle};
use crate::recent_folders::{get_open_folders, ProjectFolders};
use crate::recent_projects::RecentProjectsDelegate;
use crate::remote_connections::WslConnection;
use crate::text::{clone_optional, same_optional_text, same_text};
use vstd::prelude::*;

verus! {

/// The list of projects, as it is open.
#[derive(Debug)]
pub struct RecentProjects {
    pub picker: RecentProjectsDelegate,
    /// How wide the list is at first, in widths of the letter m.
    pub width: u32,
    /// Whether recent workspaces are read for the list.
    pub reads_workspaces: bool,
}

impl RecentProjects {
    /// Opens the list over a workspace.
    pub fn open(project: &ProjectFolders, window_project_groups: Vec<ProjectGroupKey>) -> (list:
        Self)
        ensures
            crate::recent_folders::folder_models(list.picker.open_folders@)
                == crate::recent_folders::open_folders(*project),
            list.picker.window_project_groups == window_project_groups,
            list.picker.workspaces@.len() == 0,
            list.picker.filtered_entries@.len() == 0,
            list.picker.selected_index == 0,
            list.picker.render_paths,
            list.picker.snap_selection_to_first_non_header_match,
            list.picker.style == ProjectPickerStyle::Modal,
            list.width == 42,
            list.reads_workspaces,
    {
        RecentProjects {
            picker: RecentProjectsDelegate::new(
                get_open_folders(project),
                window_project_groups,
                ProjectPickerStyle::Modal,
            ),
            width: 42,
            reads_workspaces: true,
        }
    }

    /// Opens the list next to a button. Where the workspace is gone there are no folders, and
    /// recent workspaces are not read.
    pub fn popover(
        project: Option<&ProjectFolders>,
        window_project_groups: Vec<ProjectGroupKey>,
    ) -> (list: Self)
        ensures
            match project {
                Some(project) => crate::recent_folders::folder_models(list.picker.open_folders@)
                    == crate::recent_folders::open_folders(*project),
                None => list.picker.open_folders@.len() == 0,
            },
            list.picker.window_project_groups == window_project_groups,
            list.picker.workspaces@.len() == 0,
            list.picker.filtered_entries@.len() == 0,
            list.picker.selected_index == 0,
            !list.picker.render_paths,
            list.picker.snap_selection_to_first_non_header_match,
            list.picker.style == ProjectPickerStyle::Popover,
            list.width == 20,
            list.reads_workspaces == (project is Some),
    {
        let open_folders = match project {
            Some(project) => get_open_folders(project),
            None => Vec::new(),
        };
        RecentProjects {
            picker: RecentProjectsDelegate::new(
                open_folders,
                window_project_groups,
                ProjectPickerStyle::Popover,
            ),
            width: 20,
            reads_workspaces: project.is_some(),
        }
    }

    /// Whether the list may be left: not while its menu is in use.
    pub fn on_before_dismiss(&self, submenu_focused: bool) -> (dismiss: bool)
        ensures
            dismiss == !submenu_focused,
    {
        !submenu_focused
    }

    /// Whether the list is left when something else is used: only next to a button, and not for
    /// its menu.
    pub fn on_focus_out(&self, submenu_focused: bool) -> (dismiss: bool)
        ensures
            dismiss == (self.picker.style == ProjectPickerStyle::Popover && !submenu_focused),
    {
        self.picker.style == ProjectPickerStyle::Popover && !submenu_focused
    }

    /// Whether the menu is shown after it was asked for: it is shown and hidden by turns.
    pub fn handle_toggle_open_menu(&self, is_deployed: bool) -> (shown: bool)
        ensures
            shown == !is_deployed,
    {
        !is_deployed
    }
}

/// What asking for the list comes to.
#[derive(Clone, Copy, Debug, PartialEq, Eq, Structural)]
pub enum RecentListAction {
    /// Open it, without the groups of the window.
    Open,
    /// Select the next line of the one that is open.
    CycleSelection,
}

/// Says what asking for the list comes to.
pub fn open_recent(is_open: bool) -> (action: RecentListAction)
    ensures
        action == if is_open {
            RecentListAction::CycleSelection
        } else {
            RecentListAction::Open
        },
{
    if is_open {
        RecentListAction::CycleSelection
    } else {
        RecentListAction::Open
    }
}

/// A path inside a distribution.
#[derive(Debug)]
pub struct WslPath {
    pub distro: String,
    pub path: HostPath,
}

/// A path that was chosen, with what it is for the distributions.
#[derive(Debug)]
pub struct ChosenPath {
    /// Where it lies, if it is inside a distribution.
    pub inside: Option<WslPath>,
    /// How the distributions see it, if they can.
    pub from_wsl: Option<String>,
}

/// What opening a folder in a distribution comes to.
#[derive(Debug)]
pub enum OpenInWsl {
    Nothing,
    /// Open a path in the distribution that it lies in.
    OpenProject { options: WslConnectionOptions, path: HostPath },
    /// Report that none of the paths can be seen from a distribution.
    InvalidPath,
    /// Ask for the distribution to open the paths in.
    ChooseDistro { paths: Vec<String> },
}

/// The title under which paths that cannot be seen are reported.
pub fn invalid_path_title() -> (text: &'static str)
    ensures
        text@ == "Invalid path"@,
{
    "Invalid path"
}

/// The words in which paths that cannot be seen are reported.
pub fn invalid_path_message() -> (text: &'static str)
    ensures
        text@
            == "Invalid path specified when trying to open a folder inside WSL.\n\nPlease note that Zed currently does not support opening network share folders inside wsl.\n"@,
{
    "Invalid path specified when trying to open a folder inside WSL.\n\nPlease note that Zed currently does not support opening network share folders inside wsl.\n"
}

/// The first path that is inside a distribution.
pub open spec fn first_inside(paths: Seq<ChosenPath>) -> Option<WslPath>
    decreases paths.len(),
{
    if paths.len() == 0 {
        None
    } else if paths[0].inside is Some {
        paths[0].inside
    } else {
        first_inside(paths.skip(1))
    }
}

/// The paths as the distributions see them, as far as they can.
pub open spec fn seen_from_wsl(paths: Seq<ChosenPath>) -> Seq<Seq<char>>
    decreases paths.len(),
{
    if paths.len() == 0 {
        Seq::<Seq<char>>::empty()
    } else {
        let before = seen_from_wsl(paths.drop_last());
        match paths.last().from_wsl {
            Some(path) => before.push(path@),
            None => before,
        }
    }
}

/// Says what opening the chosen paths in a distribution comes to.
pub fn open_folder_in_wsl(chosen: Option<Vec<ChosenPath>>) -> (action: OpenInWsl)
    ensures
        match chosen {
            None => action is Nothing,
            Some(paths) => match first_inside(paths@) {
                Some(found) => action matches OpenInWsl::OpenProject { options, path }
                    && options.distro_name@ == found.distro@ && options.user is None && path@
                    == found.path@,
                None => if seen_from_wsl(paths@).len() == 0 {
                    action is InvalidPath
                } else {
                    action matches OpenInWsl::ChooseDistro { paths: seen } && crate::text::texts(
                        seen@,
                    ) == seen_from_wsl(paths@)
                },
            },
        },
{
    let paths = match chosen {
        Some(paths) => paths,
        None => {
            return OpenInWsl::Nothing;
        },
    };
    let mut i: usize = 0;
    assert(paths@.skip(0) =~= paths@);
    while i < paths.len()
        invariant
            i <= paths@.len(),
            chosen == Some(paths),
            first_inside(paths@) == first_inside(paths@.skip(i as int)),
        decreases paths@.len() - i,
    {
        proof {
            assert(paths@.skip(i as int)[0] == paths@[i as int]);
            assert(paths@.skip(i as int).skip(1) =~= paths@.skip(i + 1));
        }
        match &paths[i].inside {
            Some(found) => {
                return OpenInWsl::OpenProject {
                    options: WslConnectionOptions { distro_name: found.distro.clone(), user: None },
                    path: found.path.clone(),
                };
            },
            None => {},
        }
        i += 1;
    }
    let mut seen: Vec<String> = Vec::new();
    let mut j: usize = 0;
    assert(paths@.take(0) =~= Seq::<ChosenPath>::empty());
    assert(crate::text::texts(seen@) =~= Seq::<Seq<char>>::empty());
    while j < paths.len()
        invariant
            j <= paths@.len(),
            crate::text::texts(seen@) == seen_from_wsl(paths@.take(j as int)),
        decreases paths@.len() - j,
    {
        let ghost before = seen@;
        proof {
            assert(paths@.take(j + 1).drop_last() =~= paths@.take(j as int));
            assert(paths@.take(j + 1).last() == paths@[j as int]);
        }
        match &paths[j].from_wsl {
            Some(path) => {
                seen.push(path.clone());
                assert(crate::text::texts(seen@) =~= crate::text::texts(before).push(path@));
            },
            None => {},
        }
        j += 1;
    }
    assert(paths@.take(j as int) =~= paths@);
    if seen.len() == 0 {
        OpenInWsl::InvalidPath
    } else {
        OpenInWsl::ChooseDistro { paths: seen }
    }
}

/// What a distribution in the settings stands for.
pub open spec fn distro_model(connection: WslConnection) -> (Seq<char>, Option<Seq<char>>) {
    (connection.distro_name@, crate::text::optional_text(connection.user))
}

/// What the distributions in the settings stand for.
pub open spec fn distro_models(connections: Seq<WslConnection>) -> Seq<
    (Seq<char>, Option<Seq<char>>),
> {
    Seq::new(connections.len(), |i: int| distro_model(connections[i]))
}

/// Distributions with another one, unless it is there already.
pub open spec fn with_distro(
    distros: Seq<(Seq<char>, Option<Seq<char>>)>,
    distro: (Seq<char>, Option<Seq<char>>),
) -> Seq<(Seq<char>, Option<Seq<char>>)> {
    if distros.contains(distro) {
        distros
    } else {
        distros.push(distro)
    }
}

/// Adding a distribution that was added changes nothing.
pub proof fn law_distros_are_added_once(
    distros: Seq<(Seq<char>, Option<Seq<char>>)>,
    distro: (Seq<char>, Option<Seq<char>>),
)
    ensures
        with_distro(distros, distro).contains(distro),
        with_distro(with_distro(distros, distro), distro) == with_distro(distros, distro),
{
    if !distros.contains(distro) {
        assert(distros.push(distro)[distros.len() as int] == distro);
    }
}

/// The distributions that the settings hold; none where the settings hold no list.
pub open spec fn distros_of(settings: Option<Vec<WslConnection>>) -> Seq<WslConnection> {
    match settings {
        Some(connections) => connections@,
        None => Seq::empty(),
    }
}

/// Adds a distribution to the settings, unless it is there already. Those that are there stay as
/// they are, with their projects; a new one has none.
pub fn add_wsl_distro(settings: Option<Vec<WslConnection>>, options: &WslConnectionOptions) -> (result:
    Vec<WslConnection>)
    ensures
        distro_models(result@) == with_distro(
            distro_models(distros_of(settings)),
            (options.distro_name@, crate::text::optional_text(options.user)),
        ),
        distro_models(distros_of(settings)).contains(
            (options.distro_name@, crate::text::optional_text(options.user)),
        ) ==> result@ == distros_of(settings),
        !distro_models(distros_of(settings)).contains(
            (options.distro_name@, crate::text::optional_text(options.user)),
        ) ==> result@ == distros_of(settings).push(result@.last()) && result@.last().projects@.len()
            == 0,
{
    let mut connections = match settings {
        Some(connections) => connections,
        None => Vec::new(),
    };
    let ghost before = distro_models(connections@);
    let ghost wanted = (options.distro_name@, crate::text::optional_text(options.user));
    let ghost start = connections@;
    assert(start =~= distros_of(settings));
    let mut i: usize = 0;
    while i < connections.len()
        invariant
            i <= connections@.len(),
            connections@ == start,
            before == distro_models(start),
            wanted == (options.distro_name@, crate::text::optional_text(options.user)),
            start == distros_of(settings),
            forall|j: int| 0 <= j < i ==> #[trigger] before[j] != wanted,
        decreases connections@.len() - i,
    {
        if same_text(connections[i].distro_name.as_str(), options.distro_name.as_str())
            && same_optional_text(&connections[i].user, &options.user) {
            assert(before[i as int] == wanted);
            assert(before.contains(wanted));
            return connections;
        }
        i += 1;
    }
    assert(!before.contains(wanted));
    connections.push(
        WslConnection {
            distro_name: options.distro_name.clone(),
            user: clone_optional(&options.user),
            projects: Vec::new(),
        },
    );
    assert(distro_models(connections@) =~= before.push(wanted));
    connections
}

} // verus!
