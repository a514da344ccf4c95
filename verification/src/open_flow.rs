//! What is done with a request from the command line: which paths are opened, what is waited for,
//! and what is answered.

use crate::open_request::{OpenBehavior, OpenError, RawOpenRequest};
use crate::path::{HostPath, PathModel};
use crate::remote_connections::{PathWithPosition, PositionModel, WindowHandle};
use crate::text::contains;
use crate::text_span::join_texts;
use vstd::prelude::*;

verus! {

/// How an existing workspace is looked for before a new one is opened.
#[derive(Clone, Copy, Debug, PartialEq, Eq, Structural)]
pub enum WorkspaceMatching {
    Never,
    MatchExact,
    MatchSubdirectory,
}

/// How something is opened.
#[derive(Debug)]
pub struct OpenOptions {
    pub workspace_matching: WorkspaceMatching,
    pub add_dirs_to_sidebar: bool,
    pub requesting_window: Option<WindowHandle>,
    pub wait: bool,
    pub env: Option<Vec<(String, String)>>,
    pub open_in_dev_container: bool,
}

/// The behavior that stands for none: an existing window is used.
pub open spec fn effective_behavior(behavior: OpenBehavior) -> OpenBehavior {
    if behavior == OpenBehavior::Default {
        OpenBehavior::ExistingWindow
    } else {
        behavior
    }
}

/// How an existing workspace is looked for.
pub open spec fn matching_for(behavior: OpenBehavior) -> WorkspaceMatching {
    match behavior {
        OpenBehavior::Reuse => WorkspaceMatching::Never,
        OpenBehavior::Add => WorkspaceMatching::MatchSubdirectory,
        _ => WorkspaceMatching::MatchExact,
    }
}

/// How something is opened, given the windows that show workspaces of the same place. Reusing
/// takes the first of them.
pub fn open_options_for_behavior(behavior: OpenBehavior, windows: &Vec<WindowHandle>) -> (options:
    OpenOptions)
    ensures
        options.workspace_matching == matching_for(effective_behavior(behavior)),
        options.add_dirs_to_sidebar == (effective_behavior(behavior)
            == OpenBehavior::ExistingWindow),
        options.requesting_window == if behavior == OpenBehavior::Reuse && windows@.len() > 0 {
            Some(windows@[0])
        } else {
            None
        },
        !options.wait,
        options.env is None,
        !options.open_in_dev_container,
{
    let behavior = if behavior == OpenBehavior::Default {
        OpenBehavior::ExistingWindow
    } else {
        behavior
    };
    let requesting_window = if behavior == OpenBehavior::Reuse && windows.len() > 0 {
        Some(windows[0])
    } else {
        None
    };
    OpenOptions {
        workspace_matching: match behavior {
            OpenBehavior::Reuse => WorkspaceMatching::Never,
            OpenBehavior::Add => WorkspaceMatching::MatchSubdirectory,
            _ => WorkspaceMatching::MatchExact,
        },
        add_dirs_to_sidebar: match behavior {
            OpenBehavior::ExistingWindow => true,
            _ => false,
        },
        requesting_window,
        wait: false,
        env: None,
        open_in_dev_container: false,
    }
}

/// How something is opened for a request, which may say nothing of it.
pub fn open_options_for_request(behavior: Option<OpenBehavior>, windows: &Vec<WindowHandle>) -> (options:
    OpenOptions)
    ensures
        ({
            let wanted = match behavior {
                Some(behavior) => behavior,
                None => OpenBehavior::ExistingWindow,
            };
            &&& options.workspace_matching == matching_for(effective_behavior(wanted))
            &&& options.add_dirs_to_sidebar == (effective_behavior(wanted)
                == OpenBehavior::ExistingWindow)
            &&& options.requesting_window == if wanted == OpenBehavior::Reuse && windows@.len() > 0 {
                Some(windows@[0])
            } else {
                None
            }
            &&& !options.wait
            &&& options.env is None
            &&& !options.open_in_dev_container
        }),
{
    let wanted = match behavior {
        Some(behavior) => behavior,
        None => OpenBehavior::ExistingWindow,
    };
    open_options_for_behavior(wanted, windows)
}

/// A request of the command line to open something.
#[derive(Debug)]
pub struct CliOpen {
    pub urls: Vec<String>,
    pub paths: Vec<String>,
    pub diff_paths: Vec<(String, String)>,
    pub diff_all: bool,
    pub wait: bool,
    pub wsl: Option<String>,
    pub open_behavior: OpenBehavior,
    pub env: Option<Vec<(String, String)>>,
    pub dev_container: bool,
    pub cwd: Option<String>,
}

/// What to do with a request of the command line.
#[derive(Debug)]
pub enum CliPlan {
    /// Understand its URLs.
    ParseUrls { request: RawOpenRequest },
    /// Open its paths.
    OpenPaths {
        paths: Vec<String>,
        diff_paths: Vec<(String, String)>,
        diff_all: bool,
        wait: bool,
        open_behavior: OpenBehavior,
        env: Option<Vec<(String, String)>>,
        dev_container: bool,
        cwd: Option<String>,
    },
}

/// Tells what to do with a request of the command line: URLs go before paths, and paths go to an
/// existing window where nothing else is said.
pub fn plan_cli_request(open: CliOpen) -> (plan: CliPlan)
    ensures
        if open.urls@.len() > 0 {
            plan == (CliPlan::ParseUrls {
                request: RawOpenRequest {
                    urls: open.urls,
                    diff_paths: open.diff_paths,
                    diff_all: open.diff_all,
                    dev_container: open.dev_container,
                    wsl: open.wsl,
                    open_behavior: Some(open.open_behavior),
                },
            })
        } else {
            plan == (CliPlan::OpenPaths {
                paths: open.paths,
                diff_paths: open.diff_paths,
                diff_all: open.diff_all,
                wait: open.wait,
                open_behavior: effective_behavior(open.open_behavior),
                env: open.env,
                dev_container: open.dev_container,
                cwd: open.cwd,
            })
        },
{
    if open.urls.len() > 0 {
        return CliPlan::ParseUrls {
            request: RawOpenRequest {
                urls: open.urls,
                diff_paths: open.diff_paths,
                diff_all: open.diff_all,
                dev_container: open.dev_container,
                wsl: open.wsl,
                open_behavior: Some(open.open_behavior),
            },
        };
    }
    let open_behavior = if open.open_behavior == OpenBehavior::Default {
        OpenBehavior::ExistingWindow
    } else {
        open.open_behavior
    };
    CliPlan::OpenPaths {
        paths: open.paths,
        diff_paths: open.diff_paths,
        diff_all: open.diff_all,
        wait: open.wait,
        open_behavior,
        env: open.env,
        dev_container: open.dev_container,
        cwd: open.cwd,
    }
}

/// An answer to the command line.
#[derive(Debug, PartialEq, Eq)]
pub enum CliResponse {
    Ping,
    Stderr { message: String },
    Exit { status: i32 },
}

#[verifier::ext_equal]
pub enum ResponseModel {
    Ping,
    Stderr { message: Seq<char> },
    Exit { status: i32 },
}

impl View for CliResponse {
    type V = ResponseModel;

    open spec fn view(&self) -> ResponseModel {
        match *self {
            CliResponse::Ping => ResponseModel::Ping,
            CliResponse::Stderr { message } => ResponseModel::Stderr { message: message@ },
            CliResponse::Exit { status } => ResponseModel::Exit { status },
        }
    }
}

/// The answers that a sequence of responses stands for.
pub open spec fn response_models(responses: Seq<CliResponse>) -> Seq<ResponseModel> {
    Seq::new(responses.len(), |i: int| responses[i]@)
}

/// The answers once the URLs of a request were understood or not.
pub fn responses_to_urls(error: Option<OpenError>) -> (responses: Vec<CliResponse>)
    ensures
        response_models(responses@) == match error {
            None => seq![ResponseModel::Exit { status: 0 }],
            Some(error) => seq![
                ResponseModel::Stderr { message: crate::open_request::open_message(error@) },
                ResponseModel::Exit { status: 1 },
            ],
        },
{
    let mut responses: Vec<CliResponse> = Vec::new();
    match error {
        None => {
            responses.push(CliResponse::Exit { status: 0 });
            assert(response_models(responses@) =~= seq![ResponseModel::Exit { status: 0 }]);
        },
        Some(error) => {
            let ghost message = crate::open_request::open_message(error@);
            responses.push(CliResponse::Stderr { message: error.message() });
            responses.push(CliResponse::Exit { status: 1 });
            assert(response_models(responses@) =~= seq![
                ResponseModel::Stderr { message },
                ResponseModel::Exit { status: 1 },
            ]);
        },
    }
    responses
}

/// The answer once the paths of a request were opened or not.
pub fn response_to_paths(failed: bool) -> (response: CliResponse)
    ensures
        response@ == (ResponseModel::Exit {
            status: if failed {
                1
            } else {
                0
            },
        }),
{
    CliResponse::Exit {
        status: if failed {
            1
        } else {
            0
        },
    }
}

/// What to do with paths of the command line.
#[derive(Debug)]
pub enum OpenPlan {
    /// There is nothing to open: bring a window to the front.
    ActivateWindow,
    /// Open a workspace.
    OpenWorkspace { options: OpenOptions },
}

/// Tells what to do with paths of the command line.
pub fn open_workspaces(
    paths: &Vec<String>,
    diff_paths: &Vec<(String, String)>,
    open_behavior: OpenBehavior,
    wait: bool,
    dev_container: bool,
    env: Option<Vec<(String, String)>>,
    windows: &Vec<WindowHandle>,
) -> (plan: OpenPlan)
    ensures
        if paths@.len() == 0 && diff_paths@.len() == 0 {
            plan is ActivateWindow
        } else {
            plan matches OpenPlan::OpenWorkspace { options } && {
                &&& options.wait == wait
                &&& options.env == env
                &&& options.open_in_dev_container == dev_container
                &&& options.workspace_matching == matching_for(effective_behavior(open_behavior))
                &&& options.add_dirs_to_sidebar == (effective_behavior(open_behavior)
                    == OpenBehavior::ExistingWindow)
                &&& options.requesting_window == if open_behavior == OpenBehavior::Reuse
                    && windows@.len() > 0 {
                    Some(windows@[0])
                } else {
                    None
                }
            }
        },
{
    if paths.len() == 0 && diff_paths.len() == 0 {
        return OpenPlan::ActivateWindow;
    }
    let base = open_options_for_behavior(open_behavior, windows);
    OpenPlan::OpenWorkspace {
        options: OpenOptions { wait, env, open_in_dev_container: dev_container, ..base },
    }
}

/// The paths of the workspace: those given, or the working directory of the command line where
/// only a comparison was asked for.
pub open spec fn workspace_paths(
    paths: Seq<Seq<char>>,
    diff_count: nat,
    cwd: Option<Seq<char>>,
) -> Seq<Seq<char>> {
    match cwd {
        Some(cwd) if paths.len() == 0 && diff_count > 0 => paths.push(cwd),
        _ => paths,
    }
}

/// Gives the paths of the workspace.
pub fn workspace_paths_for(
    paths: Vec<String>,
    diff_paths: &Vec<(String, String)>,
    cwd: Option<String>,
) -> (all: Vec<String>)
    ensures
        crate::text::texts(all@) == workspace_paths(
            crate::text::texts(paths@),
            diff_paths@.len(),
            crate::text::optional_text(cwd),
        ),
{
    let mut all = paths;
    let ghost before = crate::text::texts(all@);
    if all.len() == 0 && diff_paths.len() > 0 {
        match cwd {
            Some(cwd) => {
                let ghost text = cwd@;
                all.push(cwd);
                assert(crate::text::texts(all@) =~= before.push(text));
            },
            None => {},
        }
    }
    all
}

/// Whether some path in a list is the same as a given one.
pub open spec fn lists_path(paths: Seq<PathModel>, path: PathModel) -> bool {
    exists|i: int| 0 <= i < paths.len() && crate::path::same_path(#[trigger] paths[i], path)
}

/// Paths with more of them behind, each only where it is not there yet.
pub open spec fn with_new_paths(paths: Seq<PathModel>, more: Seq<PathModel>) -> Seq<PathModel>
    decreases more.len(),
{
    if more.len() == 0 {
        paths
    } else {
        let earlier = with_new_paths(paths, more.drop_last());
        if lists_path(earlier, more.last()) {
            earlier
        } else {
            earlier.push(more.last())
        }
    }
}

fn holds_path(paths: &Vec<HostPath>, path: &HostPath) -> (result: bool)
    ensures
        result == lists_path(crate::path::path_models(paths@), path@),
{
    let ghost all = crate::path::path_models(paths@);
    let mut i: usize = 0;
    while i < paths.len()
        invariant
            i <= paths@.len(),
            all == crate::path::path_models(paths@),
            forall|k: int| 0 <= k < i ==> !crate::path::same_path(#[trigger] all[k], path@),
        decreases paths@.len() - i,
    {
        assert(all[i as int] == paths@[i as int]@);
        if paths[i].is_same(path) {
            return true;
        }
        i += 1;
    }
    false
}

/// The paths of the project: those to open, and then those to compare that are not among them.
pub fn project_paths_for(paths: &Vec<PathWithPosition>, compared: &Vec<HostPath>) -> (all: Vec<
    HostPath,
>)
    ensures
        crate::path::path_models(all@) == with_new_paths(
            opened_paths(paths@),
            crate::path::path_models(compared@),
        ),
{
    let mut all: Vec<HostPath> = Vec::new();
    let mut i: usize = 0;
    while i < paths.len()
        invariant
            i <= paths@.len(),
            all@.len() == i,
            forall|k: int| 0 <= k < i ==> (#[trigger] all@[k])@ == paths@[k].path@,
        decreases paths@.len() - i,
    {
        all.push(paths[i].path.clone());
        i += 1;
    }
    assert(crate::path::path_models(all@) =~= opened_paths(paths@));
    let ghost start = opened_paths(paths@);
    let ghost more = crate::path::path_models(compared@);
    let mut j: usize = 0;
    assert(more.take(0) =~= Seq::<PathModel>::empty());
    while j < compared.len()
        invariant
            j <= compared@.len(),
            more == crate::path::path_models(compared@),
            crate::path::path_models(all@) == with_new_paths(start, more.take(j as int)),
        decreases compared@.len() - j,
    {
        let ghost before = crate::path::path_models(all@);
        assert(more.take(j + 1).drop_last() =~= more.take(j as int));
        assert(more.take(j + 1).last() == compared@[j as int]@);
        if !holds_path(&all, &compared[j]) {
            all.push(compared[j].clone());
            assert(crate::path::path_models(all@) =~= before.push(compared@[j as int]@));
        }
        j += 1;
    }
    assert(more.take(j as int) =~= more);
    all
}

/// The paths to open, without their places.
pub open spec fn opened_paths(paths: Seq<PathWithPosition>) -> Seq<PathModel> {
    Seq::new(paths.len(), |i: int| paths[i].path@)
}

/// Every path that is opened or compared is a path of the project.
pub proof fn law_all_paths_are_in_the_project(paths: Seq<PathModel>, more: Seq<PathModel>)
    ensures
        paths.is_prefix_of(with_new_paths(paths, more)),
        forall|i: int|
            0 <= i < more.len() ==> lists_path(with_new_paths(paths, more), #[trigger] more[i]),
    decreases more.len(),
{
    if more.len() > 0 {
        let front = more.drop_last();
        law_all_paths_are_in_the_project(paths, front);
        let earlier = with_new_paths(paths, front);
        let all = with_new_paths(paths, more);
        assert(all.subrange(0, paths.len() as int) =~= earlier.subrange(0, paths.len() as int));
        assert forall|i: int| 0 <= i < more.len() implies lists_path(all, #[trigger] more[i]) by {
            if i < front.len() {
                assert(front[i] == more[i]);
                let k = choose|k: int|
                    0 <= k < earlier.len() && crate::path::same_path(
                        #[trigger] earlier[k],
                        front[i],
                    );
                assert(all[k] == earlier[k]);
            } else if !lists_path(earlier, more[i]) {
                assert(all[all.len() - 1] == more[i]);
            }
        }
    } else {
        assert(paths.subrange(0, paths.len() as int) =~= paths);
    }
}

/// How a comparison is shown.
#[derive(Debug)]
pub enum DiffPlan {
    /// All pairs in one view.
    All,
    /// Each pair in a view of its own.
    Each,
}

/// Tells how a comparison is shown.
pub fn plan_diff(diff_all: bool, diff_paths: &Vec<(String, String)>) -> (plan: DiffPlan)
    ensures
        plan is All <==> diff_all && diff_paths@.len() > 0,
{
    if diff_all && diff_paths.len() > 0 {
        DiffPlan::All
    } else {
        DiffPlan::Each
    }
}

/// What became of an item that was to be opened: not shown, shown, or failed.
#[derive(Debug, PartialEq, Eq)]
pub enum ItemOutcome {
    Absent,
    Opened { item: u64 },
    Failed { message: String },
}

#[verifier::ext_equal]
pub enum OutcomeModel {
    Absent,
    Opened { item: u64 },
    Failed { message: Seq<char> },
}

impl View for ItemOutcome {
    type V = OutcomeModel;

    open spec fn view(&self) -> OutcomeModel {
        match *self {
            ItemOutcome::Absent => OutcomeModel::Absent,
            ItemOutcome::Opened { item } => OutcomeModel::Opened { item },
            ItemOutcome::Failed { message } => OutcomeModel::Failed { message: message@ },
        }
    }
}

/// The outcomes that a sequence of item outcomes stands for.
pub open spec fn outcome_models(items: Seq<ItemOutcome>) -> Seq<OutcomeModel> {
    Seq::new(items.len(), |i: int| items[i]@)
}

/// What to do with a pair to compare, once its paths were resolved or not.
#[derive(Debug)]
pub enum PairPlan {
    Compare { old_path: HostPath, new_path: HostPath },
    Report { failures: Vec<ItemOutcome> },
}

/// Tells what to do with a pair to compare: it takes both paths, and otherwise each failure is
/// reported.
pub fn plan_pair(old_path: Result<HostPath, String>, new_path: Result<HostPath, String>) -> (plan:
    PairPlan)
    ensures
        match (old_path, new_path) {
            (Ok(old), Ok(new)) => plan == (PairPlan::Compare { old_path: old, new_path: new }),
            (Ok(_), Err(second)) => plan matches PairPlan::Report { failures } && outcome_models(
                failures@,
            ) == seq![OutcomeModel::Failed { message: second@ }],
            (Err(first), Ok(_)) => plan matches PairPlan::Report { failures } && outcome_models(
                failures@,
            ) == seq![OutcomeModel::Failed { message: first@ }],
            (Err(first), Err(second)) => plan matches PairPlan::Report { failures }
                && outcome_models(failures@) == seq![
                OutcomeModel::Failed { message: first@ },
                OutcomeModel::Failed { message: second@ },
            ],
        },
{
    let mut failures: Vec<ItemOutcome> = Vec::new();
    match (old_path, new_path) {
        (Ok(old_path), Ok(new_path)) => PairPlan::Compare { old_path, new_path },
        (Ok(_), Err(second)) => {
            let ghost message = second@;
            failures.push(ItemOutcome::Failed { message: second });
            assert(outcome_models(failures@) =~= seq![OutcomeModel::Failed { message }]);
            PairPlan::Report { failures }
        },
        (Err(first), Ok(_)) => {
            let ghost message = first@;
            failures.push(ItemOutcome::Failed { message: first });
            assert(outcome_models(failures@) =~= seq![OutcomeModel::Failed { message }]);
            PairPlan::Report { failures }
        },
        (Err(first), Err(second)) => {
            let ghost a = first@;
            let ghost b = second@;
            failures.push(ItemOutcome::Failed { message: first });
            failures.push(ItemOutcome::Failed { message: second });
            assert(outcome_models(failures@) =~= seq![
                OutcomeModel::Failed { message: a },
                OutcomeModel::Failed { message: b },
            ]);
            PairPlan::Report { failures }
        },
    }
}

/// The text that `str` shows of itself for debugging: quoted and escaped.
pub uninterp spec fn quoted_text(text: Seq<char>) -> Seq<char>;

/// The `Debug` form of `str`.
#[verifier::external_body]
fn quote_text(text: &str) -> (quoted: String)
    ensures
        quoted@ == quoted_text(text@),
{
    format!("{:?}", text)
}

/// The words in which a path to compare that cannot be resolved is reported.
pub fn compare_failure(path: &str, error: &str) -> (message: String)
    ensures
        message@ == "opening --diff path "@ + quoted_text(path@) + ": "@ + error@,
{
    let mut message = crate::error::message_with(
        "opening --diff path ",
        quote_text(path).as_str(),
    );
    message.append(": ");
    message.append(error);
    message
}

/// What became of a pair to compare.
#[derive(Debug)]
pub enum PairOutcome {
    /// Its paths were not resolved.
    Unresolved { failures: Vec<ItemOutcome> },
    /// It is shown, or not where its view did not open.
    Shown { item: Option<u64> },
}

/// The item of a view that may not have opened.
pub open spec fn view_items(view: Option<u64>) -> Seq<OutcomeModel> {
    match view {
        Some(item) => seq![OutcomeModel::Opened { item }],
        None => Seq::<OutcomeModel>::empty(),
    }
}

/// The items of the first pairs to compare.
pub open spec fn pair_items(pairs: Seq<PairOutcome>) -> Seq<OutcomeModel>
    decreases pairs.len(),
{
    if pairs.len() == 0 {
        Seq::<OutcomeModel>::empty()
    } else {
        pair_items(pairs.drop_last()) + match pairs.last() {
            PairOutcome::Unresolved { failures } => outcome_models(failures@),
            PairOutcome::Shown { item } => view_items(item),
        }
    }
}

/// The items that were opened, with those of the comparisons behind them.
pub open spec fn with_comparisons(
    items: Seq<OutcomeModel>,
    in_one_view: bool,
    view: Option<u64>,
    pairs: Seq<PairOutcome>,
) -> Seq<OutcomeModel> {
    if in_one_view {
        items + view_items(view)
    } else {
        items + pair_items(pairs)
    }
}

fn push_view(items: &mut Vec<ItemOutcome>, view: Option<u64>)
    ensures
        outcome_models(final(items)@) == outcome_models(old(items)@) + view_items(view),
{
    let ghost before = outcome_models(items@);
    match view {
        Some(item) => items.push(ItemOutcome::Opened { item }),
        None => {},
    }
    assert(outcome_models(items@) =~= before + view_items(view));
}

fn add_comparisons(
    items: Vec<ItemOutcome>,
    in_one_view: bool,
    view: Option<u64>,
    pairs: Vec<PairOutcome>,
) -> (all: Vec<ItemOutcome>)
    ensures
        outcome_models(all@) == with_comparisons(
            outcome_models(items@),
            in_one_view,
            view,
            pairs@,
        ),
{
    let ghost given = pairs@;
    let ghost opened = outcome_models(items@);
    let mut all = items;
    if in_one_view {
        push_view(&mut all, view);
        return all;
    }
    let mut rest = pairs;
    let ghost mut done: int = 0;
    assert(given.take(0) =~= Seq::<PairOutcome>::empty());
    assert(opened + pair_items(given.take(0)) =~= opened);
    while rest.len() > 0
        invariant
            0 <= done <= given.len(),
            rest@ == given.skip(done),
            outcome_models(all@) == opened + pair_items(given.take(done)),
        decreases rest@.len(),
    {
        let pair = rest.remove(0);
        let ghost before = outcome_models(all@);
        proof {
            assert(pair == given[done]);
            assert(given.take(done + 1).drop_last() =~= given.take(done));
            assert(given.take(done + 1).last() == pair);
            assert(rest@ =~= given.skip(done + 1));
        }
        match pair {
            PairOutcome::Unresolved { failures } => {
                let ghost added = outcome_models(failures@);
                let mut failures = failures;
                all.append(&mut failures);
                assert(outcome_models(all@) =~= before + added);
            },
            PairOutcome::Shown { item } => push_view(&mut all, item),
        }
        proof {
            done = done + 1;
            assert(outcome_models(all@) =~= opened + pair_items(given.take(done)));
        }
    }
    assert(given.take(done) =~= given);
    all
}

/// Whether an item is the outcome of opening the path at its place, where there is one: a failure
/// says which path it is about.
pub open spec fn opened_as(
    items: Seq<OutcomeModel>,
    paths: Seq<PathWithPosition>,
    index: int,
) -> OutcomeModel {
    if index < paths.len() {
        labelled(items[index], quoted_path(paths[index].path@.text))
    } else {
        items[index]
    }
}

/// Puts together what became of opening paths and comparisons: the items of the paths, then those
/// of the comparisons, all in one view or each in its own. Failures of paths say which path they
/// are about.
pub fn open_superzed_paths_with_positions(
    positions: &Vec<PathWithPosition>,
    diff_all: bool,
    diff_paths: &Vec<(String, String)>,
    items: Vec<ItemOutcome>,
    view: Option<u64>,
    pairs: Vec<PairOutcome>,
) -> (result: Vec<ItemOutcome>)
    ensures
        ({
            let all = with_comparisons(
                outcome_models(items@),
                diff_all && diff_paths@.len() > 0,
                view,
                pairs@,
            );
            &&& result@.len() == all.len()
            &&& forall|i: int|
                0 <= i < all.len() ==> (#[trigger] result@[i])@ == opened_as(all, positions@, i)
        }),
{
    let in_one_view = match plan_diff(diff_all, diff_paths) {
        DiffPlan::All => true,
        DiffPlan::Each => false,
    };
    let all = add_comparisons(items, in_one_view, view, pairs);
    let result = label_failures(all, positions);
    proof {
        let models = outcome_models(all@);
        assert forall|i: int| 0 <= i < models.len() implies (#[trigger] result@[i])@ == opened_as(
            models,
            positions@,
            i,
        ) by {
            assert(models[i] == all@[i]@);
        }
    }
    result
}

/// The text that `std::path::Path` shows of itself for debugging: quoted and escaped.
pub uninterp spec fn quoted_path(path: Seq<char>) -> Seq<char>;

/// The `Debug` form of `std::path::Path`.
#[verifier::external_body]
fn quote_path(path: &str) -> (text: String)
    ensures
        text@ == quoted_path(path@),
{
    format!("{:?}", std::path::Path::new(path))
}

/// An outcome whose failure also says which path it is about, where it goes with one.
pub open spec fn labelled(outcome: OutcomeModel, quoted: Seq<char>) -> OutcomeModel {
    match outcome {
        OutcomeModel::Failed { message } => OutcomeModel::Failed {
            message: "error opening "@ + quoted + ": "@ + message,
        },
        other => other,
    }
}

/// Says of a failure which quoted path it is about.
pub fn label_failure(outcome: ItemOutcome, quoted: &str) -> (result: ItemOutcome)
    ensures
        result@ == labelled(outcome@, quoted@),
{
    match outcome {
        ItemOutcome::Failed { message } => {
            let mut text = crate::error::message_with("error opening ", quoted);
            text.append(": ");
            text.append(message.as_str());
            ItemOutcome::Failed { message: text }
        },
        other => other,
    }
}

/// Says of each failure which path it is about. Items beyond the paths are left as they are.
pub fn label_failures(items: Vec<ItemOutcome>, paths: &Vec<PathWithPosition>) -> (result: Vec<
    ItemOutcome,
>)
    ensures
        result@.len() == items@.len(),
        forall|i: int|
            0 <= i < items@.len() ==> (#[trigger] result@[i])@ == if i < paths@.len() {
                labelled(items@[i]@, quoted_path(paths@[i].path@.text))
            } else {
                items@[i]@
            },
{
    let mut rest = items;
    let mut result: Vec<ItemOutcome> = Vec::new();
    let ghost mut done: int = 0;
    assert(rest@ =~= items@.skip(0));
    while rest.len() > 0
        invariant
            0 <= done <= items@.len(),
            result@.len() == done,
            rest@ == items@.skip(done),
            forall|i: int|
                0 <= i < done ==> (#[trigger] result@[i])@ == if i < paths@.len() {
                    labelled(items@[i]@, quoted_path(paths@[i].path@.text))
                } else {
                    items@[i]@
                },
        decreases rest@.len(),
    {
        let index: usize = result.len();
        let item = rest.remove(0);
        proof {
            assert(item == items@[done]);
            assert(rest@ =~= items@.skip(done + 1));
        }
        if index < paths.len() {
            let quoted = quote_path(paths[index].path.as_str());
            result.push(label_failure(item, quoted.as_str()));
        } else {
            result.push(item);
        }
        proof {
            done = done + 1;
        }
    }
    result
}

/// The texts of paths with places.
pub open spec fn opened_texts(paths: Seq<PathWithPosition>) -> Seq<Seq<char>> {
    Seq::new(paths.len(), |i: int| paths[i].path@.text)
}

/// The words in which a workspace that did not open is reported.
pub open spec fn open_failure(paths: Seq<Seq<char>>, error: Seq<char>) -> ResponseModel {
    ResponseModel::Stderr {
        message: "error opening ["@ + crate::text_span::joined_by(paths, ", "@) + "]: "@ + error,
    }
}

/// The report of a workspace that did not open.
pub fn open_failure_report(paths: &Vec<PathWithPosition>, error: &str) -> (response: CliResponse)
    ensures
        response@ == open_failure(opened_texts(paths@), error@),
{
    let mut texts: Vec<String> = Vec::new();
    let mut i: usize = 0;
    while i < paths.len()
        invariant
            i <= paths@.len(),
            texts@.len() == i,
            forall|j: int| 0 <= j < i ==> (#[trigger] texts@[j])@ == paths@[j].path@.text,
        decreases paths@.len() - i,
    {
        texts.push(paths[i].path.text.clone());
        i += 1;
    }
    assert(crate::text::texts(texts@) =~= opened_texts(paths@));
    let mut message = crate::error::message_with(
        "error opening [",
        join_texts(&texts, ", ").as_str(),
    );
    message.append("]: ");
    message.append(error);
    CliResponse::Stderr { message }
}

/// Whether the command line waits until the window is closed: nothing was opened, or a directory
/// was among the paths that were given.
pub open spec fn waits_for_window(
    wait: bool,
    path_count: nat,
    diff_count: nat,
    given: bool,
    directories: Seq<bool>,
) -> bool {
    wait && ((path_count == 0 && diff_count == 0) || (given && exists|i: int|
        0 <= i < directories.len() && #[trigger] directories[i]))
}

/// Tells whether the command line waits until the window is closed.
pub fn wait_for_window_close(
    wait: bool,
    path_count: usize,
    diff_count: usize,
    given: bool,
    directories: &Vec<bool>,
) -> (result: bool)
    ensures
        result == waits_for_window(
            wait,
            path_count as nat,
            diff_count as nat,
            given,
            directories@,
        ),
{
    if !wait {
        return false;
    }
    if path_count == 0 && diff_count == 0 {
        return true;
    }
    if !given {
        return false;
    }
    let mut i: usize = 0;
    while i < directories.len()
        invariant
            i <= directories@.len(),
            wait,
            given,
            forall|k: int| 0 <= k < i ==> !(#[trigger] directories@[k]),
        decreases directories@.len() - i,
    {
        if directories[i] {
            return true;
        }
        i += 1;
    }
    false
}

/// What follows from the outcomes of all items: which are watched until they are closed, what is
/// answered, and whether something failed.
#[derive(Debug)]
pub struct ItemsReport {
    pub watched: Vec<u64>,
    pub responses: Vec<CliResponse>,
    pub errored: bool,
}

/// The items that were opened.
pub open spec fn opened_items(items: Seq<OutcomeModel>) -> Seq<u64>
    decreases items.len(),
{
    if items.len() == 0 {
        Seq::<u64>::empty()
    } else {
        match items.last() {
            OutcomeModel::Opened { item } => opened_items(items.drop_last()).push(item),
            _ => opened_items(items.drop_last()),
        }
    }
}

/// The answers to failures.
pub open spec fn failure_responses(items: Seq<OutcomeModel>) -> Seq<ResponseModel>
    decreases items.len(),
{
    if items.len() == 0 {
        Seq::<ResponseModel>::empty()
    } else {
        match items.last() {
            OutcomeModel::Failed { message } => failure_responses(items.drop_last()).push(
                ResponseModel::Stderr { message },
            ),
            _ => failure_responses(items.drop_last()),
        }
    }
}

/// Goes through the outcomes of all items. Opened ones are watched where the command line waits;
/// each failure is answered.
pub fn report_items(items: &Vec<ItemOutcome>, wait: bool) -> (report: ItemsReport)
    ensures
        report.watched@ == if wait {
            opened_items(outcome_models(items@))
        } else {
            Seq::<u64>::empty()
        },
        response_models(report.responses@) == failure_responses(outcome_models(items@)),
        report.errored == exists|i: int| 0 <= i < items@.len() && (#[trigger] items@[i]) is Failed,
{
    let ghost all = outcome_models(items@);
    let mut watched: Vec<u64> = Vec::new();
    let mut responses: Vec<CliResponse> = Vec::new();
    let mut errored = false;
    let mut i: usize = 0;
    assert(all.take(0) =~= Seq::<OutcomeModel>::empty());
    assert(response_models(responses@) =~= Seq::<ResponseModel>::empty());
    while i < items.len()
        invariant
            i <= items@.len(),
            all == outcome_models(items@),
            wait ==> watched@ == opened_items(all.take(i as int)),
            !wait ==> watched@ == Seq::<u64>::empty(),
            response_models(responses@) == failure_responses(all.take(i as int)),
            errored == exists|k: int| 0 <= k < i && (#[trigger] items@[k]) is Failed,
        decreases items@.len() - i,
    {
        let ghost answered = response_models(responses@);
        proof {
            assert(all.take(i + 1).drop_last() =~= all.take(i as int));
            assert(all.take(i + 1).last() == items@[i as int]@);
        }
        match &items[i] {
            ItemOutcome::Opened { item } => {
                if wait {
                    watched.push(*item);
                }
            },
            ItemOutcome::Failed { message } => {
                let ghost text = message@;
                responses.push(CliResponse::Stderr { message: message.clone() });
                assert(response_models(responses@) =~= answered.push(
                    ResponseModel::Stderr { message: text },
                ));
                errored = true;
                assert(items@[i as int] is Failed);
            },
            ItemOutcome::Absent => {},
        }
        i += 1;
    }
    assert(all.take(i as int) =~= all);
    ItemsReport { watched, responses, errored }
}

/// What follows from opening a workspace for the command line.
#[derive(Debug)]
pub struct WorkspaceReport {
    pub responses: Vec<CliResponse>,
    pub errored: bool,
    /// Whether the window is watched until it is closed.
    pub watches_window: bool,
    /// The items that are watched until they are closed.
    pub watched: Vec<u64>,
    /// Whether the command line waits for what is watched.
    pub waits: bool,
}

/// Goes through what became of opening a workspace: a failure is answered and ends it; otherwise
/// each failed item is answered, and what was opened is watched where the command line waits.
pub fn open_superzed_workspace(
    opened: Result<Vec<ItemOutcome>, String>,
    positions: &Vec<PathWithPosition>,
    diff_paths: &Vec<(String, String)>,
    wait: bool,
    paths_given: bool,
    directories: &Vec<bool>,
) -> (report: WorkspaceReport)
    ensures
        match opened {
            Err(error) => {
                &&& response_models(report.responses@) == seq![
                    open_failure(opened_texts(positions@), error@),
                ]
                &&& report.errored
                &&& !report.watches_window
                &&& report.watched@.len() == 0
                &&& !report.waits
            },
            Ok(items) => {
                &&& response_models(report.responses@) == failure_responses(outcome_models(items@))
                &&& report.errored == exists|i: int|
                    0 <= i < items@.len() && (#[trigger] items@[i]) is Failed
                &&& report.watches_window == waits_for_window(
                    wait,
                    positions@.len(),
                    diff_paths@.len(),
                    paths_given,
                    directories@,
                )
                &&& report.watched@ == if wait {
                    opened_items(outcome_models(items@))
                } else {
                    Seq::<u64>::empty()
                }
                &&& report.waits == wait
            },
        },
{
    match opened {
        Err(error) => {
            let response = open_failure_report(positions, error.as_str());
            let ghost model = response@;
            let mut responses: Vec<CliResponse> = Vec::new();
            responses.push(response);
            assert(response_models(responses@) =~= seq![model]);
            WorkspaceReport {
                responses,
                errored: true,
                watches_window: false,
                watched: Vec::new(),
                waits: false,
            }
        },
        Ok(items) => {
            let report = report_items(&items, wait);
            WorkspaceReport {
                responses: report.responses,
                errored: report.errored,
                watches_window: wait_for_window_close(
                    wait,
                    positions.len(),
                    diff_paths.len(),
                    paths_given,
                    directories,
                ),
                watched: report.watched,
                waits: wait,
            }
        },
    }
}

/// The command line is told of a failure exactly where a workspace did not open or an item of it
/// failed.
pub proof fn law_failures_are_answered(items: Seq<OutcomeModel>)
    ensures
        (failure_responses(items).len() > 0) == (exists|i: int|
            0 <= i < items.len() && (#[trigger] items[i]) is Failed),
    decreases items.len(),
{
    if items.len() > 0 {
        let front = items.drop_last();
        law_failures_are_answered(front);
        if exists|i: int| 0 <= i < front.len() && (#[trigger] front[i]) is Failed {
            let i = choose|i: int| 0 <= i < front.len() && (#[trigger] front[i]) is Failed;
            assert(items[i] is Failed);
        }
        if exists|i: int| 0 <= i < items.len() && (#[trigger] items[i]) is Failed {
            let i = choose|i: int| 0 <= i < items.len() && (#[trigger] items[i]) is Failed;
            if i < front.len() {
                assert(front[i] is Failed);
            }
        }
    }
}

/// What happened while the command line waits.
#[derive(Clone, Copy, Debug, PartialEq, Eq, Structural)]
pub enum WaitEvent {
    /// Everything that is waited for was closed.
    Released,
    /// A second has passed, and the command line was or was not there to be pinged.
    Tick { reachable: bool },
}

/// Whether waiting goes on: until everything is closed or the command line is gone.
pub fn keep_waiting(event: WaitEvent) -> (result: bool)
    ensures
        result == (event == WaitEvent::Tick { reachable: true }),
{
    match event {
        WaitEvent::Released => false,
        WaitEvent::Tick { reachable } => reachable,
    }
}

/// Whether a colon stands in the last name of a path, or it has no such name.
pub open spec fn colon_in_name(path: PathModel) -> bool {
    match crate::path::file_name_of(path) {
        Some(name) => crate::text::contains_text(name, ":"@),
        None => true,
    }
}

/// Whether it has to be found out if a path exists as it was given: it reads as another path with
/// a place. On Windows a colon in a name always marks a place.
pub open spec fn may_be_literal(path: PathModel, parsed: PositionModel, windows: bool) -> bool {
    (!colon_in_name(path) || !windows) && parsed.row is Some && !crate::path::same_path(
        parsed.path,
        path,
    )
}

/// Tells whether it has to be found out if a path exists as it was given.
pub fn needs_existence(path: &HostPath, parsed: &PathWithPosition, windows: bool) -> (result: bool)
    ensures
        result == may_be_literal(path@, parsed@, windows),
{
    let has_colon = match path.file_name() {
        Some(name) => contains(name.as_str(), ":"),
        None => true,
    };
    (!has_colon || !windows) && parsed.row.is_some() && !parsed.path.is_same(path)
}

/// What a path of the command line stands for: itself, without a place, where it exists as it was
/// given, and otherwise what it reads as.
pub open spec fn derived(
    path: PathModel,
    parsed: PositionModel,
    exists_as_given: bool,
    windows: bool,
) -> PositionModel {
    if may_be_literal(path, parsed, windows) && exists_as_given {
        crate::remote_connections::from_path(path)
    } else {
        parsed
    }
}

/// Gives what a path of the command line stands for.
pub fn derive_path_with_position(
    path: HostPath,
    parsed: PathWithPosition,
    exists_as_given: bool,
    windows: bool,
) -> (result: PathWithPosition)
    ensures
        result@ == derived(path@, parsed@, exists_as_given, windows),
{
    if needs_existence(&path, &parsed, windows) && exists_as_given {
        PathWithPosition::from_path(path)
    } else {
        parsed
    }
}

/// A path with its resolved form, where it has one.
pub fn with_canonical_path(derived: PathWithPosition, canonical: Option<HostPath>) -> (result:
    PathWithPosition)
    ensures
        result@ == (PositionModel {
            path: match canonical {
                Some(canonical) => canonical@,
                None => derived@.path,
            },
            ..derived@
        }),
{
    match canonical {
        Some(path) => PathWithPosition { path, row: derived.row, column: derived.column },
        None => derived,
    }
}

/// A path of the command line, with what was found out about it.
#[derive(Debug)]
pub struct CommandPath {
    pub path: HostPath,
    /// What the path reads as.
    pub parsed: PathWithPosition,
    /// Whether the path exists as it was given.
    pub exists_as_given: bool,
    /// The resolved form of the path that it stands for, if that has one.
    pub canonical: Option<HostPath>,
}

/// What a path of the command line comes to.
pub open spec fn resolved(given: CommandPath, windows: bool) -> PositionModel {
    let meant = derived(given.path@, given.parsed@, given.exists_as_given, windows);
    PositionModel {
        path: match given.canonical {
            Some(canonical) => canonical@,
            None => meant.path,
        },
        ..meant
    }
}

/// Gives what each path of the command line comes to.
pub fn derive_paths_with_position(given: Vec<CommandPath>, windows: bool) -> (result: Vec<
    PathWithPosition,
>)
    ensures
        result@.len() == given@.len(),
        forall|i: int|
            0 <= i < given@.len() ==> (#[trigger] result@[i])@ == resolved(given@[i], windows),
{
    let ghost all = given@;
    let mut rest = given;
    let mut result: Vec<PathWithPosition> = Vec::new();
    while rest.len() > 0
        invariant
            result@.len() + rest@.len() == all.len(),
            rest@ == all.skip(result@.len() as int),
            forall|i: int|
                0 <= i < result@.len() ==> (#[trigger] result@[i])@ == resolved(all[i], windows),
        decreases rest@.len(),
    {
        let ghost done = result@.len() as int;
        let next = rest.remove(0);
        assert(next == all[done]);
        let meant = derive_path_with_position(
            next.path,
            next.parsed,
            next.exists_as_given,
            windows,
        );
        result.push(with_canonical_path(meant, next.canonical));
        assert(rest@ =~= all.skip(done + 1));
    }
    result
}

} // verus!
