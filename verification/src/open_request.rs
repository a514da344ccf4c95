//! Requests to open something, from the command line or by URL.

use crate::connection::{
    RemoteConnectionOptions, RemoteModel, SshConnectionHost, SshModel, WslConnectionOptions,
    WslModel,
};
use crate::encoding::{
    decode_percent, encode_percent, find_value, parse_form, parse_url, query_value, ParsedUrl,
    UrlModel,
};
use crate::remote_connections::{RemoteSettings, SettingModel};
use crate::text::{
    contains, describe_number_failure, parse_number, rsplit_once, same_text, split_once, starts_with, strip_prefix,
};
use vstd::prelude::*;

verus! {

/// How the command line wants something opened.
#[derive(Clone, Copy, Debug, PartialEq, Eq, Structural)]
pub enum OpenBehavior {
    Default,
    ExistingWindow,
    Reuse,
    Add,
    Other,
}

/// A request as it comes in.
#[derive(Debug)]
pub struct RawOpenRequest {
    pub urls: Vec<String>,
    pub diff_paths: Vec<(String, String)>,
    pub diff_all: bool,
    pub dev_container: bool,
    pub wsl: Option<String>,
    pub open_behavior: Option<OpenBehavior>,
}

/// What a request asks for besides paths. A connection of the command line is a number among the
/// application's own objects.
#[derive(Debug, PartialEq, Eq)]
pub enum OpenRequestKind {
    CliConnection { connection: u64 },
    FocusApp,
    Extension { extension_id: String },
    AgentPanel { external_source_prompt: Option<String> },
    InstallSkill { content: String },
    DockMenuAction { index: usize },
    BuiltinJsonSchema { schema_path: String },
    Setting { setting_path: Option<String> },
    GitClone { repo_url: String },
    GitCommit { sha: String },
}

/// A request that was understood.
#[derive(Debug)]
pub struct OpenRequest {
    pub kind: Option<OpenRequestKind>,
    pub open_paths: Vec<String>,
    pub diff_paths: Vec<(String, String)>,
    pub diff_all: bool,
    pub dev_container: bool,
    pub open_channel_notes: Vec<(u64, Option<String>)>,
    pub join_channel: Option<u64>,
    pub remote_connection: Option<RemoteConnectionOptions>,
    pub open_behavior: Option<OpenBehavior>,
}

#[verifier::ext_equal]
pub enum KindModel {
    CliConnection { connection: u64 },
    FocusApp,
    Extension { id: Seq<char> },
    AgentPanel { prompt: Option<Seq<char>> },
    InstallSkill { content: Seq<char> },
    DockMenuAction { index: usize },
    BuiltinJsonSchema { path: Seq<char> },
    Setting { setting: Option<Seq<char>> },
    GitClone { repo_url: Seq<char> },
    GitCommit { sha: Seq<char> },
}

impl View for OpenRequestKind {
    type V = KindModel;

    open spec fn view(&self) -> KindModel {
        match *self {
            OpenRequestKind::CliConnection { connection } => KindModel::CliConnection {
                connection,
            },
            OpenRequestKind::FocusApp => KindModel::FocusApp,
            OpenRequestKind::Extension { extension_id } => KindModel::Extension {
                id: extension_id@,
            },
            OpenRequestKind::AgentPanel { external_source_prompt } => KindModel::AgentPanel {
                prompt: crate::text::optional_text(external_source_prompt),
            },
            OpenRequestKind::InstallSkill { content } => KindModel::InstallSkill {
                content: content@,
            },
            OpenRequestKind::DockMenuAction { index } => KindModel::DockMenuAction { index },
            OpenRequestKind::BuiltinJsonSchema { schema_path } => KindModel::BuiltinJsonSchema {
                path: schema_path@,
            },
            OpenRequestKind::Setting { setting_path } => KindModel::Setting {
                setting: crate::text::optional_text(setting_path),
            },
            OpenRequestKind::GitClone { repo_url } => KindModel::GitClone { repo_url: repo_url@ },
            OpenRequestKind::GitCommit { sha } => KindModel::GitCommit { sha: sha@ },
        }
    }
}

#[verifier::ext_equal]
pub struct OpenModel {
    pub kind: Option<KindModel>,
    pub open_paths: Seq<Seq<char>>,
    pub diff_paths: Seq<(Seq<char>, Seq<char>)>,
    pub diff_all: bool,
    pub dev_container: bool,
    pub open_channel_notes: Seq<(u64, Option<Seq<char>>)>,
    pub join_channel: Option<u64>,
    pub remote_connection: Option<RemoteModel>,
    pub open_behavior: Option<OpenBehavior>,
}

/// The notes that a list of channel notes stands for.
pub open spec fn note_models(notes: Seq<(u64, Option<String>)>) -> Seq<(u64, Option<Seq<char>>)> {
    Seq::new(notes.len(), |i: int| (notes[i].0, crate::text::optional_text(notes[i].1)))
}

impl View for OpenRequest {
    type V = OpenModel;

    open spec fn view(&self) -> OpenModel {
        OpenModel {
            kind: match self.kind {
                Some(kind) => Some(kind@),
                None => None,
            },
            open_paths: crate::text::texts(self.open_paths@),
            diff_paths: crate::encoding::pair_texts(self.diff_paths@),
            diff_all: self.diff_all,
            dev_container: self.dev_container,
            open_channel_notes: note_models(self.open_channel_notes@),
            join_channel: self.join_channel,
            remote_connection: match self.remote_connection {
                Some(connection) => Some(connection@),
                None => None,
            },
            open_behavior: self.open_behavior,
        }
    }
}

/// Why a request is not understood.
#[derive(Debug)]
pub enum OpenError {
    EmptyWslUser,
    BadDockIndex(String),
    InvalidSshUrl(String),
    UnparsableUrl(String),
    BadEncoding(String),
    MissingHost(String),
    LocalAndSshPaths,
    DifferentConnections,
    CloneWithoutQuery,
    CloneWithoutRepo,
    CommitWithoutQuery,
    CommitWithoutSha,
    CommitWithoutRepo,
    Unanswered,
    Outside(String),
}

/// An error of a request, with its texts as sequences of characters.
pub enum OpenFault {
    EmptyWslUser,
    BadDockIndex(Seq<char>),
    InvalidSshUrl(Seq<char>),
    UnparsableUrl(Seq<char>),
    BadEncoding(Seq<char>),
    MissingHost(Seq<char>),
    LocalAndSshPaths,
    DifferentConnections,
    CloneWithoutQuery,
    CloneWithoutRepo,
    CommitWithoutQuery,
    CommitWithoutSha,
    CommitWithoutRepo,
    Unanswered,
    Outside(Seq<char>),
}

impl View for OpenError {
    type V = OpenFault;

    open spec fn view(&self) -> OpenFault {
        match *self {
            OpenError::EmptyWslUser => OpenFault::EmptyWslUser,
            OpenError::BadDockIndex(message) => OpenFault::BadDockIndex(message@),
            OpenError::InvalidSshUrl(url) => OpenFault::InvalidSshUrl(url@),
            OpenError::UnparsableUrl(message) => OpenFault::UnparsableUrl(message@),
            OpenError::BadEncoding(message) => OpenFault::BadEncoding(message@),
            OpenError::MissingHost(url) => OpenFault::MissingHost(url@),
            OpenError::LocalAndSshPaths => OpenFault::LocalAndSshPaths,
            OpenError::DifferentConnections => OpenFault::DifferentConnections,
            OpenError::CloneWithoutQuery => OpenFault::CloneWithoutQuery,
            OpenError::CloneWithoutRepo => OpenFault::CloneWithoutRepo,
            OpenError::CommitWithoutQuery => OpenFault::CommitWithoutQuery,
            OpenError::CommitWithoutSha => OpenFault::CommitWithoutSha,
            OpenError::CommitWithoutRepo => OpenFault::CommitWithoutRepo,
            OpenError::Unanswered => OpenFault::Unanswered,
            OpenError::Outside(message) => OpenFault::Outside(message@),
        }
    }
}

/// The words in which an error of a request is reported.
pub open spec fn open_message(fault: OpenFault) -> Seq<char> {
    match fault {
        OpenFault::EmptyWslUser => "user is empty in wsl argument"@,
        OpenFault::BadDockIndex(message) => message,
        OpenFault::InvalidSshUrl(url) => "invalid ssh url: "@ + url,
        OpenFault::UnparsableUrl(message) => message,
        OpenFault::BadEncoding(message) => message,
        OpenFault::MissingHost(url) => "missing host in ssh url: "@ + url,
        OpenFault::LocalAndSshPaths => "cannot open both local and ssh paths"@,
        OpenFault::DifferentConnections => "cannot open multiple different remote connections"@,
        OpenFault::CloneWithoutQuery => "invalid git clone url: missing query string"@,
        OpenFault::CloneWithoutRepo => "invalid git clone url: missing repo query parameter"@,
        OpenFault::CommitWithoutQuery => "invalid git commit url: missing query string"@,
        OpenFault::CommitWithoutSha => "invalid git commit url: missing sha"@,
        OpenFault::CommitWithoutRepo => "invalid git commit url: missing repo query parameter"@,
        OpenFault::Unanswered => "the url needs an answer that was not given"@,
        OpenFault::Outside(message) => message,
    }
}

impl OpenError {
    /// The words in which the error is reported.
    pub fn message(&self) -> (text: String)
        ensures
            text@ == open_message(self@),
    {
        match self {
            OpenError::EmptyWslUser => "user is empty in wsl argument".to_string(),
            OpenError::BadDockIndex(message) => message.clone(),
            OpenError::InvalidSshUrl(url) => crate::error::message_with(
                "invalid ssh url: ",
                url.as_str(),
            ),
            OpenError::UnparsableUrl(message) => message.clone(),
            OpenError::BadEncoding(message) => message.clone(),
            OpenError::MissingHost(url) => crate::error::message_with(
                "missing host in ssh url: ",
                url.as_str(),
            ),
            OpenError::LocalAndSshPaths => "cannot open both local and ssh paths".to_string(),
            OpenError::DifferentConnections => {
                "cannot open multiple different remote connections".to_string()
            },
            OpenError::CloneWithoutQuery => {
                "invalid git clone url: missing query string".to_string()
            },
            OpenError::CloneWithoutRepo => {
                "invalid git clone url: missing repo query parameter".to_string()
            },
            OpenError::CommitWithoutQuery => {
                "invalid git commit url: missing query string".to_string()
            },
            OpenError::CommitWithoutSha => "invalid git commit url: missing sha".to_string(),
            OpenError::CommitWithoutRepo => {
                "invalid git commit url: missing repo query parameter".to_string()
            },
            OpenError::Unanswered => "the url needs an answer that was not given".to_string(),
            OpenError::Outside(message) => message.clone(),
        }
    }
}

/// What a URL is for.
#[derive(Debug, PartialEq, Eq)]
pub enum UrlKind {
    Cli { server_name: String },
    DockAction { index: String },
    File { path: String },
    Ssh { url: String },
    Extension { id: String },
    Skill,
    Agent { path: String },
    Focus,
    Schema { path: String },
    Settings { setting: Option<String> },
    GitClone { path: String },
    GitCommit { path: String },
    Other,
}

#[verifier::ext_equal]
pub enum UrlKindModel {
    Cli { server_name: Seq<char> },
    DockAction { index: Seq<char> },
    File { path: Seq<char> },
    Ssh { url: Seq<char> },
    Extension { id: Seq<char> },
    Skill,
    Agent { path: Seq<char> },
    Focus,
    Schema { path: Seq<char> },
    Settings { setting: Option<Seq<char>> },
    GitClone { path: Seq<char> },
    GitCommit { path: Seq<char> },
    Other,
}

impl View for UrlKind {
    type V = UrlKindModel;

    open spec fn view(&self) -> UrlKindModel {
        match *self {
            UrlKind::Cli { server_name } => UrlKindModel::Cli { server_name: server_name@ },
            UrlKind::DockAction { index } => UrlKindModel::DockAction { index: index@ },
            UrlKind::File { path } => UrlKindModel::File { path: path@ },
            UrlKind::Ssh { url } => UrlKindModel::Ssh { url: url@ },
            UrlKind::Extension { id } => UrlKindModel::Extension { id: id@ },
            UrlKind::Skill => UrlKindModel::Skill,
            UrlKind::Agent { path } => UrlKindModel::Agent { path: path@ },
            UrlKind::Focus => UrlKindModel::Focus,
            UrlKind::Schema { path } => UrlKindModel::Schema { path: path@ },
            UrlKind::Settings { setting } => UrlKindModel::Settings {
                setting: crate::text::optional_text(setting),
            },
            UrlKind::GitClone { path } => UrlKindModel::GitClone { path: path@ },
            UrlKind::GitCommit { path } => UrlKindModel::GitCommit { path: path@ },
            UrlKind::Other => UrlKindModel::Other,
        }
    }
}

/// What a URL is for, by how it starts. The start of links that carry a skill is given.
pub open spec fn classified(url: Seq<char>, skill_prefix: Seq<char>) -> UrlKindModel {
    if let Some(server_name) = crate::text::after_prefix(url, "zed-cli://"@) {
        UrlKindModel::Cli { server_name }
    } else if let Some(index) = crate::text::after_prefix(url, "zed-dock-action://"@) {
        UrlKindModel::DockAction { index }
    } else if let Some(path) = crate::text::after_prefix(url, "file://"@) {
        UrlKindModel::File { path }
    } else if let Some(path) = crate::text::after_prefix(url, "zed://file"@) {
        UrlKindModel::File { path }
    } else if let Some(rest) = crate::text::after_prefix(url, "zed://ssh"@) {
        UrlKindModel::Ssh { url: "ssh:/"@ + rest }
    } else if let Some(id) = crate::text::after_prefix(url, "zed://extension/"@) {
        UrlKindModel::Extension { id }
    } else if crate::text::has_prefix(url, skill_prefix) {
        UrlKindModel::Skill
    } else if let Some(path) = crate::text::after_prefix(url, "zed://agent"@) {
        UrlKindModel::Agent { path }
    } else if url == "zed://"@ || url == "zed://open"@ || url == "zed://open/"@ {
        UrlKindModel::Focus
    } else if let Some(path) = crate::text::after_prefix(url, "zed://schemas/"@) {
        UrlKindModel::Schema { path }
    } else if url == "zed://settings"@ || url == "zed://settings/"@ {
        UrlKindModel::Settings { setting: None }
    } else if let Some(path) = crate::text::after_prefix(url, "zed://settings/"@) {
        UrlKindModel::Settings { setting: Some(path) }
    } else if let Some(path) = crate::text::after_prefix(url, "zed://git/clone"@) {
        UrlKindModel::GitClone { path }
    } else if let Some(path) = crate::text::after_prefix(url, "zed://git/commit/"@) {
        UrlKindModel::GitCommit { path }
    } else if crate::text::has_prefix(url, "ssh://"@) {
        UrlKindModel::Ssh { url }
    } else {
        UrlKindModel::Other
    }
}

/// Tells what a URL is for.
pub fn classify_url(url: &str, skill_prefix: &str) -> (kind: UrlKind)
    ensures
        kind@ == classified(url@, skill_prefix@),
{
    if let Some(server_name) = strip_prefix(url, "zed-cli://") {
        UrlKind::Cli { server_name }
    } else if let Some(index) = strip_prefix(url, "zed-dock-action://") {
        UrlKind::DockAction { index }
    } else if let Some(path) = strip_prefix(url, "file://") {
        UrlKind::File { path }
    } else if let Some(path) = strip_prefix(url, "zed://file") {
        UrlKind::File { path }
    } else if let Some(rest) = strip_prefix(url, "zed://ssh") {
        UrlKind::Ssh { url: crate::error::message_with("ssh:/", rest.as_str()) }
    } else if let Some(id) = strip_prefix(url, "zed://extension/") {
        UrlKind::Extension { id }
    } else if starts_with(url, skill_prefix) {
        UrlKind::Skill
    } else if let Some(path) = strip_prefix(url, "zed://agent") {
        UrlKind::Agent { path }
    } else if same_text(url, "zed://") || same_text(url, "zed://open") || same_text(
        url,
        "zed://open/",
    ) {
        UrlKind::Focus
    } else if let Some(path) = strip_prefix(url, "zed://schemas/") {
        UrlKind::Schema { path }
    } else if same_text(url, "zed://settings") || same_text(url, "zed://settings/") {
        UrlKind::Settings { setting: None }
    } else if let Some(path) = strip_prefix(url, "zed://settings/") {
        UrlKind::Settings { setting: Some(path) }
    } else if let Some(path) = strip_prefix(url, "zed://git/clone") {
        UrlKind::GitClone { path }
    } else if let Some(path) = strip_prefix(url, "zed://git/commit/") {
        UrlKind::GitCommit { path }
    } else if starts_with(url, "ssh://") {
        UrlKind::Ssh { url: url.to_string() }
    } else {
        UrlKind::Other
    }
}

/// A text without one character at its start, where it is there.
pub open spec fn without_first(text: Seq<char>, first: Seq<char>) -> Seq<char> {
    match crate::text::after_prefix(text, first) {
        Some(rest) => rest,
        None => text,
    }
}

fn drop_first(text: &str, first: &str) -> (rest: String)
    ensures
        rest@ == without_first(text@, first@),
{
    match strip_prefix(text, first) {
        Some(rest) => rest,
        None => text.to_string(),
    }
}

/// The prompt in the rest of an agent URL.
pub open spec fn agent_prompt(path: Seq<char>) -> Option<Seq<char>> {
    match crate::text::after_prefix(without_first(path, "/"@), "?"@) {
        Some(query) => crate::encoding::first_value(
            crate::encoding::form_pairs(query),
            "prompt"@,
        ),
        None => None,
    }
}

fn find_agent_prompt(path: &str) -> (prompt: Option<String>)
    ensures
        crate::text::optional_text(prompt) == agent_prompt(path@),
{
    let path = drop_first(path, "/");
    match strip_prefix(path.as_str(), "?") {
        Some(query) => query_value(query.as_str(), "prompt"),
        None => None,
    }
}

/// A value that is there and not empty.
pub open spec fn nonempty(value: Option<Seq<char>>) -> Option<Seq<char>> {
    match value {
        Some(text) if text.len() > 0 => Some(text),
        _ => None,
    }
}

fn keep_nonempty(value: Option<String>) -> (result: Option<String>)
    ensures
        crate::text::optional_text(result) == nonempty(crate::text::optional_text(value)),
{
    match value {
        Some(text) => if text.as_str().unicode_len() > 0 {
            Some(text)
        } else {
            None
        },
        None => None,
    }
}

/// The repository named in form data.
pub open spec fn named_repo(pairs: Seq<(Seq<char>, Seq<char>)>) -> Option<Seq<char>> {
    nonempty(crate::encoding::first_value(pairs, "repo"@))
}

/// The repository named in form data.
pub fn repo_from_pairs(pairs: &Vec<(String, String)>) -> (repo: Option<String>)
    ensures
        crate::text::optional_text(repo) == named_repo(crate::encoding::pair_texts(pairs@)),
{
    keep_nonempty(find_value(pairs, "repo"))
}

/// The repository in the rest of a clone URL.
pub open spec fn clone_repo(path: Seq<char>) -> Result<Seq<char>, OpenFault> {
    match crate::text::after_prefix(without_first(path, "/"@), "?"@) {
        None => Err(OpenFault::CloneWithoutQuery),
        Some(query) => match named_repo(crate::encoding::form_pairs(query)) {
            None => Err(OpenFault::CloneWithoutRepo),
            Some(repo) => Ok(repo),
        },
    }
}

fn parse_git_clone_url(path: &str) -> (result: Result<String, OpenError>)
    ensures
        match clone_repo(path@) {
            Ok(repo) => result matches Ok(text) && text@ == repo,
            Err(fault) => result matches Err(error) && error@ == fault,
        },
{
    let path = drop_first(path, "/");
    match strip_prefix(path.as_str(), "?") {
        None => Err(OpenError::CloneWithoutQuery),
        Some(query) => match repo_from_pairs(&parse_form(query.as_str())) {
            None => Err(OpenError::CloneWithoutRepo),
            Some(repo) => Ok(repo),
        },
    }
}

/// The commit and the repository in the rest of a commit URL.
pub open spec fn commit_and_repo(path: Seq<char>) -> Result<(Seq<char>, Seq<char>), OpenFault> {
    match crate::text::parted_once(path, "?"@) {
        None => Err(OpenFault::CommitWithoutQuery),
        Some((sha, query)) => if sha.len() == 0 {
            Err(OpenFault::CommitWithoutSha)
        } else {
            match named_repo(crate::encoding::form_pairs(query)) {
                None => Err(OpenFault::CommitWithoutRepo),
                Some(repo) => Ok((sha, repo)),
            }
        },
    }
}

fn parse_git_commit_url(path: &str) -> (result: Result<(String, String), OpenError>)
    ensures
        match commit_and_repo(path@) {
            Ok((sha, repo)) => result matches Ok((left, right)) && left@ == sha && right@ == repo,
            Err(fault) => result matches Err(error) && error@ == fault,
        },
{
    match split_once(path, "?") {
        None => Err(OpenError::CommitWithoutQuery),
        Some((sha, query)) => {
            if sha.as_str().unicode_len() == 0 {
                return Err(OpenError::CommitWithoutSha);
            }
            match repo_from_pairs(&parse_form(query.as_str())) {
                None => Err(OpenError::CommitWithoutRepo),
                Some(repo) => Ok((sha, repo)),
            }
        },
    }
}

/// Text in its percent-encoded form, whatever form it had.
pub open spec fn reencoded(text: Seq<char>) -> Result<Seq<char>, OpenFault> {
    match crate::encoding::percent_decoded(text) {
        None => Err(OpenFault::BadEncoding(crate::encoding::decode_failure(text))),
        Some(decoded) => Ok(crate::encoding::percent_encoded(decoded)),
    }
}

fn reencode(text: &str) -> (result: Result<String, OpenError>)
    ensures
        match reencoded(text@) {
            Ok(encoded) => result matches Ok(made) && made@ == encoded,
            Err(fault) => result matches Err(error) && error@ == fault,
        },
{
    match decode_percent(text) {
        Err(message) => Err(OpenError::BadEncoding(message)),
        Ok(decoded) => Ok(encode_percent(decoded.as_str())),
    }
}

/// User and password in percent-encoded form.
pub open spec fn normalized_userinfo(userinfo: Seq<char>) -> Result<Seq<char>, OpenFault> {
    match crate::text::parted_once(userinfo, ":"@) {
        Some((username, password)) => match reencoded(username) {
            Err(fault) => Err(fault),
            Ok(username) => match reencoded(password) {
                Err(fault) => Err(fault),
                Ok(password) => Ok(username + ":"@ + password),
            },
        },
        None => reencoded(userinfo),
    }
}

fn normalize_userinfo(userinfo: &str) -> (result: Result<String, OpenError>)
    ensures
        match normalized_userinfo(userinfo@) {
            Ok(normalized) => result matches Ok(made) && made@ == normalized,
            Err(fault) => result matches Err(error) && error@ == fault,
        },
{
    match split_once(userinfo, ":") {
        Some((username, password)) => match reencode(username.as_str()) {
            Err(error) => Err(error),
            Ok(username) => match reencode(password.as_str()) {
                Err(error) => Err(error),
                Ok(password) => {
                    let mut text = username;
                    text.append(":");
                    text.append(password.as_str());
                    Ok(text)
                },
            },
        },
        None => reencode(userinfo),
    }
}

/// The machine and the path in an address whose path follows a colon. A path in the home
/// directory keeps its tilde.
pub open spec fn scp_parts(target: Seq<char>) -> Option<(Seq<char>, Seq<char>)> {
    match crate::text::parted_last(target, ":~/"@) {
        Some((authority, path)) => Some((authority, "/~/"@ + path)),
        None => match crate::text::parted_last(target, ":/"@) {
            Some((authority, path)) => Some((authority, "/"@ + path)),
            None => None,
        },
    }
}

/// Whether a machine can be named in an address whose path follows a colon.
pub open spec fn scp_host_ok(host: Seq<char>) -> bool {
    host.len() > 0 && !crate::text::has_prefix(host, "["@) && !crate::text::contains_text(
        host,
        ":"@,
    )
}

/// The URL for an address whose path follows a colon.
pub open spec fn normalized_ssh(url: Seq<char>) -> Result<Seq<char>, OpenFault> {
    match crate::text::after_prefix(url, "ssh://"@) {
        None => Err(OpenFault::InvalidSshUrl(url)),
        Some(target) => match scp_parts(target) {
            None => Err(OpenFault::InvalidSshUrl(url)),
            Some((authority, path)) => match crate::text::parted_last(authority, "@"@) {
                None => if scp_host_ok(authority) {
                    Ok("ssh://"@ + authority + path)
                } else {
                    Err(OpenFault::InvalidSshUrl(url))
                },
                Some((userinfo, host)) => if scp_host_ok(host) {
                    match normalized_userinfo(userinfo) {
                        Err(fault) => Err(fault),
                        Ok(user) => Ok("ssh://"@ + user + "@"@ + host + path),
                    }
                } else {
                    Err(OpenFault::InvalidSshUrl(url))
                },
            },
        },
    }
}

/// The parts of an SSH address, as a URL or with its path after a colon.
pub open spec fn ssh_url(url: Seq<char>) -> Result<UrlModel, OpenFault> {
    match crate::encoding::parsed_url(url) {
        Ok(parts) => Ok(parts),
        Err(_) => match normalized_ssh(url) {
            Err(fault) => Err(fault),
            Ok(text) => match crate::encoding::parsed_url(text) {
                Ok(parts) => Ok(parts),
                Err(message) => Err(OpenFault::UnparsableUrl(message)),
            },
        },
    }
}

fn scp_host_allowed(host: &str) -> (result: bool)
    ensures
        result == scp_host_ok(host@),
{
    host.unicode_len() > 0 && !starts_with(host, "[") && !contains(host, ":")
}

fn split_scp(target: &str) -> (parts: Option<(String, String)>)
    ensures
        crate::text::optional_pair(parts) == scp_parts(target@),
{
    match rsplit_once(target, ":~/") {
        Some((authority, path)) => Some(
            (authority, crate::error::message_with("/~/", path.as_str())),
        ),
        None => match rsplit_once(target, ":/") {
            Some((authority, path)) => Some(
                (authority, crate::error::message_with("/", path.as_str())),
            ),
            None => None,
        },
    }
}

/// The URL for an address whose path follows a colon, as in `ssh://user@host:~/path`.
pub fn normalize_ssh_url(url: &str) -> (result: Result<String, OpenError>)
    ensures
        match normalized_ssh(url@) {
            Ok(text) => result matches Ok(made) && made@ == text,
            Err(fault) => result matches Err(error) && error@ == fault,
        },
{
    let target = match strip_prefix(url, "ssh://") {
        Some(target) => target,
        None => {
            return Err(OpenError::InvalidSshUrl(url.to_string()));
        },
    };
    let (authority, path) = match split_scp(target.as_str()) {
        Some(parts) => parts,
        None => {
            return Err(OpenError::InvalidSshUrl(url.to_string()));
        },
    };
    match rsplit_once(authority.as_str(), "@") {
        None => {
            if !scp_host_allowed(authority.as_str()) {
                return Err(OpenError::InvalidSshUrl(url.to_string()));
            }
            let mut text = crate::error::message_with("ssh://", authority.as_str());
            text.append(path.as_str());
            Ok(text)
        },
        Some((userinfo, host)) => {
            if !scp_host_allowed(host.as_str()) {
                return Err(OpenError::InvalidSshUrl(url.to_string()));
            }
            match normalize_userinfo(userinfo.as_str()) {
                Err(error) => Err(error),
                Ok(user) => {
                    let mut text = crate::error::message_with("ssh://", user.as_str());
                    text.append("@");
                    text.append(host.as_str());
                    text.append(path.as_str());
                    Ok(text)
                },
            }
        },
    }
}

/// Reads an SSH address, as a URL or with its path after a colon.
pub fn parse_ssh_url(url: &str) -> (result: Result<ParsedUrl, OpenError>)
    ensures
        match ssh_url(url@) {
            Ok(parts) => result matches Ok(parsed) && parsed@ == parts,
            Err(fault) => result matches Err(error) && error@ == fault,
        },
{
    match parse_url(url) {
        Ok(parsed) => {
            return Ok(parsed);
        },
        Err(_) => {},
    }
    match normalize_ssh_url(url) {
        Err(error) => Err(error),
        Ok(text) => match parse_url(text.as_str()) {
            Ok(parsed) => Ok(parsed),
            Err(message) => Err(OpenError::UnparsableUrl(message)),
        },
    }
}

/// A link to a channel or to its notes.
#[derive(Debug, PartialEq, Eq)]
pub enum ZedLink {
    Channel { channel_id: u64 },
    ChannelNotes { channel_id: u64, heading: Option<String> },
}

#[verifier::ext_equal]
pub enum LinkModel {
    Channel { channel: u64 },
    ChannelNotes { channel: u64, heading: Option<Seq<char>> },
}

impl View for ZedLink {
    type V = LinkModel;

    open spec fn view(&self) -> LinkModel {
        match *self {
            ZedLink::Channel { channel_id } => LinkModel::Channel { channel: channel_id },
            ZedLink::ChannelNotes { channel_id, heading } => LinkModel::ChannelNotes {
                channel: channel_id,
                heading: crate::text::optional_text(heading),
            },
        }
    }
}

/// What has to be found out before a URL can be taken in.
#[derive(Debug, PartialEq, Eq)]
pub enum OutsideQuestion {
    Nothing,
    /// Connect to the command line that listens under a name.
    ConnectCli { server_name: String },
    /// Decode the skill in the URL.
    DecodeSkill,
    /// Make a prompt from outside fit to be shown.
    SanitizePrompt { prompt: String },
    /// Tell whether the URL is a link to a channel.
    ResolveLink,
}

#[verifier::ext_equal]
pub enum QuestionModel {
    Nothing,
    ConnectCli { server_name: Seq<char> },
    DecodeSkill,
    SanitizePrompt { prompt: Seq<char> },
    ResolveLink,
}

impl View for OutsideQuestion {
    type V = QuestionModel;

    open spec fn view(&self) -> QuestionModel {
        match *self {
            OutsideQuestion::Nothing => QuestionModel::Nothing,
            OutsideQuestion::ConnectCli { server_name } => QuestionModel::ConnectCli {
                server_name: server_name@,
            },
            OutsideQuestion::DecodeSkill => QuestionModel::DecodeSkill,
            OutsideQuestion::SanitizePrompt { prompt } => QuestionModel::SanitizePrompt {
                prompt: prompt@,
            },
            OutsideQuestion::ResolveLink => QuestionModel::ResolveLink,
        }
    }
}

/// What was found out about a URL.
#[derive(Debug)]
pub enum OutsideAnswer {
    Nothing,
    Connected { connection: u64 },
    Skill { content: String },
    Prompt { prompt: Option<String> },
    Link { link: Option<ZedLink> },
    Failed { message: String },
}

#[verifier::ext_equal]
pub enum AnswerModel {
    Nothing,
    Connected { connection: u64 },
    Skill { content: Seq<char> },
    Prompt { prompt: Option<Seq<char>> },
    Link { link: Option<LinkModel> },
    Failed { message: Seq<char> },
}

impl View for OutsideAnswer {
    type V = AnswerModel;

    open spec fn view(&self) -> AnswerModel {
        match *self {
            OutsideAnswer::Nothing => AnswerModel::Nothing,
            OutsideAnswer::Connected { connection } => AnswerModel::Connected { connection },
            OutsideAnswer::Skill { content } => AnswerModel::Skill { content: content@ },
            OutsideAnswer::Prompt { prompt } => AnswerModel::Prompt {
                prompt: crate::text::optional_text(prompt),
            },
            OutsideAnswer::Link { link } => AnswerModel::Link {
                link: match link {
                    Some(link) => Some(link@),
                    None => None,
                },
            },
            OutsideAnswer::Failed { message } => AnswerModel::Failed { message: message@ },
        }
    }
}

/// The question that a kind of URL raises.
pub open spec fn question(kind: UrlKindModel) -> QuestionModel {
    match kind {
        UrlKindModel::Cli { server_name } => QuestionModel::ConnectCli { server_name },
        UrlKindModel::Skill => QuestionModel::DecodeSkill,
        UrlKindModel::Agent { path } => match agent_prompt(path) {
            Some(prompt) => QuestionModel::SanitizePrompt { prompt },
            None => QuestionModel::Nothing,
        },
        UrlKindModel::Other => QuestionModel::ResolveLink,
        _ => QuestionModel::Nothing,
    }
}

/// Tells what has to be found out before a URL can be taken in.
pub fn question_for(kind: &UrlKind) -> (asked: OutsideQuestion)
    ensures
        asked@ == question(kind@),
{
    match kind {
        UrlKind::Cli { server_name } => OutsideQuestion::ConnectCli {
            server_name: server_name.clone(),
        },
        UrlKind::Skill => OutsideQuestion::DecodeSkill,
        UrlKind::Agent { path } => match find_agent_prompt(path.as_str()) {
            Some(prompt) => OutsideQuestion::SanitizePrompt { prompt },
            None => OutsideQuestion::Nothing,
        },
        UrlKind::Other => OutsideQuestion::ResolveLink,
        _ => OutsideQuestion::Nothing,
    }
}

/// The request with another path to open, where its percent-encoding can be undone.
pub open spec fn with_file(request: OpenModel, path: Seq<char>) -> OpenModel {
    match crate::encoding::percent_decoded(path) {
        Some(decoded) => OpenModel { open_paths: request.open_paths.push(decoded), ..request },
        None => request,
    }
}

/// The request with another kind.
pub open spec fn with_kind(request: OpenModel, kind: KindModel) -> OpenModel {
    OpenModel { kind: Some(kind), ..request }
}

/// The user in an SSH address, if there is one.
pub open spec fn ssh_username(url: UrlModel) -> Result<Option<Seq<char>>, OpenFault> {
    if url.username.len() == 0 {
        Ok(None)
    } else {
        match crate::encoding::percent_decoded(url.username) {
            Some(username) => Ok(Some(username)),
            None => Err(OpenFault::BadEncoding(crate::encoding::decode_failure(url.username))),
        }
    }
}

/// The connection that an SSH address leads to, with what the settings say of it.
pub open spec fn ssh_options(
    url: UrlModel,
    host: (Seq<char>, bool),
    username: Option<Seq<char>>,
    settings: Seq<SettingModel>,
) -> Result<SshModel, OpenFault> {
    let options = crate::remote_connections::filled(
        crate::remote_connections::bare_options(host, url.port, username),
        settings,
    );
    match url.password {
        None => Ok(options),
        Some(password) => match crate::encoding::percent_decoded(password) {
            None => Err(OpenFault::BadEncoding(crate::encoding::decode_failure(password))),
            Some(decoded) => Ok(SshModel { password: Some(decoded), ..options }),
        },
    }
}

/// The request with the place that an SSH address leads to. All such places must be on one
/// machine, and none may be mixed with paths on this one.
pub open spec fn with_ssh(request: OpenModel, url: UrlModel, settings: Seq<SettingModel>) -> Result<
    OpenModel,
    OpenFault,
> {
    match url.host {
        None => Err(OpenFault::MissingHost(url.text)),
        Some(host) => match ssh_username(url) {
            Err(fault) => Err(fault),
            Ok(username) => if request.open_paths.len() > 0 {
                Err(OpenFault::LocalAndSshPaths)
            } else {
                match ssh_options(url, host, username, settings) {
                    Err(fault) => Err(fault),
                    Ok(options) => {
                        let connection = RemoteModel::Ssh(options);
                        if request.remote_connection is Some && request.remote_connection != Some(
                            connection,
                        ) {
                            Err(OpenFault::DifferentConnections)
                        } else {
                            Ok(
                                with_file(
                                    OpenModel { remote_connection: Some(connection), ..request },
                                    url.path,
                                ),
                            )
                        }
                    },
                }
            },
        },
    }
}

/// The request with a URL taken in, given what was found out about it.
pub open spec fn with_url(
    request: OpenModel,
    kind: UrlKindModel,
    answer: AnswerModel,
    settings: Seq<SettingModel>,
) -> Result<OpenModel, OpenFault> {
    match kind {
        UrlKindModel::Cli { server_name: _ } => match answer {
            AnswerModel::Connected { connection } => Ok(
                with_kind(request, KindModel::CliConnection { connection }),
            ),
            AnswerModel::Failed { message } => Err(OpenFault::Outside(message)),
            _ => Err(OpenFault::Unanswered),
        },
        UrlKindModel::DockAction { index } => match crate::text::parsed_number(index) {
            Some(number) => Ok(
                with_kind(request, KindModel::DockMenuAction { index: number as usize }),
            ),
            None => Err(
                OpenFault::BadDockIndex(crate::text::number_failure(index, usize::BITS as nat)),
            ),
        },
        UrlKindModel::File { path } => Ok(with_file(request, path)),
        UrlKindModel::Ssh { url } => match ssh_url(url) {
            Err(fault) => Err(fault),
            Ok(parts) => with_ssh(request, parts, settings),
        },
        UrlKindModel::Extension { id } => Ok(with_kind(request, KindModel::Extension { id })),
        UrlKindModel::Skill => match answer {
            AnswerModel::Skill { content } => Ok(
                with_kind(request, KindModel::InstallSkill { content }),
            ),
            AnswerModel::Failed { message } => Err(OpenFault::Outside(message)),
            _ => Err(OpenFault::Unanswered),
        },
        UrlKindModel::Agent { path } => match agent_prompt(path) {
            None => Ok(with_kind(request, KindModel::AgentPanel { prompt: None })),
            Some(_) => match answer {
                AnswerModel::Prompt { prompt } => Ok(
                    with_kind(request, KindModel::AgentPanel { prompt }),
                ),
                _ => Err(OpenFault::Unanswered),
            },
        },
        UrlKindModel::Focus => Ok(with_kind(request, KindModel::FocusApp)),
        UrlKindModel::Schema { path } => Ok(
            with_kind(request, KindModel::BuiltinJsonSchema { path }),
        ),
        UrlKindModel::Settings { setting } => Ok(with_kind(request, KindModel::Setting { setting })),
        UrlKindModel::GitClone { path } => match clone_repo(path) {
            Err(fault) => Err(fault),
            Ok(repo_url) => Ok(with_kind(request, KindModel::GitClone { repo_url })),
        },
        UrlKindModel::GitCommit { path } => match commit_and_repo(path) {
            Err(fault) => Err(fault),
            Ok((sha, repo)) => Ok(
                with_kind(
                    OpenModel { open_paths: request.open_paths.push(repo), ..request },
                    KindModel::GitCommit { sha },
                ),
            ),
        },
        UrlKindModel::Other => match answer {
            AnswerModel::Link { link: Some(LinkModel::Channel { channel }) } => Ok(
                OpenModel { join_channel: Some(channel), ..request },
            ),
            AnswerModel::Link { link: Some(LinkModel::ChannelNotes { channel, heading }) } => Ok(
                OpenModel {
                    open_channel_notes: request.open_channel_notes.push((channel, heading)),
                    ..request
                },
            ),
            AnswerModel::Link { link: None } => Ok(request),
            _ => Err(OpenFault::Unanswered),
        },
    }
}

/// The request before any URL is taken in.
pub open spec fn begun(
    diff_paths: Seq<(Seq<char>, Seq<char>)>,
    diff_all: bool,
    dev_container: bool,
    wsl: Option<Seq<char>>,
    open_behavior: Option<OpenBehavior>,
) -> Result<OpenModel, OpenFault> {
    let plain = OpenModel {
        kind: None,
        open_paths: Seq::empty(),
        diff_paths,
        diff_all,
        dev_container,
        open_channel_notes: Seq::empty(),
        join_channel: None,
        remote_connection: None,
        open_behavior,
    };
    match wsl {
        None => Ok(plain),
        Some(argument) => match crate::text::parted_once(argument, "@"@) {
            None => Ok(
                OpenModel {
                    remote_connection: Some(
                        RemoteModel::Wsl(WslModel { distro_name: argument, user: None }),
                    ),
                    ..plain
                },
            ),
            Some((user, distro)) => if user.len() == 0 {
                Err(OpenFault::EmptyWslUser)
            } else {
                Ok(
                    OpenModel {
                        remote_connection: Some(
                            RemoteModel::Wsl(WslModel { distro_name: distro, user: Some(user) }),
                        ),
                        ..plain
                    },
                )
            },
        },
    }
}

impl OpenRequest {
    /// Whether the request only asks for the application to come to the front.
    pub fn is_focus_app_only(&self) -> (result: bool)
        ensures
            result == (self@.kind == Some(KindModel::FocusApp) && self@.open_paths.len() == 0
                && self@.diff_paths.len() == 0 && self@.remote_connection is None
                && self@.join_channel is None && self@.open_channel_notes.len() == 0),
    {
        let focus = match &self.kind {
            Some(OpenRequestKind::FocusApp) => true,
            _ => false,
        };
        focus && self.open_paths.len() == 0 && self.diff_paths.len() == 0
            && self.remote_connection.is_none() && self.join_channel.is_none()
            && self.open_channel_notes.len() == 0
    }

    /// Begins a request with all of it but its URLs.
    pub fn begin(
        diff_paths: Vec<(String, String)>,
        diff_all: bool,
        dev_container: bool,
        wsl: Option<String>,
        open_behavior: Option<OpenBehavior>,
    ) -> (result: Result<Self, OpenError>)
        ensures
            match begun(
                crate::encoding::pair_texts(diff_paths@),
                diff_all,
                dev_container,
                crate::text::optional_text(wsl),
                open_behavior,
            ) {
                Ok(model) => result matches Ok(request) && request@ == model,
                Err(fault) => result matches Err(error) && error@ == fault,
            },
    {
        let remote_connection = match wsl {
            None => None,
            Some(argument) => match split_once(argument.as_str(), "@") {
                None => Some(
                    RemoteConnectionOptions::Wsl(
                        WslConnectionOptions { distro_name: argument, user: None },
                    ),
                ),
                Some((user, distro)) => {
                    if user.as_str().unicode_len() == 0 {
                        return Err(OpenError::EmptyWslUser);
                    }
                    Some(
                        RemoteConnectionOptions::Wsl(
                            WslConnectionOptions { distro_name: distro, user: Some(user) },
                        ),
                    )
                },
            },
        };
        let request = OpenRequest {
            kind: None,
            open_paths: Vec::new(),
            diff_paths,
            diff_all,
            dev_container,
            open_channel_notes: Vec::new(),
            join_channel: None,
            remote_connection,
            open_behavior,
        };
        assert(request@.open_paths =~= Seq::<Seq<char>>::empty());
        assert(request@.open_channel_notes =~= Seq::<(u64, Option<Seq<char>>)>::empty());
        Ok(request)
    }

    /// Adds a path to open, where its percent-encoding can be undone.
    fn parse_file_path(&mut self, file: &str)
        ensures
            final(self)@ == with_file(old(self)@, file@),
    {
        match decode_percent(file) {
            Ok(decoded) => {
                self.add_path(decoded);
            },
            Err(_) => {},
        }
    }

    fn add_path(&mut self, path: String)
        ensures
            final(self)@ == (OpenModel {
                open_paths: old(self)@.open_paths.push(path@),
                ..old(self)@
            }),
    {
        let ghost before = self@.open_paths;
        let ghost text = path@;
        self.open_paths.push(path);
        assert(self@.open_paths =~= before.push(text));
    }

    /// Takes in the place that an SSH address leads to, given the parts of the address.
    pub fn open_ssh(&mut self, url: &ParsedUrl, settings: &RemoteSettings) -> (result: Result<
        (),
        OpenError,
    >)
        ensures
            match with_ssh(
                old(self)@,
                url@,
                crate::remote_connections::setting_models(settings.ssh_connections@),
            ) {
                Ok(model) => result is Ok && final(self)@ == model,
                Err(fault) => result matches Err(error) && error@ == fault,
            },
    {
        let host = match &url.host {
            None => {
                return Err(OpenError::MissingHost(url.text.clone()));
            },
            Some(host) => if host.is_ipv6 {
                SshConnectionHost::Bracketed(host.text.clone())
            } else {
                SshConnectionHost::Plain(host.text.clone())
            },
        };
        let username = if url.username.as_str().unicode_len() == 0 {
            None
        } else {
            match decode_percent(url.username.as_str()) {
                Ok(username) => Some(username),
                Err(message) => {
                    return Err(OpenError::BadEncoding(message));
                },
            }
        };
        if self.open_paths.len() > 0 {
            return Err(OpenError::LocalAndSshPaths);
        }
        let mut options = settings.connection_options_for(host, url.port, username);
        match &url.password {
            None => {},
            Some(password) => match decode_percent(password.as_str()) {
                Err(message) => {
                    return Err(OpenError::BadEncoding(message));
                },
                Ok(decoded) => {
                    options.password = Some(decoded);
                },
            },
        }
        let connection = RemoteConnectionOptions::Ssh(options);
        match &self.remote_connection {
            None => {},
            Some(known) => if !known.is_same(&connection) {
                return Err(OpenError::DifferentConnections);
            },
        }
        self.remote_connection = Some(connection);
        self.parse_file_path(url.path.as_str());
        Ok(())
    }

    /// Takes in a URL, given what was found out about it.
    pub fn take_url(
        &mut self,
        kind: UrlKind,
        answer: OutsideAnswer,
        settings: &RemoteSettings,
    ) -> (result: Result<(), OpenError>)
        ensures
            match with_url(
                old(self)@,
                kind@,
                answer@,
                crate::remote_connections::setting_models(settings.ssh_connections@),
            ) {
                Ok(model) => result is Ok && final(self)@ == model,
                Err(fault) => result matches Err(error) && error@ == fault,
            },
    {
        match kind {
            UrlKind::Cli { server_name: _ } => match answer {
                OutsideAnswer::Connected { connection } => {
                    self.kind = Some(OpenRequestKind::CliConnection { connection });
                    Ok(())
                },
                OutsideAnswer::Failed { message } => Err(OpenError::Outside(message)),
                _ => Err(OpenError::Unanswered),
            },
            UrlKind::DockAction { index } => match parse_number(index.as_str()) {
                Some(index) => {
                    self.kind = Some(OpenRequestKind::DockMenuAction { index });
                    Ok(())
                },
                None => Err(OpenError::BadDockIndex(describe_number_failure(index.as_str()))),
            },
            UrlKind::File { path } => {
                self.parse_file_path(path.as_str());
                Ok(())
            },
            UrlKind::Ssh { url } => match parse_ssh_url(url.as_str()) {
                Err(error) => Err(error),
                Ok(parsed) => self.open_ssh(&parsed, settings),
            },
            UrlKind::Extension { id } => {
                self.kind = Some(OpenRequestKind::Extension { extension_id: id });
                Ok(())
            },
            UrlKind::Skill => match answer {
                OutsideAnswer::Skill { content } => {
                    self.kind = Some(OpenRequestKind::InstallSkill { content });
                    Ok(())
                },
                OutsideAnswer::Failed { message } => Err(OpenError::Outside(message)),
                _ => Err(OpenError::Unanswered),
            },
            UrlKind::Agent { path } => match find_agent_prompt(path.as_str()) {
                None => {
                    self.kind = Some(OpenRequestKind::AgentPanel { external_source_prompt: None });
                    Ok(())
                },
                Some(_) => match answer {
                    OutsideAnswer::Prompt { prompt } => {
                        self.kind = Some(
                            OpenRequestKind::AgentPanel { external_source_prompt: prompt },
                        );
                        Ok(())
                    },
                    _ => Err(OpenError::Unanswered),
                },
            },
            UrlKind::Focus => {
                self.kind = Some(OpenRequestKind::FocusApp);
                Ok(())
            },
            UrlKind::Schema { path } => {
                self.kind = Some(OpenRequestKind::BuiltinJsonSchema { schema_path: path });
                Ok(())
            },
            UrlKind::Settings { setting } => {
                self.kind = Some(OpenRequestKind::Setting { setting_path: setting });
                Ok(())
            },
            UrlKind::GitClone { path } => match parse_git_clone_url(path.as_str()) {
                Err(error) => Err(error),
                Ok(repo_url) => {
                    self.kind = Some(OpenRequestKind::GitClone { repo_url });
                    Ok(())
                },
            },
            UrlKind::GitCommit { path } => match parse_git_commit_url(path.as_str()) {
                Err(error) => Err(error),
                Ok((sha, repo)) => {
                    self.add_path(repo);
                    self.kind = Some(OpenRequestKind::GitCommit { sha });
                    Ok(())
                },
            },
            UrlKind::Other => match answer {
                OutsideAnswer::Link { link } => {
                    match link {
                        Some(ZedLink::Channel { channel_id }) => {
                            self.join_channel = Some(channel_id);
                        },
                        Some(ZedLink::ChannelNotes { channel_id, heading }) => {
                            let ghost before = self@.open_channel_notes;
                            let ghost note = (channel_id, crate::text::optional_text(heading));
                            self.open_channel_notes.push((channel_id, heading));
                            assert(self@.open_channel_notes =~= before.push(note));
                        },
                        None => {},
                    }
                    Ok(())
                },
                _ => Err(OpenError::Unanswered),
            },
        }
    }
}

/// The answers that a sequence of outside answers stands for.
pub open spec fn answer_models(answers: Seq<OutsideAnswer>) -> Seq<AnswerModel> {
    Seq::new(answers.len(), |i: int| answers[i]@)
}

/// The request with the first of its URLs taken in, one after another.
pub open spec fn with_urls(
    request: OpenModel,
    urls: Seq<Seq<char>>,
    answers: Seq<AnswerModel>,
    settings: Seq<SettingModel>,
    skill_prefix: Seq<char>,
    count: int,
) -> Result<OpenModel, OpenFault>
    decreases count,
{
    if count <= 0 {
        Ok(request)
    } else {
        match with_urls(request, urls, answers, settings, skill_prefix, count - 1) {
            Err(fault) => Err(fault),
            Ok(earlier) => with_url(
                earlier,
                classified(urls[count - 1], skill_prefix),
                answers[count - 1],
                settings,
            ),
        }
    }
}

proof fn lemma_with_urls_fails(
    request: OpenModel,
    urls: Seq<Seq<char>>,
    answers: Seq<AnswerModel>,
    settings: Seq<SettingModel>,
    skill_prefix: Seq<char>,
    count: int,
    total: int,
)
    requires
        0 <= count <= total,
        with_urls(request, urls, answers, settings, skill_prefix, count) is Err,
    ensures
        with_urls(request, urls, answers, settings, skill_prefix, total) == with_urls(
            request,
            urls,
            answers,
            settings,
            skill_prefix,
            count,
        ),
    decreases total - count,
{
    if count < total {
        lemma_with_urls_fails(
            request,
            urls,
            answers,
            settings,
            skill_prefix,
            count,
            total - 1,
        );
    }
}

impl OpenRequest {
    /// Understands a whole request, given what was found out about each of its URLs. Where one
    /// URL is refused, the request is.
    pub fn parse(
        request: RawOpenRequest,
        answers: Vec<OutsideAnswer>,
        settings: &RemoteSettings,
        skill_prefix: &str,
    ) -> (result: Result<Self, OpenError>)
        requires
            answers@.len() == request.urls@.len(),
        ensures
            match begun(
                crate::encoding::pair_texts(request.diff_paths@),
                request.diff_all,
                request.dev_container,
                crate::text::optional_text(request.wsl),
                request.open_behavior,
            ) {
                Err(fault) => result matches Err(error) && error@ == fault,
                Ok(start) => match with_urls(
                    start,
                    crate::text::texts(request.urls@),
                    answer_models(answers@),
                    crate::remote_connections::setting_models(settings.ssh_connections@),
                    skill_prefix@,
                    request.urls@.len() as int,
                ) {
                    Err(fault) => result matches Err(error) && error@ == fault,
                    Ok(model) => result matches Ok(open) && open@ == model,
                },
            },
    {
        let ghost urls = crate::text::texts(request.urls@);
        let ghost all_answers = answer_models(answers@);
        let ghost known = crate::remote_connections::setting_models(settings.ssh_connections@);
        let list = request.urls;
        let mut open = match OpenRequest::begin(
            request.diff_paths,
            request.diff_all,
            request.dev_container,
            request.wsl,
            request.open_behavior,
        ) {
            Ok(open) => open,
            Err(error) => {
                return Err(error);
            },
        };
        let ghost start = open@;
        let mut rest = answers;
        let mut i: usize = 0;
        assert(rest@ =~= answers@.skip(0));
        while i < list.len()
            invariant
                i <= list@.len() == answers@.len(),
                list == request.urls,
                urls == crate::text::texts(list@),
                all_answers == answer_models(answers@),
                known == crate::remote_connections::setting_models(settings.ssh_connections@),
                rest@ == answers@.skip(i as int),
                begun(
                    crate::encoding::pair_texts(request.diff_paths@),
                    request.diff_all,
                    request.dev_container,
                    crate::text::optional_text(request.wsl),
                    request.open_behavior,
                ) == Ok::<OpenModel, OpenFault>(start),
                with_urls(start, urls, all_answers, known, skill_prefix@, i as int) == Ok::<
                    OpenModel,
                    OpenFault,
                >(open@),
            decreases list@.len() - i,
        {
            let answer = rest.remove(0);
            proof {
                assert(answer == answers@[i as int]);
                assert(all_answers[i as int] == answer@);
                assert(urls[i as int] == list@[i as int]@);
                assert(rest@ =~= answers@.skip(i + 1));
            }
            let kind = classify_url(list[i].as_str(), skill_prefix);
            match open.take_url(kind, answer, settings) {
                Ok(()) => {},
                Err(error) => {
                    proof {
                        lemma_with_urls_fails(
                            start,
                            urls,
                            all_answers,
                            known,
                            skill_prefix@,
                            i + 1,
                            list@.len() as int,
                        );
                    }
                    return Err(error);
                },
            }
            i += 1;
        }
        Ok(open)
    }
}

} // verus!
