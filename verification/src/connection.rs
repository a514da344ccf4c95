//! How a host is reached.

use crate::text::{clone_optional, clone_texts, decimal_text, same_optional_text, same_texts};
use vstd::prelude::*;

verus! {

/// Options for the host on this machine: there are none.
#[derive(Clone, Copy, Debug, Default, PartialEq, Eq, Hash)]
pub struct LocalConnectionOptions;

/// The name or address of a machine.
#[derive(Debug, PartialEq, Eq)]
pub enum SshConnectionHost {
    /// A host name, or an address that is written without brackets.
    Plain(String),
    /// An address that is written in brackets where a port may follow it.
    Bracketed(String),
}

/// A port that a connection forwards.
#[derive(Debug, PartialEq, Eq)]
pub struct PortForward {
    pub local_host: Option<String>,
    pub local_port: u16,
    pub remote_host: Option<String>,
    pub remote_port: u16,
}

/// Options for a host that is reached over SSH.
#[derive(Debug, PartialEq, Eq)]
pub struct SshConnectionOptions {
    pub host: SshConnectionHost,
    pub username: Option<String>,
    pub port: Option<u16>,
    pub password: Option<String>,
    pub args: Option<Vec<String>>,
    pub port_forwards: Option<Vec<PortForward>>,
    pub connection_timeout: Option<u16>,
    pub nickname: Option<String>,
    pub upload_binary_over_ssh: bool,
}

/// Options for a distribution of the Windows subsystem for Linux.
#[derive(Debug, PartialEq, Eq)]
pub struct WslConnectionOptions {
    pub distro_name: String,
    pub user: Option<String>,
}

/// Options for a development container.
#[derive(Debug, PartialEq, Eq)]
pub struct DockerConnectionOptions {
    pub name: String,
    pub container_id: String,
    pub remote_user: String,
    pub upload_binary_over_docker_exec: bool,
    pub use_podman: bool,
    pub remote_env: Vec<(String, String)>,
}

/// Options for a stand-in host.
#[derive(Clone, Copy, Debug, PartialEq, Eq)]
pub struct MockConnectionOptions {
    pub id: u64,
}

/// Options for a host of any kind.
#[derive(Debug, PartialEq, Eq)]
pub enum RemoteConnectionOptions {
    Local(LocalConnectionOptions),
    Ssh(SshConnectionOptions),
    Wsl(WslConnectionOptions),
    Docker(DockerConnectionOptions),
    Mock(MockConnectionOptions),
}

#[verifier::ext_equal]
pub struct ForwardModel {
    pub local_host: Option<Seq<char>>,
    pub local_port: u16,
    pub remote_host: Option<Seq<char>>,
    pub remote_port: u16,
}

#[verifier::ext_equal]
pub struct SshModel {
    pub host: (Seq<char>, bool),
    pub username: Option<Seq<char>>,
    pub port: Option<u16>,
    pub password: Option<Seq<char>>,
    pub args: Option<Seq<Seq<char>>>,
    pub port_forwards: Option<Seq<ForwardModel>>,
    pub connection_timeout: Option<u16>,
    pub nickname: Option<Seq<char>>,
    pub upload_binary_over_ssh: bool,
}

#[verifier::ext_equal]
pub struct WslModel {
    pub distro_name: Seq<char>,
    pub user: Option<Seq<char>>,
}

#[verifier::ext_equal]
pub struct DockerModel {
    pub name: Seq<char>,
    pub container_id: Seq<char>,
    pub remote_user: Seq<char>,
    pub upload_binary_over_docker_exec: bool,
    pub use_podman: bool,
    pub remote_env: Seq<(Seq<char>, Seq<char>)>,
}

#[verifier::ext_equal]
pub enum RemoteModel {
    Local,
    Ssh(SshModel),
    Wsl(WslModel),
    Docker(DockerModel),
    Mock(u64),
}

impl View for SshConnectionHost {
    type V = (Seq<char>, bool);

    open spec fn view(&self) -> (Seq<char>, bool) {
        match *self {
            SshConnectionHost::Plain(text) => (text@, false),
            SshConnectionHost::Bracketed(text) => (text@, true),
        }
    }
}

impl View for PortForward {
    type V = ForwardModel;

    open spec fn view(&self) -> ForwardModel {
        ForwardModel {
            local_host: crate::text::optional_text(self.local_host),
            local_port: self.local_port,
            remote_host: crate::text::optional_text(self.remote_host),
            remote_port: self.remote_port,
        }
    }
}

/// The forwards that a sequence of port forwards stands for.
pub open spec fn forward_models(forwards: Seq<PortForward>) -> Seq<ForwardModel> {
    Seq::new(forwards.len(), |i: int| forwards[i]@)
}

/// The forwards that an optional list of port forwards stands for.
pub open spec fn optional_forwards(forwards: Option<Vec<PortForward>>) -> Option<
    Seq<ForwardModel>,
> {
    match forwards {
        Some(forwards) => Some(forward_models(forwards@)),
        None => None,
    }
}

/// The texts held by an optional list of strings.
pub open spec fn optional_texts(strings: Option<Vec<String>>) -> Option<Seq<Seq<char>>> {
    match strings {
        Some(strings) => Some(crate::text::texts(strings@)),
        None => None,
    }
}

impl View for SshConnectionOptions {
    type V = SshModel;

    open spec fn view(&self) -> SshModel {
        SshModel {
            host: self.host@,
            username: crate::text::optional_text(self.username),
            port: self.port,
            password: crate::text::optional_text(self.password),
            args: optional_texts(self.args),
            port_forwards: optional_forwards(self.port_forwards),
            connection_timeout: self.connection_timeout,
            nickname: crate::text::optional_text(self.nickname),
            upload_binary_over_ssh: self.upload_binary_over_ssh,
        }
    }
}

impl View for WslConnectionOptions {
    type V = WslModel;

    open spec fn view(&self) -> WslModel {
        WslModel {
            distro_name: self.distro_name@,
            user: crate::text::optional_text(self.user),
        }
    }
}

impl View for DockerConnectionOptions {
    type V = DockerModel;

    open spec fn view(&self) -> DockerModel {
        DockerModel {
            name: self.name@,
            container_id: self.container_id@,
            remote_user: self.remote_user@,
            upload_binary_over_docker_exec: self.upload_binary_over_docker_exec,
            use_podman: self.use_podman,
            remote_env: crate::encoding::pair_texts(self.remote_env@),
        }
    }
}

impl View for RemoteConnectionOptions {
    type V = RemoteModel;

    open spec fn view(&self) -> RemoteModel {
        match *self {
            RemoteConnectionOptions::Local(_) => RemoteModel::Local,
            RemoteConnectionOptions::Ssh(options) => RemoteModel::Ssh(options@),
            RemoteConnectionOptions::Wsl(options) => RemoteModel::Wsl(options@),
            RemoteConnectionOptions::Docker(options) => RemoteModel::Docker(options@),
            RemoteConnectionOptions::Mock(options) => RemoteModel::Mock(options.id),
        }
    }
}

impl Clone for PortForward {
    fn clone(&self) -> (copy: Self)
        ensures
            copy@ == self@,
    {
        PortForward {
            local_host: crate::text::clone_optional(&self.local_host),
            local_port: self.local_port,
            remote_host: crate::text::clone_optional(&self.remote_host),
            remote_port: self.remote_port,
        }
    }
}

impl PortForward {
    fn is_same(&self, other: &Self) -> (result: bool)
        ensures
            result == (self@ == other@),
    {
        same_optional_text(&self.local_host, &other.local_host) && self.local_port
            == other.local_port && same_optional_text(&self.remote_host, &other.remote_host)
            && self.remote_port == other.remote_port
    }
}

impl Clone for SshConnectionHost {
    fn clone(&self) -> (copy: Self)
        ensures
            copy == *self,
    {
        match self {
            SshConnectionHost::Plain(host) => SshConnectionHost::Plain(host.clone()),
            SshConnectionHost::Bracketed(host) => SshConnectionHost::Bracketed(host.clone()),
        }
    }
}

impl Clone for SshConnectionOptions {
    fn clone(&self) -> (copy: Self)
        ensures
            copy@ == self@,
    {
        SshConnectionOptions {
            host: self.host.clone(),
            username: clone_optional(&self.username),
            port: self.port,
            password: clone_optional(&self.password),
            args: match &self.args {
                Some(args) => Some(clone_texts(args)),
                None => None,
            },
            port_forwards: match &self.port_forwards {
                Some(forwards) => Some(clone_forwards(forwards)),
                None => None,
            },
            connection_timeout: self.connection_timeout,
            nickname: clone_optional(&self.nickname),
            upload_binary_over_ssh: self.upload_binary_over_ssh,
        }
    }
}

impl Clone for WslConnectionOptions {
    fn clone(&self) -> (copy: Self)
        ensures
            copy@ == self@,
    {
        WslConnectionOptions {
            distro_name: self.distro_name.clone(),
            user: clone_optional(&self.user),
        }
    }
}

fn clone_pairs(pairs: &Vec<(String, String)>) -> (copy: Vec<(String, String)>)
    ensures
        crate::encoding::pair_texts(copy@) == crate::encoding::pair_texts(pairs@),
{
    let mut copy: Vec<(String, String)> = Vec::new();
    let mut i: usize = 0;
    while i < pairs.len()
        invariant
            i <= pairs@.len(),
            copy@.len() == i,
            forall|j: int|
                0 <= j < i ==> (#[trigger] copy@[j]).0@ == pairs@[j].0@ && copy@[j].1@
                    == pairs@[j].1@,
        decreases pairs@.len() - i,
    {
        copy.push((pairs[i].0.clone(), pairs[i].1.clone()));
        i += 1;
    }
    assert(crate::encoding::pair_texts(copy@) =~= crate::encoding::pair_texts(pairs@));
    copy
}

impl Clone for DockerConnectionOptions {
    fn clone(&self) -> (copy: Self)
        ensures
            copy@ == self@,
    {
        DockerConnectionOptions {
            name: self.name.clone(),
            container_id: self.container_id.clone(),
            remote_user: self.remote_user.clone(),
            upload_binary_over_docker_exec: self.upload_binary_over_docker_exec,
            use_podman: self.use_podman,
            remote_env: clone_pairs(&self.remote_env),
        }
    }
}

impl Clone for RemoteConnectionOptions {
    fn clone(&self) -> (copy: Self)
        ensures
            copy@ == self@,
    {
        match self {
            RemoteConnectionOptions::Local(options) => RemoteConnectionOptions::Local(*options),
            RemoteConnectionOptions::Ssh(options) => RemoteConnectionOptions::Ssh(options.clone()),
            RemoteConnectionOptions::Wsl(options) => RemoteConnectionOptions::Wsl(options.clone()),
            RemoteConnectionOptions::Docker(options) => {
                RemoteConnectionOptions::Docker(options.clone())
            },
            RemoteConnectionOptions::Mock(options) => RemoteConnectionOptions::Mock(*options),
        }
    }
}

/// A copy of a list of port forwards.
pub(crate) fn clone_forwards(forwards: &Vec<PortForward>) -> (copy: Vec<PortForward>)
    ensures
        forward_models(copy@) == forward_models(forwards@),
{
    let mut copy: Vec<PortForward> = Vec::new();
    let mut i: usize = 0;
    while i < forwards.len()
        invariant
            i <= forwards@.len(),
            copy@.len() == i,
            forall|k: int| 0 <= k < i ==> (#[trigger] copy@[k])@ == forwards@[k]@,
        decreases forwards@.len() - i,
    {
        copy.push(forwards[i].clone());
        i += 1;
    }
    assert(forward_models(copy@) =~= forward_models(forwards@));
    copy
}

fn same_forwards(left: &Vec<PortForward>, right: &Vec<PortForward>) -> (result: bool)
    ensures
        result == (forward_models(left@) == forward_models(right@)),
{
    let ghost a = forward_models(left@);
    let ghost b = forward_models(right@);
    if left.len() != right.len() {
        assert(a.len() != b.len());
        return false;
    }
    let mut i: usize = 0;
    while i < left.len()
        invariant
            i <= left.len() == right.len(),
            a == forward_models(left@),
            b == forward_models(right@),
            forall|j: int| 0 <= j < i ==> a[j] == b[j],
        decreases left.len() - i,
    {
        if !left[i].is_same(&right[i]) {
            assert(a[i as int] != b[i as int]);
            return false;
        }
        assert(a[i as int] == b[i as int]);
        i += 1;
    }
    assert(a =~= b);
    true
}

fn same_pairs(left: &Vec<(String, String)>, right: &Vec<(String, String)>) -> (result: bool)
    ensures
        result == (crate::encoding::pair_texts(left@) == crate::encoding::pair_texts(right@)),
{
    let ghost a = crate::encoding::pair_texts(left@);
    let ghost b = crate::encoding::pair_texts(right@);
    if left.len() != right.len() {
        assert(a.len() != b.len());
        return false;
    }
    let mut i: usize = 0;
    while i < left.len()
        invariant
            i <= left.len() == right.len(),
            a == crate::encoding::pair_texts(left@),
            b == crate::encoding::pair_texts(right@),
            forall|j: int| 0 <= j < i ==> a[j] == b[j],
        decreases left.len() - i,
    {
        if left[i].0 != right[i].0 || left[i].1 != right[i].1 {
            assert(a[i as int] != b[i as int]);
            return false;
        }
        assert(a[i as int] == b[i as int]);
        i += 1;
    }
    assert(a =~= b);
    true
}

impl SshConnectionHost {
    /// Whether two hosts are the same.
    pub fn is_same(&self, other: &Self) -> (result: bool)
        ensures
            result == (self@ == other@),
    {
        match (self, other) {
            (SshConnectionHost::Plain(left), SshConnectionHost::Plain(right)) => *left == *right,
            (SshConnectionHost::Bracketed(left), SshConnectionHost::Bracketed(right)) => {
                *left == *right
            },
            _ => false,
        }
    }
}

fn same_port(left: Option<u16>, right: Option<u16>) -> (result: bool)
    ensures
        result == (left == right),
{
    match (left, right) {
        (None, None) => true,
        (Some(left), Some(right)) => left == right,
        _ => false,
    }
}

impl SshConnectionOptions {
    /// Whether two options are the same in every part.
    pub fn is_same(&self, other: &Self) -> (result: bool)
        ensures
            result == (self@ == other@),
    {
        let same_args = match (&self.args, &other.args) {
            (None, None) => true,
            (Some(left), Some(right)) => same_texts(left, right),
            _ => false,
        };
        let same_port_forwards = match (&self.port_forwards, &other.port_forwards) {
            (None, None) => true,
            (Some(left), Some(right)) => same_forwards(left, right),
            _ => false,
        };
        self.host.is_same(&other.host) && same_optional_text(&self.username, &other.username)
            && same_port(self.port, other.port) && same_optional_text(
            &self.password,
            &other.password,
        ) && same_args && same_port_forwards && same_port(
            self.connection_timeout,
            other.connection_timeout,
        ) && same_optional_text(&self.nickname, &other.nickname) && self.upload_binary_over_ssh
            == other.upload_binary_over_ssh
    }
}

impl RemoteConnectionOptions {
    /// Whether two options are the same in every part.
    pub fn is_same(&self, other: &Self) -> (result: bool)
        ensures
            result == (self@ == other@),
    {
        match (self, other) {
            (RemoteConnectionOptions::Local(_), RemoteConnectionOptions::Local(_)) => true,
            (RemoteConnectionOptions::Ssh(left), RemoteConnectionOptions::Ssh(right)) => {
                left.is_same(right)
            },
            (RemoteConnectionOptions::Wsl(left), RemoteConnectionOptions::Wsl(right)) => {
                left.distro_name == right.distro_name && same_optional_text(&left.user, &right.user)
            },
            (RemoteConnectionOptions::Docker(left), RemoteConnectionOptions::Docker(right)) => {
                left.name == right.name && left.container_id == right.container_id
                    && left.remote_user == right.remote_user && left.upload_binary_over_docker_exec
                    == right.upload_binary_over_docker_exec && left.use_podman == right.use_podman
                    && same_pairs(&left.remote_env, &right.remote_env)
            },
            (RemoteConnectionOptions::Mock(left), RemoteConnectionOptions::Mock(right)) => {
                left.id == right.id
            },
            _ => false,
        }
    }
}

/// The identity of a host.
#[derive(Debug)]
pub enum HostId {
    Local,
    Ssh(String),
}

#[verifier::ext_equal]
pub enum HostModel {
    Local,
    Ssh(Seq<char>),
}

impl View for HostId {
    type V = HostModel;

    open spec fn view(&self) -> HostModel {
        match *self {
            HostId::Local => HostModel::Local,
            HostId::Ssh(address) => HostModel::Ssh(address@),
        }
    }
}

impl Clone for HostId {
    fn clone(&self) -> (copy: Self)
        ensures
            copy == *self,
    {
        match self {
            HostId::Local => HostId::Local,
            HostId::Ssh(address) => HostId::Ssh(address.clone()),
        }
    }
}

impl PartialEq for HostId {
    fn eq(&self, other: &Self) -> (result: bool) {
        match (self, other) {
            (HostId::Local, HostId::Local) => true,
            (HostId::Ssh(left), HostId::Ssh(right)) => *left == *right,
            _ => false,
        }
    }
}

impl vstd::std_specs::cmp::PartialEqSpecImpl for HostId {
    open spec fn obeys_eq_spec() -> bool {
        true
    }

    open spec fn eq_spec(&self, other: &Self) -> bool {
        self@ == other@
    }
}

impl Eq for HostId {

}

/// How a machine is written where a port may follow it.
pub open spec fn bracketed(host: SshConnectionHost) -> Seq<char> {
    match host {
        SshConnectionHost::Plain(text) => text@,
        SshConnectionHost::Bracketed(text) => "["@ + text@ + "]"@,
    }
}

/// How a machine is written on its own.
pub open spec fn plain(host: SshConnectionHost) -> Seq<char> {
    match host {
        SshConnectionHost::Plain(text) => text@,
        SshConnectionHost::Bracketed(text) => text@,
    }
}

/// The identity of the host that options lead to, where a session can live there.
pub open spec fn host_for(options: RemoteConnectionOptions) -> Option<HostModel> {
    match options {
        RemoteConnectionOptions::Local(_) => Some(HostModel::Local),
        RemoteConnectionOptions::Ssh(ssh) => Some(
            HostModel::Ssh(
                "ssh://"@ + (match ssh.username {
                    Some(username) => username@ + "@"@,
                    None => Seq::<char>::empty(),
                }) + bracketed(ssh.host) + (match ssh.port {
                    Some(port) => ":"@ + crate::text::decimal(port as nat),
                    None => Seq::<char>::empty(),
                }),
            ),
        ),
        RemoteConnectionOptions::Mock(mock) => Some(
            HostModel::Ssh("mock://"@ + crate::text::decimal(mock.id as nat)),
        ),
        RemoteConnectionOptions::Wsl(_) => None,
        RemoteConnectionOptions::Docker(_) => None,
    }
}

impl SshConnectionHost {
    /// The text of the machine on its own.
    pub fn text(&self) -> (text: &String)
        ensures
            text@ == plain(*self),
    {
        match self {
            SshConnectionHost::Plain(text) => text,
            SshConnectionHost::Bracketed(text) => text,
        }
    }

    /// The text of the machine where a port may follow it.
    pub fn to_bracketed_string(&self) -> (text: String)
        ensures
            text@ == bracketed(*self),
    {
        match self {
            SshConnectionHost::Plain(text) => text.clone(),
            SshConnectionHost::Bracketed(text) => {
                let mut address = "[".to_string();
                address.append(text.as_str());
                address.append("]");
                address
            },
        }
    }
}

/// The identity of the host that options lead to.
pub fn host_id_for_connection(options: &RemoteConnectionOptions) -> (result: Option<HostId>)
    ensures
        match result {
            Some(host) => host_for(*options) == Some(host@),
            None => host_for(*options) is None,
        },
{
    match options {
        RemoteConnectionOptions::Local(_) => Some(HostId::Local),
        RemoteConnectionOptions::Ssh(ssh) => {
            let mut address = "ssh://".to_string();
            match &ssh.username {
                Some(username) => {
                    address.append(username.as_str());
                    address.append("@");
                },
                None => {},
            }
            address.append(ssh.host.to_bracketed_string().as_str());
            match ssh.port {
                Some(port) => {
                    address.append(":");
                    address.append(decimal_text(port as u64).as_str());
                },
                None => {},
            }
            proof {
                assert(HostModel::Ssh(address@) =~= host_for(*options)->0);
            }
            Some(HostId::Ssh(address))
        },
        RemoteConnectionOptions::Mock(mock) => {
            let mut address = "mock://".to_string();
            address.append(decimal_text(mock.id).as_str());
            Some(HostId::Ssh(address))
        },
        RemoteConnectionOptions::Wsl(_) => None,
        RemoteConnectionOptions::Docker(_) => None,
    }
}

} // verus!
