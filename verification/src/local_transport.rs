//! The connection to the host on this machine: the server is this very executable.

use crate::connection::{LocalConnectionOptions, RemoteConnectionOptions};
use crate::path::PathStyle;
use vstd::prelude::*;

verus! {

/// The variable that tells the executable to be the server.
pub const EMBEDDED_REMOTE_SERVER_ENV: &'static str = "SUPERZED_EMBEDDED_REMOTE_SERVER";

/// The variable that tells the server where its data is.
pub const EMBEDDED_REMOTE_SERVER_DATA_DIR_ENV: &'static str = "SUPERZED_EMBEDDED_REMOTE_SERVER_DATA_DIR";

/// What the client is asked while it connects to the host on this machine. There is nothing to
/// download: the server is the current executable.
#[derive(Clone, Copy, Debug)]
pub struct LocalRemoteClientDelegate;

/// Why nothing is downloaded for the host on this machine.
pub open spec fn no_download_message() -> Seq<char> {
    "the local Super Zed host uses the current executable"@
}

impl LocalRemoteClientDelegate {
    /// Refuses to say where the server is downloaded from.
    pub fn get_download_url(&self) -> (result: Result<Option<String>, String>)
        ensures
            result matches Err(message) && message@ == no_download_message(),
    {
        Err("the local Super Zed host uses the current executable".to_string())
    }

    /// Refuses to download the server.
    pub fn download_server_binary_locally(&self) -> (result: Result<String, String>)
        ensures
            result matches Err(message) && message@ == no_download_message(),
    {
        Err("the local Super Zed host uses the current executable".to_string())
    }
}

/// The command that runs the server: arguments and environment.
#[derive(Debug)]
pub struct ProxyCommand {
    pub args: Vec<String>,
    pub env: Vec<(String, String)>,
}

/// The command that runs the server under an identifier.
pub fn proxy_command(identifier: &str, reconnect: bool, data_dir: Option<String>) -> (command:
    ProxyCommand)
    ensures
        crate::text::texts(command.args@) == if reconnect {
            seq!["proxy"@, "--identifier"@, identifier@, "--reconnect"@]
        } else {
            seq!["proxy"@, "--identifier"@, identifier@]
        },
        crate::encoding::pair_texts(command.env@) == match data_dir {
            Some(directory) => seq![
                (EMBEDDED_REMOTE_SERVER_ENV@, "1"@),
                (EMBEDDED_REMOTE_SERVER_DATA_DIR_ENV@, directory@),
            ],
            None => seq![(EMBEDDED_REMOTE_SERVER_ENV@, "1"@)],
        },
{
    let mut env: Vec<(String, String)> = Vec::new();
    env.push((EMBEDDED_REMOTE_SERVER_ENV.to_string(), "1".to_string()));
    let mut args: Vec<String> = Vec::new();
    args.push("proxy".to_string());
    args.push("--identifier".to_string());
    args.push(identifier.to_string());
    assert(crate::text::texts(args@) =~= seq!["proxy"@, "--identifier"@, identifier@]);
    assert(crate::encoding::pair_texts(env@) =~= seq![
        (EMBEDDED_REMOTE_SERVER_ENV@, "1"@),
    ]);
    match data_dir {
        Some(directory) => {
            let ghost text = directory@;
            env.push((EMBEDDED_REMOTE_SERVER_DATA_DIR_ENV.to_string(), directory));
            assert(crate::encoding::pair_texts(env@) =~= seq![
                (EMBEDDED_REMOTE_SERVER_ENV@, "1"@),
                (EMBEDDED_REMOTE_SERVER_DATA_DIR_ENV@, text),
            ]);
        },
        None => {},
    }
    if reconnect {
        args.push("--reconnect".to_string());
        assert(crate::text::texts(args@) =~= seq![
            "proxy"@,
            "--identifier"@,
            identifier@,
            "--reconnect"@,
        ]);
    }
    ProxyCommand { args, env }
}

/// The system of a machine.
#[derive(Clone, Copy, Debug, PartialEq, Eq, Structural)]
pub enum RemoteOs {
    Linux,
    MacOs,
    Windows,
}

/// The processor of a machine.
#[derive(Clone, Copy, Debug, PartialEq, Eq, Structural)]
pub enum RemoteArch {
    X86_64,
    Aarch64,
}

/// The system and the processor of a machine.
#[derive(Clone, Copy, Debug, PartialEq, Eq, Structural)]
pub struct RemotePlatform {
    pub os: RemoteOs,
    pub arch: RemoteArch,
}

/// What is known of the machine that this was built for.
#[derive(Clone, Copy, Debug)]
pub struct BuildTarget {
    pub windows: bool,
    pub macos: bool,
    pub aarch64: bool,
}

/// A command of a shell, each part as the shell quotes it, or nothing where it cannot be quoted.
#[derive(Debug)]
pub struct QuotedCommand {
    pub working_dir: Option<Option<String>>,
    /// The quoted assignments of variables.
    pub assignments: Vec<Option<String>>,
    /// The quoted program, where one is given; the shell itself is run otherwise.
    pub program: Option<Option<String>>,
    pub args: Vec<Option<String>>,
    pub shell: Option<String>,
}

/// Why a command cannot be built.
#[derive(Clone, Copy, Debug, PartialEq, Eq, Structural)]
pub enum CommandError {
    SharesNetwork,
    WorkingDirectory,
    Environment,
    Program,
    Argument,
    Shell,
}

/// The words in which such an error is reported.
pub open spec fn command_message(error: CommandError) -> Seq<char> {
    match error {
        CommandError::SharesNetwork => "the local host already shares Super Zed's network interface"@,
        CommandError::WorkingDirectory => "cannot quote local working directory"@,
        CommandError::Environment => "cannot quote local environment variable"@,
        CommandError::Program => "cannot quote local command"@,
        CommandError::Argument => "cannot quote local command argument"@,
        CommandError::Shell => "cannot quote local shell"@,
    }
}

impl CommandError {
    /// The words in which the error is reported.
    pub fn message(&self) -> (text: String)
        ensures
            text@ == command_message(*self),
    {
        match self {
            CommandError::SharesNetwork => {
                "the local host already shares Super Zed's network interface".to_string()
            },
            CommandError::WorkingDirectory => "cannot quote local working directory".to_string(),
            CommandError::Environment => "cannot quote local environment variable".to_string(),
            CommandError::Program => "cannot quote local command".to_string(),
            CommandError::Argument => "cannot quote local command argument".to_string(),
            CommandError::Shell => "cannot quote local shell".to_string(),
        }
    }
}

/// A program to run, with its arguments. The environment is part of the arguments.
#[derive(Debug)]
pub struct CommandTemplate {
    pub program: String,
    pub args: Vec<String>,
}

/// The assignment of a variable, before it is quoted.
pub fn assignment(key: &str, value: &str) -> (text: String)
    ensures
        text@ == key@ + "="@ + value@,
{
    let mut text = crate::error::message_with(key, "=");
    text.append(value);
    text
}

/// Quoted parts, each after a space, or nothing where one of them could not be quoted.
pub open spec fn spaced(parts: Seq<Option<String>>) -> Option<Seq<char>>
    decreases parts.len(),
{
    if parts.len() == 0 {
        Some(Seq::<char>::empty())
    } else {
        match (spaced(parts.drop_last()), parts.last()) {
            (Some(text), Some(part)) => Some(text + " "@ + part@),
            _ => None,
        }
    }
}

proof fn lemma_spaced_none(parts: Seq<Option<String>>, count: int)
    requires
        0 <= count <= parts.len(),
        spaced(parts.take(count)) is None,
    ensures
        spaced(parts) is None,
    decreases parts.len() - count,
{
    if count == parts.len() {
        assert(parts.take(count) =~= parts);
    } else {
        assert(parts.take(count + 1).drop_last() =~= parts.take(count));
        lemma_spaced_none(parts, count + 1);
    }
}

fn space_out(parts: &Vec<Option<String>>) -> (text: Option<String>)
    ensures
        crate::text::optional_text(text) == spaced(parts@),
{
    let mut text = String::new();
    let mut i: usize = 0;
    assert(parts@.take(0) =~= Seq::<Option<String>>::empty());
    assert(text@ =~= Seq::<char>::empty());
    while i < parts.len()
        invariant
            i <= parts@.len(),
            spaced(parts@.take(i as int)) == Some(text@),
        decreases parts@.len() - i,
    {
        assert(parts@.take(i + 1).drop_last() =~= parts@.take(i as int));
        assert(parts@.take(i + 1).last() == parts@[i as int]);
        match &parts[i] {
            Some(part) => {
                text.append(" ");
                text.append(part.as_str());
            },
            None => {
                proof {
                    lemma_spaced_none(parts@, i + 1);
                }
                return None;
            },
        }
        i += 1;
    }
    assert(parts@.take(i as int) =~= parts@);
    Some(text)
}

/// The command line of a shell: into the working directory, then the program with its variables
/// and arguments, or a login shell where no program is given.
pub open spec fn shell_command(quoted: QuotedCommand, port_forward: bool) -> Result<
    Seq<char>,
    CommandError,
> {
    if port_forward {
        Err(CommandError::SharesNetwork)
    } else if quoted.working_dir == Some(None::<String>) {
        Err(CommandError::WorkingDirectory)
    } else {
        let front = match quoted.working_dir {
            Some(Some(directory)) => "cd "@ + directory@ + " && "@,
            _ => Seq::<char>::empty(),
        };
        match spaced(quoted.assignments@) {
            None => Err(CommandError::Environment),
            Some(variables) => match quoted.program {
                Some(None) => Err(CommandError::Program),
                Some(Some(program)) => match spaced(quoted.args@) {
                    None => Err(CommandError::Argument),
                    Some(args) => Ok(
                        front + "exec env"@ + variables + " "@ + program@ + args,
                    ),
                },
                None => match quoted.shell {
                    None => Err(CommandError::Shell),
                    Some(shell) => Ok(
                        front + "exec env"@ + variables + " "@ + shell@ + " -l"@,
                    ),
                },
            },
        }
    }
}

/// The connection to the host on this machine.
#[derive(Debug)]
pub struct LocalRemoteConnection {
    pub killed: bool,
    pub shell: String,
    pub default_system_shell: String,
}

impl LocalRemoteConnection {
    /// A connection that uses the given shells.
    pub fn new(shell: String, default_system_shell: String) -> (connection: Self)
        ensures
            !connection.killed,
            connection.shell == shell,
            connection.default_system_shell == default_system_shell,
    {
        LocalRemoteConnection { killed: false, shell, default_system_shell }
    }

    /// Marks the connection as ended.
    pub fn kill(&mut self)
        ensures
            final(self).killed,
            final(self).shell == old(self).shell,
            final(self).default_system_shell == old(self).default_system_shell,
    {
        self.killed = true;
    }

    /// Whether the connection was ended.
    pub fn has_been_killed(&self) -> (result: bool)
        ensures
            result == self.killed,
    {
        self.killed
    }

    /// The host is on this machine, so it has the same network.
    pub fn shares_network_interface(&self) -> (result: bool)
        ensures
            result,
    {
        true
    }

    /// Builds a command that runs in the host's shell.
    pub fn build_command(&self, quoted: &QuotedCommand, port_forward: bool, windows: bool) -> (result:
        Result<CommandTemplate, CommandError>)
        ensures
            match shell_command(*quoted, port_forward) {
                Err(error) => result matches Err(found) && found == error,
                Ok(line) => result matches Ok(template) && template.program@
                    == self.default_system_shell@ && crate::text::texts(template.args@) == seq![
                    if windows {
                        "/C"@
                    } else {
                        "-c"@
                    },
                    line,
                ],
            },
    {
        if port_forward {
            return Err(CommandError::SharesNetwork);
        }
        let mut line = String::new();
        match &quoted.working_dir {
            Some(Some(directory)) => {
                line.append("cd ");
                line.append(directory.as_str());
                line.append(" && ");
            },
            Some(None) => {
                return Err(CommandError::WorkingDirectory);
            },
            None => {},
        }
        let ghost front = line@;
        proof {
            if let Some(Some(directory)) = &quoted.working_dir {
                assert(front =~= "cd "@ + directory@ + " && "@);
            } else {
                assert(front =~= Seq::<char>::empty());
            }
        }
        line.append("exec env");
        let variables = match space_out(&quoted.assignments) {
            Some(variables) => variables,
            None => {
                return Err(CommandError::Environment);
            },
        };
        line.append(variables.as_str());
        match &quoted.program {
            Some(Some(program)) => {
                line.append(" ");
                line.append(program.as_str());
                match space_out(&quoted.args) {
                    Some(args) => {
                        line.append(args.as_str());
                    },
                    None => {
                        return Err(CommandError::Argument);
                    },
                }
            },
            Some(None) => {
                return Err(CommandError::Program);
            },
            None => match &quoted.shell {
                Some(shell) => {
                    line.append(" ");
                    line.append(shell.as_str());
                    line.append(" -l");
                },
                None => {
                    return Err(CommandError::Shell);
                },
            },
        }
        let ghost text = line@;
        let mut args: Vec<String> = Vec::new();
        args.push(
            if windows {
                "/C".to_string()
            } else {
                "-c".to_string()
            },
        );
        args.push(line);
        assert(crate::text::texts(args@) =~= seq![
            if windows {
                "/C"@
            } else {
                "-c"@
            },
            text,
        ]);
        Ok(CommandTemplate { program: self.default_system_shell.clone(), args })
    }

    /// Refuses to forward ports: the host has the same network.
    pub fn build_forward_ports_command(&self) -> (error: CommandError)
        ensures
            error == CommandError::SharesNetwork,
    {
        CommandError::SharesNetwork
    }

    /// The options that lead to this host.
    pub fn connection_options(&self) -> (options: RemoteConnectionOptions)
        ensures
            options is Local,
    {
        RemoteConnectionOptions::Local(LocalConnectionOptions)
    }

    /// How paths are written here.
    pub fn path_style(&self, target: BuildTarget) -> (style: PathStyle)
        ensures
            style == if target.windows {
                PathStyle::Windows
            } else {
                PathStyle::Posix
            },
    {
        if target.windows {
            PathStyle::Windows
        } else {
            PathStyle::Posix
        }
    }

    /// The system and the processor here.
    pub fn remote_platform(&self, target: BuildTarget) -> (platform: RemotePlatform)
        ensures
            platform.os == if target.windows {
                RemoteOs::Windows
            } else if target.macos {
                RemoteOs::MacOs
            } else {
                RemoteOs::Linux
            },
            platform.arch == if target.aarch64 {
                RemoteArch::Aarch64
            } else {
                RemoteArch::X86_64
            },
    {
        RemotePlatform {
            os: if target.windows {
                RemoteOs::Windows
            } else if target.macos {
                RemoteOs::MacOs
            } else {
                RemoteOs::Linux
            },
            arch: if target.aarch64 {
                RemoteArch::Aarch64
            } else {
                RemoteArch::X86_64
            },
        }
    }

    /// The version of the system is not told.
    pub fn remote_os_version(&self) -> (version: Option<String>)
        ensures
            version is None,
    {
        None
    }

    /// The user's shell.
    pub fn shell(&self) -> (shell: String)
        ensures
            shell@ == self.shell@,
    {
        self.shell.clone()
    }

    /// The shell that commands are run by.
    pub fn default_system_shell(&self) -> (shell: String)
        ensures
            shell@ == self.default_system_shell@,
    {
        self.default_system_shell.clone()
    }

    /// Nothing here goes through the Windows subsystem for Linux.
    pub fn has_wsl_interop(&self) -> (result: bool)
        ensures
            !result,
    {
        false
    }
}

} // verus!
