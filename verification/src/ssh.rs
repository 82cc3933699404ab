//! The ssh commands that reach a remote host, the configuration they use, and the
//! bridge between a local socket and the host.
use crate::args::RemoteKeybindings;
use crate::report::CommandOutput;
use crate::report::ErrorKind;
use crate::report::Failure;
use crate::report::RemoteError;
use crate::report::other_error;
use crate::report;
use crate::shell::sanitize_path_component;
use crate::shell::ssh_config_quote;
use crate::shell;
use crate::text::decimal_text;
use crate::text;
use vstd::prelude::*;
use vstd::string::*;

verus! {

/// The name of the socket over which ssh commands share a connection.
pub const SSH_CONTROL_SOCKET_NAME: &'static str = "ctl";

/// The variable that tells a client how to attach again.
pub const REATTACH_COMMAND_ENV_VAR: &'static str = "HERDR_REATTACH_COMMAND";

/// The variable that tells a client whose key bindings to use.
pub const REMOTE_KEYBINDINGS_ENV_VAR: &'static str = "HERDR_REMOTE_KEYBINDINGS";

/// The permissions of the local socket of a bridge.
pub const BRIDGE_SOCKET_PERMISSION_MODE: u32 = 0o600;

/// Where the configuration and the shared connection of ssh commands are, by paths of
/// the caller's type.
#[derive(Debug, Clone)]
pub struct ManagedSshOptions<P> {
    pub config_path: P,
    pub control_path: P,
}

/// An argument of an ssh command: a word, or a path of the caller's type.
#[derive(Debug, Clone, PartialEq, Eq)]
pub enum SshArg<P> {
    Word(String),
    Path(P),
}

/// An argument as its text or its path.
pub enum SshArgModel<P> {
    Word(Seq<char>),
    Path(P),
}

impl<P> DeepView for SshArg<P> {
    type V = SshArgModel<P>;

    open spec fn deep_view(&self) -> SshArgModel<P> {
        match self {
            SshArg::Word(word) => SshArgModel::Word(word@),
            SshArg::Path(path) => SshArgModel::Path(*path),
        }
    }
}

/// The arguments that make an ssh command use its own configuration and a shared
/// connection. Without those, a command has none.
pub open spec fn managed_args<P>(options: Option<ManagedSshOptions<P>>) -> Seq<SshArgModel<P>> {
    match options {
        Some(options) => seq![
            SshArgModel::Word("-F"@),
            SshArgModel::Path(options.config_path),
            SshArgModel::Word("-S"@),
            SshArgModel::Path(options.control_path),
            SshArgModel::Word("-o"@),
            SshArgModel::Word("ControlMaster=auto"@),
            SshArgModel::Word("-o"@),
            SshArgModel::Word("ControlPersist=yes"@),
        ],
        None => Seq::empty(),
    }
}

/// The words as arguments.
pub open spec fn word_args<P>(words: Seq<Seq<char>>) -> Seq<SshArgModel<P>> {
    words.map_values(|word: Seq<char>| SshArgModel::<P>::Word(word))
}

/// The arguments that make an ssh command use its own configuration and a shared
/// connection.
pub fn apply_managed_ssh_options<P>(options: Option<ManagedSshOptions<P>>) -> (res: Vec<SshArg<P>>)
    ensures
        res.deep_view() == managed_args(options),
{
    let mut ssh_args: Vec<SshArg<P>> = Vec::new();
    let ghost managed = managed_args(options);
    if let Some(options) = options {
        ssh_args.push(SshArg::Word("-F".to_string()));
        ssh_args.push(SshArg::Path(options.config_path));
        ssh_args.push(SshArg::Word("-S".to_string()));
        ssh_args.push(SshArg::Path(options.control_path));
        ssh_args.push(SshArg::Word("-o".to_string()));
        ssh_args.push(SshArg::Word("ControlMaster=auto".to_string()));
        ssh_args.push(SshArg::Word("-o".to_string()));
        ssh_args.push(SshArg::Word("ControlPersist=yes".to_string()));
    }
    assert(ssh_args.deep_view() =~= managed);
    ssh_args
}

fn push_word<P>(ssh_args: &mut Vec<SshArg<P>>, word: &str)
    ensures
        final(ssh_args).deep_view() == old(ssh_args).deep_view().push(SshArgModel::Word(word@)),
{
    let ghost before = ssh_args.deep_view();
    ssh_args.push(SshArg::Word(word.to_string()));
    assert(ssh_args.deep_view() =~= before.push(SshArgModel::Word(word@)));
}

/// The arguments of an ssh command to `target`, which a remote command may follow.
pub open spec fn command_args<P>(
    options: Option<ManagedSshOptions<P>>,
    target: Seq<char>,
    remote_command: Option<Seq<char>>,
) -> Seq<SshArgModel<P>> {
    managed_args(options) + word_args(
        match remote_command {
            Some(command) => seq!["-T"@, target, command],
            None => seq!["-T"@, target],
        },
    )
}

/// The arguments of an ssh command to `target`, which a remote command may follow.
pub fn ssh_command_args<P>(
    options: Option<ManagedSshOptions<P>>,
    target: &str,
    remote_command: Option<&str>,
) -> (res: Vec<SshArg<P>>)
    ensures
        res.deep_view() == command_args(options, target@, remote_command.deep_view()),
{
    let ghost all = command_args(options, target@, remote_command.deep_view());
    let mut ssh_args = apply_managed_ssh_options(options);
    push_word(&mut ssh_args, "-T");
    push_word(&mut ssh_args, target);
    if let Some(command) = remote_command {
        push_word(&mut ssh_args, command);
    }
    assert(ssh_args.deep_view() =~= all);
    ssh_args
}

/// The remote command that reads a script from its standard input.
pub const SHELL_COMMAND: &'static str = "/bin/sh -s";

/// How a script was sent to the shell that reads it.
#[derive(Debug, Clone, Copy, PartialEq, Eq, Structural)]
pub enum ScriptSent {
    /// All of it was sent.
    All,
    /// The command has no standard input.
    NoInput,
    /// Sending failed.
    Failed,
}

/// What a script comes to: the output of the shell that read it, where it was sent and
/// the output could be had.
pub fn sh_output(sent: ScriptSent, output: Option<CommandOutput>) -> (res: Result<
    CommandOutput,
    Failure,
>)
    ensures
        match (output, sent) {
            (None, _) => res == Err::<CommandOutput, Failure>(Failure::Cause),
            (Some(_), ScriptSent::Failed) => res == Err::<CommandOutput, Failure>(Failure::Cause),
            (Some(_), ScriptSent::NoInput) => res is Err && res->Err_0.deep_view()
                == report::FailureModel::Own(
                report::ErrorModel {
                    kind: ErrorKind::BrokenPipe,
                    message: "ssh bootstrap stdin missing"@,
                },
            ),
            (Some(output), ScriptSent::All) => res == Ok::<CommandOutput, Failure>(output),
        },
{
    let output = match output {
        Some(output) => output,
        None => return Err(Failure::Cause),
    };
    match sent {
        ScriptSent::All => Ok(output),
        ScriptSent::Failed => Err(Failure::Cause),
        ScriptSent::NoInput => Err(
            Failure::Own(
                RemoteError {
                    kind: ErrorKind::BrokenPipe,
                    message: "ssh bootstrap stdin missing".to_string(),
                },
            ),
        ),
    }
}

/// The arguments of the ssh command that ends a shared connection.
pub open spec fn exit_args<P>(options: ManagedSshOptions<P>, target: Seq<char>) -> Seq<
    SshArgModel<P>,
> {
    managed_args(Some(options)) + word_args(
        seq!["-O"@, "exit"@, "-o"@, "BatchMode=yes"@, target],
    )
}

/// The arguments of the ssh command that ends a shared connection, where there is one.
pub fn ssh_exit_args<P>(options: Option<ManagedSshOptions<P>>, target: &str) -> (res: Option<
    Vec<SshArg<P>>,
>)
    ensures
        match options {
            Some(options) => res is Some && res->Some_0.deep_view() == exit_args(options, target@),
            None => res is None,
        },
{
    if options.is_none() {
        return None;
    }
    let ghost all = exit_args(options->Some_0, target@);
    let mut ssh_args = apply_managed_ssh_options(options);
    push_word(&mut ssh_args, "-O");
    push_word(&mut ssh_args, "exit");
    push_word(&mut ssh_args, "-o");
    push_word(&mut ssh_args, "BatchMode=yes");
    push_word(&mut ssh_args, target);
    assert(ssh_args.deep_view() =~= all);
    Some(ssh_args)
}

/// The settings that hold where the user has none: a connection that answers nothing
/// for a minute is given up.
pub const KEEPALIVE_FALLBACK: &'static str = "Host *\n  ServerAliveInterval 15\n  ServerAliveCountMax 4\n";

/// The line that takes over the configuration in a file, where there is one.
pub open spec fn include_line(path: Option<Seq<char>>) -> Seq<char> {
    match path {
        Some(path) => "Include "@ + (seq!['"'] + path + seq!['"']) + "\n"@,
        None => Seq::empty(),
    }
}

/// The configuration of ssh commands: the user's own comes first and the system's
/// next, for ssh takes the first value that it finds, and the fallback last.
pub open spec fn managed_config(
    user_config: Option<Seq<char>>,
    system_config: Option<Seq<char>>,
) -> Seq<char> {
    include_line(user_config) + include_line(system_config) + KEEPALIVE_FALLBACK@
}

fn push_include(contents: &mut String, path: Option<&str>)
    ensures
        final(contents)@ == old(contents)@ + include_line(path.deep_view()),
{
    let ghost before = contents@;
    if let Some(path) = path {
        let quoted = ssh_config_quote(path);
        contents.append("Include ");
        contents.append(quoted.as_str());
        contents.append("\n");
        assert(contents@ =~= before + ("Include "@ + quoted@ + "\n"@));
    } else {
        assert(before + Seq::<char>::empty() =~= before);
    }
}

/// The configuration of ssh commands, which takes over the user's and the system's
/// where they exist.
pub fn managed_ssh_config(user_config: Option<&str>, system_config: Option<&str>) -> (res: String)
    ensures
        res@ == managed_config(user_config.deep_view(), system_config.deep_view()),
{
    let mut contents = String::new();
    push_include(&mut contents, user_config);
    assert(contents@ =~= include_line(user_config.deep_view()));
    push_include(&mut contents, system_config);
    contents.append(KEEPALIVE_FALLBACK);
    contents
}

/// The user's own configuration, where there is one, is taken over before anything
/// else, and the fallback stands behind everything else.
pub proof fn law_user_config_precedes_fallback(
    user_config: Option<Seq<char>>,
    system_config: Option<Seq<char>>,
)
    ensures
        text::begins_with(managed_config(user_config, system_config), include_line(user_config)),
        text::ends_in(managed_config(user_config, system_config), KEEPALIVE_FALLBACK@),
        managed_config(user_config, system_config).len() == include_line(user_config).len()
            + include_line(system_config).len() + KEEPALIVE_FALLBACK@.len(),
{
    let all = managed_config(user_config, system_config);
    let user = include_line(user_config);
    let fallback = KEEPALIVE_FALLBACK@;
    assert(all.take(user.len() as int) =~= user);
    assert(all.skip(all.len() - fallback.len()) =~= fallback);
}

/// Where a user's home directory is, by values of the caller's type.
#[derive(Debug, Clone, PartialEq, Eq)]
pub enum UserHome<T> {
    /// The user's profile.
    Profile(T),
    /// A drive and a path on it.
    Drive(T, T),
}

/// Where the user's home directory is: the profile, and without one the drive and the
/// path on it, which count only together.
pub fn windows_user_home<T>(profile: Option<T>, drive: Option<T>, home_path: Option<T>) -> (res:
    Option<UserHome<T>>)
    ensures
        res == (match (profile, drive, home_path) {
            (Some(profile), _, _) => Some(UserHome::Profile(profile)),
            (None, Some(drive), Some(home_path)) => Some(UserHome::Drive(drive, home_path)),
            _ => None,
        }),
{
    if let Some(profile) = profile {
        return Some(UserHome::Profile(profile));
    }
    match (drive, home_path) {
        (Some(drive), Some(home_path)) => Some(UserHome::Drive(drive, home_path)),
        _ => None,
    }
}

/// The directory of the system's configuration where the system does not name it.
pub const DEFAULT_PROGRAM_DATA: &'static str = "C:\\ProgramData";

/// The name of the directory of a configuration.
pub open spec fn config_dir(pid: u32, attempt: u64) -> Seq<char> {
    "herdr-ssh-"@ + text::decimal(pid as nat) + "-"@ + text::decimal(attempt as nat)
}

/// The name of the directory of a configuration: `attempt` counts those of a process.
pub fn private_ssh_config_dir(pid: u32, attempt: u64) -> (res: String)
    ensures
        res@ == config_dir(pid, attempt),
{
    let mut name = "herdr-ssh-".to_string();
    name.append(decimal_text(pid as u64).as_str());
    name.append("-");
    name.append(decimal_text(attempt).as_str());
    name
}

/// The configurations of a process have directories of different names.
pub proof fn law_config_dirs_differ(pid: u32, a: u64, b: u64)
    requires
        a != b,
    ensures
        config_dir(pid, a) != config_dir(pid, b),
{
    let front = "herdr-ssh-"@ + text::decimal(pid as nat) + "-"@;
    let one = text::decimal(a as nat);
    let other = text::decimal(b as nat);
    if front + one == front + other {
        assert((front + one).skip(front.len() as int) =~= one);
        assert((front + other).skip(front.len() as int) =~= other);
        text::lemma_decimal_injective(a as nat, b as nat);
    }
}

/// The count by which a process tells the directories of its configurations apart.
#[derive(Debug)]
pub struct ConfigDirCounter {
    /// How many were drawn.
    pub drawn: u64,
}

impl ConfigDirCounter {
    /// The name of the next directory.
    pub fn draw(&mut self, pid: u32) -> (res: String)
        ensures
            res@ == config_dir(pid, old(self).drawn),
            final(self).drawn == old(self).drawn.wrapping_add(1),
    {
        let attempt: u64 = self.drawn;
        self.drawn = attempt.wrapping_add(1);
        private_ssh_config_dir(pid, attempt)
    }
}

/// The count at the draw of this number, from a count of `first` on.
pub open spec fn count_at_draw(first: u64, number: nat) -> u64
    decreases number,
{
    if number == 0 {
        first
    } else {
        count_at_draw(first, (number - 1) as nat).wrapping_add(1)
    }
}

proof fn lemma_count_at_draw(first: u64, number: nat)
    ensures
        count_at_draw(first, number) == (first + number) % 0x1_0000_0000_0000_0000,
    decreases number,
{
    if number > 0 {
        lemma_count_at_draw(first, (number - 1) as nat);
    }
}

/// Whatever the count is, two draws of a process give different names, as long as the
/// count does not come round between them.
pub proof fn law_drawn_config_dirs_differ(pid: u32, first: u64, a: nat, b: nat)
    requires
        a < b,
        b - a < 0x1_0000_0000_0000_0000,
    ensures
        config_dir(pid, count_at_draw(first, a)) != config_dir(pid, count_at_draw(first, b)),
{
    lemma_count_at_draw(first, a);
    lemma_count_at_draw(first, b);
    law_config_dirs_differ(pid, count_at_draw(first, a), count_at_draw(first, b));
}

/// The name of the local socket of a bridge.
pub open spec fn socket_name(pid: u32, target: Seq<char>, session_name: Seq<char>) -> Seq<char> {
    "herdr-remote-"@ + text::decimal(pid as nat) + "-"@ + shell::sanitized(target) + "-"@
        + shell::sanitized(session_name) + ".sock"@
}

/// The name of the local socket of a bridge.
pub fn local_forward_socket_name(pid: u32, target: &str, session_name: &str) -> (res: String)
    ensures
        res@ == socket_name(pid, target@, session_name@),
{
    let mut name = "herdr-remote-".to_string();
    name.append(decimal_text(pid as u64).as_str());
    name.append("-");
    name.append(sanitize_path_component(target).as_str());
    name.append("-");
    name.append(sanitize_path_component(session_name).as_str());
    name.append(".sock");
    name
}

/// Whatever the target and the session are called, the name of the local socket holds
/// only characters that are kept in the name of a file, so it stays in its directory.
pub proof fn law_socket_name_is_a_name(pid: u32, target: Seq<char>, session_name: Seq<char>)
    ensures
        forall|i: int|
            0 <= i < socket_name(pid, target, session_name).len() ==> shell::name_char(
                #[trigger] socket_name(pid, target, session_name)[i],
            ),
{
    reveal_strlit("herdr-remote-");
    reveal_strlit("-");
    reveal_strlit(".sock");
    let name = socket_name(pid, target, session_name);
    let a = "herdr-remote-"@;
    let b = text::decimal(pid as nat);
    let c = shell::sanitized(target);
    let d = shell::sanitized(session_name);
    let e = ".sock"@;
    shell::law_sanitized_is_a_name(target);
    shell::law_sanitized_is_a_name(session_name);
    text::lemma_decimal_digits(pid as nat);
    assert forall|i: int| 0 <= i < name.len() implies shell::name_char(#[trigger] name[i]) by {
        if i < a.len() {
            assert(name[i] == a[i]);
        } else if i < a.len() + b.len() {
            assert(name[i] == b[i - a.len()]);
        } else if i < a.len() + b.len() + 1 {
            assert(name[i] == '-');
        } else if i < a.len() + b.len() + 1 + c.len() {
            assert(name[i] == c[i - a.len() - b.len() - 1]);
        } else if i < a.len() + b.len() + 2 + c.len() {
            assert(name[i] == '-');
        } else if i < a.len() + b.len() + 2 + c.len() + d.len() {
            assert(name[i] == d[i - a.len() - b.len() - 2 - c.len()]);
        } else {
            assert(name[i] == e[i - a.len() - b.len() - 2 - c.len() - d.len()]);
        }
    }
}

/// The message about a local socket that is in use.
pub fn bridge_socket_in_use(path: &str) -> (res: String)
    ensures
        res@ == "herdr remote bridge socket is already in use at "@ + path@,
{
    let mut message = "herdr remote bridge socket is already in use at ".to_string();
    message.append(path);
    message
}

/// How a connection to the local socket was waited for.
#[derive(Debug, Clone, PartialEq, Eq)]
pub enum Accepted {
    /// There is one.
    Connection,
    /// Waiting failed.
    Failed { cause: String },
}

/// What a bridge does next.
#[derive(Debug, Clone, PartialEq, Eq)]
pub enum BridgeStep {
    /// It waits for a connection.
    Accept,
    /// It serves the connection, and waits for the next one.
    Serve,
    /// It says why waiting failed, pauses, and waits again.
    Retry { line: String },
    /// It ends.
    End,
}

/// The pause of a bridge that could not wait for a connection, in milliseconds.
pub const ACCEPT_RETRY_PAUSE: u64 = 50;

/// What a bridge does before it waits for a connection: it ends when it is told to.
pub fn bridge_before_accept(should_stop: bool) -> (res: BridgeStep)
    ensures
        if should_stop {
            res is End
        } else {
            res is Accept
        },
{
    if should_stop {
        BridgeStep::End
    } else {
        BridgeStep::Accept
    }
}

/// What a bridge does after it waited for a connection: it ends when it was told to
/// meanwhile, serves what it got, and waits again where waiting failed.
pub fn bridge_after_accept(accepted: &Accepted, should_stop: bool) -> (res: BridgeStep)
    ensures
        if should_stop {
            res is End
        } else {
            match accepted {
                Accepted::Connection => res is Serve,
                Accepted::Failed { cause } => res matches BridgeStep::Retry { line } && line@
                    == "herdr: remote bridge listener accept failed: "@ + cause@,
            }
        },
{
    if should_stop {
        return BridgeStep::End;
    }
    match accepted {
        Accepted::Connection => BridgeStep::Serve,
        Accepted::Failed { cause } => {
            let mut line = "herdr: remote bridge listener accept failed: ".to_string();
            line.append(cause.as_str());
            BridgeStep::Retry { line }
        },
    }
}

/// The line about a connection of a bridge that failed.
pub fn bridge_failed_line(cause: &str) -> (res: String)
    ensures
        res@ == "herdr: remote bridge failed: "@ + cause@,
{
    let mut line = "herdr: remote bridge failed: ".to_string();
    line.append(cause);
    line
}

/// How the ssh command of a connection came to its end, or did not come about.
#[derive(Debug, Clone, PartialEq, Eq)]
pub enum BridgeEnd {
    /// It was not started.
    NotStarted { cause: String },
    /// It has no standard input.
    NoInput,
    /// It has no standard output.
    NoOutput,
    /// It ended.
    Ended { success: bool, status: String },
}

/// What a connection of a bridge comes to.
pub open spec fn bridge_result(end: BridgeEnd) -> Result<(), report::ErrorModel> {
    match end {
        BridgeEnd::NotStarted { cause } => Err(
            report::ErrorModel {
                kind: ErrorKind::OfCause,
                message: "failed to start ssh bridge: "@ + cause@,
            },
        ),
        BridgeEnd::NoInput => Err(
            report::ErrorModel {
                kind: ErrorKind::BrokenPipe,
                message: "ssh bridge stdin missing"@,
            },
        ),
        BridgeEnd::NoOutput => Err(
            report::ErrorModel {
                kind: ErrorKind::BrokenPipe,
                message: "ssh bridge stdout missing"@,
            },
        ),
        BridgeEnd::Ended { success, status } => if success {
            Ok(())
        } else {
            Err(
                report::ErrorModel {
                    kind: ErrorKind::ConnectionAborted,
                    message: "ssh bridge exited with "@ + status@,
                },
            )
        },
    }
}

/// What a connection of a bridge comes to.
pub fn bridge_connection(end: &BridgeEnd) -> (res: Result<(), RemoteError>)
    ensures
        report::outcome(res) == bridge_result(*end),
{
    match end {
        BridgeEnd::NotStarted { cause } => {
            let mut message = "failed to start ssh bridge: ".to_string();
            message.append(cause.as_str());
            Err(RemoteError { kind: ErrorKind::OfCause, message })
        },
        BridgeEnd::NoInput => Err(
            RemoteError {
                kind: ErrorKind::BrokenPipe,
                message: "ssh bridge stdin missing".to_string(),
            },
        ),
        BridgeEnd::NoOutput => Err(
            RemoteError {
                kind: ErrorKind::BrokenPipe,
                message: "ssh bridge stdout missing".to_string(),
            },
        ),
        BridgeEnd::Ended { success, status } => {
            if *success {
                Ok(())
            } else {
                let mut message = "ssh bridge exited with ".to_string();
                message.append(status.as_str());
                Err(RemoteError { kind: ErrorKind::ConnectionAborted, message })
            }
        },
    }
}

/// How a read ended.
#[derive(Debug, Clone, Copy, PartialEq, Eq, Structural)]
pub enum ReadEnd {
    /// This many bytes were read.
    Bytes(usize),
    /// It was interrupted.
    Interrupted,
    /// It failed.
    Failed,
}

/// What a copy does next.
#[derive(Debug, Clone, Copy, PartialEq, Eq, Structural)]
pub enum CopyStep {
    /// It writes and flushes what was read, and reads again with this total.
    Write { total: u64 },
    /// It reads again.
    Again,
    /// It ends with this total.
    End { total: u64 },
    /// It passes the failure on.
    Fail,
}

/// What a copy of `total` bytes does after a read: nothing read is the end, and an
/// interruption is no failure.
pub fn copy_flush(total: u64, read: ReadEnd) -> (res: CopyStep)
    ensures
        res == (match read {
            ReadEnd::Bytes(0) => CopyStep::End { total },
            ReadEnd::Bytes(count) => CopyStep::Write { total: total.wrapping_add(count as u64) },
            ReadEnd::Interrupted => CopyStep::Again,
            ReadEnd::Failed => CopyStep::Fail,
        }),
{
    match read {
        ReadEnd::Bytes(0) => CopyStep::End { total },
        ReadEnd::Bytes(count) => CopyStep::Write { total: total.wrapping_add(count as u64) },
        ReadEnd::Interrupted => CopyStep::Again,
        ReadEnd::Failed => CopyStep::Fail,
    }
}

/// The error of the far end of a bridge, which is no Windows program.
pub fn run_remote_client_bridge() -> (res: Result<(), RemoteError>)
    ensures
        report::outcome(res) == Err::<(), report::ErrorModel>(
            report::plain_error(
                "remote-client-bridge only runs on the SSH-attached remote host and is not applicable on Windows"@,
            ),
        ),
{
    Err(
        other_error(
            "remote-client-bridge only runs on the SSH-attached remote host and is not applicable on Windows".to_string(),
        ),
    )
}

/// The variables that a client which attaches over a bridge is given.
pub fn client_environment(reattach_command: &str, keybindings: RemoteKeybindings) -> (res: Vec<
    (String, String),
>)
    ensures
        res.deep_view() == seq![
            ("HERDR_RENDER_ENCODING"@, "terminal-ansi"@),
            (REATTACH_COMMAND_ENV_VAR@, reattach_command@),
            (REMOTE_KEYBINDINGS_ENV_VAR@, keybindings.name()),
        ],
        res.deep_view()[1].0 == "HERDR_REATTACH_COMMAND"@,
        res.deep_view()[2].0 == "HERDR_REMOTE_KEYBINDINGS"@,
{
    let mut vars: Vec<(String, String)> = Vec::new();
    vars.push(("HERDR_RENDER_ENCODING".to_string(), "terminal-ansi".to_string()));
    vars.push((REATTACH_COMMAND_ENV_VAR.to_string(), reattach_command.to_string()));
    vars.push((REMOTE_KEYBINDINGS_ENV_VAR.to_string(), keybindings.as_str().to_string()));
    assert(vars.deep_view() =~= seq![
        ("HERDR_RENDER_ENCODING"@, "terminal-ansi"@),
        (REATTACH_COMMAND_ENV_VAR@, reattach_command@),
        (REMOTE_KEYBINDINGS_ENV_VAR@, keybindings.name()),
    ]);
    vars
}

/// What the end of a client that attached over a bridge comes to.
pub fn run_client_process(success: bool, status: &str) -> (res: Result<(), RemoteError>)
    ensures
        report::outcome(res) == (if success {
            Ok::<(), report::ErrorModel>(())
        } else {
            Err(
                report::ErrorModel {
                    kind: ErrorKind::Interrupted,
                    message: "remote client exited with "@ + status@,
                },
            )
        }),
{
    if success {
        Ok(())
    } else {
        let mut message = "remote client exited with ".to_string();
        message.append(status);
        Err(RemoteError { kind: ErrorKind::Interrupted, message })
    }
}

/// A managed ssh command is given its configuration behind `-F` and the shared connection
/// behind `-S`, begins that connection where there is none and keeps it. Any other command
/// is given none of that.
pub proof fn law_managed_options<P>(options: ManagedSshOptions<P>)
    ensures
        ({
            let given = managed_args(Some(options));
            &&& given.len() == 8
            &&& given[0] == SshArgModel::<P>::Word("-F"@) && given[1] == SshArgModel::Path(
                options.config_path,
            )
            &&& given[2] == SshArgModel::<P>::Word("-S"@) && given[3] == SshArgModel::Path(
                options.control_path,
            )
            &&& given[4] == SshArgModel::<P>::Word("-o"@) && given[5] == SshArgModel::<P>::Word(
                "ControlMaster=auto"@,
            )
            &&& given[6] == SshArgModel::<P>::Word("-o"@) && given[7] == SshArgModel::<P>::Word(
                "ControlPersist=yes"@,
            )
        }),
        managed_args(None::<ManagedSshOptions<P>>).len() == 0,
{
}

/// Behind its options an ssh command without a terminal names the destination, and behind
/// that the remote command, where there is one, and nothing more.
pub proof fn law_destination_follows_options<P>(
    options: Option<ManagedSshOptions<P>>,
    target: Seq<char>,
    command: Seq<char>,
)
    ensures
        ({
            let n = managed_args(options).len() as int;
            let with = command_args(options, target, Some(command));
            let without = command_args(options, target, None);
            &&& with.take(n) == managed_args(options)
            &&& with.len() == n + 3
            &&& with[n] == SshArgModel::<P>::Word("-T"@)
            &&& with[n + 1] == SshArgModel::<P>::Word(target)
            &&& with[n + 2] == SshArgModel::<P>::Word(command)
            &&& without == with.drop_last()
        }),
{
    let n = managed_args(options).len() as int;
    let with = command_args(options, target, Some(command));
    assert(with.take(n) =~= managed_args(options));
    assert(command_args(options, target, None) =~= with.drop_last());
}

/// The command that ends a shared connection uses that connection's options, asks nothing of
/// a user, and names the destination last.
pub proof fn law_shared_connection_is_ended<P>(options: ManagedSshOptions<P>, target: Seq<char>)
    ensures
        ({
            let n = managed_args(Some(options)).len() as int;
            let all = exit_args(options, target);
            &&& all.take(n) == managed_args(Some(options))
            &&& all.len() == n + 5
            &&& all[n] == SshArgModel::<P>::Word("-O"@) && all[n + 1] == SshArgModel::<P>::Word(
                "exit"@,
            )
            &&& all[n + 2] == SshArgModel::<P>::Word("-o"@) && all[n + 3]
                == SshArgModel::<P>::Word("BatchMode=yes"@)
            &&& all.last() == SshArgModel::<P>::Word(target)
        }),
{
    let n = managed_args(Some(options)).len() as int;
    assert(exit_args(options, target).take(n) =~= managed_args(Some(options)));
}

/// The configuration takes over the user's, then the system's, each in a line of its own and
/// with its path between quotes, and ends with the fallback. What does not exist is left out.
pub proof fn law_configuration_lines(user: Seq<char>, system: Seq<char>)
    ensures
        managed_config(Some(user), Some(system)) == "Include \""@ + user + "\"\n"@
            + "Include \""@ + system + "\"\n"@ + managed_config(None, None),
        managed_config(Some(user), None) == "Include \""@ + user + "\"\n"@ + managed_config(
            None,
            None,
        ),
        managed_config(None, Some(system)) == managed_config(Some(system), None),
        managed_config(None, None)
            == "Host *\n  ServerAliveInterval 15\n  ServerAliveCountMax 4\n"@,
{
    reveal_strlit("Include \"");
    reveal_strlit("Include ");
    reveal_strlit("\"\n");
    reveal_strlit("\n");
    assert("Include \""@ =~= "Include "@ + seq!['"']);
    assert("\"\n"@ =~= seq!['"'] + "\n"@);
    let fallback = KEEPALIVE_FALLBACK@;
    assert(managed_config(None, None) =~= fallback);
    assert(managed_config(Some(user), Some(system)) =~= "Include \""@ + user + "\"\n"@
        + "Include \""@ + system + "\"\n"@ + fallback);
    assert(managed_config(Some(user), None) =~= "Include \""@ + user + "\"\n"@ + fallback);
    assert(managed_config(None, Some(system)) =~= managed_config(Some(system), None));
}

/// The directory of a configuration is called after this process and its number, and the
/// local socket of a bridge after this process, the destination and the session.
pub proof fn law_names_tell_the_process(
    pid: u32,
    attempt: u64,
    target: Seq<char>,
    session_name: Seq<char>,
)
    ensures
        text::begins_with(
            config_dir(pid, attempt),
            "herdr-ssh-"@ + text::decimal(pid as nat) + "-"@,
        ),
        text::ends_in(config_dir(pid, attempt), text::decimal(attempt as nat)),
        text::begins_with(
            socket_name(pid, target, session_name),
            "herdr-remote-"@ + text::decimal(pid as nat) + "-"@ + shell::sanitized(target) + "-"@,
        ),
        text::ends_in(
            socket_name(pid, target, session_name),
            shell::sanitized(session_name) + ".sock"@,
        ),
        socket_name(pid, target, session_name).len() == "herdr-remote-"@.len() + text::decimal(
            pid as nat,
        ).len() + 1 + shell::sanitized(target).len() + 1 + shell::sanitized(session_name).len()
            + ".sock"@.len(),
{
    reveal_strlit("-");
    let front = "herdr-ssh-"@ + text::decimal(pid as nat) + "-"@;
    let number = text::decimal(attempt as nat);
    text::law_begins_and_ends(number, front, number);
    text::law_begins_and_ends(number, number, front);
    let first = "herdr-remote-"@ + text::decimal(pid as nat) + "-"@ + shell::sanitized(target)
        + "-"@;
    let last = shell::sanitized(session_name) + ".sock"@;
    text::law_begins_and_ends(last, first, last);
    text::law_begins_and_ends(last, last, first);
    assert(first + last =~= socket_name(pid, target, session_name));
}

/// A connection of a bridge succeeds exactly when its ssh command was started with input and
/// output and ended with success. What was wrong is told otherwise.
pub proof fn law_bridge_succeeds_with_its_command(end: BridgeEnd)
    ensures
        bridge_result(end) is Ok <==> (end matches BridgeEnd::Ended { success, .. } && success),
        end matches BridgeEnd::NotStarted { cause } ==> (bridge_result(end) matches Err(error)
            && error.kind is OfCause && text::ends_in(error.message, cause@)),
        (end is NoInput || end is NoOutput) ==> (bridge_result(end) matches Err(error)
            && error.kind is BrokenPipe),
        (end matches BridgeEnd::Ended { success, status } && !success) ==> (bridge_result(
            end,
        ) matches Err(error) && error.kind is ConnectionAborted && text::ends_in(
            error.message,
            end->status@,
        )),
{
    match end {
        BridgeEnd::NotStarted { cause } => {
            text::law_begins_and_ends(cause@, cause@, "failed to start ssh bridge: "@);
        },
        BridgeEnd::Ended { status, .. } => {
            text::law_begins_and_ends(status@, status@, "ssh bridge exited with "@);
        },
        _ => {},
    }
}

} // verus!
