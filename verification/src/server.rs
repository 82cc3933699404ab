//! The herdr server that runs on a remote host: when it has to stop or hand over, and
//! what the user is asked before it does.
use crate::host::ClientBuild;
use crate::host::RemoteHerdr;
use crate::host;
use crate::report::CommandOutput;
use crate::report::ErrorKind;
use crate::report::RemoteError;
use crate::report::command_failed;
use crate::report::other_error;
use crate::report;
use crate::text::from_utf8_lossy;
use crate::text::same_text;
use crate::text::to_ascii_lowercase;
use crate::text::trim;
use crate::text;
use vstd::prelude::*;
use vstd::string::*;

verus! {

/// What is known of a server.
#[derive(Debug, Clone, PartialEq, Eq)]
pub enum RemoteServerStatus {
    Running {
        version: Option<String>,
        protocol: Option<u32>,
        live_handoff: bool,
        detached_server_daemon: bool,
    },
    NotRunning,
}

/// What a server's own report says it can do.
#[derive(Debug, Clone, PartialEq, Eq)]
pub struct RemoteServerCapabilitiesJson {
    pub live_handoff: bool,
    pub detached_server_daemon: bool,
}

/// A server's own report.
#[derive(Debug, Clone, PartialEq, Eq)]
pub struct RemoteServerStatusJson {
    pub running: bool,
    pub version: Option<String>,
    pub protocol: Option<u32>,
    pub capabilities: Option<RemoteServerCapabilitiesJson>,
}

/// What a server's report says of it. A server that does not report what it can do is
/// an old one, which can do none of it.
pub open spec fn status_reported(report: RemoteServerStatusJson) -> RemoteServerStatus {
    if !report.running {
        RemoteServerStatus::NotRunning
    } else {
        RemoteServerStatus::Running {
            version: report.version,
            protocol: report.protocol,
            live_handoff: report.capabilities is Some && report.capabilities->Some_0.live_handoff,
            detached_server_daemon: report.capabilities is Some
                && report.capabilities->Some_0.detached_server_daemon,
        }
    }
}

/// What a server's report says of it: `parsed` is the report that `status` holds, or
/// why it holds none.
pub fn parse_remote_server_status_json(
    status: &str,
    parsed: Result<RemoteServerStatusJson, String>,
) -> (res: Result<RemoteServerStatus, RemoteError>)
    ensures
        match parsed {
            Ok(report) => res == Ok::<RemoteServerStatus, RemoteError>(status_reported(report)),
            Err(cause) => res is Err && res->Err_0.deep_view() == report::plain_error(
                "could not parse remote server status JSON from `"@ + status@ + "`: "@ + cause@,
            ),
        },
{
    let parsed = match parsed {
        Ok(parsed) => parsed,
        Err(cause) => {
            let mut message = "could not parse remote server status JSON from `".to_string();
            message.append(status);
            message.append("`: ");
            message.append(cause.as_str());
            return Err(other_error(message));
        },
    };
    if !parsed.running {
        return Ok(RemoteServerStatus::NotRunning);
    }
    let (live_handoff, detached_server_daemon) = match &parsed.capabilities {
        Some(capabilities) => (capabilities.live_handoff, capabilities.detached_server_daemon),
        None => (false, false),
    };
    Ok(
        RemoteServerStatus::Running {
            version: parsed.version,
            protocol: parsed.protocol,
            live_handoff,
            detached_server_daemon,
        },
    )
}

/// The command that asks a server for its report.
pub fn server_status_command(remote_herdr: &RemoteHerdr) -> (res: String)
    ensures
        res@ == remote_herdr.shell_path@ + " status server --json"@,
{
    let mut command = remote_herdr.shell_path.clone();
    command.append(" status server --json");
    command
}

/// The report that a command for it wrote.
pub open spec fn status_text(output: CommandOutput) -> Result<Seq<char>, report::ErrorModel> {
    if !output.success {
        Err(report::command_error("remote server status failed"@, output))
    } else {
        Ok(text::trimmed(text::utf8_lossy(output.stdout@)))
    }
}

/// The report that a command for it wrote.
pub fn server_status_text(output: &CommandOutput) -> (res: Result<String, RemoteError>)
    ensures
        report::outcome(res) == status_text(*output),
{
    if !output.success {
        return Err(command_failed("remote server status failed", output));
    }
    Ok(trim(from_utf8_lossy(output.stdout.as_slice()).as_str()))
}

/// Why a running server should not go on.
#[derive(Debug, Clone, Copy, PartialEq, Eq, Structural)]
pub enum RemoteServerRestartReason {
    /// It does not speak this client's protocol.
    ProtocolMismatch,
    /// It may end with the connection that started it.
    DaemonDetachMissing,
    /// Its binary was installed or replaced.
    BinaryUpdated,
    /// It is of another version.
    VersionMismatch,
}

/// What happens to a running server when its binary is installed.
#[derive(Debug, Clone, Copy, PartialEq, Eq, Structural)]
pub enum RemoteInstallRunningServerPlan {
    KeepRunning,
    LiveHandoff,
    StopRequired(RemoteServerRestartReason),
}

/// Why a running server should not go on, if it should not: the first that holds of a
/// foreign protocol, a missing detachment, a foreign version and a changed binary.
pub open spec fn restart_reason(
    client: ClientBuild,
    version: Option<Seq<char>>,
    protocol: Option<u32>,
    detached_server_daemon: bool,
    remote_binary_changed: bool,
) -> Option<RemoteServerRestartReason> {
    if protocol != Some(client.protocol) {
        Some(RemoteServerRestartReason::ProtocolMismatch)
    } else if !detached_server_daemon {
        Some(RemoteServerRestartReason::DaemonDetachMissing)
    } else if version != Some(client.version@) {
        Some(RemoteServerRestartReason::VersionMismatch)
    } else if remote_binary_changed {
        Some(RemoteServerRestartReason::BinaryUpdated)
    } else {
        None
    }
}

/// Why a running server should not go on, if it should not.
pub fn remote_server_restart_reason(
    client: &ClientBuild,
    version: Option<&str>,
    protocol: Option<u32>,
    detached_server_daemon: bool,
    remote_binary_changed: bool,
) -> (res: Option<RemoteServerRestartReason>)
    ensures
        res == restart_reason(
            *client,
            version.deep_view(),
            protocol,
            detached_server_daemon,
            remote_binary_changed,
        ),
{
    match protocol {
        Some(protocol) if protocol == client.protocol => {},
        _ => return Some(RemoteServerRestartReason::ProtocolMismatch),
    }
    if !detached_server_daemon {
        return Some(RemoteServerRestartReason::DaemonDetachMissing);
    }
    match version {
        Some(version) => {
            if !same_text(version, client.version.as_str()) {
                return Some(RemoteServerRestartReason::VersionMismatch);
            }
        },
        None => return Some(RemoteServerRestartReason::VersionMismatch),
    }
    if remote_binary_changed {
        return Some(RemoteServerRestartReason::BinaryUpdated);
    }
    None
}

/// What happens to a running server when its binary is installed: it goes on where
/// nothing speaks against it, hands over where it can and may, and stops otherwise.
pub open spec fn running_server_plan(
    client: ClientBuild,
    version: Option<Seq<char>>,
    protocol: Option<u32>,
    detached_server_daemon: bool,
    remote_binary_changed: bool,
    live_handoff: bool,
    live_handoff_enabled: bool,
) -> RemoteInstallRunningServerPlan {
    match restart_reason(
        client,
        version,
        protocol,
        detached_server_daemon,
        remote_binary_changed,
    ) {
        None => RemoteInstallRunningServerPlan::KeepRunning,
        Some(reason) => if live_handoff_enabled && live_handoff {
            RemoteInstallRunningServerPlan::LiveHandoff
        } else {
            RemoteInstallRunningServerPlan::StopRequired(reason)
        },
    }
}

/// What happens to a running server when its binary is installed.
pub fn remote_install_running_server_plan(
    client: &ClientBuild,
    version: Option<&str>,
    protocol: Option<u32>,
    detached_server_daemon: bool,
    remote_binary_changed: bool,
    live_handoff: bool,
    live_handoff_enabled: bool,
) -> (res: RemoteInstallRunningServerPlan)
    ensures
        res == running_server_plan(
            *client,
            version.deep_view(),
            protocol,
            detached_server_daemon,
            remote_binary_changed,
            live_handoff,
            live_handoff_enabled,
        ),
{
    match remote_server_restart_reason(
        client,
        version,
        protocol,
        detached_server_daemon,
        remote_binary_changed,
    ) {
        None => RemoteInstallRunningServerPlan::KeepRunning,
        Some(reason) => {
            if live_handoff_enabled && live_handoff {
                RemoteInstallRunningServerPlan::LiveHandoff
            } else {
                RemoteInstallRunningServerPlan::StopRequired(reason)
            }
        },
    }
}

/// A server goes on only where it speaks the client's protocol, is detached, has the
/// client's version and runs an unchanged binary; all four together suffice.
pub proof fn law_server_goes_on_when_compatible(
    client: ClientBuild,
    version: Option<Seq<char>>,
    protocol: Option<u32>,
    detached_server_daemon: bool,
    remote_binary_changed: bool,
    live_handoff: bool,
    live_handoff_enabled: bool,
)
    ensures
        (running_server_plan(
            client,
            version,
            protocol,
            detached_server_daemon,
            remote_binary_changed,
            live_handoff,
            live_handoff_enabled,
        ) is KeepRunning) <==> protocol == Some(client.protocol) && detached_server_daemon
            && version == Some(client.version@) && !remote_binary_changed,
{
}

/// How a version is called that may not be known.
pub open spec fn label(version: Option<Seq<char>>) -> Seq<char> {
    match version {
        Some(version) => version,
        None => "unknown"@,
    }
}

/// How a version is called that may not be known.
pub fn version_label<'a>(version: Option<&'a str>) -> (res: &'a str)
    ensures
        res@ == label(version.deep_view()),
{
    match version {
        Some(version) => version,
        None => "unknown",
    }
}

/// A user's answer without the white space around it and in lower case.
pub open spec fn plain_answer(answer: Seq<char>) -> Seq<char> {
    text::trimmed(answer).map_values(|c: char| text::ascii_lower(c))
}

/// Whether an answer agrees.
pub open spec fn says_yes(answer: Seq<char>) -> bool {
    plain_answer(answer) == "y"@ || plain_answer(answer) == "yes"@
}

/// Whether an answer declines.
pub open spec fn says_no(answer: Seq<char>) -> bool {
    plain_answer(answer) == "n"@ || plain_answer(answer) == "no"@
}

fn read_answer(answer: &str) -> (res: String)
    ensures
        res@ == plain_answer(answer@),
{
    to_ascii_lowercase(trim(answer).as_str())
}

/// What a question comes to before it is answered.
#[derive(Debug, Clone, PartialEq, Eq)]
pub enum Verdict {
    /// It need not be asked.
    Settled(bool),
    /// It is asked with this prompt.
    Ask(String),
    /// It cannot be asked, and there is no going on without an answer.
    Refuse(RemoteError),
}

/// A verdict as its text.
#[verifier::ext_equal]
pub enum VerdictModel {
    Settled(bool),
    Ask(Seq<char>),
    Refuse(report::ErrorModel),
}

impl DeepView for Verdict {
    type V = VerdictModel;

    open spec fn deep_view(&self) -> VerdictModel {
        match self {
            Verdict::Settled(stop) => VerdictModel::Settled(*stop),
            Verdict::Ask(prompt) => VerdictModel::Ask(prompt@),
            Verdict::Refuse(error) => VerdictModel::Refuse(error.deep_view()),
        }
    }
}

/// The lines about a server that runs.
pub open spec fn running_lines(target: Seq<char>, version: Option<Seq<char>>) -> Seq<Seq<char>> {
    seq![
        "remote herdr server on "@ + target + " is currently running:"@,
        "  server: v"@ + label(version),
    ]
}

fn push_running_lines(lines: &mut Vec<String>, target: &str, version: Option<&str>)
    ensures
        final(lines).deep_view() == old(lines).deep_view() + running_lines(
            target@,
            version.deep_view(),
        ),
{
    let ghost before = lines.deep_view();
    let mut line = "remote herdr server on ".to_string();
    line.append(target);
    line.append(" is currently running:");
    lines.push(line);
    let mut line = "  server: v".to_string();
    line.append(version_label(version));
    lines.push(line);
    assert(lines.deep_view() =~= before + running_lines(target@, version.deep_view()));
}

/// What the user reads and is asked before a binary is installed under a server whose
/// status could not be had.
pub open spec fn unknown_server(target: Seq<char>, cause: Seq<char>, terminal: bool) -> (
    Seq<Seq<char>>,
    VerdictModel,
) {
    let complaint = "could not inspect the running remote herdr server on "@ + target
        + " before installing: "@ + cause;
    if terminal {
        (
            seq![complaint],
            VerdictModel::Ask("continue installing the remote herdr binary? [y/N] "@),
        )
    } else {
        (
            Seq::empty(),
            VerdictModel::Refuse(
                report::plain_error(
                    complaint
                        + "; run from an interactive terminal to approve updating the remote binary"@,
                ),
            ),
        )
    }
}

/// What the user reads and is asked before a binary is installed under a server that
/// runs, by what is planned for it.
pub open spec fn known_server(
    client: ClientBuild,
    target: Seq<char>,
    version: Option<Seq<char>>,
    plan: RemoteInstallRunningServerPlan,
    terminal: bool,
) -> (Seq<Seq<char>>, VerdictModel) {
    match plan {
        RemoteInstallRunningServerPlan::KeepRunning => (
            if terminal {
                seq![
                    "remote herdr server on "@ + target + " is already compatible:"@,
                    "  server: v"@ + label(version),
                    "Herdr will install "@ + client.version@
                        + " without stopping the running remote server."@,
                ]
            } else {
                Seq::empty()
            },
            VerdictModel::Settled(false),
        ),
        RemoteInstallRunningServerPlan::LiveHandoff => (
            if terminal {
                running_lines(target, version) + seq![
                    "Herdr will install "@ + client.version@
                        + " and hand off live pane processes to the prepared server."@,
                ]
            } else {
                Seq::empty()
            },
            VerdictModel::Settled(false),
        ),
        RemoteInstallRunningServerPlan::StopRequired(_) => if terminal {
            (
                running_lines(target, version) + seq![
                    "To complete the remote update, Herdr must stop the running remote server after installing."@,
                    "This stops active remote pane processes, including shells, dev servers, and tests."@,
                    ""@,
                ],
                VerdictModel::Ask(
                    "Install "@ + client.version@ + " and stop the remote server now? [y/N] "@,
                ),
            )
        } else {
            (
                Seq::empty(),
                VerdictModel::Refuse(
                    report::plain_error(
                        "remote herdr server on "@ + target + " is running v"@ + label(version)
                            + "; run from an interactive terminal to approve stopping it for the update"@,
                    ),
                ),
            )
        },
    }
}

/// What the user reads and is asked before a binary is installed under a server of
/// this status, or of one that could not be had.
pub open spec fn install_question(
    client: ClientBuild,
    target: Seq<char>,
    status: Result<RemoteServerStatus, Seq<char>>,
    live_handoff_enabled: bool,
    terminal: bool,
) -> (Seq<Seq<char>>, VerdictModel) {
    match status {
        Err(cause) => unknown_server(target, cause, terminal),
        Ok(RemoteServerStatus::NotRunning) => (Seq::empty(), VerdictModel::Settled(false)),
        Ok(
            RemoteServerStatus::Running { version, protocol, live_handoff, detached_server_daemon },
        ) => known_server(
            client,
            target,
            version.deep_view(),
            running_server_plan(
                client,
                version.deep_view(),
                protocol,
                detached_server_daemon,
                true,
                live_handoff,
                live_handoff_enabled,
            ),
            terminal,
        ),
    }
}

/// A status, or the words of the failure in its place.
pub open spec fn status_or_cause(status: Result<RemoteServerStatus, String>) -> Result<
    RemoteServerStatus,
    Seq<char>,
> {
    match status {
        Ok(status) => Ok(status),
        Err(cause) => Err(cause@),
    }
}

/// An optional text, borrowed.
pub(crate) fn text_of(version: &Option<String>) -> (res: Option<&str>)
    ensures
        res.deep_view() == version.deep_view(),
{
    match version {
        Some(version) => Some(version.as_str()),
        None => None,
    }
}

fn ask_of_unknown_server(target: &str, cause: &str, terminal: bool) -> (res: (
    Vec<String>,
    Verdict,
))
    ensures
        (res.0.deep_view(), res.1.deep_view()) == unknown_server(target@, cause@, terminal),
{
    let mut say: Vec<String> = Vec::new();
    let mut complaint = "could not inspect the running remote herdr server on ".to_string();
    complaint.append(target);
    complaint.append(" before installing: ");
    complaint.append(cause);
    let ghost told = complaint@;
    if terminal {
        say.push(complaint);
        assert(say.deep_view() =~= seq![told]);
        (say, Verdict::Ask("continue installing the remote herdr binary? [y/N] ".to_string()))
    } else {
        complaint.append(
            "; run from an interactive terminal to approve updating the remote binary",
        );
        assert(say.deep_view() =~= Seq::<Seq<char>>::empty());
        (say, Verdict::Refuse(other_error(complaint)))
    }
}

fn ask_of_known_server(
    client: &ClientBuild,
    target: &str,
    version: Option<&str>,
    plan: RemoteInstallRunningServerPlan,
    terminal: bool,
) -> (res: (Vec<String>, Verdict))
    ensures
        (res.0.deep_view(), res.1.deep_view()) == known_server(
            *client,
            target@,
            version.deep_view(),
            plan,
            terminal,
        ),
{
    let mut say: Vec<String> = Vec::new();
    assert(say.deep_view() =~= Seq::<Seq<char>>::empty());
    let ghost known = known_server(*client, target@, version.deep_view(), plan, terminal);
    match plan {
        RemoteInstallRunningServerPlan::KeepRunning => {
            if terminal {
                let mut line = "remote herdr server on ".to_string();
                line.append(target);
                line.append(" is already compatible:");
                say.push(line);
                let mut line = "  server: v".to_string();
                line.append(version_label(version));
                say.push(line);
                let mut line = "Herdr will install ".to_string();
                line.append(client.version.as_str());
                line.append(" without stopping the running remote server.");
                say.push(line);
                assert(say.deep_view() =~= known.0);
            }
            (say, Verdict::Settled(false))
        },
        RemoteInstallRunningServerPlan::LiveHandoff => {
            if terminal {
                push_running_lines(&mut say, target, version);
                let mut line = "Herdr will install ".to_string();
                line.append(client.version.as_str());
                line.append(" and hand off live pane processes to the prepared server.");
                say.push(line);
                assert(say.deep_view() =~= known.0);
            }
            (say, Verdict::Settled(false))
        },
        RemoteInstallRunningServerPlan::StopRequired(_) => {
            if terminal {
                push_running_lines(&mut say, target, version);
                say.push(
                    "To complete the remote update, Herdr must stop the running remote server after installing.".to_string(),
                );
                say.push(
                    "This stops active remote pane processes, including shells, dev servers, and tests.".to_string(),
                );
                say.push("".to_string());
                assert(say.deep_view() =~= known.0);
                let mut prompt = "Install ".to_string();
                prompt.append(client.version.as_str());
                prompt.append(" and stop the remote server now? [y/N] ");
                (say, Verdict::Ask(prompt))
            } else {
                let mut message = "remote herdr server on ".to_string();
                message.append(target);
                message.append(" is running v");
                message.append(version_label(version));
                message.append(
                    "; run from an interactive terminal to approve stopping it for the update",
                );
                (say, Verdict::Refuse(other_error(message)))
            }
        },
    }
}

/// What the user reads and is asked before a binary is installed under a running
/// server: `status` is its status, or why that could not be had. The question is
/// settled with whether the server is to be stopped.
pub fn confirm_remote_install_with_running_server(
    client: &ClientBuild,
    target: &str,
    status: &Result<RemoteServerStatus, String>,
    live_handoff_enabled: bool,
    terminal: bool,
) -> (res: (Vec<String>, Verdict))
    ensures
        (res.0.deep_view(), res.1.deep_view()) == install_question(
            *client,
            target@,
            status_or_cause(*status),
            live_handoff_enabled,
            terminal,
        ),
{
    match status {
        Err(cause) => ask_of_unknown_server(target, cause.as_str(), terminal),
        Ok(RemoteServerStatus::NotRunning) => {
            let say: Vec<String> = Vec::new();
            assert(say.deep_view() =~= Seq::<Seq<char>>::empty());
            (say, Verdict::Settled(false))
        },
        Ok(
            RemoteServerStatus::Running { version, protocol, live_handoff, detached_server_daemon },
        ) => {
            let plan = remote_install_running_server_plan(
                client,
                text_of(version),
                *protocol,
                *detached_server_daemon,
                true,
                *live_handoff,
                live_handoff_enabled,
            );
            ask_of_known_server(client, target, text_of(version), plan, terminal)
        },
    }
}

/// The error about a user who declined an installation under a running server.
pub open spec fn install_cancelled() -> report::ErrorModel {
    report::ErrorModel {
        kind: ErrorKind::Interrupted,
        message: "remote herdr install cancelled"@,
    }
}

/// The answer to the question before an installation under a running server: whether
/// the server, which is known or not, is to be stopped.
pub fn answer_install_with_running_server(server_known: bool, answer: &str) -> (res: Result<
    bool,
    RemoteError,
>)
    ensures
        report::outcome(res) == (if says_yes(answer@) {
            Ok::<bool, report::ErrorModel>(server_known)
        } else {
            Err(install_cancelled())
        }),
{
    let answer = read_answer(answer);
    if !same_text(answer.as_str(), "y") && !same_text(answer.as_str(), "yes") {
        return Err(
            RemoteError {
                kind: ErrorKind::Interrupted,
                message: "remote herdr install cancelled".to_string(),
            },
        );
    }
    Ok(server_known)
}

/// What a user reads of the reason for which a server should stop.
pub open spec fn reason_line(reason: RemoteServerRestartReason) -> Seq<char> {
    match reason {
        RemoteServerRestartReason::ProtocolMismatch =>
            "the remote server must stop before this client can attach."@,
        RemoteServerRestartReason::DaemonDetachMissing =>
            "the remote server was started by a herdr build that may not survive SSH connection loss. restart it so network drops disconnect only this client."@,
        RemoteServerRestartReason::BinaryUpdated =>
            "the remote herdr binary was installed or replaced. restart the remote server so it uses the prepared binary."@,
        RemoteServerRestartReason::VersionMismatch =>
            "the remote server is still running a different herdr version. restart it so it uses the prepared binary."@,
    }
}

/// What a user is asked about stopping a server.
pub open spec fn stop_prompt(reason: RemoteServerRestartReason) -> Seq<char> {
    if reason is ProtocolMismatch {
        "stop the remote server and continue attaching? [Y/n] "@
    } else {
        "restart the remote server now? [y/N] "@
    }
}

/// What a user reads and is asked before a server is stopped. Without a terminal a
/// server goes on, unless this client could not attach to it.
pub open spec fn stop_question(
    client: ClientBuild,
    target: Seq<char>,
    version: Option<Seq<char>>,
    reason: RemoteServerRestartReason,
    terminal: bool,
) -> (Seq<Seq<char>>, VerdictModel) {
    if terminal {
        (
            running_lines(target, version) + seq![
                "  prepared binary: "@ + client.version@,
                ""@,
                reason_line(reason),
            ],
            VerdictModel::Ask(stop_prompt(reason)),
        )
    } else if reason is ProtocolMismatch {
        (
            Seq::empty(),
            VerdictModel::Refuse(
                report::plain_error(
                    "remote herdr server on "@ + target
                        + " must stop before this client can attach; run from an interactive terminal to approve stopping it"@,
                ),
            ),
        )
    } else {
        (
            seq![
                "remote herdr server on "@ + target + " is still running v"@ + label(version)
                    + "; it will use "@ + client.version@ + " after it restarts."@,
            ],
            VerdictModel::Settled(false),
        )
    }
}

/// What a user is asked about stopping a server.
pub fn server_stop_prompt(reason: RemoteServerRestartReason) -> (res: &'static str)
    ensures
        res@ == stop_prompt(reason),
{
    match reason {
        RemoteServerRestartReason::ProtocolMismatch =>
            "stop the remote server and continue attaching? [Y/n] ",
        _ => "restart the remote server now? [y/N] ",
    }
}

/// What a user reads and is asked before a server is stopped.
pub fn confirm_remote_server_stop(
    client: &ClientBuild,
    target: &str,
    version: Option<&str>,
    reason: RemoteServerRestartReason,
    terminal: bool,
) -> (res: (Vec<String>, Verdict))
    ensures
        (res.0.deep_view(), res.1.deep_view()) == stop_question(
            *client,
            target@,
            version.deep_view(),
            reason,
            terminal,
        ),
{
    let mut say: Vec<String> = Vec::new();
    assert(say.deep_view() =~= Seq::<Seq<char>>::empty());
    let ghost question = stop_question(*client, target@, version.deep_view(), reason, terminal);
    if !terminal {
        if let RemoteServerRestartReason::ProtocolMismatch = reason {
            let mut message = "remote herdr server on ".to_string();
            message.append(target);
            message.append(
                " must stop before this client can attach; run from an interactive terminal to approve stopping it",
            );
            return (say, Verdict::Refuse(other_error(message)));
        }
        let mut line = "remote herdr server on ".to_string();
        line.append(target);
        line.append(" is still running v");
        line.append(version_label(version));
        line.append("; it will use ");
        line.append(client.version.as_str());
        line.append(" after it restarts.");
        say.push(line);
        assert(say.deep_view() =~= question.0);
        return (say, Verdict::Settled(false));
    }
    push_running_lines(&mut say, target, version);
    let mut line = "  prepared binary: ".to_string();
    line.append(client.version.as_str());
    say.push(line);
    say.push("".to_string());
    let reason_text = match reason {
        RemoteServerRestartReason::ProtocolMismatch =>
            "the remote server must stop before this client can attach.",
        RemoteServerRestartReason::DaemonDetachMissing =>
            "the remote server was started by a herdr build that may not survive SSH connection loss. restart it so network drops disconnect only this client.",
        RemoteServerRestartReason::BinaryUpdated =>
            "the remote herdr binary was installed or replaced. restart the remote server so it uses the prepared binary.",
        RemoteServerRestartReason::VersionMismatch =>
            "the remote server is still running a different herdr version. restart it so it uses the prepared binary.",
    };
    say.push(reason_text.to_string());
    assert(say.deep_view() =~= question.0);
    (say, Verdict::Ask(server_stop_prompt(reason).to_string()))
}

/// Whether an answer about stopping a server agrees. Where this client could not
/// attach otherwise, an empty answer agrees too.
pub open spec fn agrees_to_stop(reason: RemoteServerRestartReason, answer: Seq<char>) -> bool {
    says_yes(answer) || (reason is ProtocolMismatch && plain_answer(answer).len() == 0)
}

/// The error about a user who declined to stop a server that this client cannot attach
/// to.
pub open spec fn stop_cancelled() -> report::ErrorModel {
    report::ErrorModel {
        kind: ErrorKind::Interrupted,
        message: "remote herdr server stop cancelled"@,
    }
}

/// The answer about stopping a server: whether it is to be stopped, or the error where
/// there is no going on otherwise.
pub open spec fn stop_answer(reason: RemoteServerRestartReason, answer: Seq<char>) -> Result<
    bool,
    report::ErrorModel,
> {
    if agrees_to_stop(reason, answer) {
        Ok(true)
    } else if reason is ProtocolMismatch {
        Err(stop_cancelled())
    } else {
        Ok(false)
    }
}

/// The answer about stopping a server.
pub fn answer_server_stop(reason: RemoteServerRestartReason, answer: &str) -> (res: Result<
    bool,
    RemoteError,
>)
    ensures
        report::outcome(res) == stop_answer(reason, answer@),
{
    let answer = read_answer(answer);
    if same_text(answer.as_str(), "y") || same_text(answer.as_str(), "yes") {
        return Ok(true);
    }
    if let RemoteServerRestartReason::ProtocolMismatch = reason {
        if answer.as_str().is_empty() {
            return Ok(true);
        }
        return Err(
            RemoteError {
                kind: ErrorKind::Interrupted,
                message: "remote herdr server stop cancelled".to_string(),
            },
        );
    }
    Ok(false)
}

/// What a user reads and is asked before a binary is installed.
pub open spec fn install_approval(
    client: ClientBuild,
    target: Seq<char>,
    herdr: host::HerdrModel,
    source_description: Seq<char>,
    terminal: bool,
) -> (Seq<Seq<char>>, VerdictModel) {
    if terminal {
        (
            seq![
                "matching herdr "@ + client.version@ + " is not installed on "@ + target + " for "@
                    + host::asset_name(herdr.platform) + "."@,
            ],
            VerdictModel::Ask(
                "Install "@ + source_description + " to "@ + herdr.shell_path + "? [Y/n] "@,
            ),
        )
    } else {
        (
            Seq::empty(),
            VerdictModel::Refuse(
                report::plain_error(
                    "matching remote herdr "@ + client.version@ + " is not installed at "@
                        + herdr.shell_path
                        + "; run from an interactive terminal to approve installation"@,
                ),
            ),
        )
    }
}

/// What a user reads and is asked before a binary is installed.
pub fn confirm_remote_install(
    client: &ClientBuild,
    target: &str,
    remote_herdr: &RemoteHerdr,
    source_description: &str,
    terminal: bool,
) -> (res: (Vec<String>, Verdict))
    ensures
        (res.0.deep_view(), res.1.deep_view()) == install_approval(
            *client,
            target@,
            remote_herdr.deep_view(),
            source_description@,
            terminal,
        ),
{
    let mut say: Vec<String> = Vec::new();
    assert(say.deep_view() =~= Seq::<Seq<char>>::empty());
    if !terminal {
        let mut message = "matching remote herdr ".to_string();
        message.append(client.version.as_str());
        message.append(" is not installed at ");
        message.append(remote_herdr.shell_path.as_str());
        message.append("; run from an interactive terminal to approve installation");
        return (say, Verdict::Refuse(other_error(message)));
    }
    let mut line = "matching herdr ".to_string();
    line.append(client.version.as_str());
    line.append(" is not installed on ");
    line.append(target);
    line.append(" for ");
    line.append(remote_herdr.platform.asset_key().as_str());
    line.append(".");
    let ghost told = line@;
    say.push(line);
    assert(say.deep_view() =~= seq![told]);
    let mut prompt = "Install ".to_string();
    prompt.append(source_description);
    prompt.append(" to ");
    prompt.append(remote_herdr.shell_path.as_str());
    prompt.append("? [Y/n] ");
    (say, Verdict::Ask(prompt))
}

/// The error about a user who declined an installation.
pub open spec fn installation_cancelled() -> report::ErrorModel {
    report::ErrorModel {
        kind: ErrorKind::Interrupted,
        message: "remote herdr installation cancelled"@,
    }
}

/// The answer about installing a binary, which only a plain no declines.
pub fn answer_remote_install(answer: &str) -> (res: Result<(), RemoteError>)
    ensures
        report::outcome(res) == (if says_no(answer@) {
            Err::<(), report::ErrorModel>(installation_cancelled())
        } else {
            Ok(())
        }),
{
    let answer = read_answer(answer);
    if same_text(answer.as_str(), "n") || same_text(answer.as_str(), "no") {
        return Err(
            RemoteError {
                kind: ErrorKind::Interrupted,
                message: "remote herdr installation cancelled".to_string(),
            },
        );
    }
    Ok(())
}

/// Without a terminal nobody is asked anything, and no running server is settled to be
/// stopped.
pub proof fn law_no_terminal_no_question(
    client: ClientBuild,
    target: Seq<char>,
    status: Result<RemoteServerStatus, Seq<char>>,
    live_handoff_enabled: bool,
    version: Option<Seq<char>>,
    reason: RemoteServerRestartReason,
    herdr: host::HerdrModel,
    source_description: Seq<char>,
)
    ensures
        ({
            let verdict = install_question(client, target, status, live_handoff_enabled, false).1;
            verdict == VerdictModel::Settled(false) || verdict is Refuse
        }),
        ({
            let verdict = stop_question(client, target, version, reason, false).1;
            verdict == VerdictModel::Settled(false) || verdict is Refuse
        }),
        install_approval(client, target, herdr, source_description, false).1 is Refuse,
{
}

/// The reason for which a server should not go on is the gravest one that holds: a foreign
/// protocol before a missing detachment, that before another version, and that before a
/// changed binary. A protocol or a version that is not known counts as a foreign one.
pub proof fn law_gravest_reason_is_told(
    client: ClientBuild,
    version: Option<Seq<char>>,
    protocol: Option<u32>,
    detached: bool,
    changed: bool,
)
    ensures
        ({
            let reason = restart_reason(client, version, protocol, detached, changed);
            let speaks = protocol == Some(client.protocol);
            let same = version == Some(client.version@);
            &&& reason == Some(RemoteServerRestartReason::ProtocolMismatch) <==> !speaks
            &&& reason == Some(RemoteServerRestartReason::DaemonDetachMissing) <==> speaks
                && !detached
            &&& reason == Some(RemoteServerRestartReason::VersionMismatch) <==> speaks && detached
                && !same
            &&& reason == Some(RemoteServerRestartReason::BinaryUpdated) <==> speaks && detached
                && same && changed
            &&& reason is None <==> speaks && detached && same && !changed
        }),
{
}

/// A server that should not go on hands over where it can and may, whatever the reason is,
/// and has to stop for that reason otherwise.
pub proof fn law_server_hands_over_or_stops(
    client: ClientBuild,
    version: Option<Seq<char>>,
    protocol: Option<u32>,
    detached: bool,
    changed: bool,
    live_handoff: bool,
    live_handoff_enabled: bool,
)
    requires
        !(protocol == Some(client.protocol) && detached && version == Some(client.version@)
            && !changed),
    ensures
        ({
            let plan = running_server_plan(
                client,
                version,
                protocol,
                detached,
                changed,
                live_handoff,
                live_handoff_enabled,
            );
            &&& live_handoff && live_handoff_enabled ==> plan is LiveHandoff
            &&& !(live_handoff && live_handoff_enabled) ==> plan
                == RemoteInstallRunningServerPlan::StopRequired(
                restart_reason(client, version, protocol, detached, changed)->Some_0,
            )
        }),
{
}

/// A server that reports that it runs has the version and the protocol that it reports, and
/// can do what it reports to, and nothing where it reports nothing of that.
pub proof fn law_status_tells_the_report(report: RemoteServerStatusJson)
    ensures
        status_reported(report) is NotRunning <==> !report.running,
        report.running ==> {
            let status = status_reported(report);
            &&& status->version == report.version
            &&& status->protocol == report.protocol
            &&& match report.capabilities {
                Some(able) => status->live_handoff == able.live_handoff
                    && status->detached_server_daemon == able.detached_server_daemon,
                None => !status->live_handoff && !status->detached_server_daemon,
            }
        },
{
}

/// Whether a word is, letter for letter and in whatever case, the given one of lower case.
pub open spec fn spells(word: Seq<char>, lower: Seq<char>) -> bool {
    word.len() == lower.len() && forall|i: int|
        0 <= i < word.len() ==> (#[trigger] word[i] == lower[i] || word[i] as u32 + 32
            == lower[i] as u32)
}

proof fn lemma_answer_spells(word: Seq<char>, lower: Seq<char>)
    requires
        forall|i: int| 0 <= i < lower.len() ==> 97 <= (#[trigger] lower[i]) as u32 <= 122,
    ensures
        word.map_values(|c: char| text::ascii_lower(c)) == lower <==> spells(word, lower),
{
    let plain = word.map_values(|c: char| text::ascii_lower(c));
    if plain == lower {
        assert forall|i: int| 0 <= i < word.len() implies (#[trigger] word[i] == lower[i]
            || word[i] as u32 + 32 == lower[i] as u32) by {
            assert(plain[i] == text::ascii_lower(word[i]));
            text::law_ascii_letters(word[i]);
        }
    }
    if spells(word, lower) {
        assert forall|i: int| 0 <= i < word.len() implies plain[i] == lower[i] by {
            let typed: char = word[i];
            let wanted: char = lower[i];
            let small: char = text::ascii_lower(typed);
            assert(plain[i] == small);
            text::law_ascii_letters(typed);
            assert(typed == wanted || typed as u32 + 32 == wanted as u32);
            assert(97 <= wanted as u32 <= 122);
            text::lemma_same_code(small, wanted);
        }
        assert(plain =~= lower);
    }
}

/// An answer agrees exactly when it is `y` or `yes`, and declines exactly when it is `n` or
/// `no`, in whatever case and with whatever white space around it.
pub proof fn law_answers_are_read(front: Seq<char>, word: Seq<char>, back: Seq<char>)
    requires
        text::all_white(front),
        text::all_white(back),
        text::tight(word),
    ensures
        says_yes(front + word + back) <==> spells(word, seq!['y']) || spells(
            word,
            seq!['y', 'e', 's'],
        ),
        says_no(front + word + back) <==> spells(word, seq!['n']) || spells(word, seq!['n', 'o']),
        plain_answer(front + word + back).len() == word.len(),
{
    text::law_trimmed_undoes_padding(front, word, back);
    reveal_strlit("y");
    reveal_strlit("yes");
    reveal_strlit("n");
    reveal_strlit("no");
    assert("y"@ =~= seq!['y']);
    assert("yes"@ =~= seq!['y', 'e', 's']);
    assert("n"@ =~= seq!['n']);
    assert("no"@ =~= seq!['n', 'o']);
    lemma_answer_spells(word, "y"@);
    lemma_answer_spells(word, "yes"@);
    lemma_answer_spells(word, "n"@);
    lemma_answer_spells(word, "no"@);
}

/// An answer that agrees stops the server whatever the reason is. One that does not leaves
/// a server that this client can attach to. Where it cannot, an empty answer agrees, and
/// any other is the end with an interruption.
pub proof fn law_stop_answers(reason: RemoteServerRestartReason, answer: Seq<char>)
    ensures
        says_yes(answer) ==> stop_answer(reason, answer) == Ok::<bool, report::ErrorModel>(true),
        !says_yes(answer) && !(reason is ProtocolMismatch) ==> stop_answer(reason, answer) == Ok::<
            bool,
            report::ErrorModel,
        >(false),
        reason is ProtocolMismatch && text::trimmed(answer).len() == 0 ==> stop_answer(
            reason,
            answer,
        ) == Ok::<bool, report::ErrorModel>(true),
        reason is ProtocolMismatch && text::trimmed(answer).len() > 0 && !says_yes(answer) ==> (
        stop_answer(reason, answer) matches Err(error) && error.kind is Interrupted),
{
}

/// A prompt shows in capitals the answer that an empty one stands for.
pub proof fn law_stop_prompt_shows_the_usual_answer(reason: RemoteServerRestartReason)
    ensures
        text::ends_in(stop_prompt(reason), "[Y/n] "@) <==> stop_answer(reason, Seq::empty())
            == Ok::<bool, report::ErrorModel>(true),
        text::ends_in(stop_prompt(reason), "[y/N] "@) <==> stop_answer(reason, Seq::empty())
            == Ok::<bool, report::ErrorModel>(false),
{
    reveal_strlit("[Y/n] ");
    reveal_strlit("[y/N] ");
    reveal_strlit("y");
    reveal_strlit("yes");
    reveal_strlit("stop the remote server and continue attaching? [Y/n] ");
    reveal_strlit("restart the remote server now? [y/N] ");
    let capital = "[Y/n] "@;
    let small = "[y/N] "@;
    let prompt = stop_prompt(reason);
    assert(plain_answer(Seq::empty()) =~= Seq::<char>::empty());
    assert("y"@.len() == 1 && "yes"@.len() == 3);
    assert(capital[1] == 'Y' && small[1] == 'y');
    let tail = prompt.skip(prompt.len() - 6);
    if reason is ProtocolMismatch {
        assert(tail =~= capital);
    } else {
        assert(tail =~= small);
    }
}

/// Before an installation nobody is asked about a server that does not run, or that hands
/// over. Any other running server has to stop, for its binary changes: a user at a terminal
/// is asked, and without one there is no going on.
pub proof fn law_install_question_by_status(
    client: ClientBuild,
    target: Seq<char>,
    status: Result<RemoteServerStatus, Seq<char>>,
    live_handoff_enabled: bool,
    terminal: bool,
)
    ensures
        ({
            let verdict = install_question(
                client,
                target,
                status,
                live_handoff_enabled,
                terminal,
            ).1;
            match status {
                Ok(RemoteServerStatus::NotRunning) => verdict == VerdictModel::Settled(false),
                Ok(RemoteServerStatus::Running { live_handoff, .. }) => {
                    if live_handoff && live_handoff_enabled {
                        verdict == VerdictModel::Settled(false)
                    } else if terminal {
                        verdict is Ask && text::mentions(verdict->Ask_0, client.version@)
                    } else {
                        verdict is Refuse && text::mentions(verdict->Refuse_0.message, target)
                    }
                },
                Err(cause) => {
                    if terminal {
                        verdict is Ask
                    } else {
                        verdict is Refuse && text::mentions(verdict->Refuse_0.message, target)
                            && text::mentions(verdict->Refuse_0.message, cause)
                    }
                },
            }
        }),
{
    let verdict = install_question(client, target, status, live_handoff_enabled, terminal).1;
    match status {
        Ok(RemoteServerStatus::Running { version, .. }) => {
            text::lemma_mentions(
                "Install "@,
                client.version@,
                " and stop the remote server now? [y/N] "@,
            );
            let back = " is running v"@ + label(version.deep_view())
                + "; run from an interactive terminal to approve stopping it for the update"@;
            text::lemma_mentions("remote herdr server on "@, target, back);
            assert("remote herdr server on "@ + target + " is running v"@ + label(
                version.deep_view(),
            ) + "; run from an interactive terminal to approve stopping it for the update"@
                =~= "remote herdr server on "@ + target + back);
        },
        Err(cause) => {
            let head = "could not inspect the running remote herdr server on "@;
            let tail = "; run from an interactive terminal to approve updating the remote binary"@;
            let behind = " before installing: "@ + cause + tail;
            text::lemma_mentions(head, target, behind);
            text::lemma_mentions(head + target + " before installing: "@, cause, tail);
            assert(head + target + " before installing: "@ + cause + tail =~= head + target
                + behind);
        },
        _ => {},
    }
}

/// Before a server is stopped a user at a terminal is asked. Without a terminal a server
/// goes on that this client can attach to, and there is no going on with any other.
pub proof fn law_stop_question_by_reason(
    client: ClientBuild,
    target: Seq<char>,
    version: Option<Seq<char>>,
    reason: RemoteServerRestartReason,
    terminal: bool,
)
    ensures
        ({
            let verdict = stop_question(client, target, version, reason, terminal).1;
            if terminal {
                verdict == VerdictModel::Ask(stop_prompt(reason))
            } else if reason is ProtocolMismatch {
                verdict is Refuse && text::mentions(verdict->Refuse_0.message, target)
            } else {
                verdict == VerdictModel::Settled(false)
            }
        }),
{
    text::lemma_mentions(
        "remote herdr server on "@,
        target,
        " must stop before this client can attach; run from an interactive terminal to approve stopping it"@,
    );
}

/// Where a running server is described, the first line names the host, and the second one
/// the server's version as it is known.
pub proof fn law_running_server_is_described(
    client: ClientBuild,
    target: Seq<char>,
    version: Seq<char>,
    reason: RemoteServerRestartReason,
)
    ensures
        ({
            let lines = stop_question(client, target, Some(version), reason, true).0;
            &&& lines.len() > 2
            &&& text::mentions(lines[0], target)
            &&& text::ends_in(lines[1], version)
            &&& text::ends_in(lines[2], client.version@)
        }),
{
    text::lemma_mentions("remote herdr server on "@, target, " is currently running:"@);
    text::law_begins_and_ends(version, version, "  server: v"@);
    text::law_begins_and_ends(client.version@, client.version@, "  prepared binary: "@);
}

/// Before a binary is installed a user at a terminal reads which version is missing and on
/// which host, and is asked about the source and the place of the binary.
pub proof fn law_install_approval_names_what_is_installed(
    client: ClientBuild,
    target: Seq<char>,
    herdr: host::HerdrModel,
    source_description: Seq<char>,
)
    ensures
        ({
            let (lines, verdict) = install_approval(
                client,
                target,
                herdr,
                source_description,
                true,
            );
            &&& lines.len() == 1
            &&& text::mentions(lines[0], client.version@)
            &&& text::mentions(lines[0], target)
            &&& verdict is Ask
            &&& text::mentions(verdict->Ask_0, source_description)
            &&& text::mentions(verdict->Ask_0, herdr.shell_path)
            &&& text::ends_in(verdict->Ask_0, "[Y/n] "@)
        }),
{
    reveal_strlit("[Y/n] ");
    reveal_strlit("? [Y/n] ");
    let asset = host::asset_name(herdr.platform);
    let first = "matching herdr "@;
    let on = " is not installed on "@;
    let end = " for "@ + asset + "."@;
    let line = first + client.version@ + on + target + " for "@ + asset + "."@;
    text::lemma_mentions(first, client.version@, on + target + end);
    assert(first + client.version@ + (on + target + end) =~= line);
    text::lemma_mentions(first + client.version@ + on, target, end);
    assert(first + client.version@ + on + target + end =~= line);
    let prompt = "Install "@ + source_description + " to "@ + herdr.shell_path + "? [Y/n] "@;
    text::lemma_mentions(
        "Install "@,
        source_description,
        " to "@ + herdr.shell_path + "? [Y/n] "@,
    );
    assert("Install "@ + source_description + (" to "@ + herdr.shell_path + "? [Y/n] "@)
        =~= prompt);
    text::lemma_mentions(
        "Install "@ + source_description + " to "@,
        herdr.shell_path,
        "? [Y/n] "@,
    );
    assert("? [Y/n] "@.skip(2) =~= "[Y/n] "@);
    assert(prompt.skip(prompt.len() - 6) =~= "[Y/n] "@);
}

/// A version that is known is called as it is, and one that is not `unknown`.
pub proof fn law_version_label(version: Seq<char>)
    ensures
        label(Some(version)) == version,
        label(None) == "unknown"@,
{
}

/// Each reason is told in words of its own: that this client cannot attach, that the server
/// may not survive the loss of the connection, that its binary was replaced, or that it is of
/// another version.
pub proof fn law_reason_is_told(reason: RemoteServerRestartReason)
    ensures
        reason is ProtocolMismatch ==> text::mentions(
            reason_line(reason),
            "must stop before this client can attach"@,
        ),
        reason is DaemonDetachMissing ==> text::mentions(
            reason_line(reason),
            "may not survive SSH connection loss"@,
        ),
        reason is BinaryUpdated ==> text::mentions(
            reason_line(reason),
            "binary was installed or replaced"@,
        ),
        reason is VersionMismatch ==> text::mentions(
            reason_line(reason),
            "running a different herdr version"@,
        ),
{
    match reason {
        RemoteServerRestartReason::ProtocolMismatch => {
            reveal_strlit("the remote server must stop before this client can attach.");
            reveal_strlit("the remote server ");
            reveal_strlit("must stop before this client can attach");
            reveal_strlit(".");
            assert(reason_line(reason) =~= "the remote server "@
                + "must stop before this client can attach"@ + "."@);
            text::lemma_mentions(
                "the remote server "@,
                "must stop before this client can attach"@,
                "."@,
            );
        },
        RemoteServerRestartReason::DaemonDetachMissing => {
            reveal_strlit(
                "the remote server was started by a herdr build that may not survive SSH connection loss. restart it so network drops disconnect only this client.",
            );
            reveal_strlit("the remote server was started by a herdr build that ");
            reveal_strlit("may not survive SSH connection loss");
            reveal_strlit(". restart it so network drops disconnect only this client.");
            assert(reason_line(reason) =~= "the remote server was started by a herdr build that "@
                + "may not survive SSH connection loss"@
                + ". restart it so network drops disconnect only this client."@);
            text::lemma_mentions(
                "the remote server was started by a herdr build that "@,
                "may not survive SSH connection loss"@,
                ". restart it so network drops disconnect only this client."@,
            );
        },
        RemoteServerRestartReason::BinaryUpdated => {
            reveal_strlit(
                "the remote herdr binary was installed or replaced. restart the remote server so it uses the prepared binary.",
            );
            reveal_strlit("the remote herdr ");
            reveal_strlit("binary was installed or replaced");
            reveal_strlit(". restart the remote server so it uses the prepared binary.");
            assert(reason_line(reason) =~= "the remote herdr "@
                + "binary was installed or replaced"@
                + ". restart the remote server so it uses the prepared binary."@);
            text::lemma_mentions(
                "the remote herdr "@,
                "binary was installed or replaced"@,
                ". restart the remote server so it uses the prepared binary."@,
            );
        },
        RemoteServerRestartReason::VersionMismatch => {
            reveal_strlit(
                "the remote server is still running a different herdr version. restart it so it uses the prepared binary.",
            );
            reveal_strlit("the remote server is still ");
            reveal_strlit("running a different herdr version");
            reveal_strlit(". restart it so it uses the prepared binary.");
            assert(reason_line(reason) =~= "the remote server is still "@
                + "running a different herdr version"@
                + ". restart it so it uses the prepared binary."@);
            text::lemma_mentions(
                "the remote server is still "@,
                "running a different herdr version"@,
                ". restart it so it uses the prepared binary."@,
            );
        },
    }
}

/// A user at a terminal who is asked about a stop reads the reason last. Without a terminal
/// the line about a server that goes on tells the host, its version and the version that it
/// will have.
pub proof fn law_stop_question_tells_the_reason(
    client: ClientBuild,
    target: Seq<char>,
    version: Option<Seq<char>>,
    reason: RemoteServerRestartReason,
)
    ensures
        stop_question(client, target, version, reason, true).0.last() == reason_line(reason),
        reason is ProtocolMismatch ==> stop_question(
            client,
            target,
            version,
            reason,
            false,
        ).0.len() == 0,
        !(reason is ProtocolMismatch) ==> {
            let lines = stop_question(client, target, version, reason, false).0;
            &&& lines.len() == 1
            &&& text::mentions(lines[0], target)
            &&& text::mentions(lines[0], label(version))
            &&& text::mentions(lines[0], client.version@)
        },
{
    let head = "remote herdr server on "@;
    let one = " is still running v"@;
    let two = "; it will use "@;
    let three = " after it restarts."@;
    let known = label(version);
    let new = client.version@;
    let all = head + target + one + known + two + new + three;
    text::lemma_mentions(head, target, one + known + two + new + three);
    assert(head + target + (one + known + two + new + three) =~= all);
    text::lemma_mentions(head + target + one, known, two + new + three);
    assert(head + target + one + known + (two + new + three) =~= all);
    text::lemma_mentions(head + target + one + known + two, new, three);
}

/// A user at a terminal reads of the running server before anything is installed under it:
/// the host and the server's version, and where it hands over the version that it will have.
/// Of a server whose status could not be had, the host and the cause are told.
pub proof fn law_install_question_describes_the_server(
    client: ClientBuild,
    target: Seq<char>,
    version: Option<String>,
    protocol: Option<u32>,
    live_handoff: bool,
    detached_server_daemon: bool,
    live_handoff_enabled: bool,
    cause: Seq<char>,
)
    ensures
        ({
            let status = RemoteServerStatus::Running {
                version,
                protocol,
                live_handoff,
                detached_server_daemon,
            };
            let lines = install_question(client, target, Ok(status), live_handoff_enabled, true).0;
            &&& lines.len() >= 3
            &&& text::mentions(lines[0], target)
            &&& text::ends_in(lines[1], label(version.deep_view()))
            &&& live_handoff && live_handoff_enabled ==> text::mentions(lines[2], client.version@)
        }),
        ({
            let lines = install_question(client, target, Err(cause), live_handoff_enabled, true).0;
            &&& lines.len() == 1
            &&& text::mentions(lines[0], target)
            &&& text::ends_in(lines[0], cause)
        }),
{
    let known = label(version.deep_view());
    text::lemma_mentions("remote herdr server on "@, target, " is currently running:"@);
    text::law_begins_and_ends(known, known, "  server: v"@);
    text::lemma_mentions(
        "Herdr will install "@,
        client.version@,
        " and hand off live pane processes to the prepared server."@,
    );
    let head = "could not inspect the running remote herdr server on "@;
    let middle = " before installing: "@;
    text::lemma_mentions(head, target, middle + cause);
    assert(head + target + (middle + cause) =~= head + target + middle + cause);
    text::law_begins_and_ends(cause, cause, head + target + middle);
}

} // verus!
