//! Making the server of a remote host ready for this client, step by step: what is
//! asked of the host and of the user, and what each answer leads to.
use crate::host::ClientBuild;
use crate::host::RemoteHerdr;
use crate::report::CommandOutput;
use crate::report::ErrorKind;
use crate::report::Failure;
use crate::report::RemoteError;
use crate::report::command_failed;
use crate::report;
use crate::server::RemoteServerRestartReason;
use crate::server::RemoteServerStatus;
use crate::server::Verdict;
use crate::server::answer_server_stop;
use crate::server::confirm_remote_server_stop;
use crate::server::remote_server_restart_reason;
use crate::server::server_status_command;
use crate::server::server_stop_prompt;
use crate::server::text_of;
use crate::server;
use crate::shell;
use crate::text::decimal_text;
use crate::text;
use vstd::prelude::*;
use vstd::string::*;

verus! {

/// How long a server that was asked to stop is given, in seconds.
pub const REMOTE_SERVER_SHUTDOWN_CONFIRM_TIMEOUT: u64 = 5;

/// The time between two looks at a server that was asked to stop, in milliseconds.
pub const REMOTE_SERVER_SHUTDOWN_POLL_INTERVAL: u64 = 100;

/// What is to be made ready, and how.
#[derive(Debug)]
pub struct ServerTask {
    pub client: ClientBuild,
    /// The ssh destination.
    pub target: String,
    /// The binary that the server should run.
    pub remote_herdr: RemoteHerdr,
    /// Whether that binary was installed or replaced.
    pub remote_binary_changed: bool,
    /// Whether the user agreed to stop the server before the binary was installed.
    pub stop_approved: bool,
    /// Whether a handoff may be tried.
    pub live_handoff_enabled: bool,
    /// Whether the user can be asked.
    pub terminal: bool,
}

/// How far making a server ready has come.
#[derive(Debug, Clone, PartialEq, Eq)]
pub enum ServerStage {
    /// Its status is wanted.
    Status,
    /// It is to hand over.
    Handoff { version: Option<String>, reason: RemoteServerRestartReason },
    /// The user is to say whether it is stopped.
    Confirm { reason: RemoteServerRestartReason },
    /// It is to stop.
    Stop,
    /// It should have stopped, and its status is wanted again.
    Poll,
    /// It is ready, or will be when it is started.
    Ready,
    /// It cannot be made ready.
    Failed(Failure),
}

/// A stage as its text.
#[verifier::ext_equal]
pub enum StageModel {
    Status,
    Handoff { version: Option<Seq<char>>, reason: RemoteServerRestartReason },
    Confirm { reason: RemoteServerRestartReason },
    Stop,
    Poll,
    Ready,
    Failed(report::FailureModel),
}

impl DeepView for ServerStage {
    type V = StageModel;

    open spec fn deep_view(&self) -> StageModel {
        match self {
            ServerStage::Status => StageModel::Status,
            ServerStage::Handoff { version, reason } => StageModel::Handoff {
                version: version.deep_view(),
                reason: *reason,
            },
            ServerStage::Confirm { reason } => StageModel::Confirm { reason: *reason },
            ServerStage::Stop => StageModel::Stop,
            ServerStage::Poll => StageModel::Poll,
            ServerStage::Ready => StageModel::Ready,
            ServerStage::Failed(failure) => StageModel::Failed(failure.deep_view()),
        }
    }
}

/// What a stage asks for.
#[derive(Debug, Clone, PartialEq, Eq)]
pub enum ServerRequest {
    /// The status that this command tells.
    Status(String),
    /// The output of this command.
    Run(String),
    /// The user's answer to this prompt.
    Ask(String),
    /// Nothing more.
    Nothing,
}

/// A request as its text.
pub enum RequestModel {
    Status(Seq<char>),
    Run(Seq<char>),
    Ask(Seq<char>),
    Nothing,
}

impl DeepView for ServerRequest {
    type V = RequestModel;

    open spec fn deep_view(&self) -> RequestModel {
        match self {
            ServerRequest::Status(command) => RequestModel::Status(command@),
            ServerRequest::Run(command) => RequestModel::Run(command@),
            ServerRequest::Ask(prompt) => RequestModel::Ask(prompt@),
            ServerRequest::Nothing => RequestModel::Nothing,
        }
    }
}

/// The command that has a server hand its panes over to a new one.
pub open spec fn handoff_command(task: ServerTask) -> Seq<char> {
    task.remote_herdr.shell_path@ + " server live-handoff --import-exe "@
        + task.remote_herdr.shell_path@ + " --expected-protocol "@ + text::decimal(
        task.client.protocol as nat,
    ) + " --expected-version "@ + task.client.version@
}

/// What a stage asks for.
pub open spec fn request_of(task: ServerTask, stage: StageModel) -> RequestModel {
    match stage {
        StageModel::Status | StageModel::Poll => RequestModel::Status(
            task.remote_herdr.shell_path@ + " status server --json"@,
        ),
        StageModel::Handoff { .. } => RequestModel::Run(handoff_command(task)),
        StageModel::Confirm { reason } => RequestModel::Ask(server::stop_prompt(reason)),
        StageModel::Stop => RequestModel::Run(
            task.remote_herdr.shell_path@ + " server stop"@,
        ),
        StageModel::Ready | StageModel::Failed(_) => RequestModel::Nothing,
    }
}

/// What a stage asks for.
pub fn server_request(task: &ServerTask, stage: &ServerStage) -> (res: ServerRequest)
    ensures
        res.deep_view() == request_of(*task, stage.deep_view()),
{
    match stage {
        ServerStage::Status => ServerRequest::Status(server_status_command(&task.remote_herdr)),
        ServerStage::Poll => ServerRequest::Status(server_status_command(&task.remote_herdr)),
        ServerStage::Handoff { .. } => {
            let path = task.remote_herdr.shell_path.as_str();
            let mut command = path.to_string();
            command.append(" server live-handoff --import-exe ");
            command.append(path);
            command.append(" --expected-protocol ");
            command.append(decimal_text(task.client.protocol as u64).as_str());
            command.append(" --expected-version ");
            command.append(task.client.version.as_str());
            ServerRequest::Run(command)
        },
        ServerStage::Confirm { reason } => ServerRequest::Ask(
            server_stop_prompt(*reason).to_string(),
        ),
        ServerStage::Stop => {
            let mut command = task.remote_herdr.shell_path.clone();
            command.append(" server stop");
            ServerRequest::Run(command)
        },
        ServerStage::Ready => ServerRequest::Nothing,
        ServerStage::Failed(_) => ServerRequest::Nothing,
    }
}

/// What came of a request.
#[derive(Debug, Clone, PartialEq, Eq)]
pub enum ServerEvent {
    /// It failed.
    Lost { cause: String },
    /// A server's status, and whether the time that it was given to stop is over.
    Status { status: RemoteServerStatus, overdue: bool },
    /// The output of a command.
    Output(CommandOutput),
    /// A user's answer.
    Answer(String),
}

/// Where a server that has to go leads: to its stop where that was agreed to, and to
/// the question otherwise.
pub open spec fn settle(
    task: ServerTask,
    version: Option<Seq<char>>,
    reason: RemoteServerRestartReason,
) -> (Seq<Seq<char>>, StageModel) {
    if task.stop_approved {
        (Seq::empty(), StageModel::Stop)
    } else {
        let (say, verdict) = server::stop_question(
            task.client,
            task.target@,
            version,
            reason,
            task.terminal,
        );
        (
            say,
            match verdict {
                server::VerdictModel::Settled(stop) => if stop {
                    StageModel::Stop
                } else {
                    StageModel::Ready
                },
                server::VerdictModel::Ask(_) => StageModel::Confirm { reason },
                server::VerdictModel::Refuse(error) => StageModel::Failed(
                    report::FailureModel::Own(error),
                ),
            },
        )
    }
}

/// What the user reads of a handoff that failed.
pub open spec fn handoff_lines(cause: Seq<char>) -> Seq<Seq<char>> {
    seq!["remote live handoff failed: "@ + cause, "falling back to remote server restart."@]
}

/// The error about a server that goes on after it was asked to stop.
pub open spec fn still_running(target: Seq<char>) -> report::ErrorModel {
    report::ErrorModel {
        kind: ErrorKind::TimedOut,
        message: "shutdown was requested, but the old remote herdr server on "@ + target
            + " is still responding after "@ + text::decimal(
            REMOTE_SERVER_SHUTDOWN_CONFIRM_TIMEOUT as nat,
        ) + " seconds"@,
    }
}

/// Where a server's status leads: one that runs and should not go on hands over where
/// it can and may, and is settled otherwise.
pub open spec fn after_status(task: ServerTask, status: RemoteServerStatus) -> (
    Seq<Seq<char>>,
    StageModel,
) {
    match status {
        RemoteServerStatus::NotRunning => (Seq::empty(), StageModel::Ready),
        RemoteServerStatus::Running { version, protocol, live_handoff, detached_server_daemon } =>
        match server::restart_reason(
            task.client,
            version.deep_view(),
            protocol,
            detached_server_daemon,
            task.remote_binary_changed,
        ) {
            None => (Seq::empty(), StageModel::Ready),
            Some(reason) => if task.live_handoff_enabled && live_handoff {
                (Seq::empty(), StageModel::Handoff { version: version.deep_view(), reason })
            } else {
                settle(task, version.deep_view(), reason)
            },
        },
    }
}

/// Where an event leads: what the user reads, and the next stage. An event that a
/// stage did not ask for leaves it.
pub open spec fn next_stage(task: ServerTask, stage: StageModel, event: ServerEvent) -> (
    Seq<Seq<char>>,
    StageModel,
) {
    let cause = (
        Seq::<Seq<char>>::empty(),
        StageModel::Failed(report::FailureModel::Cause),
    );
    match (stage, event) {
        (StageModel::Status, ServerEvent::Status { status, .. }) => after_status(task, status),
        (StageModel::Status, ServerEvent::Lost { .. }) => cause,
        (StageModel::Handoff { version, reason }, ServerEvent::Output(output)) => if output.success {
            (
                seq![
                    "handed off the remote herdr server on "@ + task.target@
                        + "; reconnecting to the prepared server."@,
                ],
                StageModel::Ready,
            )
        } else {
            let (say, next) = settle(task, version, reason);
            (
                handoff_lines(
                    report::command_error("remote server live handoff failed"@, output).message,
                ) + say,
                next,
            )
        },
        (StageModel::Handoff { version, reason }, ServerEvent::Lost { cause }) => {
            let (say, next) = settle(task, version, reason);
            (handoff_lines(cause@) + say, next)
        },
        (StageModel::Confirm { reason }, ServerEvent::Answer(answer)) => (
            Seq::empty(),
            match server::stop_answer(reason, answer@) {
                Ok(true) => StageModel::Stop,
                Ok(false) => StageModel::Ready,
                Err(error) => StageModel::Failed(report::FailureModel::Own(error)),
            },
        ),
        (StageModel::Confirm { .. }, ServerEvent::Lost { .. }) => cause,
        (StageModel::Stop, ServerEvent::Output(output)) => (
            Seq::empty(),
            if output.success {
                StageModel::Poll
            } else {
                StageModel::Failed(
                    report::FailureModel::Own(
                        report::command_error("remote server stop failed"@, output),
                    ),
                )
            },
        ),
        (StageModel::Stop, ServerEvent::Lost { .. }) => cause,
        (StageModel::Poll, ServerEvent::Status { status, overdue }) => if status is NotRunning {
            (
                seq![
                    "stopped the remote herdr server on "@ + task.target@
                        + "; it will restart when the remote client bridge attaches."@,
                ],
                StageModel::Ready,
            )
        } else if overdue {
            (
                Seq::empty(),
                StageModel::Failed(report::FailureModel::Own(still_running(task.target@))),
            )
        } else {
            (Seq::empty(), StageModel::Poll)
        },
        (StageModel::Poll, ServerEvent::Lost { .. }) => cause,
        _ => (Seq::empty(), stage),
    }
}

/// Where a server that has to go leads: what the user reads, and the next stage.
fn settle_server(
    task: &ServerTask,
    say: &mut Vec<String>,
    version: Option<&str>,
    reason: RemoteServerRestartReason,
) -> (res: ServerStage)
    ensures
        ({
            let settled = settle(*task, version.deep_view(), reason);
            &&& final(say).deep_view() == old(say).deep_view() + settled.0
            &&& res.deep_view() == settled.1
        }),
{
    let ghost before = say.deep_view();
    if task.stop_approved {
        assert(before + Seq::<Seq<char>>::empty() =~= before);
        return ServerStage::Stop;
    }
    let (lines, verdict) = confirm_remote_server_stop(
        &task.client,
        task.target.as_str(),
        version,
        reason,
        task.terminal,
    );
    let ghost told = lines.deep_view();
    let mut lines = lines;
    say.append(&mut lines);
    assert(say.deep_view() =~= before + told);
    match verdict {
        Verdict::Settled(stop) => {
            if stop {
                ServerStage::Stop
            } else {
                ServerStage::Ready
            }
        },
        Verdict::Ask(_) => ServerStage::Confirm { reason },
        Verdict::Refuse(error) => ServerStage::Failed(Failure::Own(error)),
    }
}

fn push_handoff_lines(say: &mut Vec<String>, cause: &str)
    ensures
        final(say).deep_view() == old(say).deep_view() + handoff_lines(cause@),
{
    let ghost before = say.deep_view();
    let mut line = "remote live handoff failed: ".to_string();
    line.append(cause);
    say.push(line);
    say.push("falling back to remote server restart.".to_string());
    assert(say.deep_view() =~= before + handoff_lines(cause@));
}

/// Where a server's status leads: what the user reads, and the next stage.
fn step_from_status(task: &ServerTask, status: RemoteServerStatus) -> (res: (
    Vec<String>,
    ServerStage,
))
    ensures
        (res.0.deep_view(), res.1.deep_view()) == after_status(*task, status),
{
    let mut say: Vec<String> = Vec::new();
    assert(say.deep_view() =~= Seq::<Seq<char>>::empty());
    match status {
        RemoteServerStatus::NotRunning => (say, ServerStage::Ready),
        RemoteServerStatus::Running { version, protocol, live_handoff, detached_server_daemon } => {
            let reason = remote_server_restart_reason(
                &task.client,
                text_of(&version),
                protocol,
                detached_server_daemon,
                task.remote_binary_changed,
            );
            match reason {
                None => (say, ServerStage::Ready),
                Some(reason) => {
                    if task.live_handoff_enabled && live_handoff {
                        (say, ServerStage::Handoff { version, reason })
                    } else {
                        let stage = settle_server(task, &mut say, text_of(&version), reason);
                        assert(say.deep_view() =~= settle(
                            *task,
                            version.deep_view(),
                            reason,
                        ).0);
                        (say, stage)
                    }
                },
            }
        },
    }
}

/// Where an event leads: what the user reads, and the next stage. An event that a
/// stage did not ask for leaves it.
pub fn ensure_remote_server_ready(task: &ServerTask, stage: ServerStage, event: ServerEvent) -> (res: (
    Vec<String>,
    ServerStage,
))
    ensures
        (res.0.deep_view(), res.1.deep_view()) == next_stage(*task, stage.deep_view(), event),
{
    let mut say: Vec<String> = Vec::new();
    assert(say.deep_view() =~= Seq::<Seq<char>>::empty());
    let ghost next = next_stage(*task, stage.deep_view(), event);
    match (stage, event) {
        (ServerStage::Status, ServerEvent::Status { status, .. }) => step_from_status(task, status),
        (ServerStage::Status, ServerEvent::Lost { .. }) => (
            say,
            ServerStage::Failed(Failure::Cause),
        ),
        (ServerStage::Handoff { version, reason }, ServerEvent::Output(output)) => {
            if output.success {
                let mut line = "handed off the remote herdr server on ".to_string();
                line.append(task.target.as_str());
                line.append("; reconnecting to the prepared server.");
                say.push(line);
                assert(say.deep_view() =~= next.0);
                return (say, ServerStage::Ready);
            }
            let error = command_failed("remote server live handoff failed", &output);
            push_handoff_lines(&mut say, error.message.as_str());
            let stage = settle_server(task, &mut say, text_of(&version), reason);
            assert(say.deep_view() =~= next.0);
            (say, stage)
        },
        (ServerStage::Handoff { version, reason }, ServerEvent::Lost { cause }) => {
            push_handoff_lines(&mut say, cause.as_str());
            let stage = settle_server(task, &mut say, text_of(&version), reason);
            assert(say.deep_view() =~= next.0);
            (say, stage)
        },
        (ServerStage::Confirm { reason }, ServerEvent::Answer(answer)) => {
            let stage = match answer_server_stop(reason, answer.as_str()) {
                Ok(true) => ServerStage::Stop,
                Ok(false) => ServerStage::Ready,
                Err(error) => ServerStage::Failed(Failure::Own(error)),
            };
            (say, stage)
        },
        (ServerStage::Confirm { .. }, ServerEvent::Lost { .. }) => (
            say,
            ServerStage::Failed(Failure::Cause),
        ),
        (ServerStage::Stop, ServerEvent::Output(output)) => {
            if output.success {
                (say, ServerStage::Poll)
            } else {
                let error = command_failed("remote server stop failed", &output);
                (say, ServerStage::Failed(Failure::Own(error)))
            }
        },
        (ServerStage::Stop, ServerEvent::Lost { .. }) => (say, ServerStage::Failed(Failure::Cause)),
        (ServerStage::Poll, ServerEvent::Status { status, overdue }) => match status {
            RemoteServerStatus::NotRunning => {
                let mut line = "stopped the remote herdr server on ".to_string();
                line.append(task.target.as_str());
                line.append("; it will restart when the remote client bridge attaches.");
                say.push(line);
                assert(say.deep_view() =~= next.0);
                (say, ServerStage::Ready)
            },
            RemoteServerStatus::Running { .. } => {
                if overdue {
                    (say, ServerStage::Failed(Failure::Own(shutdown_overdue(task.target.as_str()))))
                } else {
                    (say, ServerStage::Poll)
                }
            },
        },
        (ServerStage::Poll, ServerEvent::Lost { .. }) => (say, ServerStage::Failed(Failure::Cause)),
        (stage, _) => (say, stage),
    }
}

fn shutdown_overdue(target: &str) -> (res: RemoteError)
    ensures
        res.deep_view() == still_running(target@),
{
    let mut message =
        "shutdown was requested, but the old remote herdr server on ".to_string();
    message.append(target);
    message.append(" is still responding after ");
    message.append(decimal_text(REMOTE_SERVER_SHUTDOWN_CONFIRM_TIMEOUT).as_str());
    message.append(" seconds");
    RemoteError { kind: ErrorKind::TimedOut, message }
}

/// The stage that a series of events leads to.
pub open spec fn stage_after(task: ServerTask, stage: StageModel, events: Seq<ServerEvent>) -> StageModel
    decreases events.len(),
{
    if events.len() == 0 {
        stage
    } else {
        next_stage(task, stage_after(task, stage, events.drop_last()), events.last()).1
    }
}

/// Whether the user agreed to the stop of the server: before the binary was installed,
/// or by one of the answers.
pub open spec fn stop_agreed(task: ServerTask, events: Seq<ServerEvent>) -> bool {
    task.stop_approved || exists|i: int| 0 <= i < events.len() && agrees(#[trigger] events[i])
}

/// Whether an event is an answer that does not decline.
pub open spec fn agrees(event: ServerEvent) -> bool {
    event matches ServerEvent::Answer(answer) && (server::says_yes(answer@)
        || server::plain_answer(answer@).len() == 0)
}

/// A server is asked to stop only where the user agreed to it, whatever the host and
/// the user answer.
pub proof fn law_server_stops_only_with_consent(task: ServerTask, events: Seq<ServerEvent>)
    ensures
        ({
            let stage = stage_after(task, StageModel::Status, events);
            (stage is Stop || stage is Poll) ==> stop_agreed(task, events)
        }),
    decreases events.len(),
{
    if events.len() > 0 {
        let front = events.drop_last();
        let last = events.last();
        law_server_stops_only_with_consent(task, front);
        let before = stage_after(task, StageModel::Status, front);
        if stop_agreed(task, front) && !task.stop_approved {
            let i = choose|i: int| 0 <= i < front.len() && agrees(#[trigger] front[i]);
            assert(agrees(events[i]));
        }
        if before is Confirm && last is Answer {
            let after = stage_after(task, StageModel::Status, events);
            if after is Stop {
                assert(agrees(events[events.len() - 1]));
            }
        }
    }
}

/// A server hands over only where that may be tried, and the user is asked only at a
/// terminal.
pub proof fn law_handoff_and_questions_are_allowed(task: ServerTask, events: Seq<ServerEvent>)
    ensures
        ({
            let stage = stage_after(task, StageModel::Status, events);
            &&& stage is Handoff ==> task.live_handoff_enabled
            &&& stage is Confirm ==> task.terminal
        }),
    decreases events.len(),
{
    if events.len() > 0 {
        law_handoff_and_questions_are_allowed(task, events.drop_last());
    }
}

/// A server that runs and has nothing against it is left alone: its status is all that
/// is asked for, and the user reads nothing.
pub proof fn law_compatible_server_is_left_alone(
    task: ServerTask,
    status: RemoteServerStatus,
    overdue: bool,
)
    requires
        match status {
            RemoteServerStatus::NotRunning => true,
            RemoteServerStatus::Running { version, protocol, detached_server_daemon, .. } => {
                protocol == Some(task.client.protocol) && detached_server_daemon
                    && version.deep_view() == Some(task.client.version@)
                    && !task.remote_binary_changed
            },
        },
    ensures
        next_stage(task, StageModel::Status, ServerEvent::Status { status, overdue }) == (
            Seq::<Seq<char>>::empty(),
            StageModel::Ready,
        ),
{
}

/// A server that was asked to stop counts as stopped only when its status says so.
pub proof fn law_stopped_server_does_not_run(task: ServerTask, event: ServerEvent)
    ensures
        next_stage(task, StageModel::Poll, event).1 is Ready ==> (event matches ServerEvent::Status {
            status,
            ..
        } && status is NotRunning),
{
}

/// Whether an event answers what a stage asks for.
pub open spec fn answers_request(stage: StageModel, event: ServerEvent) -> bool {
    match stage {
        StageModel::Status | StageModel::Poll => event is Status || event is Lost,
        StageModel::Handoff { .. } | StageModel::Stop => event is Output || event is Lost,
        StageModel::Confirm { .. } => event is Answer || event is Lost,
        StageModel::Ready | StageModel::Failed(_) => false,
    }
}

/// How many answers a stage is away from the end at most, but for looks at a server
/// that still has time to stop.
pub open spec fn answers_left(stage: StageModel) -> int {
    match stage {
        StageModel::Status => 5,
        StageModel::Handoff { .. } => 4,
        StageModel::Confirm { .. } => 3,
        StageModel::Stop => 2,
        StageModel::Poll => 1,
        StageModel::Ready | StageModel::Failed(_) => 0,
    }
}

/// Every answer brings a server nearer to being ready or given up, except that a server
/// which goes on is looked at again while its time to stop is not over.
pub proof fn law_server_task_advances(task: ServerTask, stage: StageModel, event: ServerEvent)
    requires
        answers_request(stage, event),
    ensures
        0 <= answers_left(next_stage(task, stage, event).1) < answers_left(stage) || (stage is Poll
            && next_stage(task, stage, event).1 is Poll && event->Status_overdue == false),
{
}

/// A running server that has something against it, whatever that is, is to hand over where
/// it can and may, before anything else is tried and without a word to the user.
pub proof fn law_able_server_hands_over(
    task: ServerTask,
    version: Option<String>,
    protocol: Option<u32>,
    detached_server_daemon: bool,
    overdue: bool,
)
    requires
        task.live_handoff_enabled,
        !(protocol == Some(task.client.protocol) && detached_server_daemon && version.deep_view()
            == Some(task.client.version@) && !task.remote_binary_changed),
    ensures
        ({
            let status = RemoteServerStatus::Running {
                version,
                protocol,
                live_handoff: true,
                detached_server_daemon,
            };
            let (say, next) = next_stage(
                task,
                StageModel::Status,
                ServerEvent::Status { status, overdue },
            );
            &&& say.len() == 0
            &&& next matches StageModel::Handoff { version: told, reason } && told
                == version.deep_view() && Some(reason) == server::restart_reason(
                task.client,
                version.deep_view(),
                protocol,
                detached_server_daemon,
                task.remote_binary_changed,
            )
        }),
{
}

/// A running server that has something against it and cannot or may not hand over is stopped
/// where the user agreed to that before. Otherwise a user at a terminal is asked. Without a
/// terminal it is left where this client can attach to it, and given up where it cannot.
pub proof fn law_server_without_handoff_is_settled(
    task: ServerTask,
    version: Option<String>,
    protocol: Option<u32>,
    live_handoff: bool,
    detached_server_daemon: bool,
    overdue: bool,
)
    requires
        !(task.live_handoff_enabled && live_handoff),
        !(protocol == Some(task.client.protocol) && detached_server_daemon && version.deep_view()
            == Some(task.client.version@) && !task.remote_binary_changed),
    ensures
        ({
            let status = RemoteServerStatus::Running {
                version,
                protocol,
                live_handoff,
                detached_server_daemon,
            };
            let next = next_stage(
                task,
                StageModel::Status,
                ServerEvent::Status { status, overdue },
            ).1;
            if task.stop_approved {
                next is Stop
            } else if task.terminal {
                next matches StageModel::Confirm { reason } && Some(reason)
                    == server::restart_reason(
                    task.client,
                    version.deep_view(),
                    protocol,
                    detached_server_daemon,
                    task.remote_binary_changed,
                )
            } else if protocol == Some(task.client.protocol) {
                next is Ready
            } else {
                next matches StageModel::Failed(report::FailureModel::Own(error))
                    && error.kind is Other
            }
        }),
{
}

/// A handoff that succeeds leaves a server that is ready. One that fails leads where the
/// server's status would have led if no handoff might be tried, and the user reads why it
/// failed first.
pub proof fn law_failed_handoff_falls_back(
    task: ServerTask,
    version: Option<String>,
    protocol: Option<u32>,
    detached_server_daemon: bool,
    overdue: bool,
    output: CommandOutput,
    cause: String,
)
    requires
        !(protocol == Some(task.client.protocol) && detached_server_daemon && version.deep_view()
            == Some(task.client.version@) && !task.remote_binary_changed),
        task.live_handoff_enabled,
    ensures
        ({
            let status = RemoteServerStatus::Running {
                version,
                protocol,
                live_handoff: true,
                detached_server_daemon,
            };
            let asked = ServerEvent::Status { status, overdue };
            let stage = next_stage(task, StageModel::Status, asked).1;
            let without = next_stage(
                ServerTask { live_handoff_enabled: false, ..task },
                StageModel::Status,
                asked,
            );
            let failed = next_stage(task, stage, ServerEvent::Output(output));
            let lost = next_stage(task, stage, ServerEvent::Lost { cause });
            &&& output.success ==> failed.1 is Ready
            &&& !output.success ==> failed.1 == without.1 && failed.0.len() == 2 + without.0.len()
                && failed.0.skip(2) == without.0
            &&& lost.1 == without.1
            &&& lost.0.len() == 2 + without.0.len()
            &&& lost.0.skip(2) == without.0
            &&& text::ends_in(lost.0[0], cause@)
        }),
{
    let status = RemoteServerStatus::Running {
        version,
        protocol,
        live_handoff: true,
        detached_server_daemon,
    };
    let asked = ServerEvent::Status { status, overdue };
    let stage = next_stage(task, StageModel::Status, asked).1;
    let other = ServerTask { live_handoff_enabled: false, ..task };
    let without = next_stage(other, StageModel::Status, asked);
    let reason = stage->Handoff_reason;
    assert(settle(other, version.deep_view(), reason) == settle(task, version.deep_view(), reason));
    let failed = next_stage(task, stage, ServerEvent::Output(output));
    let lost = next_stage(task, stage, ServerEvent::Lost { cause });
    if !output.success {
        assert(failed.0.skip(2) =~= without.0);
    }
    assert(lost.0.skip(2) =~= without.0);
    text::law_begins_and_ends(cause@, cause@, "remote live handoff failed: "@);
}

/// A user who agrees has the server stopped. One who does not leaves a server that this
/// client can attach to as it is. Where it cannot attach, only an empty answer agrees too,
/// and any other gives up.
pub proof fn law_answers_to_the_stop_question(
    task: ServerTask,
    reason: RemoteServerRestartReason,
    answer: String,
)
    ensures
        ({
            let next = next_stage(
                task,
                StageModel::Confirm { reason },
                ServerEvent::Answer(answer),
            ).1;
            if server::says_yes(answer@) || (reason is ProtocolMismatch && text::trimmed(
                answer@,
            ).len() == 0) {
                next is Stop
            } else if reason is ProtocolMismatch {
                next matches StageModel::Failed(report::FailureModel::Own(error))
                    && error.kind is Interrupted
            } else {
                next is Ready
            }
        }),
{
    server::law_stop_answers(reason, answer@);
}

/// A server that took the request to stop is looked at until it does not run, which makes it
/// ready, or its time is over, which gives it up. One that did not take the request is given
/// up at once.
pub proof fn law_stop_is_awaited(
    task: ServerTask,
    output: CommandOutput,
    status: RemoteServerStatus,
    overdue: bool,
)
    ensures
        ({
            let asked = next_stage(task, StageModel::Stop, ServerEvent::Output(output)).1;
            if output.success {
                asked is Poll
            } else {
                asked matches StageModel::Failed(report::FailureModel::Own(error))
                    && error.kind is Other
            }
        }),
        ({
            let seen = next_stage(
                task,
                StageModel::Poll,
                ServerEvent::Status { status, overdue },
            ).1;
            if status is NotRunning {
                seen is Ready
            } else if overdue {
                seen matches StageModel::Failed(report::FailureModel::Own(error))
                    && error.kind is TimedOut
            } else {
                seen is Poll
            }
        }),
{
}

/// A request that fails is passed on as it failed, except that a failed handoff is fallen
/// back from. An event that a stage did not ask for changes nothing.
pub proof fn law_failed_requests_are_passed_on(
    task: ServerTask,
    stage: StageModel,
    event: ServerEvent,
    cause: String,
)
    ensures
        (stage is Status || stage is Confirm || stage is Stop || stage is Poll) ==> next_stage(
            task,
            stage,
            ServerEvent::Lost { cause },
        ) == (Seq::<Seq<char>>::empty(), StageModel::Failed(report::FailureModel::Cause)),
        ({
            let foreign = match event {
                ServerEvent::Lost { .. } => stage is Ready || stage is Failed,
                ServerEvent::Status { .. } => !(stage is Status || stage is Poll),
                ServerEvent::Output(_) => !(stage is Handoff || stage is Stop),
                ServerEvent::Answer(_) => !(stage is Confirm),
            };
            foreign ==> next_stage(task, stage, event) == (Seq::<Seq<char>>::empty(), stage)
        }),
{
}

/// The commands that a server is asked with are read by a shell of the host, where the
/// binary was found at `path`, as the words that run that binary: for its status, its stop,
/// and a handoff to the same binary with this client's protocol and version.
pub proof fn law_server_commands_read_back(task: ServerTask, path: Seq<char>, stage: StageModel)
    requires
        task.remote_herdr.shell_path@ == shell::shell_quoted(path),
        shell::bare_word(task.client.version@),
    ensures
        (stage is Status || stage is Poll) ==> (request_of(task, stage) matches RequestModel::Status(
            command,
        ) && shell::shell_words(command, None, false) == Some(
            seq![path, "status"@, "server"@, "--json"@],
        )),
        stage is Stop ==> (request_of(task, stage) matches RequestModel::Run(command)
            && shell::shell_words(command, None, false) == Some(seq![path, "server"@, "stop"@])),
        stage is Handoff ==> (request_of(task, stage) matches RequestModel::Run(command)
            && shell::shell_words(command, None, false) == Some(
            seq![
                path,
                "server"@,
                "live-handoff"@,
                "--import-exe"@,
                path,
                "--expected-protocol"@,
                text::decimal(task.client.protocol as nat),
                "--expected-version"@,
                task.client.version@,
            ],
        )),
        stage is Confirm ==> request_of(task, stage) is Ask,
        (stage is Ready || stage is Failed) ==> request_of(task, stage) is Nothing,
{
    reveal_strlit("status");
    reveal_strlit("server");
    reveal_strlit("--json");
    reveal_strlit(" status server --json");
    reveal_strlit("stop");
    reveal_strlit(" server stop");
    reveal_strlit("live-handoff");
    reveal_strlit("--import-exe");
    reveal_strlit(" server live-handoff --import-exe ");
    reveal_strlit("--expected-protocol");
    reveal_strlit(" --expected-protocol ");
    reveal_strlit("--expected-version");
    reveal_strlit(" --expected-version ");
    let quoted = shell::shell_quoted(path);
    let space = seq![' '];
    let program = seq![path];
    assert(shell::quoted_line(program) == quoted);
    assert(shell::bare_word("status"@));
    assert(shell::bare_word("server"@));
    assert(shell::bare_word("--json"@));
    assert(shell::bare_word("stop"@));
    assert(shell::bare_word("live-handoff"@));
    assert(shell::bare_word("--import-exe"@));
    assert(shell::bare_word("--expected-protocol"@));
    assert(shell::bare_word("--expected-version"@));
    let protocol = text::decimal(task.client.protocol as nat);
    text::law_decimal_reads_back(task.client.protocol as nat);
    assert(shell::bare_word(protocol)) by {
        assert forall|i: int| 0 <= i < protocol.len() implies shell::bare_char(
            #[trigger] protocol[i],
        ) by {
            shell::law_bare_characters(protocol[i]);
        }
    }
    if stage is Status || stage is Poll {
        let two = program.push("status"@);
        let three = two.push("server"@);
        let four = three.push("--json"@);
        shell::lemma_quoted_line_push(program, "status"@);
        shell::lemma_quoted_line_push(two, "server"@);
        shell::lemma_quoted_line_push(three, "--json"@);
        assert(" status server --json"@ =~= space + "status"@ + space + "server"@ + space
            + "--json"@);
        assert(shell::quoted_line(four) =~= quoted + " status server --json"@);
        shell::law_quoted_line_reads_back(four);
        assert(four =~= seq![path, "status"@, "server"@, "--json"@]);
    }
    if stage is Stop {
        let two = program.push("server"@);
        let three = two.push("stop"@);
        shell::lemma_quoted_line_push(program, "server"@);
        shell::lemma_quoted_line_push(two, "stop"@);
        assert(" server stop"@ =~= space + "server"@ + space + "stop"@);
        assert(shell::quoted_line(three) =~= quoted + " server stop"@);
        shell::law_quoted_line_reads_back(three);
        assert(three =~= seq![path, "server"@, "stop"@]);
    }
    if stage is Handoff {
        let version = task.client.version@;
        let w2 = program.push("server"@);
        let w3 = w2.push("live-handoff"@);
        let w4 = w3.push("--import-exe"@);
        let w5 = w4.push(path);
        let w6 = w5.push("--expected-protocol"@);
        let w7 = w6.push(protocol);
        let w8 = w7.push("--expected-version"@);
        let w9 = w8.push(version);
        shell::lemma_quoted_line_push(program, "server"@);
        shell::lemma_quoted_line_push(w2, "live-handoff"@);
        shell::lemma_quoted_line_push(w3, "--import-exe"@);
        shell::lemma_quoted_line_push(w4, path);
        shell::lemma_quoted_line_push(w5, "--expected-protocol"@);
        shell::lemma_quoted_line_push(w6, protocol);
        shell::lemma_quoted_line_push(w7, "--expected-version"@);
        shell::lemma_quoted_line_push(w8, version);
        assert(" server live-handoff --import-exe "@ =~= space + "server"@ + space
            + "live-handoff"@ + space + "--import-exe"@ + space);
        assert(" --expected-protocol "@ =~= space + "--expected-protocol"@ + space);
        assert(" --expected-version "@ =~= space + "--expected-version"@ + space);
        assert(shell::quoted_line(w5) =~= quoted + " server live-handoff --import-exe "@ + quoted);
        assert(shell::quoted_line(w7) =~= shell::quoted_line(w5) + " --expected-protocol "@
            + protocol);
        assert(shell::quoted_line(w9) =~= shell::quoted_line(w7) + " --expected-version "@
            + version);
        assert(shell::quoted_line(w9) == handoff_command(task));
        shell::law_quoted_line_reads_back(w9);
        assert(w9 =~= seq![
            path,
            "server"@,
            "live-handoff"@,
            "--import-exe"@,
            path,
            "--expected-protocol"@,
            protocol,
            "--expected-version"@,
            version,
        ]);
    }
}

/// The error about a server that goes on tells the host and how long the server was given.
pub proof fn law_overdue_server_is_told(target: Seq<char>)
    ensures
        still_running(target).kind is TimedOut,
        text::mentions(still_running(target).message, target),
        text::ends_in(still_running(target).message, " after "@ + text::decimal(5) + " seconds"@),
{
    reveal_strlit(" is still responding after ");
    reveal_strlit(" after ");
    reveal_strlit(" is still responding");
    let head = "shutdown was requested, but the old remote herdr server on "@;
    let after = " is still responding after "@;
    let five = text::decimal(5);
    let tail = " after "@ + five + " seconds"@;
    assert(after =~= " is still responding"@ + " after "@);
    let all = head + target + after + five + " seconds"@;
    text::lemma_mentions(head, target, after + five + " seconds"@);
    assert(head + target + (after + five + " seconds"@) =~= all);
    text::law_begins_and_ends(tail, tail, head + target + " is still responding"@);
    assert(head + target + " is still responding"@ + tail =~= all);
}

/// What the user reads of a server that is settled is what the question about its stop tells,
/// and nothing where the user agreed to the stop before. A server that handed over, and one
/// that stopped, is told with its host.
pub proof fn law_user_reads_what_happens(
    task: ServerTask,
    version: Option<String>,
    protocol: Option<u32>,
    live_handoff: bool,
    detached_server_daemon: bool,
    overdue: bool,
    handed: StageModel,
    output: CommandOutput,
)
    requires
        !(task.live_handoff_enabled && live_handoff),
        !(protocol == Some(task.client.protocol) && detached_server_daemon && version.deep_view()
            == Some(task.client.version@) && !task.remote_binary_changed),
        handed is Handoff,
        output.success,
    ensures
        ({
            let status = RemoteServerStatus::Running {
                version,
                protocol,
                live_handoff,
                detached_server_daemon,
            };
            let said = next_stage(
                task,
                StageModel::Status,
                ServerEvent::Status { status, overdue },
            ).0;
            let reason = server::restart_reason(
                task.client,
                version.deep_view(),
                protocol,
                detached_server_daemon,
                task.remote_binary_changed,
            )->Some_0;
            &&& task.stop_approved ==> said.len() == 0
            &&& !task.stop_approved ==> said == server::stop_question(
                task.client,
                task.target@,
                version.deep_view(),
                reason,
                task.terminal,
            ).0
        }),
        ({
            let said = next_stage(task, handed, ServerEvent::Output(output)).0;
            said.len() == 1 && text::mentions(said[0], task.target@)
        }),
        ({
            let said = next_stage(
                task,
                StageModel::Poll,
                ServerEvent::Status { status: RemoteServerStatus::NotRunning, overdue },
            ).0;
            said.len() == 1 && text::mentions(said[0], task.target@)
        }),
{
    text::lemma_mentions(
        "handed off the remote herdr server on "@,
        task.target@,
        "; reconnecting to the prepared server."@,
    );
    text::lemma_mentions(
        "stopped the remote herdr server on "@,
        task.target@,
        "; it will restart when the remote client bridge attaches."@,
    );
}

} // verus!
